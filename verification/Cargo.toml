[package]
name = "smmdb"
version = "0.1.0"
edition = "2021"
publish = false

[dependencies]
aes = "0.7"
block-modes = "0.8"
cmac = "0.6"
crc = "1.8"
rand = "0.8"
hex = "0.4"
chrono = { version = "0.4", default-features = false }
infer = "*"
zip = { version = "0.5", default-features = false, features = ["deflate"] }
tar = "0.4"
brotli2 = "0.3"
image = { version = "0.23", default-features = false, features = ["jpeg"] }
async-std = "1"
thiserror = "1"
