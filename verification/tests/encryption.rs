use aes::cipher::generic_array::GenericArray;
use aes::Aes128;
use block_modes::block_padding::ZeroPadding;
use block_modes::{BlockMode, Cbc};
use cmac::{Cmac, Mac, NewMac};
use smmdb::encryption::{
    bytes_equal, decrypt, encrypt, encrypt_with, fix_crc32, gen_key, rand_gen, rand_init, RandState,
};
use smmdb::errors::Smm2Error;

fn enc_table() -> [u32; 256] {
    let mut table = [0u32; 256];
    for (i, entry) in table.iter_mut().enumerate() {
        *entry = (i as u32).wrapping_mul(0x9E37_79B1).wrapping_add(0x7F4A_7C15);
    }
    table
}

fn enc_body(len: usize) -> Vec<u8> {
    (0..len).map(|i| (i * 7 + 3) as u8).collect()
}

#[test]
fn rand_init_all_zero_seed_uses_constants() {
    let state = rand_init(&[0u8; 16]);
    assert_eq!(
        state,
        RandState { s0: 1, s1: 0x6C07_8967, s2: 0x714A_CB41, s3: 0x4807_7044 }
    );
}

#[test]
fn rand_init_reads_little_endian_words() {
    let seed = [1, 2, 3, 4, 5, 6, 7, 8, 9, 10, 11, 12, 13, 14, 15, 16];
    let state = rand_init(&seed);
    assert_eq!(
        state,
        RandState { s0: 0x0403_0201, s1: 0x0807_0605, s2: 0x0C0B_0A09, s3: 0x100F_0E0D }
    );
}

#[test]
fn rand_init_keeps_seed_with_one_nonzero_word() {
    let mut seed = [0u8; 16];
    seed[12] = 1;
    assert_eq!(rand_init(&seed), RandState { s0: 0, s1: 0, s2: 0, s3: 1 });
}

#[test]
fn rand_gen_shifts_state() {
    let mut state = RandState { s0: 1, s1: 2, s2: 3, s3: 4 };
    let n = rand_gen(&mut state);
    assert_eq!(n, 0x80D);
    assert_eq!(state, RandState { s0: 2, s1: 3, s2: 4, s3: 0x80D });
}

#[test]
fn rand_gen_sequence_from_fallback_state() {
    let mut state = rand_init(&[0u8; 16]);
    let drawn: Vec<u32> = (0..4).map(|_| rand_gen(&mut state)).collect();
    assert_eq!(drawn, vec![0x4807_714D, 0x181B_859B, 0x3F2C_551A, 0x4CDA_87EB]);
}

#[test]
fn gen_key_draws_aes_key_then_cmac_key() {
    let table = enc_table();
    let mut state = rand_init(&[0u8; 16]);
    let aes_key = gen_key(&mut state, &table);
    let cmac_key = gen_key(&mut state, &table);
    assert_eq!(
        aes_key,
        [110, 196, 157, 135, 130, 164, 50, 73, 129, 56, 23, 136, 252, 9, 173, 18]
    );
    assert_eq!(
        cmac_key,
        [50, 176, 110, 119, 230, 139, 150, 162, 102, 83, 81, 132, 143, 236, 95, 95]
    );
    assert_eq!(
        state,
        RandState { s0: 0x1E8E_5033, s1: 0x3831_9BEF, s2: 0xD157_E11D, s3: 0x8B97_81BA }
    );
}

#[test]
fn gen_key_from_seed() {
    let table = enc_table();
    let seed = [1, 2, 3, 4, 5, 6, 7, 8, 9, 10, 11, 12, 13, 14, 15, 16];
    let mut state = rand_init(&seed);
    assert_eq!(
        gen_key(&mut state, &table),
        [113, 40, 15, 40, 151, 241, 241, 185, 61, 190, 36, 35, 66, 150, 187, 0]
    );
    assert_eq!(
        gen_key(&mut state, &table),
        [192, 168, 255, 15, 145, 190, 50, 140, 115, 125, 60, 14, 21, 23, 233, 32]
    );
}

#[test]
fn encrypt_with_matches_cipher_and_mac() {
    let table = enc_table();
    let iv = [9u8; 16];
    let seed = [1, 2, 3, 4, 5, 6, 7, 8, 9, 10, 11, 12, 13, 14, 15, 16];
    let plain = enc_body(64);
    let mut body = plain.clone();
    let info = encrypt_with(&mut body, &table, &iv, &seed).unwrap();

    let mut state = rand_init(&seed);
    let key = gen_key(&mut state, &table);
    let mac_key = gen_key(&mut state, &table);
    let mut expected = plain.clone();
    let cipher = Cbc::<Aes128, ZeroPadding>::new_fix(
        GenericArray::from_slice(&key),
        GenericArray::from_slice(&iv),
    );
    cipher.encrypt(&mut expected, 64).unwrap();
    let mut mac = Cmac::<Aes128>::new(GenericArray::from_slice(&mac_key));
    mac.update(&plain);
    let tag = mac.finalize().into_bytes();

    assert_eq!(body, expected);
    assert_ne!(body, plain);
    assert_eq!(info.len(), 48);
    assert_eq!(&info[..16], &iv[..]);
    assert_eq!(&info[16..32], &seed[..]);
    assert_eq!(&info[32..], tag.as_slice());
}

#[test]
fn decrypt_gives_back_what_was_encrypted() {
    let table = enc_table();
    let plain = enc_body(160);
    let mut envelope = plain.clone();
    let info = encrypt(&mut envelope, &table).unwrap();
    assert_eq!(envelope.len(), 160);
    assert_ne!(envelope, plain);
    envelope.extend_from_slice(&info);
    let sealed = envelope.clone();
    decrypt(&mut envelope, &table).unwrap();
    assert_eq!(&envelope[..160], &plain[..]);
    assert_eq!(&envelope[160..], &sealed[160..]);
}

#[test]
fn encrypt_with_trailer_values_gives_back_the_envelope() {
    let table = enc_table();
    let mut envelope = enc_body(96);
    let info = encrypt(&mut envelope, &table).unwrap();
    envelope.extend_from_slice(&info);
    let sealed = envelope.clone();
    decrypt(&mut envelope, &table).unwrap();
    let mut iv = [0u8; 16];
    iv.copy_from_slice(&envelope[96..112]);
    let mut seed = [0u8; 16];
    seed.copy_from_slice(&envelope[112..128]);
    let mut body = envelope[..96].to_vec();
    let again = encrypt_with(&mut body, &table, &iv, &seed).unwrap();
    body.extend_from_slice(&again);
    assert_eq!(body, sealed);
}

#[test]
fn encrypt_draws_fresh_values() {
    let table = enc_table();
    let mut first = enc_body(32);
    let mut second = enc_body(32);
    let info_first = encrypt(&mut first, &table).unwrap();
    let info_second = encrypt(&mut second, &table).unwrap();
    assert_ne!(info_first, info_second);
}

#[test]
fn decrypt_reports_a_wrong_tag() {
    let table = enc_table();
    let mut envelope = enc_body(32);
    let info = encrypt(&mut envelope, &table).unwrap();
    envelope.extend_from_slice(&info);
    let last = envelope.len() - 1;
    envelope[last] ^= 1;
    let stored = envelope[32 + 32..].to_vec();
    match decrypt(&mut envelope, &table) {
        Err(Smm2Error::CmacMismatch { expected, got }) => {
            assert_eq!(expected, stored);
            assert_eq!(got.len(), 16);
            assert_ne!(got, expected);
        }
        other => panic!("unexpected result {:?}", other),
    }
    assert_eq!(&envelope[..32], &enc_body(32)[..]);
}

#[test]
fn decrypt_reports_a_wrong_table() {
    let table = enc_table();
    let mut other = enc_table();
    for entry in other.iter_mut() {
        *entry ^= 0x0101_0101;
    }
    let mut envelope = enc_body(32);
    let info = encrypt(&mut envelope, &table).unwrap();
    envelope.extend_from_slice(&info);
    assert!(matches!(
        decrypt(&mut envelope, &other),
        Err(Smm2Error::CmacMismatch { .. })
    ));
}

#[test]
fn decrypt_refuses_invalid_lengths() {
    let table = enc_table();
    for len in [0usize, 47, 49, 63, 65, 79] {
        let mut bytes = vec![1u8; len];
        assert_eq!(decrypt(&mut bytes, &table), Err(Smm2Error::InvalidLength));
        assert_eq!(bytes, vec![1u8; len]);
    }
}

#[test]
fn encrypt_refuses_invalid_lengths() {
    let table = enc_table();
    for len in [1usize, 15, 17, 31] {
        let mut bytes = vec![1u8; len];
        assert_eq!(encrypt(&mut bytes, &table), Err(Smm2Error::InvalidLength));
        assert_eq!(bytes, vec![1u8; len]);
        assert_eq!(
            encrypt_with(&mut bytes, &table, &[0; 16], &[0; 16]),
            Err(Smm2Error::InvalidLength)
        );
    }
}

#[test]
fn empty_body_is_sealed_and_opened() {
    let table = enc_table();
    let seed = [7u8; 16];
    let mut body: Vec<u8> = Vec::new();
    let info = encrypt_with(&mut body, &table, &[5; 16], &seed).unwrap();
    assert!(body.is_empty());
    assert_eq!(info.len(), 48);
    let mut state = rand_init(&seed);
    let _key = gen_key(&mut state, &table);
    let mac_key = gen_key(&mut state, &table);
    let mac = Cmac::<Aes128>::new(GenericArray::from_slice(&mac_key));
    assert_eq!(&info[32..], mac.finalize().into_bytes().as_slice());

    let mut envelope = info.clone();
    assert_eq!(decrypt(&mut envelope, &table), Ok(()));
    assert_eq!(envelope, info);

    let mut fresh: Vec<u8> = Vec::new();
    let mut sealed = encrypt(&mut fresh, &table).unwrap();
    assert_eq!(decrypt(&mut sealed, &table), Ok(()));

    let mut damaged = info.clone();
    damaged[47] ^= 1;
    match decrypt(&mut damaged, &table) {
        Err(Smm2Error::CmacMismatch { expected, got }) => {
            assert_eq!(expected, damaged[32..].to_vec());
            assert_eq!(got, info[32..].to_vec());
        }
        other => panic!("unexpected result {:?}", other),
    }
}

#[test]
fn fix_crc32_writes_ieee_checksum_little_endian() {
    let mut data = vec![0xAAu8; 16];
    data.extend_from_slice(b"123456789");
    fix_crc32(&mut data).unwrap();
    assert_eq!(&data[8..12], &[0x26, 0x39, 0xF4, 0xCB]);
    assert_eq!(&data[..8], &[0xAA; 8]);
    assert_eq!(&data[12..16], &[0xAA; 4]);
    assert_eq!(&data[16..], b"123456789");
}

#[test]
fn fix_crc32_refuses_a_buffer_without_header() {
    let mut data = vec![0u8; 15];
    assert_eq!(fix_crc32(&mut data), Err(Smm2Error::InvalidLength));
    assert_eq!(data, vec![0u8; 15]);
}

#[test]
fn bytes_equal_compares_content() {
    assert!(bytes_equal(&[1, 2, 3], &[1, 2, 3]));
    assert!(!bytes_equal(&[1, 2, 3], &[1, 2, 4]));
    assert!(!bytes_equal(&[1, 2, 3], &[1, 2]));
    assert!(bytes_equal(&[], &[]));
}
