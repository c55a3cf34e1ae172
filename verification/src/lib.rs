//! Reading, editing and repacking of Super Mario Maker and Super Mario Maker 2
//! course files, thumbnails and save catalogues.
//!
//! Every function of this crate carries a contract that Verus proves. Calls
//! into other crates (AES, CMAC, CRC, hex, dates, archives, images) stand
//! behind small wrappers whose contracts are believed, each documented where
//! it is declared.
//!
//! The key tables of the games are no part of this crate: every function
//! that encrypts or decrypts takes them from its caller. The library reads
//! and writes no file: a save folder is opened from the bytes of its files,
//! and saving gives the file actions to perform.

pub mod archive;
pub mod calendar;
pub mod constants;
pub mod constants2;
pub mod course;
pub mod course2;
pub mod encryption;
pub mod errors;
pub mod files;
pub mod hexcode;
pub mod key_tables;
pub mod proto;
pub mod save;
pub mod save_plan;
pub mod text;
pub mod thumbnail2;
pub mod wire;

pub use crate::course::Course;
pub use crate::course2::Course2;
pub use crate::errors::{SaveError, Smm2Error, SmmError, SmmdbError};
pub use crate::key_tables::KeyTables;
pub use crate::save::{CourseEntry, Save, SavedCourse};
pub use crate::thumbnail2::Thumbnail2;
