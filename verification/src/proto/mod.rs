//! The structured records that course files are read into.

pub mod smm2_course;
pub mod smm_course;
pub mod sound;
pub mod tile;
