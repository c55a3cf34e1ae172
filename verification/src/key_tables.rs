//! The key tables that keys are drawn from.
//!
//! The tables are data of the games and no part of this library: the caller
//! supplies them.

use vstd::prelude::*;

verus! {

/// The three key tables: one for course files, one for thumbnails, one for
/// the save file.
#[derive(Clone, Debug)]
pub struct KeyTables {
    pub course: [u32; 256],
    pub thumbnail: [u32; 256],
    pub save: [u32; 256],
}

} // verus!
