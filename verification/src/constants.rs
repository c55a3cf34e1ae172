//! Where the fields of a Super Mario Maker (Wii U) course lie in its file.

use vstd::prelude::*;

verus! {

pub const COURSE_SIZE: usize = 0x15000;

pub const YEAR_OFFSET: usize = 0x10;

pub const MONTH_OFFSET: usize = 0x12;

pub const DAY_OFFSET: usize = 0x13;

pub const HOUR_OFFSET: usize = 0x14;

pub const MINUTE_OFFSET: usize = 0x15;

pub const TITLE_OFFSET: usize = 0x29;

pub const TITLE_OFFSET_END: usize = 0x69;

pub const MAKER_OFFSET: usize = 0x92;

pub const MAKER_OFFSET_END: usize = 0xA6;

pub const GAME_STYLE_OFFSET: usize = 0x6A;

pub const GAME_STYLE_OFFSET_END: usize = 0x6C;

pub const COURSE_THEME_OFFSET: usize = 0x6D;

pub const TIME_OFFSET: usize = 0x70;

pub const AUTO_SCROLL_OFFSET: usize = 0x72;

pub const WIDTH_OFFSET: usize = 0x76;

pub const TILE_AMOUNT_OFFSET: usize = 0xEE;

pub const TILE_SIZE: usize = 0x20;

pub const TILES_OFFSET: usize = 0xF0;

pub const SOUND_SIZE: usize = 8;

pub const SOUND_OFFSET: usize = 0x145F0;

pub const SOUND_OFFSET_END: usize = 0x14F50;

/// Number of entries of the sound table.
pub const SOUND_COUNT: usize = 300;

pub const SOUND_X_OFFSET: usize = 3;

pub const SOUND_Y_OFFSET: usize = 4;

pub const SOUND_TYPE_OFFSET: usize = 0;

pub const SOUND_VARIATION_OFFSET: usize = 2;

/// The entry that stands for no sound.
pub const SOUND_DEFAULT: [u8; 8] = [0xFF, 0xFF, 0, 0xFF, 0xFF, 0, 0, 0];

/// Offset of the payload's length in a thumbnail file.
pub const THUMBNAIL_LENGTH_OFFSET: usize = 4;

/// Offset of the payload in a thumbnail file.
pub const THUMBNAIL_OFFSET: usize = 8;

} // verus!
