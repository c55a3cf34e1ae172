//! Where the fields of a Super Mario Maker 2 course lie in its decrypted
//! file. Offsets count from the start of the file, header included. Each
//! field of an area has two offsets: one for the main area, one for the sub
//! area.

use vstd::prelude::*;

verus! {

/// Version of the record that the parser fills.
pub const VERSION: u32 = 1;

/// Length of a course file without its trailer: header and body.
pub const COURSE_LEN: usize = 0x5bfd0;

/// Length of a course file with its trailer.
pub const COURSE_LEN_ENCRYPTED: usize = 0x5c000;

pub const START_Y_OFFSET: usize = 0x10;

pub const FINISH_Y_OFFSET: usize = 0x11;

pub const FINISH_X_OFFSET: usize = 0x12;

pub const TIME_OFFSET: usize = 0x14;

pub const CLEAR_CONDITION_AMOUNT_OFFSET: usize = 0x16;

pub const YEAR_OFFSET: usize = 0x18;

pub const MONTH_OFFSET: usize = 0x1A;

pub const DAY_OFFSET: usize = 0x1B;

pub const HOUR_OFFSET: usize = 0x1C;

pub const MINUTE_OFFSET: usize = 0x1D;

pub const CLEAR_CONDITION_TYPE_OFFSET: usize = 0x1F;

pub const CLEAR_CONDITION_OFFSET: usize = 0x20;

pub const GAME_VERSION_OFFSET: usize = 0x24;

pub const MANAGEMENT_FLAGS_OFFSET: usize = 0x28;

pub const CLEAR_CHECK_TRIES_OFFSET: usize = 0x2C;

pub const CLEAR_CHECK_TIME_OFFSET: usize = 0x30;

pub const CREATION_ID_OFFSET: usize = 0x34;

pub const UPLOAD_ID_OFFSET: usize = 0x38;

pub const COMPLETION_VERSION_OFFSET: usize = 0x40;

pub const GAME_STYLE_OFFSET: usize = 0x101;

pub const GAME_STYLE_OFFSET_END: usize = 0x103;

/// The region of the title: 33 code units. It ends where the region of
/// the description begins.
pub const TITLE_OFFSET: usize = 0x104;

pub const TITLE_OFFSET_END: usize = 0x146;

/// The region of the description: 75 code units.
pub const DESCRIPTION_OFFSET: usize = 0x146;

pub const DESCRIPTION_OFFSET_END: usize = 0x1DC;

/// The 12 bytes of the SMMDB id lie in a part of the header that the game
/// leaves unused.
pub const SMMDB_OFFSET: usize = 0x1E0;

pub const SMMDB_OFFSET_END: usize = 0x1EC;

pub const COURSE_THEME_OFFSET: [usize; 2] = [0x210, 0x2E0F0];

pub const AUTO_SCROLL_OFFSET: [usize; 2] = [0x211, 0x2E0F1];

pub const SCREEN_BOUNDARY_OFFSET: [usize; 2] = [0x212, 0x2E0F2];

pub const ORIENTATION_OFFSET: [usize; 2] = [0x213, 0x2E0F3];

pub const LIQUID_MAX_OFFSET: [usize; 2] = [0x214, 0x2E0F4];

pub const LIQUID_MODE_OFFSET: [usize; 2] = [0x215, 0x2E0F5];

pub const LIQUID_SPEED_OFFSET: [usize; 2] = [0x216, 0x2E0F6];

pub const LIQUID_MIN_OFFSET: [usize; 2] = [0x217, 0x2E0F7];

pub const RIGHT_BOUNDARY_OFFSET: [usize; 2] = [0x218, 0x2E0F8];

pub const TOP_BOUNDARY_OFFSET: [usize; 2] = [0x21C, 0x2E0FC];

pub const LEFT_BOUNDARY_OFFSET: [usize; 2] = [0x220, 0x2E100];

pub const BOTTOM_BOUNDARY_OFFSET: [usize; 2] = [0x224, 0x2E104];

pub const DAY_TIME_OFFSET: [usize; 2] = [0x228, 0x2E108];

pub const OBJECT_COUNT_OFFSET: [usize; 2] = [0x22C, 0x2E10C];

pub const SOUND_EFFECT_COUNT_OFFSET: [usize; 2] = [0x230, 0x2E110];

pub const SNAKE_BLOCK_COUNT_OFFSET: [usize; 2] = [0x234, 0x2E114];

pub const CLEAR_PIPE_COUNT_OFFSET: [usize; 2] = [0x238, 0x2E118];

pub const PIRANHA_CREEPER_COUNT_OFFSET: [usize; 2] = [0x23C, 0x2E11C];

pub const EXCLAMATION_BLOCK_COUNT_OFFSET: [usize; 2] = [0x240, 0x2E120];

pub const TRACK_BLOCK_COUNT_OFFSET: [usize; 2] = [0x244, 0x2E124];

pub const TILE_COUNT_OFFSET: [usize; 2] = [0x24C, 0x2E12C];

pub const TRACK_COUNT_OFFSET: [usize; 2] = [0x250, 0x2E130];

pub const ICICLE_COUNT_OFFSET: [usize; 2] = [0x254, 0x2E134];

/// Offset of the course section in a decrypted save file. The section begins
/// with a 16-byte header; the slot table follows it.
pub const SAVE_COURSE_OFFSET: u32 = 0xB920;

/// Number of slots of a save catalogue.
pub const SLOT_COUNT: usize = 180;

/// Length of a slot's descriptor in the slot table.
pub const SLOT_LEN: usize = 8;

} // verus!
