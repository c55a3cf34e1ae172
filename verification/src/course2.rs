//! Super Mario Maker 2 course files: reading, editing, encrypting.

use crate::calendar::{timestamp, timestamp_of, valid_calendar};
use crate::constants2::{
    VERSION, COURSE_LEN, START_Y_OFFSET, FINISH_Y_OFFSET, FINISH_X_OFFSET, TIME_OFFSET, CLEAR_CONDITION_AMOUNT_OFFSET, YEAR_OFFSET, MONTH_OFFSET, DAY_OFFSET, HOUR_OFFSET, MINUTE_OFFSET, CLEAR_CONDITION_TYPE_OFFSET, CLEAR_CONDITION_OFFSET, GAME_VERSION_OFFSET, MANAGEMENT_FLAGS_OFFSET, CLEAR_CHECK_TRIES_OFFSET, CLEAR_CHECK_TIME_OFFSET, CREATION_ID_OFFSET, UPLOAD_ID_OFFSET, COMPLETION_VERSION_OFFSET, GAME_STYLE_OFFSET, TITLE_OFFSET, TITLE_OFFSET_END, DESCRIPTION_OFFSET, DESCRIPTION_OFFSET_END, SMMDB_OFFSET, SMMDB_OFFSET_END, COURSE_THEME_OFFSET, AUTO_SCROLL_OFFSET, SCREEN_BOUNDARY_OFFSET, ORIENTATION_OFFSET, LIQUID_MAX_OFFSET, LIQUID_MODE_OFFSET, LIQUID_SPEED_OFFSET, LIQUID_MIN_OFFSET, RIGHT_BOUNDARY_OFFSET, TOP_BOUNDARY_OFFSET, LEFT_BOUNDARY_OFFSET, BOTTOM_BOUNDARY_OFFSET, DAY_TIME_OFFSET, OBJECT_COUNT_OFFSET, SOUND_EFFECT_COUNT_OFFSET, SNAKE_BLOCK_COUNT_OFFSET, CLEAR_PIPE_COUNT_OFFSET, PIRANHA_CREEPER_COUNT_OFFSET, EXCLAMATION_BLOCK_COUNT_OFFSET, TRACK_BLOCK_COUNT_OFFSET, TILE_COUNT_OFFSET, TRACK_COUNT_OFFSET, ICICLE_COUNT_OFFSET,
};
use crate::archive::{packed_view, unpack, unpacked, PackedCourse, PackedView, Unpacked};
use crate::encryption::{
    block_at, crc_fixed, decrypted_body, encrypt_with, envelope_body, envelope_iv, envelope_seed,
    fix_crc32, lemma_with_crc_of_fixed, opens, random_block, refusal,
    sealed,
    valid_body_len, valid_envelope_len, with_crc,
};
use crate::errors::{Smm2Error, Smm2ErrorView, SmmdbError};
use crate::hexcode::{hex_decode, hex_decoded, hex_encode, hex_encoded};
use crate::key_tables::KeyTables;
use crate::thumbnail2::{resized, Thumbnail2, THUMBNAIL_BODY_LEN};
use hex::FromHexError;
use crate::proto::smm2_course::{
    AutoScroll, ClearConditionType, CourseTheme, CourseView, DayTime, GameStyle, HeaderView,
    LiquidMode, LiquidSpeed, Orientation, SMM2Course, SMM2CourseArea, SMM2CourseHeader,
    ScreenBoundary,
};
use crate::text::{
    encode_text_region, get_utf16_string_from_slice, lemma_text_round_trip,
    lemma_utf16_no_longer_than_utf8, region_of_text, text_of_region, MAX_TEXT_LEN,
    TEXT_REGION_LEN,
};
use crate::wire::{
    copy_range, le_u16, le_u32, le_u64, read_u16_le, read_u32_le, read_u64_le, u32_of,
    write_range, zeros,
};
use vstd::string::*;
use vstd::utf8::encode_utf8;
use vstd::prelude::*;

verus! {

/// The timestamp that the five calendar fields of a course stand for.
pub open spec fn parsed_modified(data: Seq<u8>) -> Result<u64, Smm2Error> {
    let year = le_u16(data, YEAR_OFFSET as int);
    let month = data[MONTH_OFFSET as int];
    let day = data[DAY_OFFSET as int];
    let hour = data[HOUR_OFFSET as int];
    let minute = data[MINUTE_OFFSET as int];
    match timestamp_of(year, month, day, hour, minute) {
        Some(secs) => Ok(secs),
        None => Err(Smm2Error::InvalidDate { year, month, day, hour, minute }),
    }
}

/// The header that a course file holds.
#[verifier::opaque]
pub open spec fn parsed_header(data: Seq<u8>) -> Result<HeaderView, Smm2Error> {
    let modified = parsed_modified(data);
    let game_style = GameStyle::of_tag(
        data[GAME_STYLE_OFFSET as int],
        data[GAME_STYLE_OFFSET + 1],
    );
    let clear_condition_type = ClearConditionType::of_i32(
        data[CLEAR_CONDITION_TYPE_OFFSET as int] as i32,
    );
    if modified is Err {
        Err(modified->Err_0)
    } else if game_style is None {
        Err(Smm2Error::GameStyleParse)
    } else if clear_condition_type is None {
        Err(Smm2Error::ClearConditionTypeParse)
    } else {
        Ok(
            HeaderView {
                modified: modified->Ok_0,
                title: text_of_region(data.subrange(TITLE_OFFSET as int, TITLE_OFFSET_END as int)),
                description: text_of_region(
                    data.subrange(DESCRIPTION_OFFSET as int, DESCRIPTION_OFFSET_END as int),
                ),
                game_style: game_style->0,
                start_y: data[START_Y_OFFSET as int] as u32,
                finish_y: data[FINISH_Y_OFFSET as int] as u32,
                finish_x: le_u16(data, FINISH_X_OFFSET as int) as u32,
                time: le_u16(data, TIME_OFFSET as int) as u32,
                clear_condition_type: clear_condition_type->0,
                clear_condition: le_u32(data, CLEAR_CONDITION_OFFSET as int),
                clear_condition_amount: le_u16(data, CLEAR_CONDITION_AMOUNT_OFFSET as int) as u32,
                clear_check_tries: le_u32(data, CLEAR_CHECK_TRIES_OFFSET as int),
                clear_check_time: le_u32(data, CLEAR_CHECK_TIME_OFFSET as int),
                game_version: le_u32(data, GAME_VERSION_OFFSET as int),
                management_flags: le_u32(data, MANAGEMENT_FLAGS_OFFSET as int),
                creation_id: le_u32(data, CREATION_ID_OFFSET as int),
                upload_id: le_u64(data, UPLOAD_ID_OFFSET as int),
                completion_version: le_u32(data, COMPLETION_VERSION_OFFSET as int),
            },
        )
    }
}

/// The area that a course file holds under index 0 (main) or 1 (sub).
#[verifier::opaque]
pub open spec fn parsed_area(data: Seq<u8>, index: int) -> Result<SMM2CourseArea, Smm2Error> {
    let course_theme = CourseTheme::of_i32(data[COURSE_THEME_OFFSET[index] as int] as i32);
    let auto_scroll = AutoScroll::of_i32(data[AUTO_SCROLL_OFFSET[index] as int] as i32);
    let screen_boundary = ScreenBoundary::of_i32(data[SCREEN_BOUNDARY_OFFSET[index] as int] as i32);
    let orientation = Orientation::of_i32(data[ORIENTATION_OFFSET[index] as int] as i32);
    let liquid_mode = LiquidMode::of_i32(data[LIQUID_MODE_OFFSET[index] as int] as i32);
    let liquid_speed = LiquidSpeed::of_i32(data[LIQUID_SPEED_OFFSET[index] as int] as i32);
    let day_time = DayTime::of_i32(data[DAY_TIME_OFFSET[index] as int] as i32);
    if course_theme is None {
        Err(Smm2Error::CourseThemeParse)
    } else if auto_scroll is None {
        Err(Smm2Error::AutoScrollParse)
    } else if screen_boundary is None {
        Err(Smm2Error::ScreenBoundaryParse)
    } else if orientation is None {
        Err(Smm2Error::OrientationParse)
    } else if liquid_mode is None {
        Err(Smm2Error::LiquidModeParse)
    } else if liquid_speed is None {
        Err(Smm2Error::LiquidSpeedParse)
    } else if day_time is None {
        Err(Smm2Error::DayTimeParse)
    } else {
        Ok(
            SMM2CourseArea {
                course_theme: course_theme->0,
                auto_scroll: auto_scroll->0,
                screen_boundary: screen_boundary->0,
                orientation: orientation->0,
                liquid_max: data[LIQUID_MAX_OFFSET[index] as int] as u32,
                liquid_mode: liquid_mode->0,
                liquid_speed: liquid_speed->0,
                liquid_min: data[LIQUID_MIN_OFFSET[index] as int] as u32,
                right_boundary: le_u32(data, RIGHT_BOUNDARY_OFFSET[index] as int),
                top_boundary: le_u32(data, TOP_BOUNDARY_OFFSET[index] as int),
                left_boundary: le_u32(data, LEFT_BOUNDARY_OFFSET[index] as int),
                bottom_boundary: le_u32(data, BOTTOM_BOUNDARY_OFFSET[index] as int),
                day_time: day_time->0,
                object_count: le_u32(data, OBJECT_COUNT_OFFSET[index] as int),
                sound_effect_count: le_u32(data, SOUND_EFFECT_COUNT_OFFSET[index] as int),
                snake_block_count: le_u32(data, SNAKE_BLOCK_COUNT_OFFSET[index] as int),
                clear_pipe_count: le_u32(data, CLEAR_PIPE_COUNT_OFFSET[index] as int),
                piranha_creeper_count: le_u32(data, PIRANHA_CREEPER_COUNT_OFFSET[index] as int),
                exclamation_block_count: le_u32(data, EXCLAMATION_BLOCK_COUNT_OFFSET[index] as int),
                track_block_count: le_u32(data, TRACK_BLOCK_COUNT_OFFSET[index] as int),
                tile_count: le_u32(data, TILE_COUNT_OFFSET[index] as int),
                track_count: le_u32(data, TRACK_COUNT_OFFSET[index] as int),
                icicle_count: le_u32(data, ICICLE_COUNT_OFFSET[index] as int),
            },
        )
    }
}

/// The record that a decrypted course file holds: its header, then its main
/// area, then its sub area; the first part that cannot be read decides the
/// error.
pub open spec fn parsed_course(data: Seq<u8>) -> Result<CourseView, Smm2Error> {
    let header = parsed_header(data);
    let course_area = parsed_area(data, 0);
    let course_sub_area = parsed_area(data, 1);
    if data.len() < COURSE_LEN {
        Err(Smm2Error::InvalidLength)
    } else if header is Err {
        Err(header->Err_0)
    } else if course_area is Err {
        Err(course_area->Err_0)
    } else if course_sub_area is Err {
        Err(course_sub_area->Err_0)
    } else {
        Ok(
            CourseView {
                version: VERSION,
                header: header->Ok_0,
                course_area: course_area->Ok_0,
                course_sub_area: course_sub_area->Ok_0,
            },
        )
    }
}

/// What an exec result says of a header, texts taken by their characters.
pub open spec fn header_result_view(res: Result<SMM2CourseHeader, Smm2Error>) -> Result<
    HeaderView,
    Smm2Error,
> {
    match res {
        Ok(header) => Ok(header@),
        Err(e) => Err(e),
    }
}

/// Reads the time of the last save.
///
/// The date that is accepted exists in the calendar, and its hour and minute
/// on the clock.
pub fn get_modified(course_data: &[u8]) -> (res: Result<u64, Smm2Error>)
    requires
        course_data@.len() >= COURSE_LEN,
    ensures
        res == parsed_modified(course_data@),
        res is Ok <==> valid_calendar(
            le_u16(course_data@, YEAR_OFFSET as int),
            course_data@[MONTH_OFFSET as int],
            course_data@[DAY_OFFSET as int],
            course_data@[HOUR_OFFSET as int],
            course_data@[MINUTE_OFFSET as int],
        ),
{
    let year: u16 = read_u16_le(course_data, YEAR_OFFSET);
    let month: u8 = course_data[MONTH_OFFSET];
    let day: u8 = course_data[DAY_OFFSET];
    let hour: u8 = course_data[HOUR_OFFSET];
    let minute: u8 = course_data[MINUTE_OFFSET];
    match timestamp(year, month, day, hour, minute) {
        Some(secs) => Ok(secs),
        None => Err(Smm2Error::InvalidDate { year, month, day, hour, minute }),
    }
}

/// Reads the header of a course.
pub fn get_course_header(course_data: &[u8]) -> (res: Result<SMM2CourseHeader, Smm2Error>)
    requires
        course_data@.len() >= COURSE_LEN,
    ensures
        header_result_view(res) == parsed_header(course_data@),
{
    reveal(parsed_header);
    let modified: u64 = match get_modified(course_data) {
        Ok(secs) => secs,
        Err(e) => {
            return Err(e);
        },
    };
    let title_region: Vec<u8> = copy_range(course_data, TITLE_OFFSET, TITLE_OFFSET_END);
    let title: String = get_utf16_string_from_slice(title_region.as_slice());
    let description_region: Vec<u8> = copy_range(
        course_data,
        DESCRIPTION_OFFSET,
        DESCRIPTION_OFFSET_END,
    );
    let description: String = get_utf16_string_from_slice(description_region.as_slice());
    let game_style: GameStyle = match GameStyle::from_tag(
        course_data[GAME_STYLE_OFFSET],
        course_data[GAME_STYLE_OFFSET + 1],
    ) {
        Some(style) => style,
        None => {
            return Err(Smm2Error::GameStyleParse);
        },
    };
    let start_y: u32 = course_data[START_Y_OFFSET] as u32;
    let finish_y: u32 = course_data[FINISH_Y_OFFSET] as u32;
    let finish_x: u32 = read_u16_le(course_data, FINISH_X_OFFSET) as u32;
    let time: u32 = read_u16_le(course_data, TIME_OFFSET) as u32;
    let clear_condition_type: ClearConditionType = match ClearConditionType::from_i32(
        course_data[CLEAR_CONDITION_TYPE_OFFSET] as i32,
    ) {
        Some(kind) => kind,
        None => {
            return Err(Smm2Error::ClearConditionTypeParse);
        },
    };
    let clear_condition: u32 = read_u32_le(course_data, CLEAR_CONDITION_OFFSET);
    let clear_condition_amount: u32 = read_u16_le(course_data, CLEAR_CONDITION_AMOUNT_OFFSET) as u32;
    let clear_check_tries: u32 = read_u32_le(course_data, CLEAR_CHECK_TRIES_OFFSET);
    let clear_check_time: u32 = read_u32_le(course_data, CLEAR_CHECK_TIME_OFFSET);
    let game_version: u32 = read_u32_le(course_data, GAME_VERSION_OFFSET);
    let management_flags: u32 = read_u32_le(course_data, MANAGEMENT_FLAGS_OFFSET);
    let creation_id: u32 = read_u32_le(course_data, CREATION_ID_OFFSET);
    let upload_id: u64 = read_u64_le(course_data, UPLOAD_ID_OFFSET);
    let completion_version: u32 = read_u32_le(course_data, COMPLETION_VERSION_OFFSET);
    Ok(
        SMM2CourseHeader {
            modified,
            title,
            description,
            game_style,
            start_y,
            finish_y,
            finish_x,
            time,
            clear_condition_type,
            clear_condition,
            clear_condition_amount,
            clear_check_tries,
            clear_check_time,
            game_version,
            management_flags,
            creation_id,
            upload_id,
            completion_version,
        },
    )
}

/// Reads the main area (`const_index` 0) or the sub area (`const_index` 1) of
/// a course.
pub fn get_course_area(course_data: &[u8], const_index: usize) -> (res: Result<
    SMM2CourseArea,
    Smm2Error,
>)
    requires
        course_data@.len() >= COURSE_LEN,
        const_index < 2,
    ensures
        res == parsed_area(course_data@, const_index as int),
{
    reveal(parsed_area);
    let course_theme: CourseTheme = match CourseTheme::from_i32(
        course_data[COURSE_THEME_OFFSET[const_index]] as i32,
    ) {
        Some(v) => v,
        None => {
            return Err(Smm2Error::CourseThemeParse);
        },
    };
    let auto_scroll: AutoScroll = match AutoScroll::from_i32(
        course_data[AUTO_SCROLL_OFFSET[const_index]] as i32,
    ) {
        Some(v) => v,
        None => {
            return Err(Smm2Error::AutoScrollParse);
        },
    };
    let screen_boundary: ScreenBoundary = match ScreenBoundary::from_i32(
        course_data[SCREEN_BOUNDARY_OFFSET[const_index]] as i32,
    ) {
        Some(v) => v,
        None => {
            return Err(Smm2Error::ScreenBoundaryParse);
        },
    };
    let orientation: Orientation = match Orientation::from_i32(
        course_data[ORIENTATION_OFFSET[const_index]] as i32,
    ) {
        Some(v) => v,
        None => {
            return Err(Smm2Error::OrientationParse);
        },
    };
    let liquid_max: u32 = course_data[LIQUID_MAX_OFFSET[const_index]] as u32;
    let liquid_mode: LiquidMode = match LiquidMode::from_i32(
        course_data[LIQUID_MODE_OFFSET[const_index]] as i32,
    ) {
        Some(v) => v,
        None => {
            return Err(Smm2Error::LiquidModeParse);
        },
    };
    let liquid_speed: LiquidSpeed = match LiquidSpeed::from_i32(
        course_data[LIQUID_SPEED_OFFSET[const_index]] as i32,
    ) {
        Some(v) => v,
        None => {
            return Err(Smm2Error::LiquidSpeedParse);
        },
    };
    let liquid_min: u32 = course_data[LIQUID_MIN_OFFSET[const_index]] as u32;
    let right_boundary: u32 = read_u32_le(course_data, RIGHT_BOUNDARY_OFFSET[const_index]);
    let top_boundary: u32 = read_u32_le(course_data, TOP_BOUNDARY_OFFSET[const_index]);
    let left_boundary: u32 = read_u32_le(course_data, LEFT_BOUNDARY_OFFSET[const_index]);
    let bottom_boundary: u32 = read_u32_le(course_data, BOTTOM_BOUNDARY_OFFSET[const_index]);
    let day_time: DayTime = match DayTime::from_i32(
        course_data[DAY_TIME_OFFSET[const_index]] as i32,
    ) {
        Some(v) => v,
        None => {
            return Err(Smm2Error::DayTimeParse);
        },
    };
    let object_count: u32 = read_u32_le(course_data, OBJECT_COUNT_OFFSET[const_index]);
    let sound_effect_count: u32 = read_u32_le(course_data, SOUND_EFFECT_COUNT_OFFSET[const_index]);
    let snake_block_count: u32 = read_u32_le(course_data, SNAKE_BLOCK_COUNT_OFFSET[const_index]);
    let clear_pipe_count: u32 = read_u32_le(course_data, CLEAR_PIPE_COUNT_OFFSET[const_index]);
    let piranha_creeper_count: u32 = read_u32_le(
        course_data,
        PIRANHA_CREEPER_COUNT_OFFSET[const_index],
    );
    let exclamation_block_count: u32 = read_u32_le(
        course_data,
        EXCLAMATION_BLOCK_COUNT_OFFSET[const_index],
    );
    let track_block_count: u32 = read_u32_le(course_data, TRACK_BLOCK_COUNT_OFFSET[const_index]);
    let tile_count: u32 = read_u32_le(course_data, TILE_COUNT_OFFSET[const_index]);
    let track_count: u32 = read_u32_le(course_data, TRACK_COUNT_OFFSET[const_index]);
    let icicle_count: u32 = read_u32_le(course_data, ICICLE_COUNT_OFFSET[const_index]);
    Ok(
        SMM2CourseArea {
            course_theme,
            auto_scroll,
            screen_boundary,
            orientation,
            liquid_max,
            liquid_mode,
            liquid_speed,
            liquid_min,
            right_boundary,
            top_boundary,
            left_boundary,
            bottom_boundary,
            day_time,
            object_count,
            sound_effect_count,
            snake_block_count,
            clear_pipe_count,
            piranha_creeper_count,
            exclamation_block_count,
            track_block_count,
            tile_count,
            track_count,
            icicle_count,
        },
    )
}

/// The envelope of a course file: all that follows the 16-byte header.
pub open spec fn course_envelope(file: Seq<u8>) -> Seq<u8> {
    file.subrange(16, file.len() as int)
}

/// A course file with its trailer has a header and a valid envelope.
pub open spec fn valid_course_file_len(n: int) -> bool {
    n >= 16 && valid_envelope_len(n - 16)
}

/// The envelope of the course file opens under the course key table.
pub open spec fn course_opens(file: Seq<u8>, table: Seq<u32>) -> bool {
    file.len() >= 16 && opens(course_envelope(file), table)
}

/// The error with which a course file that does not open is refused.
pub open spec fn course_refusal(file: Seq<u8>, table: Seq<u32>) -> Smm2ErrorView {
    if file.len() < 16 {
        Smm2ErrorView::InvalidLength
    } else {
        refusal(course_envelope(file), table)
    }
}

/// The error with which files that give no course are refused: that of the
/// course file where it is encrypted and does not open, else that of the
/// first part of the course that cannot be read, else that of the
/// thumbnail.
pub open spec fn load_refusal(
    file: Seq<u8>,
    thumb: Option<Seq<u8>>,
    is_encrypted: bool,
    keys: KeyTables,
) -> Smm2ErrorView {
    let plain = if is_encrypted {
        course_decrypted(file, keys.course@)
    } else {
        file
    };
    if is_encrypted && !course_opens(file, keys.course@) {
        course_refusal(file, keys.course@)
    } else if parsed_course(plain) is Err {
        parsed_course(plain)->Err_0@
    } else {
        refusal(thumb.unwrap(), keys.thumbnail@)
    }
}

/// The course file with its body decrypted: header, plain body, trailer.
pub open spec fn course_decrypted(file: Seq<u8>, table: Seq<u32>) -> Seq<u8> {
    file.subrange(0, 16) + decrypted_body(course_envelope(file), table) + file.subrange(
        file.len() - 48,
        file.len() as int,
    )
}

/// The encrypted file for a plain course (header and body, no trailer) under
/// the given vector and seed: the checksum is set, then the body is sealed.
pub open spec fn fresh_encryption(
    plain: Seq<u8>,
    iv: Seq<u8>,
    seed: Seq<u8>,
    table: Seq<u32>,
) -> Seq<u8> {
    let fixed = with_crc(plain);
    fixed.subrange(0, 16) + sealed(fixed.subrange(16, fixed.len() as int), iv, seed, table)
}

/// The encrypted file for a decrypted course that still has its trailer: the
/// vector and the seed of the trailer are used again.
pub open spec fn preserved_encryption(file: Seq<u8>, table: Seq<u32>) -> Seq<u8> {
    fresh_encryption(
        file.subrange(0, file.len() - 48),
        envelope_iv(file),
        envelope_seed(file),
        table,
    )
}

/// The part of a file that `Course2::encrypt` takes as the plain course: all
/// of a file of the length of a course without trailer, else all but the last
/// 48 bytes.
pub open spec fn plain_part(file: Seq<u8>) -> Seq<u8> {
    if file.len() == COURSE_LEN {
        file
    } else {
        file.subrange(0, file.len() - 48)
    }
}

/// `data` with the bytes from `at` on replaced by `patch`.
pub open spec fn patched(data: Seq<u8>, at: int, patch: Seq<u8>) -> Seq<u8> {
    data.subrange(0, at) + patch + data.subrange(at + patch.len(), data.len() as int)
}

/// The management flags with bit 1 cleared.
pub open spec fn cleared_flags(flags: u32) -> u32 {
    flags & 0xFFFF_FFFD
}

/// A header after the clear check was reset.
pub open spec fn reset_header(header: HeaderView) -> HeaderView {
    HeaderView {
        management_flags: cleared_flags(header.management_flags),
        clear_check_tries: 0,
        clear_check_time: 0xFFFF_FFFF,
        ..header
    }
}

/// Two files of equal length that agree on all bytes but those in
/// `lo .. hi`.
pub open spec fn agree_outside(a: Seq<u8>, b: Seq<u8>, lo: int, hi: int) -> bool {
    a.len() == b.len() && forall|i: int| 0 <= i < a.len() && !(lo <= i < hi) ==> a[i] == b[i]
}

/// A change in front of the areas leaves both areas as they are.
pub proof fn lemma_areas_unchanged(a: Seq<u8>, b: Seq<u8>, lo: int, hi: int)
    requires
        agree_outside(a, b, lo, hi),
        a.len() >= COURSE_LEN,
        0 <= lo <= hi <= 0x210,
    ensures
        parsed_area(a, 0) == parsed_area(b, 0),
        parsed_area(a, 1) == parsed_area(b, 1),
{
    reveal(parsed_area);
}

/// A change behind the header fields and texts leaves the header as it is.
pub proof fn lemma_header_unchanged(a: Seq<u8>, b: Seq<u8>, lo: int, hi: int)
    requires
        agree_outside(a, b, lo, hi),
        a.len() >= COURSE_LEN,
        DESCRIPTION_OFFSET_END <= lo <= hi,
    ensures
        parsed_header(a) == parsed_header(b),
{
    reveal(parsed_header);
    assert(a.subrange(TITLE_OFFSET as int, TITLE_OFFSET_END as int) =~= b.subrange(
        TITLE_OFFSET as int,
        TITLE_OFFSET_END as int,
    ));
    assert(a.subrange(DESCRIPTION_OFFSET as int, DESCRIPTION_OFFSET_END as int) =~= b.subrange(
        DESCRIPTION_OFFSET as int,
        DESCRIPTION_OFFSET_END as int,
    ));
}

/// A change inside the region of the description leaves every other field
/// of the header as it is, and so whether the header can be read.
pub proof fn lemma_header_description_only(a: Seq<u8>, b: Seq<u8>)
    requires
        agree_outside(a, b, DESCRIPTION_OFFSET as int, DESCRIPTION_OFFSET_END as int),
        a.len() >= COURSE_LEN,
    ensures
        parsed_header(a) is Err ==> parsed_header(a) == parsed_header(b),
        parsed_header(a) is Ok ==> parsed_header(b) == Ok::<HeaderView, Smm2Error>(
            HeaderView {
                description: text_of_region(
                    b.subrange(DESCRIPTION_OFFSET as int, DESCRIPTION_OFFSET_END as int),
                ),
                ..parsed_header(a)->Ok_0
            },
        ),
{
    assert(a.subrange(TITLE_OFFSET as int, TITLE_OFFSET_END as int) =~= b.subrange(
        TITLE_OFFSET as int,
        TITLE_OFFSET_END as int,
    ));
    reveal(parsed_header);
}

/// The record of a course with another description.
pub open spec fn with_description(course: CourseView, description: Seq<char>) -> CourseView {
    CourseView { header: HeaderView { description, ..course.header }, ..course }
}

/// Writing a region of text over the description gives the course that the
/// buffer held, with the description that the region holds and nothing else
/// changed.
pub proof fn lemma_description_patch(before: Seq<u8>, region: Seq<u8>)
    requires
        parsed_course(before) is Ok,
        region.len() == TEXT_REGION_LEN,
    ensures
        patched(before, DESCRIPTION_OFFSET as int, region).len() == before.len(),
        parsed_course(patched(before, DESCRIPTION_OFFSET as int, region)) == Ok::<
            CourseView,
            Smm2Error,
        >(with_description(parsed_course(before)->Ok_0, text_of_region(region))),
{
    let after = patched(before, DESCRIPTION_OFFSET as int, region);
    assert(agree_outside(before, after, DESCRIPTION_OFFSET as int, DESCRIPTION_OFFSET_END as int));
    lemma_areas_unchanged(before, after, DESCRIPTION_OFFSET as int, DESCRIPTION_OFFSET_END as int);
    lemma_header_description_only(before, after);
    assert(after.subrange(DESCRIPTION_OFFSET as int, DESCRIPTION_OFFSET_END as int) =~= region);
}

/// Writing 12 bytes over the SMMDB id leaves the record of a course as it
/// is.
pub proof fn lemma_smmdb_patch(before: Seq<u8>, id: Seq<u8>)
    requires
        parsed_course(before) is Ok,
        id.len() == SMMDB_OFFSET_END - SMMDB_OFFSET,
    ensures
        parsed_course(patched(before, SMMDB_OFFSET as int, id)) == parsed_course(before),
{
    let after = patched(before, SMMDB_OFFSET as int, id);
    assert(agree_outside(before, after, SMMDB_OFFSET as int, SMMDB_OFFSET_END as int));
    lemma_areas_unchanged(before, after, SMMDB_OFFSET as int, SMMDB_OFFSET_END as int);
    lemma_header_unchanged(before, after, SMMDB_OFFSET as int, SMMDB_OFFSET_END as int);
}

/// The buffer after the clear check was reset: bit 1 of the lowest byte of
/// the management flags is cleared, the tries are zero and the time is all
/// ones.
pub open spec fn reset_data(data: Seq<u8>) -> Seq<u8> {
    patched(
        patched(
            patched(
                data,
                MANAGEMENT_FLAGS_OFFSET as int,
                seq![data[MANAGEMENT_FLAGS_OFFSET as int] & 0xFD],
            ),
            CLEAR_CHECK_TRIES_OFFSET as int,
            zeros(4),
        ),
        CLEAR_CHECK_TIME_OFFSET as int,
        seq![0xFFu8, 0xFFu8, 0xFFu8, 0xFFu8],
    )
}

/// Clearing bit 1 of the lowest byte clears bit 1 of the value.
pub proof fn lemma_cleared_flags(b0: u8, b1: u8, b2: u8, b3: u8)
    ensures
        u32_of(b0 & 0xFD, b1, b2, b3) == cleared_flags(u32_of(b0, b1, b2, b3)),
        cleared_flags(u32_of(b0, b1, b2, b3)) & 2 == 0,
{
    let c0 = b0 & 0xFD;
    let old_flags = u32_of(b0, b1, b2, b3);
    let new_flags = u32_of(c0, b1, b2, b3);
    assert(old_flags == b0 as u32 + b1 as u32 * 0x100 + b2 as u32 * 0x1_0000 + b3 as u32
        * 0x100_0000);
    assert(new_flags == c0 as u32 + b1 as u32 * 0x100 + b2 as u32 * 0x1_0000 + b3 as u32
        * 0x100_0000);
    assert(new_flags == old_flags & 0xFFFF_FFFD && (old_flags & 0xFFFF_FFFD) & 2 == 0)
        by (bit_vector)
        requires
            c0 == b0 & 0xFD,
            old_flags == b0 as u32 + b1 as u32 * 0x100 + b2 as u32 * 0x1_0000 + b3 as u32
                * 0x100_0000,
            new_flags == c0 as u32 + b1 as u32 * 0x100 + b2 as u32 * 0x1_0000 + b3 as u32
                * 0x100_0000,
    ;
}

/// Resetting the clear check in the buffer resets it in the record and
/// leaves all else as it is.
pub proof fn lemma_reset_patch(before: Seq<u8>)
    requires
        parsed_course(before) is Ok,
    ensures
        reset_data(before).len() == before.len(),
        parsed_course(reset_data(before)) == Ok::<CourseView, Smm2Error>(
            CourseView {
                header: reset_header(parsed_course(before)->Ok_0.header),
                ..parsed_course(before)->Ok_0
            },
        ),
{
    let after = reset_data(before);
    assert(agree_outside(
        before,
        after,
        MANAGEMENT_FLAGS_OFFSET as int,
        CLEAR_CHECK_TIME_OFFSET + 4,
    ));
    lemma_areas_unchanged(
        before,
        after,
        MANAGEMENT_FLAGS_OFFSET as int,
        CLEAR_CHECK_TIME_OFFSET + 4,
    );
    lemma_cleared_flags(
        before[MANAGEMENT_FLAGS_OFFSET as int],
        before[MANAGEMENT_FLAGS_OFFSET + 1],
        before[MANAGEMENT_FLAGS_OFFSET + 2],
        before[MANAGEMENT_FLAGS_OFFSET + 3],
    );
    assert(after.subrange(TITLE_OFFSET as int, TITLE_OFFSET_END as int) =~= before.subrange(
        TITLE_OFFSET as int,
        TITLE_OFFSET_END as int,
    ));
    assert(after.subrange(DESCRIPTION_OFFSET as int, DESCRIPTION_OFFSET_END as int)
        =~= before.subrange(DESCRIPTION_OFFSET as int, DESCRIPTION_OFFSET_END as int));
    assert(after[MANAGEMENT_FLAGS_OFFSET as int] == before[MANAGEMENT_FLAGS_OFFSET as int] & 0xFD);
    assert(after[MANAGEMENT_FLAGS_OFFSET + 1] == before[MANAGEMENT_FLAGS_OFFSET + 1]);
    assert(after[MANAGEMENT_FLAGS_OFFSET + 2] == before[MANAGEMENT_FLAGS_OFFSET + 2]);
    assert(after[MANAGEMENT_FLAGS_OFFSET + 3] == before[MANAGEMENT_FLAGS_OFFSET + 3]);
    reveal(parsed_header);
}

/// Two buffers that agree on the bytes of a course without trailer hold the
/// same record: what follows these bytes is not read.
pub proof fn lemma_parse_prefix(a: Seq<u8>, b: Seq<u8>)
    requires
        a.len() >= COURSE_LEN,
        b.len() >= COURSE_LEN,
        a.subrange(0, COURSE_LEN as int) == b.subrange(0, COURSE_LEN as int),
    ensures
        parsed_course(a) == parsed_course(b),
{
    assert forall|i: int| 0 <= i < COURSE_LEN implies a[i] == b[i] by {
        assert(a.subrange(0, COURSE_LEN as int)[i] == a[i]);
        assert(b.subrange(0, COURSE_LEN as int)[i] == b[i]);
    }
    assert(a.subrange(TITLE_OFFSET as int, TITLE_OFFSET_END as int) =~= b.subrange(
        TITLE_OFFSET as int,
        TITLE_OFFSET_END as int,
    ));
    assert(a.subrange(DESCRIPTION_OFFSET as int, DESCRIPTION_OFFSET_END as int) =~= b.subrange(
        DESCRIPTION_OFFSET as int,
        DESCRIPTION_OFFSET_END as int,
    ));
    reveal(parsed_header);
    reveal(parsed_area);
}

/// What decrypting the envelope of a course file in place says of the file:
/// the file with the decrypted envelope is the decrypted file, and where the
/// envelope can be sealed again and the checksum is right, encrypting with
/// the vector and seed of the trailer gives the file back.
pub proof fn lemma_course_decrypted(file: Seq<u8>, envelope: Seq<u8>, table: Seq<u32>)
    requires
        valid_course_file_len(file.len() as int),
        envelope.len() == file.len() - 16,
        envelope == decrypted_body(course_envelope(file), table) + course_envelope(file).subrange(
            file.len() - 16 - 48,
            file.len() - 16,
        ),
    ensures
        file.subrange(0, 16) + envelope + file.subrange(file.len() as int, file.len() as int)
            == course_decrypted(file, table),
        sealed(
            envelope_body(envelope),
            envelope_iv(course_envelope(file)),
            envelope_seed(course_envelope(file)),
            table,
        ) == course_envelope(file) && crc_fixed(
            course_decrypted(file, table).subrange(0, file.len() - 48),
        ) ==> preserved_encryption(course_decrypted(file, table), table) == file,
{
    let env = course_envelope(file);
    let after = course_decrypted(file, table);
    assert(env.subrange(env.len() - 48, env.len() as int) =~= file.subrange(
        file.len() - 48,
        file.len() as int,
    ));
    assert(file.subrange(0, 16) + envelope + file.subrange(file.len() as int, file.len() as int)
        =~= after);
    assert(after.len() == file.len());
    if sealed(envelope_body(envelope), envelope_iv(env), envelope_seed(env), table) == env
        && crc_fixed(after.subrange(0, file.len() - 48)) {
        let plain = after.subrange(0, after.len() - 48);
        lemma_with_crc_of_fixed(plain);
        assert(envelope_iv(after) =~= envelope_iv(env));
        assert(envelope_seed(after) =~= envelope_seed(env));
        assert(plain.subrange(16, plain.len() as int) =~= envelope_body(envelope));
        assert(plain.subrange(0, 16) =~= file.subrange(0, 16));
        assert(file =~= file.subrange(0, 16) + env);
    }
}

/// What sealing the body of a plain course says of the file that is made of
/// the header and the sealed body: it is the encrypted file, it opens, and
/// it decrypts to the plain course.
pub proof fn lemma_course_sealed(
    plain: Seq<u8>,
    envelope: Seq<u8>,
    iv: Seq<u8>,
    seed: Seq<u8>,
    table: Seq<u32>,
)
    requires
        plain.len() >= 16,
        valid_body_len(plain.len() - 16),
        iv.len() == 16,
        seed.len() == 16,
        envelope.len() == plain.len() - 16 + 48,
        envelope == sealed(plain.subrange(16, plain.len() as int), iv, seed, table),
        opens(envelope, table),
        decrypted_body(envelope, table) == plain.subrange(16, plain.len() as int),
        envelope.subrange(envelope.len() - 48, envelope.len() - 32) == iv,
        envelope.subrange(envelope.len() - 32, envelope.len() - 16) == seed,
    ensures
        ({
            let file = plain.subrange(0, 16) + envelope;
            &&& file.len() == plain.len() + 48
            &&& course_envelope(file) == envelope
            &&& course_opens(file, table)
            &&& course_decrypted(file, table).len() == file.len()
            &&& course_decrypted(file, table).subrange(0, plain.len() as int) == plain
            &&& envelope_iv(file) == iv
            &&& envelope_seed(file) == seed
        }),
{
    let file = plain.subrange(0, 16) + envelope;
    assert(course_envelope(file) =~= envelope);
    assert(envelope_iv(file) =~= envelope.subrange(envelope.len() - 48, envelope.len() - 32));
    assert(envelope_seed(file) =~= envelope.subrange(envelope.len() - 32, envelope.len() - 16));
    assert(course_decrypted(file, table).subrange(0, plain.len() as int) =~= plain);
}

/// Reading the buffer of a course again gives the record of the course: two
/// courses with one buffer have one record.
pub proof fn lemma_reparse_gives_the_record(first: Course2, second: Course2)
    requires
        first.wf(),
        second.wf(),
        first.data_view() == second.data_view(),
    ensures
        first.course_view() == second.course_view(),
{
}

/// Whether the files of a packed course can be read: the course file opens,
/// or, of a compressed course, has the length of a course without trailer;
/// the course can be read; and the thumbnail opens.
pub open spec fn packed_readable(file: PackedView, keys: KeyTables) -> bool {
    if file.compressed {
        file.data.len() == COURSE_LEN && parsed_course(with_crc(file.data)) is Ok && opens(
            file.thumb,
            keys.thumbnail@,
        )
    } else {
        course_opens(file.data, keys.course@) && parsed_course(
            course_decrypted(file.data, keys.course@),
        ) is Ok && opens(file.thumb, keys.thumbnail@)
    }
}

/// A decrypted course: the record, the buffer it was read from, and the
/// thumbnail. The buffer decides; the record says what the buffer holds.
#[derive(Clone, Debug, PartialEq, Eq)]
pub struct Course2 {
    course: SMM2Course,
    data: Vec<u8>,
    thumb: Option<Thumbnail2>,
}

impl Course2 {
    /// The record.
    pub closed spec fn course_view(&self) -> CourseView {
        self.course@
    }

    /// The decrypted buffer.
    pub closed spec fn data_view(&self) -> Seq<u8> {
        self.data@
    }

    /// The thumbnail.
    pub closed spec fn thumb_view(&self) -> Option<Thumbnail2> {
        self.thumb
    }

    /// The record, under the name that contracts of other modules use.
    pub open spec fn get_course_spec(&self) -> CourseView {
        self.course_view()
    }

    /// The record is what the buffer holds.
    pub open spec fn wf(&self) -> bool {
        parsed_course(self.data_view()) == Ok::<CourseView, Smm2Error>(self.course_view())
    }

    /// The inner record.
    pub fn get_course(&self) -> (course: &SMM2Course)
        ensures
            course@ == self.course_view(),
    {
        &self.course
    }

    /// Consumes the course and gives its record.
    pub fn take_course(self) -> (course: SMM2Course)
        ensures
            course@ == self.course_view(),
    {
        self.course
    }

    /// The decrypted course data.
    pub fn get_course_data(&self) -> (data: &Vec<u8>)
        ensures
            data@ == self.data_view(),
    {
        &self.data
    }

    /// The decrypted course data, to be changed in place. What the record
    /// says is no longer known to be what the buffer holds once the buffer
    /// was changed.
    pub fn get_course_data_mut(&mut self) -> (data: &mut Vec<u8>)
        ensures
            data@ == old(self).data_view(),
            final(self).data_view() == final(data)@,
            final(self).course_view() == old(self).course_view(),
            final(self).thumb_view() == old(self).thumb_view(),
    {
        &mut self.data
    }

    /// The inner record, to be changed in place. What the record says is no
    /// longer known to be what the buffer holds once the record was changed.
    pub fn get_course_mut(&mut self) -> (course: &mut SMM2Course)
        ensures
            course@ == old(self).course_view(),
            final(self).course_view() == final(course)@,
            final(self).data_view() == old(self).data_view(),
            final(self).thumb_view() == old(self).thumb_view(),
    {
        &mut self.course
    }

    /// The thumbnail, to be changed in place.
    pub fn get_course_thumb_mut(&mut self) -> (thumb: Option<&mut Thumbnail2>)
        ensures
            thumb is Some <==> old(self).thumb_view() is Some,
            thumb is Some ==> *thumb.unwrap() == old(self).thumb_view().unwrap(),
            final(self).course_view() == old(self).course_view(),
            final(self).data_view() == old(self).data_view(),
            thumb is Some ==> final(self).thumb_view() == Some(*final(thumb.unwrap())),
            thumb is None ==> final(self).thumb_view() is None,
    {
        self.thumb.as_mut()
    }

    pub fn get_course_thumb(&self) -> (thumb: Option<&Thumbnail2>)
        ensures
            thumb is Some <==> self.thumb_view() is Some,
            thumb is Some ==> *thumb.unwrap() == self.thumb_view().unwrap(),
    {
        self.thumb.as_ref()
    }

    /// Decrypts a course file in place and checks its tag.
    ///
    /// On a valid length the body is replaced by what it decrypts to, whether
    /// or not the tag is right; header and trailer stay. Where the file opens
    /// and its checksum is right, encrypting the result again with the vector
    /// and seed of its trailer gives the file back, byte for byte.
    pub fn decrypt(course: &mut Vec<u8>, keys: &KeyTables) -> (res: Result<(), Smm2Error>)
        ensures
            final(course)@.len() == old(course)@.len(),
            !valid_course_file_len(old(course)@.len() as int) ==> final(course)@ == old(course)@,
            valid_course_file_len(old(course)@.len() as int) ==> final(course)@ == course_decrypted(
                old(course)@,
                keys.course@,
            ),
            res is Ok <==> course_opens(old(course)@, keys.course@),
            res matches Err(e) ==> e@ == course_refusal(old(course)@, keys.course@),
            res is Ok && crc_fixed(final(course)@.subrange(0, final(course)@.len() - 48))
                ==> preserved_encryption(final(course)@, keys.course@) == old(course)@,
    {
        let len: usize = course.len();
        if len < 16 + 48 || (len - 16) % 16 != 0 {
            return Err(Smm2Error::InvalidLength);
        }
        let mut envelope: Vec<u8> = copy_range(course.as_slice(), 16, len);
        let res = crate::encryption::decrypt(&mut envelope, &keys.course);
        write_range(course, 16, envelope.as_slice());
        proof {
            lemma_course_decrypted(old(course)@, envelope@, keys.course@);
        }
        res
    }

    /// Encrypts a plain course (header and body, no trailer) in place under
    /// the given vector and seed: sets the checksum, encrypts the body and
    /// puts the trailer behind it.
    ///
    /// The file that results opens, and decrypts to the plain course with its
    /// checksum set.
    pub fn encrypt_with(
        course: &mut Vec<u8>,
        keys: &KeyTables,
        iv: &[u8; 16],
        seed: &[u8; 16],
    ) -> (res: Result<(), Smm2Error>)
        ensures
            old(course)@.len() < 16 || !valid_body_len(old(course)@.len() - 16) ==> res == Err::<
                (),
                Smm2Error,
            >(Smm2Error::InvalidLength) && final(course)@ == old(course)@,
            old(course)@.len() >= 16 && valid_body_len(old(course)@.len() - 16) ==> {
                &&& res is Ok
                &&& final(course)@ == fresh_encryption(old(course)@, iv@, seed@, keys.course@)
                &&& final(course)@.len() == old(course)@.len() + 48
                &&& course_opens(final(course)@, keys.course@)
                &&& course_decrypted(final(course)@, keys.course@).len() == final(course)@.len()
                &&& course_decrypted(final(course)@, keys.course@).subrange(
                    0,
                    old(course)@.len() as int,
                ) == with_crc(old(course)@)
                &&& crc_fixed(with_crc(old(course)@))
                &&& envelope_iv(final(course)@) == iv@
                &&& envelope_seed(final(course)@) == seed@
            },
    {
        let len: usize = course.len();
        if len < 16 || (len - 16) % 16 != 0 {
            return Err(Smm2Error::InvalidLength);
        }
        match fix_crc32(course) {
            Ok(()) => {},
            Err(e) => {
                return Err(e);
            },
        }
        let ghost plain = course@;
        let mut body: Vec<u8> = copy_range(course.as_slice(), 16, len);
        match encrypt_with(&mut body, &keys.course, iv, seed) {
            Ok(info) => {
                write_range(course, 16, body.as_slice());
                course.extend_from_slice(info.as_slice());
                assert(course@ =~= plain.subrange(0, 16) + (body@ + info@));
                proof {
                    let envelope = body@ + info@;
                    assert(envelope.subrange(envelope.len() - 48, envelope.len() - 32) =~= iv@);
                    assert(envelope.subrange(envelope.len() - 32, envelope.len() - 16) =~= seed@);
                    lemma_course_sealed(plain, envelope, iv@, seed@, keys.course@);
                }
                Ok(())
            },
            Err(e) => Err(e),
        }
    }

    /// Encrypts a decrypted course file in place.
    ///
    /// A file of the length of a course without trailer gets a fresh random
    /// vector and seed, and a trailer behind it. Any other file is taken to
    /// end in a trailer, whose vector and seed are used again. Either way the
    /// checksum is set first, and the file that results opens and decrypts to
    /// the plain course with its checksum set.
    pub fn encrypt(course: &mut Vec<u8>, keys: &KeyTables) -> (res: Result<(), Smm2Error>)
        ensures
            old(course)@.len() == COURSE_LEN ==> res is Ok && final(course)@ == fresh_encryption(
                old(course)@,
                envelope_iv(final(course)@),
                envelope_seed(final(course)@),
                keys.course@,
            ) && final(course)@.len() == old(course)@.len() + 48,
            old(course)@.len() != COURSE_LEN && valid_course_file_len(old(course)@.len() as int)
                ==> res is Ok && final(course)@ == preserved_encryption(
                old(course)@,
                keys.course@,
            ) && final(course)@.len() == old(course)@.len(),
            old(course)@.len() != COURSE_LEN && !valid_course_file_len(old(course)@.len() as int)
                ==> res == Err::<(), Smm2Error>(Smm2Error::InvalidLength) && final(course)@ == old(
                course,
            )@,
            res is Ok ==> {
                &&& course_opens(final(course)@, keys.course@)
                &&& course_decrypted(final(course)@, keys.course@).len() == final(course)@.len()
                &&& course_decrypted(final(course)@, keys.course@).subrange(
                    0,
                    final(course)@.len() - 48,
                ) == with_crc(plain_part(old(course)@))
                &&& crc_fixed(with_crc(plain_part(old(course)@)))
            },
    {
        if course.len() == COURSE_LEN {
            Self::encrypt_fresh(course, keys)
        } else {
            Self::encrypt_preserved(course, keys)
        }
    }

    /// Encrypts a plain course (header and body, no trailer) in place under
    /// a fresh random vector and seed, and puts the trailer behind it.
    ///
    /// Whatever vector and seed were drawn, they stand in the trailer, and
    /// the file opens and decrypts to the plain course with its checksum
    /// set.
    pub fn encrypt_fresh(course: &mut Vec<u8>, keys: &KeyTables) -> (res: Result<(), Smm2Error>)
        ensures
            old(course)@.len() < 16 || !valid_body_len(old(course)@.len() - 16) ==> res == Err::<
                (),
                Smm2Error,
            >(Smm2Error::InvalidLength) && final(course)@ == old(course)@,
            old(course)@.len() >= 16 && valid_body_len(old(course)@.len() - 16) ==> {
                &&& res is Ok
                &&& final(course)@ == fresh_encryption(
                    old(course)@,
                    envelope_iv(final(course)@),
                    envelope_seed(final(course)@),
                    keys.course@,
                )
                &&& final(course)@.len() == old(course)@.len() + 48
                &&& course_opens(final(course)@, keys.course@)
                &&& course_decrypted(final(course)@, keys.course@).len() == final(course)@.len()
                &&& course_decrypted(final(course)@, keys.course@).subrange(
                    0,
                    old(course)@.len() as int,
                ) == with_crc(old(course)@)
                &&& crc_fixed(with_crc(old(course)@))
            },
    {
        let iv: [u8; 16] = random_block();
        let seed: [u8; 16] = random_block();
        Self::encrypt_with(course, keys, &iv, &seed)
    }

    /// Encrypts a decrypted course file that still ends in its trailer, in
    /// place, under the vector and seed of the trailer.
    ///
    /// The checksum is set and a new tag is written. Of a file that was
    /// decrypted and not changed since, and whose checksum was right, this
    /// gives the encrypted file back, byte for byte.
    pub fn encrypt_preserved(course: &mut Vec<u8>, keys: &KeyTables) -> (res: Result<
        (),
        Smm2Error,
    >)
        ensures
            !valid_course_file_len(old(course)@.len() as int) ==> res == Err::<(), Smm2Error>(
                Smm2Error::InvalidLength,
            ) && final(course)@ == old(course)@,
            valid_course_file_len(old(course)@.len() as int) ==> {
                &&& res is Ok
                &&& final(course)@ == preserved_encryption(old(course)@, keys.course@)
                &&& final(course)@.len() == old(course)@.len()
                &&& course_opens(final(course)@, keys.course@)
                &&& course_decrypted(final(course)@, keys.course@).len() == final(course)@.len()
                &&& course_decrypted(final(course)@, keys.course@).subrange(
                    0,
                    old(course)@.len() - 48,
                ) == with_crc(old(course)@.subrange(0, old(course)@.len() - 48))
                &&& crc_fixed(with_crc(old(course)@.subrange(0, old(course)@.len() - 48)))
                &&& envelope_iv(final(course)@) == envelope_iv(old(course)@)
                &&& envelope_seed(final(course)@) == envelope_seed(old(course)@)
            },
    {
        let len: usize = course.len();
        if len < 16 + 48 || (len - 16) % 16 != 0 {
            return Err(Smm2Error::InvalidLength);
        }
        let iv: [u8; 16] = block_at(course.as_slice(), len - 48);
        let seed: [u8; 16] = block_at(course.as_slice(), len - 32);
        course.truncate(len - 48);
        assert(course@ =~= old(course)@.subrange(0, len - 48));
        Self::encrypt_with(course, keys, &iv, &seed)
    }

    /// Reads a course from its file and, where there is one, its thumbnail.
    ///
    /// An encrypted file is decrypted in place first, and the thumbnail is
    /// then taken to be encrypted too; a decrypted thumbnail is encrypted
    /// under a fresh vector and seed. The course keeps a copy of the whole
    /// decrypted buffer.
    pub fn from_switch_files(
        data: &mut Vec<u8>,
        thumb: Option<Vec<u8>>,
        is_encrypted: bool,
        keys: &KeyTables,
    ) -> (res: Result<Course2, Smm2Error>)
        ensures
            is_encrypted && valid_course_file_len(old(data)@.len() as int) ==> final(data)@
                == course_decrypted(old(data)@, keys.course@),
            !(is_encrypted && valid_course_file_len(old(data)@.len() as int)) ==> final(data)@
                == old(data)@,
            res is Ok <==> {
                &&& is_encrypted ==> course_opens(old(data)@, keys.course@)
                &&& parsed_course(final(data)@) is Ok
                &&& is_encrypted && thumb is Some ==> opens(thumb.unwrap()@, keys.thumbnail@)
            },
            match res {
                Ok(course) => {
                    &&& course.wf()
                    &&& course.data_view() == final(data)@
                    &&& match (thumb, course.thumb_view()) {
                        (Some(bytes), Some(t)) => t.jpeg_opt_view() is None && if is_encrypted {
                            t.encrypted_view() == bytes@ && t.jpeg_view() == decrypted_body(
                                bytes@,
                                keys.thumbnail@,
                            )
                        } else {
                            t.jpeg_view() == bytes@ && opens(t.encrypted_view(), keys.thumbnail@)
                                && decrypted_body(t.encrypted_view(), keys.thumbnail@) == resized(
                                bytes@,
                                THUMBNAIL_BODY_LEN as nat,
                            )
                        },
                        (None, None) => true,
                        _ => false,
                    }
                },
                Err(e) => e@ == load_refusal(
                    old(data)@,
                    match thumb {
                        Some(bytes) => Some(bytes@),
                        None => None,
                    },
                    is_encrypted,
                    *keys,
                ),
            },
    {
        if is_encrypted {
            match Self::decrypt(data, keys) {
                Ok(()) => {},
                Err(e) => {
                    return Err(e);
                },
            }
        }
        if data.len() < COURSE_LEN {
            return Err(Smm2Error::InvalidLength);
        }
        let header: SMM2CourseHeader = match get_course_header(data.as_slice()) {
            Ok(header) => header,
            Err(e) => {
                return Err(e);
            },
        };
        let course_area: SMM2CourseArea = match get_course_area(data.as_slice(), 0) {
            Ok(area) => area,
            Err(e) => {
                return Err(e);
            },
        };
        let course_sub_area: SMM2CourseArea = match get_course_area(data.as_slice(), 1) {
            Ok(area) => area,
            Err(e) => {
                return Err(e);
            },
        };
        let thumb: Option<Thumbnail2> = match thumb {
            Some(bytes) => {
                if is_encrypted {
                    match Thumbnail2::from_encrypted(bytes, keys) {
                        Ok(t) => Some(t),
                        Err(e) => {
                            return Err(e);
                        },
                    }
                } else {
                    Some(Thumbnail2::from_decrypted(bytes, keys))
                }
            },
            None => None,
        };
        Ok(
            Course2 {
                course: SMM2Course { version: VERSION, header, course_area, course_sub_area },
                data: data.clone(),
                thumb,
            },
        )
    }

    /// Sets the description of the course.
    ///
    /// A text of more than 75 bytes is refused and nothing changes. Otherwise
    /// the description's region holds the text's code units and then zeros;
    /// no other byte of the buffer and no other field of the record changes.
    /// The record holds the description that the region now says: the text as
    /// it was given, or, of a text with the character U+0000, what stands in
    /// front of that character.
    pub fn set_description(&mut self, description: String) -> (res: Result<(), SmmdbError>)
        requires
            old(self).wf(),
        ensures
            encode_utf8(description@).len() > MAX_TEXT_LEN ==> (match res {
                Err(SmmdbError::Smm2Error(Smm2Error::StringTooLong(n))) => n
                    == encode_utf8(description@).len(),
                _ => false,
            }) && *final(self) == *old(self),
            encode_utf8(description@).len() <= MAX_TEXT_LEN ==> {
                &&& res is Ok
                &&& final(self).data_view() == patched(
                    old(self).data_view(),
                    DESCRIPTION_OFFSET as int,
                    region_of_text(description@, TEXT_REGION_LEN as nat),
                )
                &&& final(self).data_view().len() == old(self).data_view().len()
                &&& final(self).course_view() == with_description(
                    old(self).course_view(),
                    text_of_region(region_of_text(description@, TEXT_REGION_LEN as nat)),
                )
                &&& final(self).wf()
                &&& final(self).thumb_view() == old(self).thumb_view()
                &&& (forall|k: int| 0 <= k < description@.len() ==> description@[k] != '\0')
                    ==> final(self).course_view().header.description == description@
            },
    {
        let len: usize = description.as_str().as_bytes().len();
        if len > MAX_TEXT_LEN {
            return Err(SmmdbError::Smm2Error(Smm2Error::StringTooLong(len)));
        }
        let region: Vec<u8> = encode_text_region(description.as_str());
        let ghost before = self.data@;
        proof {
            lemma_description_patch(before, region@);
        }
        write_range(&mut self.data, DESCRIPTION_OFFSET, region.as_slice());
        assert(self.data@ =~= patched(before, DESCRIPTION_OFFSET as int, region@));
        proof {
            if forall|k: int| 0 <= k < description@.len() ==> description@[k] != '\0' {
                lemma_utf16_no_longer_than_utf8(description@);
                lemma_text_round_trip(description@, TEXT_REGION_LEN as nat);
            }
        }
        self.course.header.description = get_utf16_string_from_slice(region.as_slice());
        Ok(())
    }

    /// Stores the SMMDB id of the course: 24 hexadecimal digits that stand
    /// for 12 bytes.
    ///
    /// A text that is no hexadecimal number of 12 bytes is refused and
    /// nothing changes. The record stays as it is.
    pub fn set_smmdb_id(&mut self, smmdb_id: String) -> (res: Result<(), SmmdbError>)
        requires
            old(self).wf(),
        ensures
            match hex_decoded(encode_utf8(smmdb_id@)) {
                Ok(bytes) => if bytes.len() == SMMDB_OFFSET_END - SMMDB_OFFSET {
                    &&& res is Ok
                    &&& final(self).data_view() == patched(
                        old(self).data_view(),
                        SMMDB_OFFSET as int,
                        bytes,
                    )
                    &&& final(self).course_view() == old(self).course_view()
                    &&& final(self).thumb_view() == old(self).thumb_view()
                    &&& final(self).wf()
                } else {
                    &&& res matches Err(SmmdbError::FromHex(FromHexError::InvalidStringLength))
                    &&& *final(self) == *old(self)
                },
                Err(e) => {
                    &&& res matches Err(SmmdbError::FromHex(got)) && got == e
                    &&& *final(self) == *old(self)
                },
            },
    {
        match hex_decode(smmdb_id.as_str()) {
            Ok(bytes) => {
                if bytes.len() != SMMDB_OFFSET_END - SMMDB_OFFSET {
                    return Err(SmmdbError::FromHex(FromHexError::InvalidStringLength));
                }
                let ghost before = self.data@;
                proof {
                    lemma_smmdb_patch(before, bytes@);
                }
                write_range(&mut self.data, SMMDB_OFFSET, bytes.as_slice());
                assert(self.data@ =~= patched(before, SMMDB_OFFSET as int, bytes@));
                Ok(())
            },
            Err(e) => Err(SmmdbError::FromHex(e)),
        }
    }

    /// The SMMDB id of the course as 24 lower-case hexadecimal digits, or
    /// `None` where all 12 bytes are zero.
    pub fn get_smmdb_id(&self) -> (id: Option<String>)
        requires
            self.wf(),
        ensures
            id is None <==> self.data_view().subrange(SMMDB_OFFSET as int, SMMDB_OFFSET_END as int)
                == zeros(12),
            id is Some ==> id.unwrap()@ == hex_encoded(
                self.data_view().subrange(SMMDB_OFFSET as int, SMMDB_OFFSET_END as int),
            ),
    {
        assert(self.data@.len() >= COURSE_LEN);
        let region: Vec<u8> = copy_range(self.data.as_slice(), SMMDB_OFFSET, SMMDB_OFFSET_END);
        let mut i: usize = 0;
        while i < region.len()
            invariant
                region@.len() == 12,
                region@ == self.data@.subrange(SMMDB_OFFSET as int, SMMDB_OFFSET_END as int),
                0 <= i <= 12,
                forall|k: int| 0 <= k < i ==> region@[k] == 0,
            decreases 12 - i,
        {
            if region[i] != 0 {
                assert(zeros(12)[i as int] == 0);
                return Some(hex_encode(region.as_slice()));
            }
            i += 1;
        }
        assert(region@ =~= zeros(12));
        None
    }
    /// Resets all that the game saved of clear checks: clears bit 1 of the
    /// management flags, sets the tries to zero and the time to all ones, in
    /// the buffer and in the record. The game will not upload the course any
    /// more.
    pub fn reset_clear_check(&mut self)
        requires
            old(self).wf(),
        ensures
            final(self).wf(),
            final(self).data_view() == reset_data(old(self).data_view()),
            final(self).course_view() == (CourseView {
                header: reset_header(old(self).course_view().header),
                ..old(self).course_view()
            }),
            final(self).course_view().header.management_flags & 2 == 0,
            final(self).course_view().header.clear_check_tries == 0,
            final(self).course_view().header.clear_check_time == 0xFFFF_FFFF,
            final(self).thumb_view() == old(self).thumb_view(),
    {
        let ghost before = self.data@;
        proof {
            lemma_reset_patch(before);
            reveal(parsed_header);
            lemma_cleared_flags(
                before[MANAGEMENT_FLAGS_OFFSET as int],
                before[MANAGEMENT_FLAGS_OFFSET + 1],
                before[MANAGEMENT_FLAGS_OFFSET + 2],
                before[MANAGEMENT_FLAGS_OFFSET + 3],
            );
        }
        self.course.header.management_flags = self.course.header.management_flags & 0xFFFF_FFFD;
        self.course.header.clear_check_tries = 0;
        self.course.header.clear_check_time = 0xFFFF_FFFF;
        let low: u8 = self.data[MANAGEMENT_FLAGS_OFFSET] & 0xFD;
        let low_patch: [u8; 1] = [low];
        write_range(&mut self.data, MANAGEMENT_FLAGS_OFFSET, low_patch.as_slice());
        let tries: [u8; 4] = [0, 0, 0, 0];
        write_range(&mut self.data, CLEAR_CHECK_TRIES_OFFSET, tries.as_slice());
        let time: [u8; 4] = [0xFF, 0xFF, 0xFF, 0xFF];
        write_range(&mut self.data, CLEAR_CHECK_TIME_OFFSET, time.as_slice());
        assert(self.data@ =~= reset_data(before));
    }
    /// The course is the one that the files of a packed course hold: its
    /// buffer is the decrypted course file, or, of a compressed course, the
    /// decompressed course with its checksum set and a trailer behind it.
    pub open spec fn is_of_packed(&self, file: PackedView, keys: KeyTables) -> bool {
        &&& self.wf()
        &&& self.thumb_view() is Some
        &&& self.thumb_view().unwrap().encrypted_view() == file.thumb
        &&& self.thumb_view().unwrap().jpeg_view() == decrypted_body(file.thumb, keys.thumbnail@)
        &&& if file.compressed {
            self.data_view().len() == COURSE_LEN + 48 && self.data_view().subrange(
                0,
                COURSE_LEN as int,
            ) == with_crc(file.data)
        } else {
            self.data_view() == course_decrypted(file.data, keys.course@)
        }
    }

    /// The courses are those of the first `n` packed courses that can be
    /// read, in their order.
    pub open spec fn are_of_packed(
        courses: Seq<Course2>,
        files: Seq<PackedView>,
        n: int,
        keys: KeyTables,
    ) -> bool
        decreases n,
    {
        if n <= 0 {
            courses.len() == 0
        } else if packed_readable(files[n - 1], keys) {
            courses.len() > 0 && courses.last().is_of_packed(files[n - 1], keys)
                && Self::are_of_packed(courses.drop_last(), files, n - 1, keys)
        } else {
            Self::are_of_packed(courses, files, n - 1, keys)
        }
    }

    /// Reads the course of the files of a packed course, or gives `None`
    /// where they cannot be read. A compressed course is encrypted first, as
    /// a course without trailer is, and then read as an encrypted one.
    pub fn from_packed_course(file: &PackedCourse, keys: &KeyTables) -> (res: Option<Course2>)
        ensures
            res is Some <==> packed_readable(file@, *keys),
            res is Some ==> res.unwrap().is_of_packed(file@, *keys),
    {
        let mut data: Vec<u8> = file.data.clone();
        if file.compressed {
            if data.len() != COURSE_LEN {
                return None;
            }
            match Self::encrypt(&mut data, keys) {
                Ok(()) => {},
                Err(_) => {
                    return None;
                },
            }
            proof {
                let plain = course_decrypted(data@, keys.course@);
                assert(plain.subrange(0, COURSE_LEN as int) =~= with_crc(file.data@));
                assert(with_crc(file.data@).subrange(0, COURSE_LEN as int) =~= with_crc(
                    file.data@,
                ));
                lemma_parse_prefix(plain, with_crc(file.data@));
            }
        }
        let thumb: Vec<u8> = file.thumb.clone();
        match Self::from_switch_files(&mut data, Some(thumb), true, keys) {
            Ok(course) => Some(course),
            Err(_) => None,
        }
    }

    /// Reads all courses of a packed buffer: a ZIP archive or a TAR archive.
    ///
    /// A course whose files cannot be opened or read is passed over. A buffer
    /// of another kind is refused with the kind that it shows.
    pub fn from_packed(buffer: &[u8], keys: &KeyTables) -> (res: Result<Vec<Course2>, SmmdbError>)
        ensures
            match unpacked(buffer@) {
                Unpacked::Unsupported(mime) => res matches Err(
                    SmmdbError::MimeTypeUnsupported(text),
                ) && text@ == mime,
                Unpacked::DamagedZip => res matches Err(SmmdbError::Zip(_)),
                Unpacked::DamagedTar => res matches Err(SmmdbError::IoError(_)),
                Unpacked::Files(files) => res matches Ok(courses) && Self::are_of_packed(
                    courses@,
                    files,
                    files.len() as int,
                    *keys,
                ),
            },
    {
        let files: Vec<PackedCourse> = match unpack(buffer) {
            Ok(files) => files,
            Err(e) => {
                return Err(e);
            },
        };
        let mut courses: Vec<Course2> = Vec::new();
        let mut i: usize = 0;
        while i < files.len()
            invariant
                0 <= i <= files@.len(),
                Self::are_of_packed(courses@, packed_view(files@), i as int, *keys),
            decreases files@.len() - i,
        {
            match Self::from_packed_course(&files[i], keys) {
                Some(course) => {
                    let ghost before = courses@;
                    courses.push(course);
                    assert(courses@.drop_last() =~= before);
                },
                None => {},
            }
            i += 1;
        }
        Ok(courses)
    }

    /// Reads the last course of a packed buffer.
    pub fn try_from(data: Vec<u8>, keys: &KeyTables) -> (res: Result<Course2, SmmdbError>)
        ensures
            match unpacked(data@) {
                Unpacked::Unsupported(mime) => res matches Err(
                    SmmdbError::MimeTypeUnsupported(text),
                ) && text@ == mime,
                Unpacked::DamagedZip => res matches Err(SmmdbError::Zip(_)),
                Unpacked::DamagedTar => res matches Err(SmmdbError::IoError(_)),
                Unpacked::Files(files) => match res {
                    Ok(course) => exists|courses: Seq<Course2>|
                        #![auto]
                        courses.len() > 0 && courses.last() == course && Self::are_of_packed(
                            courses,
                            files,
                            files.len() as int,
                            *keys,
                        ),
                    Err(SmmdbError::Smm2Error(Smm2Error::ConvertFromBuffer)) => Self::are_of_packed(
                        Seq::empty(),
                        files,
                        files.len() as int,
                        *keys,
                    ),
                    Err(_) => false,
                },
            },
    {
        let mut courses: Vec<Course2> = match Self::from_packed(data.as_slice(), keys) {
            Ok(courses) => courses,
            Err(e) => {
                return Err(e);
            },
        };
        let ghost all = courses@;
        match courses.pop() {
            Some(course) => {
                assert(all.last() == course);
                Ok(course)
            },
            None => {
                assert(all =~= Seq::<Course2>::empty());
                Err(SmmdbError::Smm2Error(Smm2Error::ConvertFromBuffer))
            },
        }
    }
}

} // verus!
