use smmdb::constants2::{
    AUTO_SCROLL_OFFSET, CLEAR_CHECK_TIME_OFFSET, CLEAR_CHECK_TRIES_OFFSET,
    CLEAR_CONDITION_AMOUNT_OFFSET, CLEAR_CONDITION_OFFSET, CLEAR_CONDITION_TYPE_OFFSET,
    COMPLETION_VERSION_OFFSET, COURSE_LEN, COURSE_LEN_ENCRYPTED, COURSE_THEME_OFFSET,
    CREATION_ID_OFFSET, DAY_OFFSET, DAY_TIME_OFFSET, DESCRIPTION_OFFSET, FINISH_X_OFFSET,
    FINISH_Y_OFFSET, GAME_STYLE_OFFSET, GAME_VERSION_OFFSET, HOUR_OFFSET, ICICLE_COUNT_OFFSET,
    LIQUID_MAX_OFFSET, LIQUID_MIN_OFFSET, LIQUID_MODE_OFFSET, LIQUID_SPEED_OFFSET,
    MANAGEMENT_FLAGS_OFFSET, MINUTE_OFFSET, MONTH_OFFSET, OBJECT_COUNT_OFFSET, ORIENTATION_OFFSET,
    RIGHT_BOUNDARY_OFFSET, SCREEN_BOUNDARY_OFFSET, SMMDB_OFFSET, SMMDB_OFFSET_END, START_Y_OFFSET,
    TILE_COUNT_OFFSET, TIME_OFFSET, TITLE_OFFSET, UPLOAD_ID_OFFSET, VERSION, YEAR_OFFSET,
};
use smmdb::course2::{get_course_area, get_course_header, get_modified, Course2};
use smmdb::errors::{Smm2Error, SmmdbError};
use smmdb::key_tables::KeyTables;
use smmdb::proto::smm2_course::{
    AutoScroll, ClearConditionType, CourseTheme, DayTime, GameStyle, LiquidMode, LiquidSpeed,
    Orientation, ScreenBoundary,
};
use smmdb::thumbnail2::Thumbnail2;

fn c2_table(mul: u32) -> [u32; 256] {
    let mut table = [0u32; 256];
    for (i, entry) in table.iter_mut().enumerate() {
        *entry = (i as u32).wrapping_mul(mul).wrapping_add(0x7F4A_7C15);
    }
    table
}

fn c2_keys() -> KeyTables {
    KeyTables {
        course: c2_table(0x9E37_79B1),
        thumbnail: c2_table(0x85EB_CA6B),
        save: c2_table(0xC2B2_AE35),
    }
}

fn c2_put_text(data: &mut [u8], at: usize, text: &str) {
    for (i, unit) in text.encode_utf16().enumerate() {
        data[at + 2 * i] = unit as u8;
        data[at + 2 * i + 1] = (unit >> 8) as u8;
    }
}

fn c2_plain_course(title: &str) -> Vec<u8> {
    let mut data = vec![0u8; COURSE_LEN];
    data[START_Y_OFFSET] = 7;
    data[FINISH_Y_OFFSET] = 9;
    data[FINISH_X_OFFSET..FINISH_X_OFFSET + 2].copy_from_slice(&300u16.to_le_bytes());
    data[TIME_OFFSET..TIME_OFFSET + 2].copy_from_slice(&500u16.to_le_bytes());
    data[CLEAR_CONDITION_AMOUNT_OFFSET..CLEAR_CONDITION_AMOUNT_OFFSET + 2]
        .copy_from_slice(&12u16.to_le_bytes());
    data[YEAR_OFFSET..YEAR_OFFSET + 2].copy_from_slice(&2019u16.to_le_bytes());
    data[MONTH_OFFSET] = 6;
    data[DAY_OFFSET] = 28;
    data[HOUR_OFFSET] = 23;
    data[MINUTE_OFFSET] = 59;
    data[CLEAR_CONDITION_TYPE_OFFSET] = 2;
    data[CLEAR_CONDITION_OFFSET..CLEAR_CONDITION_OFFSET + 4]
        .copy_from_slice(&0xDEAD_BEEFu32.to_le_bytes());
    data[GAME_VERSION_OFFSET..GAME_VERSION_OFFSET + 4].copy_from_slice(&4u32.to_le_bytes());
    data[MANAGEMENT_FLAGS_OFFSET..MANAGEMENT_FLAGS_OFFSET + 4]
        .copy_from_slice(&0x0102_0307u32.to_le_bytes());
    data[CLEAR_CHECK_TRIES_OFFSET..CLEAR_CHECK_TRIES_OFFSET + 4]
        .copy_from_slice(&17u32.to_le_bytes());
    data[CLEAR_CHECK_TIME_OFFSET..CLEAR_CHECK_TIME_OFFSET + 4]
        .copy_from_slice(&23_456u32.to_le_bytes());
    data[CREATION_ID_OFFSET..CREATION_ID_OFFSET + 4].copy_from_slice(&0x1122_3344u32.to_le_bytes());
    data[UPLOAD_ID_OFFSET..UPLOAD_ID_OFFSET + 8]
        .copy_from_slice(&0x0102_0304_0506_0708u64.to_le_bytes());
    data[COMPLETION_VERSION_OFFSET..COMPLETION_VERSION_OFFSET + 4]
        .copy_from_slice(&3u32.to_le_bytes());
    data[GAME_STYLE_OFFSET] = b'3';
    data[GAME_STYLE_OFFSET + 1] = b'W';
    c2_put_text(&mut data, TITLE_OFFSET, title);
    c2_put_text(&mut data, DESCRIPTION_OFFSET, "A course for tests");
    for area in 0..2 {
        data[COURSE_THEME_OFFSET[area]] = 4 + area as u8;
        data[AUTO_SCROLL_OFFSET[area]] = 1;
        data[SCREEN_BOUNDARY_OFFSET[area]] = 1;
        data[ORIENTATION_OFFSET[area]] = area as u8;
        data[LIQUID_MAX_OFFSET[area]] = 20;
        data[LIQUID_MODE_OFFSET[area]] = 2;
        data[LIQUID_SPEED_OFFSET[area]] = 3;
        data[LIQUID_MIN_OFFSET[area]] = 5;
        data[RIGHT_BOUNDARY_OFFSET[area]..RIGHT_BOUNDARY_OFFSET[area] + 4]
            .copy_from_slice(&(1000u32 + area as u32).to_le_bytes());
        data[DAY_TIME_OFFSET[area]] = 2 * area as u8;
        data[OBJECT_COUNT_OFFSET[area]..OBJECT_COUNT_OFFSET[area] + 4]
            .copy_from_slice(&(40u32 + area as u32).to_le_bytes());
        data[TILE_COUNT_OFFSET[area]..TILE_COUNT_OFFSET[area] + 4]
            .copy_from_slice(&(50u32 + area as u32).to_le_bytes());
        data[ICICLE_COUNT_OFFSET[area]..ICICLE_COUNT_OFFSET[area] + 4]
            .copy_from_slice(&(60u32 + area as u32).to_le_bytes());
    }
    data
}

fn c2_encrypted_course(title: &str) -> Vec<u8> {
    let mut data = c2_plain_course(title);
    Course2::encrypt(&mut data, &c2_keys()).unwrap();
    data
}

fn c2_course(title: &str) -> Course2 {
    let mut data = c2_encrypted_course(title);
    Course2::from_switch_files(&mut data, None, true, &c2_keys()).unwrap()
}

#[test]
fn course2_parses_header_fields() {
    let data = c2_plain_course("Test course");
    let header = get_course_header(&data).unwrap();
    assert_eq!(header.modified, 1_561_766_340);
    assert_eq!(header.title, "Test course");
    assert_eq!(header.description, "A course for tests");
    assert_eq!(header.game_style, GameStyle::W3);
    assert_eq!(header.start_y, 7);
    assert_eq!(header.finish_y, 9);
    assert_eq!(header.finish_x, 300);
    assert_eq!(header.time, 500);
    assert_eq!(header.clear_condition_type, ClearConditionType::Status);
    assert_eq!(header.clear_condition, 0xDEAD_BEEF);
    assert_eq!(header.clear_condition_amount, 12);
    assert_eq!(header.clear_check_tries, 17);
    assert_eq!(header.clear_check_time, 23_456);
    assert_eq!(header.game_version, 4);
    assert_eq!(header.management_flags, 0x0102_0307);
    assert_eq!(header.creation_id, 0x1122_3344);
    assert_eq!(header.upload_id, 0x0102_0304_0506_0708);
    assert_eq!(header.completion_version, 3);
}

#[test]
fn course2_parses_both_areas() {
    let data = c2_plain_course("Areas");
    let main = get_course_area(&data, 0).unwrap();
    let sub = get_course_area(&data, 1).unwrap();
    assert_eq!(main.course_theme, CourseTheme::Underwater);
    assert_eq!(sub.course_theme, CourseTheme::GhostHouse);
    assert_eq!(main.auto_scroll, AutoScroll::Slow);
    assert_eq!(main.screen_boundary, ScreenBoundary::UnderLine);
    assert_eq!(main.orientation, Orientation::Horizontal);
    assert_eq!(sub.orientation, Orientation::Vertical);
    assert_eq!(main.liquid_max, 20);
    assert_eq!(main.liquid_mode, LiquidMode::Oscillating);
    assert_eq!(main.liquid_speed, LiquidSpeed::Fast);
    assert_eq!(main.liquid_min, 5);
    assert_eq!(main.right_boundary, 1000);
    assert_eq!(sub.right_boundary, 1001);
    assert_eq!(main.day_time, DayTime::Day);
    assert_eq!(sub.day_time, DayTime::Night);
    assert_eq!(main.object_count, 40);
    assert_eq!(sub.object_count, 41);
    assert_eq!(main.tile_count, 50);
    assert_eq!(sub.icicle_count, 61);
    assert_eq!(main.top_boundary, 0);
}

#[test]
fn course2_game_style_tags() {
    for (tag, style) in [
        (*b"M1", GameStyle::M1),
        (*b"M3", GameStyle::M3),
        (*b"MW", GameStyle::MW),
        (*b"WU", GameStyle::WU),
        (*b"3W", GameStyle::W3),
    ] {
        let mut data = c2_plain_course("Style");
        data[GAME_STYLE_OFFSET] = tag[0];
        data[GAME_STYLE_OFFSET + 1] = tag[1];
        assert_eq!(get_course_header(&data).unwrap().game_style, style);
    }
    let mut data = c2_plain_course("Style");
    data[GAME_STYLE_OFFSET] = b'W';
    data[GAME_STYLE_OFFSET + 1] = b'3';
    assert_eq!(get_course_header(&data), Err(Smm2Error::GameStyleParse));
}

#[test]
fn course2_enum_fields_out_of_range() {
    let cases: [(usize, u8, Smm2Error); 8] = [
        (CLEAR_CONDITION_TYPE_OFFSET, 4, Smm2Error::ClearConditionTypeParse),
        (COURSE_THEME_OFFSET[0], 10, Smm2Error::CourseThemeParse),
        (AUTO_SCROLL_OFFSET[1], 5, Smm2Error::AutoScrollParse),
        (SCREEN_BOUNDARY_OFFSET[0], 2, Smm2Error::ScreenBoundaryParse),
        (ORIENTATION_OFFSET[1], 2, Smm2Error::OrientationParse),
        (LIQUID_MODE_OFFSET[0], 3, Smm2Error::LiquidModeParse),
        (LIQUID_SPEED_OFFSET[1], 4, Smm2Error::LiquidSpeedParse),
        (DAY_TIME_OFFSET[0], 1, Smm2Error::DayTimeParse),
    ];
    for (offset, value, error) in cases {
        let mut data = c2_plain_course("Broken");
        data[offset] = value;
        let res = Course2::from_switch_files(&mut data, None, false, &c2_keys());
        assert_eq!(res.err(), Some(error));
    }
}

#[test]
fn course2_header_errors_come_before_area_errors() {
    let mut data = c2_plain_course("Broken twice");
    data[COURSE_THEME_OFFSET[0]] = 99;
    data[MONTH_OFFSET] = 13;
    let res = Course2::from_switch_files(&mut data, None, false, &c2_keys());
    assert_eq!(
        res.err(),
        Some(Smm2Error::InvalidDate { year: 2019, month: 13, day: 28, hour: 23, minute: 59 })
    );
}

#[test]
fn course2_refuses_a_short_buffer() {
    let mut data = c2_plain_course("Short");
    data.truncate(COURSE_LEN - 1);
    let res = Course2::from_switch_files(&mut data, None, false, &c2_keys());
    assert_eq!(res.err(), Some(Smm2Error::InvalidLength));
    let mut tiny = vec![0u8; 10];
    assert_eq!(Course2::decrypt(&mut tiny, &c2_keys()), Err(Smm2Error::InvalidLength));
    assert_eq!(Course2::encrypt(&mut tiny, &c2_keys()), Err(Smm2Error::InvalidLength));
}

#[test]
fn course2_modified_is_a_valid_date() {
    let data = c2_plain_course("Date");
    assert_eq!(get_modified(&data), Ok(1_561_766_340));
    let mut leap = c2_plain_course("Date");
    leap[MONTH_OFFSET] = 2;
    leap[DAY_OFFSET] = 29;
    assert_eq!(
        get_modified(&leap),
        Err(Smm2Error::InvalidDate { year: 2019, month: 2, day: 29, hour: 23, minute: 59 })
    );
    leap[YEAR_OFFSET..YEAR_OFFSET + 2].copy_from_slice(&2020u16.to_le_bytes());
    assert!(get_modified(&leap).is_ok());
    leap[HOUR_OFFSET] = 24;
    assert!(get_modified(&leap).is_err());
}

#[test]
fn course2_encryption() {
    let keys = c2_keys();
    let plain = c2_plain_course("Round trip");
    let mut expected = c2_encrypted_course("Round trip");
    assert_eq!(expected.len(), COURSE_LEN_ENCRYPTED);
    let sealed_file = expected.clone();
    let expected_course = Course2::from_switch_files(&mut expected, None, true, &keys).unwrap();

    let mut decrypted = sealed_file.clone();
    Course2::decrypt(&mut decrypted, &keys).unwrap();
    assert_eq!(decrypted[0x10..decrypted.len() - 0x30], plain[0x10..]);
    assert_eq!(decrypted[..8], plain[..8]);
    assert_eq!(decrypted[decrypted.len() - 0x30..], sealed_file[sealed_file.len() - 0x30..]);

    let mut encrypted = decrypted;
    Course2::encrypt(&mut encrypted, &keys).unwrap();
    assert_eq!(encrypted.len(), sealed_file.len());
    assert_eq!(encrypted, sealed_file);

    let course = Course2::from_switch_files(&mut encrypted, None, true, &keys).unwrap();
    assert_eq!(course.get_course(), expected_course.get_course());
    assert_eq!(course.get_course_data()[..100], expected_course.get_course_data()[..100]);
    assert_eq!(course.get_course().version, VERSION);
}

#[test]
fn course2_encrypt_preserved_gives_the_file_back() {
    let keys = c2_keys();
    for len in [16usize, 64, 16 + 160, COURSE_LEN - 48, COURSE_LEN] {
        let mut file: Vec<u8> = (0..len).map(|i| (i * 5 + 1) as u8).collect();
        Course2::encrypt_fresh(&mut file, &keys).unwrap();
        assert_eq!(file.len(), len + 48);
        let encrypted = file.clone();
        Course2::decrypt(&mut file, &keys).unwrap();
        assert_eq!(file == encrypted, len == 16);
        Course2::encrypt_preserved(&mut file, &keys).unwrap();
        assert_eq!(file, encrypted);
    }
}

#[test]
fn course2_encrypt_preserved_signs_a_changed_body() {
    let keys = c2_keys();
    let mut file = c2_encrypted_course("Changed");
    let encrypted = file.clone();
    Course2::decrypt(&mut file, &keys).unwrap();
    file[0x300] ^= 0xFF;
    let changed = file.clone();
    Course2::encrypt_preserved(&mut file, &keys).unwrap();
    assert_eq!(&file[COURSE_LEN..COURSE_LEN + 32], &encrypted[COURSE_LEN..COURSE_LEN + 32]);
    assert_ne!(&file[COURSE_LEN + 32..], &encrypted[COURSE_LEN + 32..]);
    Course2::decrypt(&mut file, &keys).unwrap();
    assert_eq!(&file[0x10..COURSE_LEN], &changed[0x10..COURSE_LEN]);
    assert_eq!(
        &file[8..12],
        &crc::crc32::checksum_ieee(&changed[0x10..COURSE_LEN]).to_le_bytes()
    );
}

#[test]
fn course2_encrypt_refuses_invalid_lengths() {
    let keys = c2_keys();
    for len in [0usize, 15, 17, 33] {
        let mut file = vec![3u8; len];
        assert_eq!(Course2::encrypt_fresh(&mut file, &keys), Err(Smm2Error::InvalidLength));
        assert_eq!(file, vec![3u8; len]);
    }
    for len in [0usize, 16, 63, 79, 81] {
        let mut file = vec![3u8; len];
        assert_eq!(Course2::encrypt_preserved(&mut file, &keys), Err(Smm2Error::InvalidLength));
        assert_eq!(Course2::decrypt(&mut file, &keys), Err(Smm2Error::InvalidLength));
        assert_eq!(file, vec![3u8; len]);
    }
}

#[test]
fn course2_encrypt_sets_the_checksum() {
    let keys = c2_keys();
    let plain = c2_plain_course("Checksum");
    let mut file = plain.clone();
    Course2::encrypt(&mut file, &keys).unwrap();
    Course2::decrypt(&mut file, &keys).unwrap();
    let body = &file[0x10..COURSE_LEN];
    let sum = crc::crc32::checksum_ieee(body);
    assert_eq!(&file[8..12], &sum.to_le_bytes());
    assert_eq!(body, &plain[0x10..]);
}

#[test]
fn course2_encrypt_with_is_deterministic() {
    let keys = c2_keys();
    let mut first = c2_plain_course("Same");
    let mut second = c2_plain_course("Same");
    Course2::encrypt_with(&mut first, &keys, &[1; 16], &[2; 16]).unwrap();
    Course2::encrypt_with(&mut second, &keys, &[1; 16], &[2; 16]).unwrap();
    assert_eq!(first, second);
    assert_eq!(&first[COURSE_LEN..COURSE_LEN + 16], &[1; 16]);
    assert_eq!(&first[COURSE_LEN + 16..COURSE_LEN + 32], &[2; 16]);
    assert_ne!(first[0x10..COURSE_LEN], c2_plain_course("Same")[0x10..]);
}

#[test]
fn course2_decrypt_reports_a_damaged_file() {
    let keys = c2_keys();
    let mut file = c2_encrypted_course("Damaged");
    file[0x100] ^= 0x80;
    assert!(matches!(
        Course2::decrypt(&mut file, &keys),
        Err(Smm2Error::CmacMismatch { .. })
    ));
    let mut again = c2_encrypted_course("Damaged");
    again[0x100] ^= 0x80;
    let res = Course2::from_switch_files(&mut again, None, true, &keys);
    assert!(matches!(res, Err(Smm2Error::CmacMismatch { .. })));
}

#[test]
fn course2_bad_modified() {
    let keys = c2_keys();
    let mut course_data = c2_encrypted_course("Bad date");
    Course2::decrypt(&mut course_data, &keys).unwrap();
    course_data[DAY_OFFSET] = 69;

    Course2::encrypt(&mut course_data, &keys).unwrap();

    let course = Course2::from_switch_files(&mut course_data, None, true, &keys);

    assert!(course.is_err());
    assert_eq!(
        course.err(),
        Some(Smm2Error::InvalidDate { year: 2019, month: 6, day: 69, hour: 23, minute: 59 })
    );
}

#[test]
fn course2_set_description() {
    let keys = c2_keys();
    let mut course = c2_course("Described");

    let description = "Hey there!".to_string();
    course.set_description(description.clone()).unwrap();
    assert_eq!(course.get_course().header.description, description);

    let course_res =
        Course2::from_switch_files(course.get_course_data_mut(), None, false, &keys).unwrap();

    assert_eq!(course_res.get_course().header.description, description);
    assert_eq!(course_res.get_course(), course.get_course());
}

#[test]
fn course2_set_description_writes_the_region() {
    let mut course = c2_course("Described");
    let before = course.get_course_data().clone();
    course.set_description("Hi".to_string()).unwrap();
    let after = course.get_course_data();
    assert_eq!(&after[DESCRIPTION_OFFSET..DESCRIPTION_OFFSET + 4], &[b'H', 0, b'i', 0]);
    assert!(after[DESCRIPTION_OFFSET + 4..DESCRIPTION_OFFSET + 150].iter().all(|b| *b == 0));
    assert_eq!(&after[..DESCRIPTION_OFFSET], &before[..DESCRIPTION_OFFSET]);
    assert_eq!(&after[DESCRIPTION_OFFSET + 150..], &before[DESCRIPTION_OFFSET + 150..]);
    assert_eq!(course.get_course().header.title, "Described");
}

#[test]
fn course2_set_description_changes_no_other_field() {
    let title = "t".repeat(33);
    let mut course = c2_course(&title);
    assert_eq!(course.get_course().header.title, title);
    let before = course.get_course().clone();
    course.set_description(String::new()).unwrap();
    let mut expected = before.clone();
    expected.header.description = String::new();
    assert_eq!(course.get_course(), &expected);
    course.set_description("x".repeat(75)).unwrap();
    expected.header.description = "x".repeat(75);
    assert_eq!(course.get_course(), &expected);
    course.set_description("cut\u{0}here".to_string()).unwrap();
    expected.header.description = "cut".to_string();
    assert_eq!(course.get_course(), &expected);
}

#[test]
fn course2_set_description_of_longest_length() {
    let mut course = c2_course("Described");
    let description = "d".repeat(75);
    course.set_description(description.clone()).unwrap();
    assert_eq!(course.get_course().header.description, description);
}

#[test]
fn course2_set_description_fail() {
    let mut course = c2_course("Described");
    let before = course.get_course_data().clone();

    let description =
        "This description is larger than seventy-five characters and results in an error!"
            .to_string();
    assert_eq!(description.len(), 80);
    let res = course.set_description(description.clone());
    assert!(matches!(
        res,
        Err(SmmdbError::Smm2Error(Smm2Error::StringTooLong(80)))
    ));
    assert_eq!(course.get_course_data(), &before);
    assert_eq!(course.get_course().header.description, "A course for tests");
}

#[test]
fn course2_set_description_counts_bytes() {
    let mut course = c2_course("Described");
    let description = "\u{3042}".repeat(26);
    assert_eq!(description.len(), 78);
    assert!(matches!(
        course.set_description(description),
        Err(SmmdbError::Smm2Error(Smm2Error::StringTooLong(78)))
    ));
}

#[test]
fn course2_set_smmdb_id() {
    let keys = c2_keys();
    let mut course = c2_course("Identified");

    let smmdb_id = "5f6850b100284286006b7c68".to_string();
    course.set_smmdb_id(smmdb_id.clone()).unwrap();
    assert_eq!(
        &course.get_course_data()[SMMDB_OFFSET..SMMDB_OFFSET_END],
        &[0x5f, 0x68, 0x50, 0xb1, 0x00, 0x28, 0x42, 0x86, 0x00, 0x6b, 0x7c, 0x68]
    );

    let course_res =
        Course2::from_switch_files(course.get_course_data_mut(), None, false, &keys).unwrap();

    assert_eq!(course_res.get_smmdb_id(), Some(smmdb_id));
    assert_eq!(course_res.get_course(), course.get_course());
}

#[test]
fn course2_set_smmdb_id_accepts_upper_case() {
    let mut course = c2_course("Identified");
    course.set_smmdb_id("5F6850B100284286006B7C68".to_string()).unwrap();
    assert_eq!(course.get_smmdb_id(), Some("5f6850b100284286006b7c68".to_string()));
}

#[test]
fn course2_set_smmdb_id_no_hex() {
    let mut course = c2_course("Identified");
    let before = course.get_course_data().clone();

    let smmdb_id = "xf6850b100284286006b7c68".to_string();
    let res = course.set_smmdb_id(smmdb_id);

    assert!(res.is_err());
    assert!(matches!(
        res,
        Err(SmmdbError::FromHex(hex::FromHexError::InvalidHexCharacter { c: 'x', index: 0 }))
    ));
    assert_eq!(course.get_course_data(), &before);
}

#[test]
fn course2_set_smmdb_id_of_wrong_length() {
    let mut course = c2_course("Identified");
    let before = course.get_course_data().clone();
    assert!(matches!(
        course.set_smmdb_id("5f6850b1".to_string()),
        Err(SmmdbError::FromHex(hex::FromHexError::InvalidStringLength))
    ));
    assert!(matches!(
        course.set_smmdb_id("5f6850b100284286006b7c6".to_string()),
        Err(SmmdbError::FromHex(hex::FromHexError::OddLength))
    ));
    assert!(matches!(
        course.set_smmdb_id("xyz".to_string()),
        Err(SmmdbError::FromHex(hex::FromHexError::OddLength))
    ));
    assert!(matches!(
        course.set_smmdb_id("5f6850b100284286006b7c\u{e9}".to_string()),
        Err(SmmdbError::FromHex(hex::FromHexError::InvalidHexCharacter { c: '\u{c3}', index: 22 }))
    ));
    assert_eq!(course.get_course_data(), &before);
}

#[test]
fn course2_get_smmdb_id_return_none_when_unset() {
    let course = c2_course("Unset");

    assert_eq!(course.get_smmdb_id(), None);
}

#[test]
fn course2_reset_clear_check() {
    let keys = c2_keys();
    let mut course = c2_course("Cleared");
    assert_eq!(course.get_course().header.management_flags & 0b10, 0b10);

    course.reset_clear_check();
    let new_course =
        Course2::from_switch_files(course.get_course_data_mut(), None, false, &keys).unwrap();

    assert_eq!(course.get_course().header.management_flags & 0b10, 0);
    assert_eq!(course.get_course().header.management_flags, 0x0102_0305);
    assert_eq!(course.get_course().header.clear_check_tries, 0);
    assert_eq!(course.get_course().header.clear_check_time, 0xffffffff);
    assert_eq!(course.get_course().header, new_course.get_course().header);
    assert_eq!(course.get_course(), new_course.get_course());
}

#[test]
fn course2_reset_clear_check_with_bit_already_clear() {
    let keys = c2_keys();
    let mut data = c2_plain_course("Cleared");
    data[MANAGEMENT_FLAGS_OFFSET..MANAGEMENT_FLAGS_OFFSET + 4]
        .copy_from_slice(&0x0000_0105u32.to_le_bytes());
    let mut course = Course2::from_switch_files(&mut data, None, false, &keys).unwrap();
    course.reset_clear_check();
    assert_eq!(course.get_course().header.management_flags, 0x0000_0105);
    assert_eq!(course.get_course().header.clear_check_tries, 0);
    assert_eq!(course.get_course().header.clear_check_time, 0xffffffff);
}

#[test]
fn course2_keeps_thumbnail_of_encrypted_files() {
    let keys = c2_keys();
    let jpeg = vec![0xFFu8, 0xD8, 0xFF, 0xE0, 1, 2, 3, 4];
    let thumb = Thumbnail2::from_decrypted(jpeg.clone(), &keys);
    let thumb_file = thumb.get_encrypted().clone();
    let mut data = c2_encrypted_course("With thumbnail");
    let course =
        Course2::from_switch_files(&mut data, Some(thumb_file.clone()), true, &keys).unwrap();
    let kept = course.get_course_thumb().unwrap();
    assert_eq!(kept.get_encrypted(), &thumb_file);
    assert_eq!(&kept.get_jpeg()[..8], &jpeg[..]);

    let mut plain = c2_plain_course("With thumbnail");
    let course = Course2::from_switch_files(&mut plain, Some(jpeg.clone()), false, &keys).unwrap();
    assert_eq!(course.get_course_thumb().unwrap().get_jpeg(), &jpeg[..]);

    let mut data = c2_encrypted_course("With thumbnail");
    let mut broken = thumb_file;
    broken[5] ^= 1;
    let res = Course2::from_switch_files(&mut data, Some(broken), true, &keys);
    assert!(matches!(res, Err(Smm2Error::CmacMismatch { .. })));
}
