use smmdb::constants::{
    AUTO_SCROLL_OFFSET, COURSE_SIZE, COURSE_THEME_OFFSET, DAY_OFFSET, GAME_STYLE_OFFSET,
    HOUR_OFFSET, MAKER_OFFSET, MINUTE_OFFSET, MONTH_OFFSET, SOUND_DEFAULT, SOUND_OFFSET,
    SOUND_OFFSET_END, SOUND_SIZE, TILES_OFFSET, TILE_AMOUNT_OFFSET, TILE_SIZE, TIME_OFFSET,
    TITLE_OFFSET, WIDTH_OFFSET, YEAR_OFFSET,
};
use smmdb::course::Course;
use smmdb::errors::{SmmError, SmmdbError};
use smmdb::proto::smm_course::{AutoScroll, CourseTheme, GameStyle};
use smmdb::proto::sound::Sound;
use smmdb::proto::tile::Tile;
use std::io::{Cursor, Write};

fn c1_put_text(data: &mut [u8], at: usize, text: &str) {
    for (i, unit) in text.encode_utf16().enumerate() {
        data[at + 2 * i] = unit as u8;
        data[at + 2 * i + 1] = (unit >> 8) as u8;
    }
}

fn c1_area(theme: u8, tiles: u16) -> Vec<u8> {
    let mut data = vec![0u8; COURSE_SIZE];
    data[YEAR_OFFSET..YEAR_OFFSET + 2].copy_from_slice(&2015u16.to_be_bytes());
    data[MONTH_OFFSET] = 9;
    data[DAY_OFFSET] = 11;
    data[HOUR_OFFSET] = 8;
    data[MINUTE_OFFSET] = 30;
    c1_put_text(&mut data, TITLE_OFFSET, "My course");
    c1_put_text(&mut data, MAKER_OFFSET, "Maker");
    data[GAME_STYLE_OFFSET] = b'M';
    data[GAME_STYLE_OFFSET + 1] = b'W';
    data[COURSE_THEME_OFFSET] = theme;
    data[TIME_OFFSET..TIME_OFFSET + 2].copy_from_slice(&300u16.to_be_bytes());
    data[AUTO_SCROLL_OFFSET] = 2;
    data[WIDTH_OFFSET..WIDTH_OFFSET + 2].copy_from_slice(&(0x0100 + theme as u16).to_be_bytes());
    data[TILE_AMOUNT_OFFSET..TILE_AMOUNT_OFFSET + 2].copy_from_slice(&tiles.to_be_bytes());
    for tile in 0..tiles as usize {
        for byte in 0..TILE_SIZE {
            data[TILES_OFFSET + tile * TILE_SIZE + byte] = (tile * 3 + byte) as u8;
        }
    }
    let mut offset = SOUND_OFFSET;
    while offset < SOUND_OFFSET_END {
        data[offset..offset + SOUND_SIZE].copy_from_slice(&SOUND_DEFAULT);
        offset += SOUND_SIZE;
    }
    data
}

fn c1_thumbnail(payload: &[u8]) -> Vec<u8> {
    let mut data = vec![0xAAu8; 4];
    data.extend_from_slice(&(payload.len() as u32).to_be_bytes());
    data.extend_from_slice(payload);
    data.extend_from_slice(&[0xEE; 7]);
    data
}

fn c1_course() -> Course {
    Course::from_wii_u_files(
        &c1_area(1, 3),
        &c1_area(4, 1),
        &c1_thumbnail(&[1, 2, 3]),
        &c1_thumbnail(&[4, 5]),
    )
    .unwrap()
}

#[test]
fn course_from_wii_u_files() {
    let course = c1_course();
    let record = course.get_course();
    assert_eq!(record.modified, 1_441_960_200);
    assert_eq!(record.title, "My course");
    assert_eq!(record.maker, "Maker");
    assert_eq!(record.game_style, GameStyle::MW);
    assert_eq!(record.course_theme, CourseTheme::Underground);
    assert_eq!(record.course_theme_sub, CourseTheme::Underwater);
    assert_eq!(record.time, 300);
    assert_eq!(record.auto_scroll, AutoScroll::Medium);
    assert_eq!(record.auto_scroll_sub, AutoScroll::Medium);
    assert_eq!(record.width, 0x0101);
    assert_eq!(record.width_sub, 0x0104);
    assert_eq!(record.tiles.len(), 3);
    assert_eq!(record.tiles_sub.len(), 1);
    for (index, tile) in record.tiles.iter().enumerate() {
        let expected: Vec<u8> = (0..TILE_SIZE).map(|byte| (index * 3 + byte) as u8).collect();
        assert_eq!(tile.tile_data, expected);
    }
    assert_eq!(record.sounds.len(), 0);
    assert_eq!(record.thumbnail, vec![1, 2, 3]);
    assert_eq!(record.thumbnail_preview, vec![4, 5]);
}

#[test]
fn course_reads_sounds_and_skips_the_default() {
    let mut data = c1_area(0, 0);
    data[SOUND_OFFSET + 8..SOUND_OFFSET + 16].copy_from_slice(&[5, 0, 1, 10, 20, 0, 0, 0]);
    data[SOUND_OFFSET + 24..SOUND_OFFSET + 32]
        .copy_from_slice(&[0xFF, 0x01, 0, 0xFF, 0xFF, 0, 0, 0]);
    data[SOUND_OFFSET_END - 8..SOUND_OFFSET_END].copy_from_slice(&[7, 0, 0, 30, 40, 0, 0, 1]);
    let sounds = Course::get_sounds(&data);
    assert_eq!(
        sounds,
        vec![
            Sound { x: 10, y: 20, sound_type: 5, variation: true },
            Sound { x: 255, y: 255, sound_type: 255, variation: false },
            Sound { x: 30, y: 40, sound_type: 7, variation: false },
        ]
    );
    let quiet = c1_area(0, 0);
    assert_eq!(Course::get_sounds(&quiet), Vec::new());
}

#[test]
fn course_reads_as_many_tiles_as_counted() {
    let data = c1_area(0, 2);
    let tiles = Course::get_tiles(&data).unwrap();
    assert_eq!(tiles.len(), 2);
    assert_eq!(tiles[1].tile_data[0], 3);
    let mut many = c1_area(0, 0);
    many[TILE_AMOUNT_OFFSET..TILE_AMOUNT_OFFSET + 2].copy_from_slice(&0xFFFFu16.to_be_bytes());
    assert_eq!(Course::get_tiles(&many), None);
    let res = Course::from_wii_u_files(&many, &c1_area(0, 0), &c1_thumbnail(&[]), &c1_thumbnail(&[]));
    assert_eq!(res.err(), Some(SmmError::InvalidLength));
}

#[test]
fn course_reads_thumbnail_payload() {
    assert_eq!(Course::get_thumbnail(&c1_thumbnail(&[9, 8, 7])), Some(vec![9, 8, 7]));
    assert_eq!(Course::get_thumbnail(&c1_thumbnail(&[])), Some(vec![]));
    assert_eq!(Course::get_thumbnail(&[0, 0, 0, 0, 0, 0, 0]), None);
    assert_eq!(Course::get_thumbnail(&[0, 0, 0, 0, 0, 0, 0, 2, 1]), None);
    assert_eq!(Course::get_thumbnail(&[0, 0, 0, 0, 0, 0, 0, 1, 1]), Some(vec![1]));
}

#[test]
fn course_errors() {
    let thumb = c1_thumbnail(&[1]);
    let sub = c1_area(0, 0);
    let short = vec![0u8; COURSE_SIZE - 1];
    let res = Course::from_wii_u_files(&short, &sub, &thumb, &thumb);
    assert_eq!(res.err(), Some(SmmError::InvalidLength));

    let mut data = c1_area(0, 0);
    data[MONTH_OFFSET] = 0;
    let res = Course::from_wii_u_files(&data, &sub, &thumb, &thumb);
    assert_eq!(
        res.err(),
        Some(SmmError::InvalidDate { year: 2015, month: 0, day: 11, hour: 8, minute: 30 })
    );

    let mut data = c1_area(0, 0);
    data[GAME_STYLE_OFFSET] = b'3';
    data[GAME_STYLE_OFFSET + 1] = b'W';
    let res = Course::from_wii_u_files(&data, &sub, &thumb, &thumb);
    assert_eq!(res.err(), Some(SmmError::GameStyleParse));

    let res = Course::from_wii_u_files(&c1_area(6, 0), &sub, &thumb, &thumb);
    assert_eq!(res.err(), Some(SmmError::CourseThemeParse));
    let res = Course::from_wii_u_files(&sub, &c1_area(6, 0), &thumb, &thumb);
    assert_eq!(res.err(), Some(SmmError::CourseThemeParse));

    let mut data = c1_area(0, 0);
    data[AUTO_SCROLL_OFFSET] = 5;
    let res = Course::from_wii_u_files(&sub, &data, &thumb, &thumb);
    assert_eq!(res.err(), Some(SmmError::AutoScrollParse));

    let res = Course::from_wii_u_files(&sub, &sub, &thumb, &[1, 2, 3]);
    assert_eq!(res.err(), Some(SmmError::InvalidLength));
}

#[test]
fn course_setters() {
    let mut course = c1_course();
    course.set_modified(120);
    course.set_tiles(vec![Tile { tile_data: vec![1; 32] }]);
    course.set_thumbnail(vec![1]);
    course.set_thumbnail_preview(vec![2]);
    assert_eq!(course.get_course().modified, 120);
    assert_eq!(course.get_course().tiles, vec![Tile { tile_data: vec![1; 32] }]);
    assert_eq!(course.get_course().thumbnail, vec![1]);
    assert_eq!(course.get_course().thumbnail_preview, vec![2]);
    course.get_course_mut().time = 7;
    let record = course.take_course();
    assert_eq!(record.time, 7);
    assert_eq!(record.title, "My course");
}

fn c1_zip(folders: &[&str], complete: bool) -> Vec<u8> {
    let mut zip = zip::ZipWriter::new(Cursor::new(Vec::new()));
    let options =
        zip::write::FileOptions::default().compression_method(zip::CompressionMethod::Deflated);
    for folder in folders {
        zip.add_directory(*folder, options).unwrap();
        zip.start_file(format!("{}/course_data.cdt", folder), options).unwrap();
        zip.write_all(&c1_area(1, 3)).unwrap();
        zip.start_file(format!("{}/course_data_sub.cdt", folder), options).unwrap();
        zip.write_all(&c1_area(4, 1)).unwrap();
        zip.start_file(format!("{}/thumbnail0.tnl", folder), options).unwrap();
        zip.write_all(&c1_thumbnail(&[1, 2, 3])).unwrap();
        if complete {
            zip.start_file(format!("{}/thumbnail1.tnl", folder), options).unwrap();
            zip.write_all(&c1_thumbnail(&[4, 5])).unwrap();
        }
    }
    zip.finish().unwrap().into_inner()
}

#[test]
fn course_from_packed() {
    let courses = Course::from_packed(&c1_zip(&["course000"], true)).unwrap();
    assert_eq!(courses.len(), 1);
    assert_eq!(courses[0], c1_course());

    let courses = Course::from_packed(&c1_zip(&["a/course001", "other", "course12"], true)).unwrap();
    assert_eq!(courses.len(), 1);
}

#[test]
fn course_from_packed_errors() {
    assert!(matches!(
        Course::from_packed(&c1_zip(&["course000"], false)),
        Err(SmmdbError::Zip(_))
    ));
    let gif = b"GIF89a\x01\x00\x01\x00";
    match Course::from_packed(gif) {
        Err(SmmdbError::MimeTypeUnsupported(mime)) => assert_eq!(mime, "image/gif"),
        other => panic!("unexpected result {:?}", other.map(|courses| courses.len())),
    }
}
