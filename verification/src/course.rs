//! Super Mario Maker (Wii U) course files.

use crate::calendar::{timestamp, timestamp_of, valid_calendar};
use crate::constants::{
    AUTO_SCROLL_OFFSET, COURSE_SIZE, COURSE_THEME_OFFSET, DAY_OFFSET, GAME_STYLE_OFFSET,
    HOUR_OFFSET, MAKER_OFFSET, MAKER_OFFSET_END, MINUTE_OFFSET, MONTH_OFFSET, SOUND_COUNT,
    SOUND_DEFAULT, SOUND_OFFSET, SOUND_SIZE, SOUND_TYPE_OFFSET, SOUND_VARIATION_OFFSET,
    SOUND_X_OFFSET, SOUND_Y_OFFSET, THUMBNAIL_LENGTH_OFFSET, THUMBNAIL_OFFSET, TILES_OFFSET,
    TILE_AMOUNT_OFFSET, TILE_SIZE, TIME_OFFSET, TITLE_OFFSET, TITLE_OFFSET_END, WIDTH_OFFSET,
    YEAR_OFFSET,
};
use crate::archive::{
    assets_view, expect_zip, sniffed_mime, zip_course_assets, zip_course_assets_of, CourseAssets,
    CourseAssetsView,
};
use crate::encryption::bytes_equal;
use crate::errors::{SmmError, SmmdbError};
use crate::proto::smm_course::{AutoScroll, CourseTheme, GameStyle, SMMCourse, SMMCourseView};
use crate::proto::sound::Sound;
use crate::proto::tile::{tiles_view, Tile};
use crate::text::{get_utf16_string_from_slice, text_of_region};
use crate::wire::{be_u16, be_u32, copy_range, read_u16_be, read_u32_be};
use vstd::prelude::*;

verus! {

/// The timestamp that the five calendar fields of a course stand for.
pub open spec fn parsed_modified(data: Seq<u8>) -> Result<u64, SmmError> {
    let year = be_u16(data, YEAR_OFFSET as int);
    let month = data[MONTH_OFFSET as int];
    let day = data[DAY_OFFSET as int];
    let hour = data[HOUR_OFFSET as int];
    let minute = data[MINUTE_OFFSET as int];
    match timestamp_of(year, month, day, hour, minute) {
        Some(secs) => Ok(secs),
        None => Err(SmmError::InvalidDate { year, month, day, hour, minute }),
    }
}

/// The tiles of an area: as many records of 32 bytes as the tile count says,
/// or `None` where the file ends in front of the last of them.
pub open spec fn parsed_tiles(data: Seq<u8>) -> Option<Seq<Seq<u8>>> {
    let amount = be_u16(data, TILE_AMOUNT_OFFSET as int) as int;
    if TILES_OFFSET + amount * TILE_SIZE <= data.len() {
        Some(
            Seq::new(
                amount as nat,
                |i: int| data.subrange(TILES_OFFSET + i * TILE_SIZE, TILES_OFFSET + (i + 1) * TILE_SIZE),
            ),
        )
    } else {
        None
    }
}

/// The `k`-th entry of the sound table.
pub open spec fn sound_entry(data: Seq<u8>, k: int) -> Seq<u8> {
    data.subrange(SOUND_OFFSET + k * SOUND_SIZE, SOUND_OFFSET + (k + 1) * SOUND_SIZE)
}

/// The sound that an entry of the sound table stands for.
pub open spec fn sound_of(entry: Seq<u8>) -> Sound {
    Sound {
        x: entry[SOUND_X_OFFSET as int] as u32,
        y: entry[SOUND_Y_OFFSET as int] as u32,
        sound_type: entry[SOUND_TYPE_OFFSET as int] as u32,
        variation: entry[SOUND_VARIATION_OFFSET as int] != 0,
    }
}

/// The sounds of the first `n` entries of the sound table, in order; an
/// entry that equals the reserved pattern stands for no sound.
pub open spec fn sounds_upto(data: Seq<u8>, n: nat) -> Seq<Sound>
    decreases n,
{
    if n == 0 {
        Seq::empty()
    } else if sound_entry(data, n - 1) == SOUND_DEFAULT@ {
        sounds_upto(data, (n - 1) as nat)
    } else {
        sounds_upto(data, (n - 1) as nat).push(sound_of(sound_entry(data, n - 1)))
    }
}

/// The sounds of an area.
pub open spec fn parsed_sounds(data: Seq<u8>) -> Seq<Sound> {
    sounds_upto(data, SOUND_COUNT as nat)
}

/// The payload of a thumbnail file: as many bytes from offset 8 on as the
/// big-endian length at offset 4 says, or `None` where the file is shorter.
pub open spec fn parsed_thumbnail(data: Seq<u8>) -> Option<Seq<u8>> {
    if data.len() >= THUMBNAIL_OFFSET && THUMBNAIL_OFFSET + be_u32(
        data,
        THUMBNAIL_LENGTH_OFFSET as int,
    ) <= data.len() {
        Some(
            data.subrange(
                THUMBNAIL_OFFSET as int,
                THUMBNAIL_OFFSET + be_u32(data, THUMBNAIL_LENGTH_OFFSET as int),
            ),
        )
    } else {
        None
    }
}

/// The record that the four files of a course hold. The first part that
/// cannot be read decides the error.
#[verifier::opaque]
pub open spec fn parsed_course(
    data: Seq<u8>,
    data_sub: Seq<u8>,
    thumbnail: Seq<u8>,
    thumbnail_preview: Seq<u8>,
) -> Result<SMMCourseView, SmmError> {
    let modified = parsed_modified(data);
    let game_style = GameStyle::of_tag(data[GAME_STYLE_OFFSET as int], data[GAME_STYLE_OFFSET + 1]);
    let course_theme = CourseTheme::of_i32(data[COURSE_THEME_OFFSET as int] as i32);
    let course_theme_sub = CourseTheme::of_i32(data_sub[COURSE_THEME_OFFSET as int] as i32);
    let auto_scroll = AutoScroll::of_i32(data[AUTO_SCROLL_OFFSET as int] as i32);
    let auto_scroll_sub = AutoScroll::of_i32(data_sub[AUTO_SCROLL_OFFSET as int] as i32);
    let tiles = parsed_tiles(data);
    let tiles_sub = parsed_tiles(data_sub);
    let image = parsed_thumbnail(thumbnail);
    let image_preview = parsed_thumbnail(thumbnail_preview);
    if data.len() < COURSE_SIZE || data_sub.len() < COURSE_SIZE {
        Err(SmmError::InvalidLength)
    } else if modified is Err {
        Err(modified->Err_0)
    } else if game_style is None {
        Err(SmmError::GameStyleParse)
    } else if course_theme is None || course_theme_sub is None {
        Err(SmmError::CourseThemeParse)
    } else if auto_scroll is None || auto_scroll_sub is None {
        Err(SmmError::AutoScrollParse)
    } else if tiles is None || tiles_sub is None || image is None || image_preview is None {
        Err(SmmError::InvalidLength)
    } else {
        Ok(
            SMMCourseView {
                modified: modified->Ok_0,
                title: text_of_region(data.subrange(TITLE_OFFSET as int, TITLE_OFFSET_END as int)),
                maker: text_of_region(data.subrange(MAKER_OFFSET as int, MAKER_OFFSET_END as int)),
                game_style: game_style->0,
                course_theme: course_theme->0,
                course_theme_sub: course_theme_sub->0,
                time: be_u16(data, TIME_OFFSET as int) as u32,
                auto_scroll: auto_scroll->0,
                auto_scroll_sub: auto_scroll_sub->0,
                width: be_u16(data, WIDTH_OFFSET as int) as u32,
                width_sub: be_u16(data_sub, WIDTH_OFFSET as int) as u32,
                tiles: tiles->0,
                tiles_sub: tiles_sub->0,
                sounds: parsed_sounds(data),
                sounds_sub: parsed_sounds(data_sub),
                thumbnail: image->0,
                thumbnail_preview: image_preview->0,
            },
        )
    }
}

/// What an exec result says of a course, texts and lists taken as sequences.
pub open spec fn course_result_view(res: Result<Course, SmmError>) -> Result<
    SMMCourseView,
    SmmError,
> {
    match res {
        Ok(course) => Ok(course.course_view()),
        Err(e) => Err(e),
    }
}

/// Every sound that is read stands in an entry that differs from the
/// reserved pattern: the reserved pattern itself gives no sound.
pub proof fn lemma_sounds_skip_default(data: Seq<u8>, n: nat)
    ensures
        forall|i: int|
            0 <= i < sounds_upto(data, n).len() ==> exists|k: int|
                0 <= k < n && sound_entry(data, k) != SOUND_DEFAULT@ && #[trigger] sounds_upto(
                    data,
                    n,
                )[i] == sound_of(sound_entry(data, k)),
        sounds_upto(data, n).len() <= n,
    decreases n,
{
    if n > 0 {
        let prev = sounds_upto(data, (n - 1) as nat);
        lemma_sounds_skip_default(data, (n - 1) as nat);
        assert forall|i: int| 0 <= i < sounds_upto(data, n).len() implies exists|k: int|
            0 <= k < n && sound_entry(data, k) != SOUND_DEFAULT@ && #[trigger] sounds_upto(data, n)[i]
                == sound_of(sound_entry(data, k)) by {
            if i < prev.len() {
                let k = choose|k: int|
                    0 <= k < n - 1 && sound_entry(data, k) != SOUND_DEFAULT@ && prev[i] == sound_of(
                        sound_entry(data, k),
                    );
                assert(0 <= k < n && sound_entry(data, k) != SOUND_DEFAULT@ && sounds_upto(data, n)[i]
                    == sound_of(sound_entry(data, k)));
            } else {
                let k = n - 1;
                assert(0 <= k < n && sound_entry(data, k) != SOUND_DEFAULT@ && sounds_upto(data, n)[i]
                    == sound_of(sound_entry(data, k)));
            }
        }
    }
}

/// A Super Mario Maker course.
#[derive(Clone, Debug, PartialEq, Eq)]
pub struct Course {
    course: SMMCourse,
}

impl Course {
    /// The record.
    pub closed spec fn course_view(&self) -> SMMCourseView {
        self.course@
    }

    /// The inner record.
    pub fn get_course(&self) -> (course: &SMMCourse)
        ensures
            course@ == self.course_view(),
    {
        &self.course
    }

    /// The inner record, to be changed in place.
    pub fn get_course_mut(&mut self) -> (course: &mut SMMCourse)
        ensures
            course@ == old(self).course_view(),
            final(self).course_view() == final(course)@,
    {
        &mut self.course
    }

    /// Consumes the course and gives its record.
    pub fn take_course(self) -> (course: SMMCourse)
        ensures
            course@ == self.course_view(),
    {
        self.course
    }

    /// Sets the time of the last change, in seconds since the epoch.
    pub fn set_modified(&mut self, modified: u64)
        ensures
            final(self).course_view() == (SMMCourseView { modified, ..old(self).course_view() }),
    {
        self.course.modified = modified;
    }

    /// Sets the tiles of the main area.
    pub fn set_tiles(&mut self, tiles: Vec<Tile>)
        ensures
            final(self).course_view() == (SMMCourseView {
                tiles: tiles_view(tiles@),
                ..old(self).course_view()
            }),
    {
        self.course.tiles = tiles;
    }

    /// Sets the thumbnail.
    pub fn set_thumbnail(&mut self, thumbnail: Vec<u8>)
        ensures
            final(self).course_view() == (SMMCourseView {
                thumbnail: thumbnail@,
                ..old(self).course_view()
            }),
    {
        self.course.thumbnail = thumbnail;
    }

    /// Sets the preview of the thumbnail.
    pub fn set_thumbnail_preview(&mut self, thumbnail: Vec<u8>)
        ensures
            final(self).course_view() == (SMMCourseView {
                thumbnail_preview: thumbnail@,
                ..old(self).course_view()
            }),
    {
        self.course.thumbnail_preview = thumbnail;
    }

    /// Reads the time of the last save.
    ///
    /// The date that is accepted exists in the calendar, and its hour and
    /// minute on the clock.
    pub fn get_modified(course_data: &[u8]) -> (res: Result<u64, SmmError>)
        requires
            course_data@.len() >= COURSE_SIZE,
        ensures
            res == parsed_modified(course_data@),
            res is Ok <==> valid_calendar(
                be_u16(course_data@, YEAR_OFFSET as int),
                course_data@[MONTH_OFFSET as int],
                course_data@[DAY_OFFSET as int],
                course_data@[HOUR_OFFSET as int],
                course_data@[MINUTE_OFFSET as int],
            ),
    {
        let year: u16 = read_u16_be(course_data, YEAR_OFFSET);
        let month: u8 = course_data[MONTH_OFFSET];
        let day: u8 = course_data[DAY_OFFSET];
        let hour: u8 = course_data[HOUR_OFFSET];
        let minute: u8 = course_data[MINUTE_OFFSET];
        match timestamp(year, month, day, hour, minute) {
            Some(secs) => Ok(secs),
            None => Err(SmmError::InvalidDate { year, month, day, hour, minute }),
        }
    }

    /// Reads the tiles of an area: as many as the tile count says.
    pub fn get_tiles(slice: &[u8]) -> (res: Option<Vec<Tile>>)
        requires
            slice@.len() >= COURSE_SIZE,
        ensures
            match res {
                Some(tiles) => parsed_tiles(slice@) == Some(tiles_view(tiles@)),
                None => parsed_tiles(slice@) is None,
            },
    {
        let tile_amount: usize = read_u16_be(slice, TILE_AMOUNT_OFFSET) as usize;
        if TILES_OFFSET + tile_amount * TILE_SIZE > slice.len() {
            return None;
        }
        let mut tiles: Vec<Tile> = Vec::new();
        let mut i: usize = 0;
        while i < tile_amount
            invariant
                0 <= i <= tile_amount <= 0xFFFF,
                TILES_OFFSET + tile_amount * TILE_SIZE <= slice@.len(),
                tiles@.len() == i,
                forall|k: int|
                    0 <= k < i ==> (#[trigger] tiles@[k])@ == slice@.subrange(
                        TILES_OFFSET + k * TILE_SIZE,
                        TILES_OFFSET + (k + 1) * TILE_SIZE,
                    ),
            decreases tile_amount - i,
        {
            let offset: usize = TILES_OFFSET + i * TILE_SIZE;
            let tile_data: Vec<u8> = copy_range(slice, offset, offset + TILE_SIZE);
            tiles.push(Tile { tile_data });
            i += 1;
        }
        assert(tiles_view(tiles@) =~= parsed_tiles(slice@)->0);
        Some(tiles)
    }

    /// Reads the sounds of an area. An entry that equals the reserved
    /// pattern is passed over, so each sound that is read stands in an entry
    /// that differs from it.
    pub fn get_sounds(slice: &[u8]) -> (sounds: Vec<Sound>)
        requires
            slice@.len() >= COURSE_SIZE,
        ensures
            sounds@ == parsed_sounds(slice@),
            forall|i: int|
                0 <= i < sounds@.len() ==> exists|k: int|
                    0 <= k < SOUND_COUNT && sound_entry(slice@, k) != SOUND_DEFAULT@
                        && #[trigger] sounds@[i] == sound_of(sound_entry(slice@, k)),
    {
        let mut sounds: Vec<Sound> = Vec::new();
        let mut k: usize = 0;
        while k < SOUND_COUNT
            invariant
                0 <= k <= SOUND_COUNT,
                slice@.len() >= COURSE_SIZE,
                sounds@ == sounds_upto(slice@, k as nat),
            decreases SOUND_COUNT - k,
        {
            let offset: usize = SOUND_OFFSET + k * SOUND_SIZE;
            let sound_data: Vec<u8> = copy_range(slice, offset, offset + SOUND_SIZE);
            assert(sound_data@ == sound_entry(slice@, k as int));
            if !bytes_equal(sound_data.as_slice(), SOUND_DEFAULT.as_slice()) {
                let sound = Sound {
                    x: sound_data[SOUND_X_OFFSET] as u32,
                    y: sound_data[SOUND_Y_OFFSET] as u32,
                    sound_type: sound_data[SOUND_TYPE_OFFSET] as u32,
                    variation: sound_data[SOUND_VARIATION_OFFSET] != 0,
                };
                sounds.push(sound);
            }
            k += 1;
        }
        proof {
            lemma_sounds_skip_default(slice@, SOUND_COUNT as nat);
        }
        sounds
    }

    /// Reads the payload of a thumbnail file.
    pub fn get_thumbnail(slice: &[u8]) -> (res: Option<Vec<u8>>)
        ensures
            match res {
                Some(image) => parsed_thumbnail(slice@) == Some(image@),
                None => parsed_thumbnail(slice@) is None,
            },
    {
        if slice.len() < THUMBNAIL_OFFSET {
            return None;
        }
        let length: usize = read_u32_be(slice, THUMBNAIL_LENGTH_OFFSET) as usize;
        if length > slice.len() - THUMBNAIL_OFFSET {
            return None;
        }
        Some(copy_range(slice, THUMBNAIL_OFFSET, THUMBNAIL_OFFSET + length))
    }

    /// Reads a course from the files of its two areas and its two
    /// thumbnails.
    pub fn from_wii_u_files(
        course_data: &[u8],
        course_data_sub: &[u8],
        thumbnail: &[u8],
        thumbnail_preview: &[u8],
    ) -> (res: Result<Course, SmmError>)
        ensures
            course_result_view(res) == parsed_course(
                course_data@,
                course_data_sub@,
                thumbnail@,
                thumbnail_preview@,
            ),
    {
        reveal(parsed_course);
        if course_data.len() < COURSE_SIZE || course_data_sub.len() < COURSE_SIZE {
            return Err(SmmError::InvalidLength);
        }
        let modified: u64 = match Self::get_modified(course_data) {
            Ok(secs) => secs,
            Err(e) => {
                return Err(e);
            },
        };
        let title_region: Vec<u8> = copy_range(course_data, TITLE_OFFSET, TITLE_OFFSET_END);
        let title: String = get_utf16_string_from_slice(title_region.as_slice());
        let maker_region: Vec<u8> = copy_range(course_data, MAKER_OFFSET, MAKER_OFFSET_END);
        let maker: String = get_utf16_string_from_slice(maker_region.as_slice());
        let game_style: GameStyle = match GameStyle::from_tag(
            course_data[GAME_STYLE_OFFSET],
            course_data[GAME_STYLE_OFFSET + 1],
        ) {
            Some(style) => style,
            None => {
                return Err(SmmError::GameStyleParse);
            },
        };
        let course_theme: CourseTheme = match CourseTheme::from_i32(
            course_data[COURSE_THEME_OFFSET] as i32,
        ) {
            Some(theme) => theme,
            None => {
                return Err(SmmError::CourseThemeParse);
            },
        };
        let course_theme_sub: CourseTheme = match CourseTheme::from_i32(
            course_data_sub[COURSE_THEME_OFFSET] as i32,
        ) {
            Some(theme) => theme,
            None => {
                return Err(SmmError::CourseThemeParse);
            },
        };
        let time: u32 = read_u16_be(course_data, TIME_OFFSET) as u32;
        let auto_scroll: AutoScroll = match AutoScroll::from_i32(
            course_data[AUTO_SCROLL_OFFSET] as i32,
        ) {
            Some(scroll) => scroll,
            None => {
                return Err(SmmError::AutoScrollParse);
            },
        };
        let auto_scroll_sub: AutoScroll = match AutoScroll::from_i32(
            course_data_sub[AUTO_SCROLL_OFFSET] as i32,
        ) {
            Some(scroll) => scroll,
            None => {
                return Err(SmmError::AutoScrollParse);
            },
        };
        let width: u32 = read_u16_be(course_data, WIDTH_OFFSET) as u32;
        let width_sub: u32 = read_u16_be(course_data_sub, WIDTH_OFFSET) as u32;
        let tiles: Vec<Tile> = match Self::get_tiles(course_data) {
            Some(tiles) => tiles,
            None => {
                return Err(SmmError::InvalidLength);
            },
        };
        let tiles_sub: Vec<Tile> = match Self::get_tiles(course_data_sub) {
            Some(tiles) => tiles,
            None => {
                return Err(SmmError::InvalidLength);
            },
        };
        let sounds: Vec<Sound> = Self::get_sounds(course_data);
        let sounds_sub: Vec<Sound> = Self::get_sounds(course_data_sub);
        let thumbnail: Vec<u8> = match Self::get_thumbnail(thumbnail) {
            Some(image) => image,
            None => {
                return Err(SmmError::InvalidLength);
            },
        };
        let thumbnail_preview: Vec<u8> = match Self::get_thumbnail(thumbnail_preview) {
            Some(image) => image,
            None => {
                return Err(SmmError::InvalidLength);
            },
        };
        Ok(
            Course {
                course: SMMCourse {
                    modified,
                    title,
                    maker,
                    game_style,
                    course_theme,
                    course_theme_sub,
                    time,
                    auto_scroll,
                    auto_scroll_sub,
                    width,
                    width_sub,
                    tiles,
                    tiles_sub,
                    sounds,
                    sounds_sub,
                    thumbnail,
                    thumbnail_preview,
                },
            },
        )
    }
    /// The courses are those of the first `n` course folders whose files can
    /// be read, in their order.
    pub open spec fn are_of_assets(courses: Seq<Course>, assets: Seq<CourseAssetsView>, n: int) -> bool
        decreases n,
    {
        if n <= 0 {
            courses.len() == 0
        } else {
            let parsed = parsed_course(
                assets[n - 1].course_data,
                assets[n - 1].course_data_sub,
                assets[n - 1].thumbnail_0,
                assets[n - 1].thumbnail_1,
            );
            if parsed is Ok {
                courses.len() > 0 && courses.last().course_view() == parsed->Ok_0
                    && Self::are_of_assets(courses.drop_last(), assets, n - 1)
            } else {
                Self::are_of_assets(courses, assets, n - 1)
            }
        }
    }

    /// Reads all courses of a packed buffer: a ZIP archive with a folder for
    /// each course.
    ///
    /// A course whose files cannot be read as a course is passed over. A
    /// buffer of another kind is refused with the kind that it shows.
    pub fn from_packed(buffer: &[u8]) -> (res: Result<Vec<Course>, SmmdbError>)
        ensures
            match sniffed_mime(buffer@) {
                Some(mime) => if mime == "application/zip"@ {
                    match zip_course_assets_of(buffer@) {
                        Some(assets) => res matches Ok(courses) && Self::are_of_assets(
                            courses@,
                            assets,
                            assets.len() as int,
                        ),
                        None => res matches Err(SmmdbError::Zip(_)),
                    }
                } else {
                    res matches Err(SmmdbError::MimeTypeUnsupported(text)) && text@ == mime
                },
                None => res matches Err(SmmdbError::MimeTypeUnsupported(text)) && text@
                    == Seq::<char>::empty(),
            },
    {
        match expect_zip(buffer) {
            Ok(()) => {},
            Err(e) => {
                return Err(e);
            },
        }
        let assets: Vec<CourseAssets> = match zip_course_assets(buffer) {
            Ok(assets) => assets,
            Err(e) => {
                return Err(SmmdbError::Zip(e));
            },
        };
        let mut courses: Vec<Course> = Vec::new();
        let mut i: usize = 0;
        while i < assets.len()
            invariant
                0 <= i <= assets@.len(),
                Self::are_of_assets(courses@, assets_view(assets@), i as int),
            decreases assets@.len() - i,
        {
            match Self::from_wii_u_files(
                assets[i].course_data.as_slice(),
                assets[i].course_data_sub.as_slice(),
                assets[i].thumbnail_0.as_slice(),
                assets[i].thumbnail_1.as_slice(),
            ) {
                Ok(course) => {
                    let ghost before = courses@;
                    courses.push(course);
                    assert(courses@.drop_last() =~= before);
                },
                Err(_) => {},
            }
            i += 1;
        }
        Ok(courses)
    }
}

} // verus!
