//! The record of a Super Mario Maker (Wii U) course.

use crate::proto::sound::Sound;
use crate::proto::tile::{tiles_view, Tile};
use vstd::prelude::*;

verus! {

#[derive(Clone, Copy, Debug, PartialEq, Eq, Structural)]
pub enum GameStyle {
    M1,
    M3,
    MW,
    WU,
}

#[derive(Clone, Copy, Debug, PartialEq, Eq, Structural)]
pub enum CourseTheme {
    Ground,
    Underground,
    Castle,
    Airship,
    Underwater,
    GhostHouse,
}

#[derive(Clone, Copy, Debug, PartialEq, Eq, Structural)]
pub enum AutoScroll {
    Disabled,
    Slow,
    Medium,
    Fast,
    Lock,
}

impl GameStyle {
    /// The style that a two-byte tag names.
    pub open spec fn of_tag(first: u8, second: u8) -> Option<GameStyle> {
        if first == 0x4D && second == 0x31 {
            Some(GameStyle::M1)
        } else if first == 0x4D && second == 0x33 {
            Some(GameStyle::M3)
        } else if first == 0x4D && second == 0x57 {
            Some(GameStyle::MW)
        } else if first == 0x57 && second == 0x55 {
            Some(GameStyle::WU)
        } else {
            None
        }
    }

    /// Reads the ASCII tag `M1`, `M3`, `MW` or `WU`.
    pub fn from_tag(first: u8, second: u8) -> (style: Option<GameStyle>)
        ensures
            style == Self::of_tag(first, second),
    {
        if first == 0x4D && second == 0x31 {
            Some(GameStyle::M1)
        } else if first == 0x4D && second == 0x33 {
            Some(GameStyle::M3)
        } else if first == 0x4D && second == 0x57 {
            Some(GameStyle::MW)
        } else if first == 0x57 && second == 0x55 {
            Some(GameStyle::WU)
        } else {
            None
        }
    }
}

impl CourseTheme {
    pub open spec fn of_i32(value: i32) -> Option<CourseTheme> {
        if value == 0 {
            Some(CourseTheme::Ground)
        } else if value == 1 {
            Some(CourseTheme::Underground)
        } else if value == 2 {
            Some(CourseTheme::Castle)
        } else if value == 3 {
            Some(CourseTheme::Airship)
        } else if value == 4 {
            Some(CourseTheme::Underwater)
        } else if value == 5 {
            Some(CourseTheme::GhostHouse)
        } else {
            None
        }
    }

    pub fn from_i32(value: i32) -> (res: Option<CourseTheme>)
        ensures
            res == Self::of_i32(value),
    {
        match value {
            0 => Some(CourseTheme::Ground),
            1 => Some(CourseTheme::Underground),
            2 => Some(CourseTheme::Castle),
            3 => Some(CourseTheme::Airship),
            4 => Some(CourseTheme::Underwater),
            5 => Some(CourseTheme::GhostHouse),
            _ => None,
        }
    }
}

impl AutoScroll {
    pub open spec fn of_i32(value: i32) -> Option<AutoScroll> {
        if value == 0 {
            Some(AutoScroll::Disabled)
        } else if value == 1 {
            Some(AutoScroll::Slow)
        } else if value == 2 {
            Some(AutoScroll::Medium)
        } else if value == 3 {
            Some(AutoScroll::Fast)
        } else if value == 4 {
            Some(AutoScroll::Lock)
        } else {
            None
        }
    }

    pub fn from_i32(value: i32) -> (res: Option<AutoScroll>)
        ensures
            res == Self::of_i32(value),
    {
        match value {
            0 => Some(AutoScroll::Disabled),
            1 => Some(AutoScroll::Slow),
            2 => Some(AutoScroll::Medium),
            3 => Some(AutoScroll::Fast),
            4 => Some(AutoScroll::Lock),
            _ => None,
        }
    }
}

/// A course with its two areas.
#[derive(Clone, Debug, PartialEq, Eq)]
pub struct SMMCourse {
    /// Seconds since the epoch at which the course was last saved.
    pub modified: u64,
    pub title: String,
    pub maker: String,
    pub game_style: GameStyle,
    pub course_theme: CourseTheme,
    pub course_theme_sub: CourseTheme,
    pub time: u32,
    pub auto_scroll: AutoScroll,
    pub auto_scroll_sub: AutoScroll,
    pub width: u32,
    pub width_sub: u32,
    pub tiles: Vec<Tile>,
    pub tiles_sub: Vec<Tile>,
    pub sounds: Vec<Sound>,
    pub sounds_sub: Vec<Sound>,
    pub thumbnail: Vec<u8>,
    pub thumbnail_preview: Vec<u8>,
}

/// What a course holds, its texts and lists as sequences.
pub struct SMMCourseView {
    pub modified: u64,
    pub title: Seq<char>,
    pub maker: Seq<char>,
    pub game_style: GameStyle,
    pub course_theme: CourseTheme,
    pub course_theme_sub: CourseTheme,
    pub time: u32,
    pub auto_scroll: AutoScroll,
    pub auto_scroll_sub: AutoScroll,
    pub width: u32,
    pub width_sub: u32,
    pub tiles: Seq<Seq<u8>>,
    pub tiles_sub: Seq<Seq<u8>>,
    pub sounds: Seq<Sound>,
    pub sounds_sub: Seq<Sound>,
    pub thumbnail: Seq<u8>,
    pub thumbnail_preview: Seq<u8>,
}

impl View for SMMCourse {
    type V = SMMCourseView;

    open spec fn view(&self) -> SMMCourseView {
        SMMCourseView {
            modified: self.modified,
            title: self.title@,
            maker: self.maker@,
            game_style: self.game_style,
            course_theme: self.course_theme,
            course_theme_sub: self.course_theme_sub,
            time: self.time,
            auto_scroll: self.auto_scroll,
            auto_scroll_sub: self.auto_scroll_sub,
            width: self.width,
            width_sub: self.width_sub,
            tiles: tiles_view(self.tiles@),
            tiles_sub: tiles_view(self.tiles_sub@),
            sounds: self.sounds@,
            sounds_sub: self.sounds_sub@,
            thumbnail: self.thumbnail@,
            thumbnail_preview: self.thumbnail_preview@,
        }
    }
}

} // verus!
