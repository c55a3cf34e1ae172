//! The record of a Super Mario Maker 2 course.

use vstd::prelude::*;

verus! {

#[derive(Clone, Copy, Debug, PartialEq, Eq, Structural)]
pub enum GameStyle {
    M1,
    M3,
    MW,
    WU,
    W3,
}

#[derive(Clone, Copy, Debug, PartialEq, Eq, Structural)]
pub enum ClearConditionType {
    Unset,
    Parts,
    Status,
    Action,
}

#[derive(Clone, Copy, Debug, PartialEq, Eq, Structural)]
pub enum CourseTheme {
    Ground,
    Underground,
    Castle,
    Airship,
    Underwater,
    GhostHouse,
    Snow,
    Desert,
    Sky,
    Forest,
}

#[derive(Clone, Copy, Debug, PartialEq, Eq, Structural)]
pub enum AutoScroll {
    Off,
    Slow,
    Medium,
    Fast,
    Custom,
}

#[derive(Clone, Copy, Debug, PartialEq, Eq, Structural)]
pub enum ScreenBoundary {
    AboveLine,
    UnderLine,
}

#[derive(Clone, Copy, Debug, PartialEq, Eq, Structural)]
pub enum Orientation {
    Horizontal,
    Vertical,
}

#[derive(Clone, Copy, Debug, PartialEq, Eq, Structural)]
pub enum LiquidMode {
    Fixed,
    OneWay,
    Oscillating,
}

#[derive(Clone, Copy, Debug, PartialEq, Eq, Structural)]
pub enum LiquidSpeed {
    Off,
    Slow,
    Medium,
    Fast,
}

#[derive(Clone, Copy, Debug, PartialEq, Eq, Structural)]
pub enum DayTime {
    Day,
    Night,
}

impl GameStyle {
    /// The style that a two-byte tag names.
    pub open spec fn of_tag(first: u8, second: u8) -> Option<GameStyle> {
        if first == 0x4D && second == 0x31 {
            Some(GameStyle::M1)
        } else if first == 0x4D && second == 0x33 {
            Some(GameStyle::M3)
        } else if first == 0x4D && second == 0x57 {
            Some(GameStyle::MW)
        } else if first == 0x57 && second == 0x55 {
            Some(GameStyle::WU)
        } else if first == 0x33 && second == 0x57 {
            Some(GameStyle::W3)
        } else {
            None
        }
    }

    /// Reads the ASCII tag `M1`, `M3`, `MW`, `WU` or `3W`; the last one names
    /// `W3`.
    pub fn from_tag(first: u8, second: u8) -> (style: Option<GameStyle>)
        ensures
            style == Self::of_tag(first, second),
    {
        if first == 0x4D && second == 0x31 {
            Some(GameStyle::M1)
        } else if first == 0x4D && second == 0x33 {
            Some(GameStyle::M3)
        } else if first == 0x4D && second == 0x57 {
            Some(GameStyle::MW)
        } else if first == 0x57 && second == 0x55 {
            Some(GameStyle::WU)
        } else if first == 0x33 && second == 0x57 {
            Some(GameStyle::W3)
        } else {
            None
        }
    }
}

impl ClearConditionType {
    pub open spec fn of_i32(value: i32) -> Option<ClearConditionType> {
        if value == 0 {
            Some(ClearConditionType::Unset)
        } else if value == 1 {
            Some(ClearConditionType::Parts)
        } else if value == 2 {
            Some(ClearConditionType::Status)
        } else if value == 3 {
            Some(ClearConditionType::Action)
        } else {
            None
        }
    }

    pub fn from_i32(value: i32) -> (res: Option<ClearConditionType>)
        ensures
            res == Self::of_i32(value),
    {
        match value {
            0 => Some(ClearConditionType::Unset),
            1 => Some(ClearConditionType::Parts),
            2 => Some(ClearConditionType::Status),
            3 => Some(ClearConditionType::Action),
            _ => None,
        }
    }
}

impl CourseTheme {
    pub open spec fn of_i32(value: i32) -> Option<CourseTheme> {
        if value == 0 {
            Some(CourseTheme::Ground)
        } else if value == 1 {
            Some(CourseTheme::Underground)
        } else if value == 2 {
            Some(CourseTheme::Castle)
        } else if value == 3 {
            Some(CourseTheme::Airship)
        } else if value == 4 {
            Some(CourseTheme::Underwater)
        } else if value == 5 {
            Some(CourseTheme::GhostHouse)
        } else if value == 6 {
            Some(CourseTheme::Snow)
        } else if value == 7 {
            Some(CourseTheme::Desert)
        } else if value == 8 {
            Some(CourseTheme::Sky)
        } else if value == 9 {
            Some(CourseTheme::Forest)
        } else {
            None
        }
    }

    pub fn from_i32(value: i32) -> (res: Option<CourseTheme>)
        ensures
            res == Self::of_i32(value),
    {
        match value {
            0 => Some(CourseTheme::Ground),
            1 => Some(CourseTheme::Underground),
            2 => Some(CourseTheme::Castle),
            3 => Some(CourseTheme::Airship),
            4 => Some(CourseTheme::Underwater),
            5 => Some(CourseTheme::GhostHouse),
            6 => Some(CourseTheme::Snow),
            7 => Some(CourseTheme::Desert),
            8 => Some(CourseTheme::Sky),
            9 => Some(CourseTheme::Forest),
            _ => None,
        }
    }
}

impl AutoScroll {
    pub open spec fn of_i32(value: i32) -> Option<AutoScroll> {
        if value == 0 {
            Some(AutoScroll::Off)
        } else if value == 1 {
            Some(AutoScroll::Slow)
        } else if value == 2 {
            Some(AutoScroll::Medium)
        } else if value == 3 {
            Some(AutoScroll::Fast)
        } else if value == 4 {
            Some(AutoScroll::Custom)
        } else {
            None
        }
    }

    pub fn from_i32(value: i32) -> (res: Option<AutoScroll>)
        ensures
            res == Self::of_i32(value),
    {
        match value {
            0 => Some(AutoScroll::Off),
            1 => Some(AutoScroll::Slow),
            2 => Some(AutoScroll::Medium),
            3 => Some(AutoScroll::Fast),
            4 => Some(AutoScroll::Custom),
            _ => None,
        }
    }
}

impl ScreenBoundary {
    pub open spec fn of_i32(value: i32) -> Option<ScreenBoundary> {
        if value == 0 {
            Some(ScreenBoundary::AboveLine)
        } else if value == 1 {
            Some(ScreenBoundary::UnderLine)
        } else {
            None
        }
    }

    pub fn from_i32(value: i32) -> (res: Option<ScreenBoundary>)
        ensures
            res == Self::of_i32(value),
    {
        match value {
            0 => Some(ScreenBoundary::AboveLine),
            1 => Some(ScreenBoundary::UnderLine),
            _ => None,
        }
    }
}

impl Orientation {
    pub open spec fn of_i32(value: i32) -> Option<Orientation> {
        if value == 0 {
            Some(Orientation::Horizontal)
        } else if value == 1 {
            Some(Orientation::Vertical)
        } else {
            None
        }
    }

    pub fn from_i32(value: i32) -> (res: Option<Orientation>)
        ensures
            res == Self::of_i32(value),
    {
        match value {
            0 => Some(Orientation::Horizontal),
            1 => Some(Orientation::Vertical),
            _ => None,
        }
    }
}

impl LiquidMode {
    pub open spec fn of_i32(value: i32) -> Option<LiquidMode> {
        if value == 0 {
            Some(LiquidMode::Fixed)
        } else if value == 1 {
            Some(LiquidMode::OneWay)
        } else if value == 2 {
            Some(LiquidMode::Oscillating)
        } else {
            None
        }
    }

    pub fn from_i32(value: i32) -> (res: Option<LiquidMode>)
        ensures
            res == Self::of_i32(value),
    {
        match value {
            0 => Some(LiquidMode::Fixed),
            1 => Some(LiquidMode::OneWay),
            2 => Some(LiquidMode::Oscillating),
            _ => None,
        }
    }
}

impl LiquidSpeed {
    pub open spec fn of_i32(value: i32) -> Option<LiquidSpeed> {
        if value == 0 {
            Some(LiquidSpeed::Off)
        } else if value == 1 {
            Some(LiquidSpeed::Slow)
        } else if value == 2 {
            Some(LiquidSpeed::Medium)
        } else if value == 3 {
            Some(LiquidSpeed::Fast)
        } else {
            None
        }
    }

    pub fn from_i32(value: i32) -> (res: Option<LiquidSpeed>)
        ensures
            res == Self::of_i32(value),
    {
        match value {
            0 => Some(LiquidSpeed::Off),
            1 => Some(LiquidSpeed::Slow),
            2 => Some(LiquidSpeed::Medium),
            3 => Some(LiquidSpeed::Fast),
            _ => None,
        }
    }
}

impl DayTime {
    pub open spec fn of_i32(value: i32) -> Option<DayTime> {
        if value == 0 {
            Some(DayTime::Day)
        } else if value == 2 {
            Some(DayTime::Night)
        } else {
            None
        }
    }

    pub fn from_i32(value: i32) -> (res: Option<DayTime>)
        ensures
            res == Self::of_i32(value),
    {
        match value {
            0 => Some(DayTime::Day),
            2 => Some(DayTime::Night),
            _ => None,
        }
    }
}

/// The header of a course.
#[derive(Clone, Debug, PartialEq, Eq)]
pub struct SMM2CourseHeader {
    /// Seconds since the epoch at which the course was last saved.
    pub modified: u64,
    pub title: String,
    pub description: String,
    pub game_style: GameStyle,
    pub start_y: u32,
    pub finish_y: u32,
    pub finish_x: u32,
    pub time: u32,
    pub clear_condition_type: ClearConditionType,
    pub clear_condition: u32,
    pub clear_condition_amount: u32,
    pub clear_check_tries: u32,
    pub clear_check_time: u32,
    pub game_version: u32,
    pub management_flags: u32,
    pub creation_id: u32,
    pub upload_id: u64,
    pub completion_version: u32,
}

/// What a header holds, its texts as sequences of characters.
pub struct HeaderView {
    pub modified: u64,
    pub title: Seq<char>,
    pub description: Seq<char>,
    pub game_style: GameStyle,
    pub start_y: u32,
    pub finish_y: u32,
    pub finish_x: u32,
    pub time: u32,
    pub clear_condition_type: ClearConditionType,
    pub clear_condition: u32,
    pub clear_condition_amount: u32,
    pub clear_check_tries: u32,
    pub clear_check_time: u32,
    pub game_version: u32,
    pub management_flags: u32,
    pub creation_id: u32,
    pub upload_id: u64,
    pub completion_version: u32,
}

impl View for SMM2CourseHeader {
    type V = HeaderView;

    open spec fn view(&self) -> HeaderView {
        HeaderView {
            modified: self.modified,
            title: self.title@,
            description: self.description@,
            game_style: self.game_style,
            start_y: self.start_y,
            finish_y: self.finish_y,
            finish_x: self.finish_x,
            time: self.time,
            clear_condition_type: self.clear_condition_type,
            clear_condition: self.clear_condition,
            clear_condition_amount: self.clear_condition_amount,
            clear_check_tries: self.clear_check_tries,
            clear_check_time: self.clear_check_time,
            game_version: self.game_version,
            management_flags: self.management_flags,
            creation_id: self.creation_id,
            upload_id: self.upload_id,
            completion_version: self.completion_version,
        }
    }
}

/// One of the two areas of a course.
#[derive(Clone, Copy, Debug, PartialEq, Eq, Structural)]
pub struct SMM2CourseArea {
    pub course_theme: CourseTheme,
    pub auto_scroll: AutoScroll,
    pub screen_boundary: ScreenBoundary,
    pub orientation: Orientation,
    pub liquid_max: u32,
    pub liquid_mode: LiquidMode,
    pub liquid_speed: LiquidSpeed,
    pub liquid_min: u32,
    pub right_boundary: u32,
    pub top_boundary: u32,
    pub left_boundary: u32,
    pub bottom_boundary: u32,
    pub day_time: DayTime,
    pub object_count: u32,
    pub sound_effect_count: u32,
    pub snake_block_count: u32,
    pub clear_pipe_count: u32,
    pub piranha_creeper_count: u32,
    pub exclamation_block_count: u32,
    pub track_block_count: u32,
    pub tile_count: u32,
    pub track_count: u32,
    pub icicle_count: u32,
}

/// A course: its header, its main area and its sub area.
#[derive(Clone, Debug, PartialEq, Eq)]
pub struct SMM2Course {
    pub version: u32,
    pub header: SMM2CourseHeader,
    pub course_area: SMM2CourseArea,
    pub course_sub_area: SMM2CourseArea,
}

/// What a course holds.
pub struct CourseView {
    pub version: u32,
    pub header: HeaderView,
    pub course_area: SMM2CourseArea,
    pub course_sub_area: SMM2CourseArea,
}

impl View for SMM2Course {
    type V = CourseView;

    open spec fn view(&self) -> CourseView {
        CourseView {
            version: self.version,
            header: self.header@,
            course_area: self.course_area,
            course_sub_area: self.course_sub_area,
        }
    }
}

} // verus!
