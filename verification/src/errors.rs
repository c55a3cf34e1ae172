//! Error types of the library.

use hex::FromHexError;
use image::ImageError;
use vstd::prelude::*;
use zip::result::ZipError;

verus! {

/// Failure while reading a Super Mario Maker (Wii U) course.
#[derive(Clone, Debug, PartialEq, Eq)]
pub enum SmmError {
    /// A buffer is shorter than the region that has to be read from it.
    InvalidLength,
    /// The stored calendar values do not form a date and time of day.
    InvalidDate { year: u16, month: u8, day: u8, hour: u8, minute: u8 },
    GameStyleParse,
    CourseThemeParse,
    AutoScrollParse,
}

/// Failure while reading or editing a Super Mario Maker 2 course.
#[derive(Debug, PartialEq, Eq)]
pub enum Smm2Error {
    /// The tag stored in the file (`expected`) differs from the tag computed
    /// over the decrypted body (`got`).
    CmacMismatch { expected: Vec<u8>, got: Vec<u8> },
    /// A buffer is too short, or its encrypted part is not a whole number of
    /// cipher blocks.
    InvalidLength,
    /// The stored calendar values do not form a date and time of day.
    InvalidDate { year: u16, month: u8, day: u8, hour: u8, minute: u8 },
    GameStyleParse,
    ClearConditionTypeParse,
    CourseThemeParse,
    AutoScrollParse,
    ScreenBoundaryParse,
    OrientationParse,
    LiquidModeParse,
    LiquidSpeedParse,
    DayTimeParse,
    /// No course could be taken from a packed buffer.
    ConvertFromBuffer,
    /// A text is longer than the 75 bytes that a course can hold.
    StringTooLong(usize),
}

/// A failure of a Super Mario Maker 2 course, its bytes as sequences.
pub enum Smm2ErrorView {
    CmacMismatch { expected: Seq<u8>, got: Seq<u8> },
    InvalidLength,
    InvalidDate { year: u16, month: u8, day: u8, hour: u8, minute: u8 },
    GameStyleParse,
    ClearConditionTypeParse,
    CourseThemeParse,
    AutoScrollParse,
    ScreenBoundaryParse,
    OrientationParse,
    LiquidModeParse,
    LiquidSpeedParse,
    DayTimeParse,
    ConvertFromBuffer,
    StringTooLong(usize),
}

impl View for Smm2Error {
    type V = Smm2ErrorView;

    open spec fn view(&self) -> Smm2ErrorView {
        match *self {
            Smm2Error::CmacMismatch { expected, got } => Smm2ErrorView::CmacMismatch {
                expected: expected@,
                got: got@,
            },
            Smm2Error::InvalidLength => Smm2ErrorView::InvalidLength,
            Smm2Error::InvalidDate { year, month, day, hour, minute } => Smm2ErrorView::InvalidDate {
                year,
                month,
                day,
                hour,
                minute,
            },
            Smm2Error::GameStyleParse => Smm2ErrorView::GameStyleParse,
            Smm2Error::ClearConditionTypeParse => Smm2ErrorView::ClearConditionTypeParse,
            Smm2Error::CourseThemeParse => Smm2ErrorView::CourseThemeParse,
            Smm2Error::AutoScrollParse => Smm2ErrorView::AutoScrollParse,
            Smm2Error::ScreenBoundaryParse => Smm2ErrorView::ScreenBoundaryParse,
            Smm2Error::OrientationParse => Smm2ErrorView::OrientationParse,
            Smm2Error::LiquidModeParse => Smm2ErrorView::LiquidModeParse,
            Smm2Error::LiquidSpeedParse => Smm2ErrorView::LiquidSpeedParse,
            Smm2Error::DayTimeParse => Smm2ErrorView::DayTimeParse,
            Smm2Error::ConvertFromBuffer => Smm2ErrorView::ConvertFromBuffer,
            Smm2Error::StringTooLong(len) => Smm2ErrorView::StringTooLong(len),
        }
    }
}

impl Clone for Smm2Error {
    fn clone(&self) -> (copy: Smm2Error)
        ensures
            copy@ == self@,
    {
        match self {
            Smm2Error::CmacMismatch { expected, got } => Smm2Error::CmacMismatch {
                expected: expected.clone(),
                got: got.clone(),
            },
            Smm2Error::InvalidLength => Smm2Error::InvalidLength,
            Smm2Error::InvalidDate { year, month, day, hour, minute } => Smm2Error::InvalidDate {
                year: *year,
                month: *month,
                day: *day,
                hour: *hour,
                minute: *minute,
            },
            Smm2Error::GameStyleParse => Smm2Error::GameStyleParse,
            Smm2Error::ClearConditionTypeParse => Smm2Error::ClearConditionTypeParse,
            Smm2Error::CourseThemeParse => Smm2Error::CourseThemeParse,
            Smm2Error::AutoScrollParse => Smm2Error::AutoScrollParse,
            Smm2Error::ScreenBoundaryParse => Smm2Error::ScreenBoundaryParse,
            Smm2Error::OrientationParse => Smm2Error::OrientationParse,
            Smm2Error::LiquidModeParse => Smm2Error::LiquidModeParse,
            Smm2Error::LiquidSpeedParse => Smm2Error::LiquidSpeedParse,
            Smm2Error::DayTimeParse => Smm2Error::DayTimeParse,
            Smm2Error::ConvertFromBuffer => Smm2Error::ConvertFromBuffer,
            Smm2Error::StringTooLong(len) => Smm2Error::StringTooLong(*len),
        }
    }
}

/// Failure of an operation on a save catalogue.
#[derive(Clone, Debug, PartialEq, Eq)]
pub enum SaveError {
    CourseIndexOutOfBounds(u8),
    CourseNotFound(u8),
    ThumbnailRequired(String),
    CorruptedCourse(Smm2Error),
}

/// A failure of an operation on a save catalogue, its text as a sequence of
/// characters.
pub enum SaveErrorView {
    CourseIndexOutOfBounds(u8),
    CourseNotFound(u8),
    ThumbnailRequired(Seq<char>),
    CorruptedCourse(Smm2ErrorView),
}

impl View for SaveError {
    type V = SaveErrorView;

    open spec fn view(&self) -> SaveErrorView {
        match *self {
            SaveError::CourseIndexOutOfBounds(index) => SaveErrorView::CourseIndexOutOfBounds(index),
            SaveError::CourseNotFound(index) => SaveErrorView::CourseNotFound(index),
            SaveError::ThumbnailRequired(title) => SaveErrorView::ThumbnailRequired(title@),
            SaveError::CorruptedCourse(e) => SaveErrorView::CorruptedCourse(e@),
        }
    }
}

/// The error of `zip`, with its four variants.
#[verifier::external_type_specification]
pub struct ExZipError(ZipError);

/// The error of `image`.
#[verifier::external_type_specification]
#[verifier::external_body]
pub struct ExImageError(ImageError);

/// The input and output error of std.
#[verifier::external_type_specification]
#[verifier::external_body]
pub struct ExIoError(std::io::Error);

/// Any failure of the library.
#[derive(Debug)]
pub enum SmmdbError {
    /// The buffer is of a kind that cannot be unpacked. The text is the
    /// kind's name, and empty where no kind was recognised.
    MimeTypeUnsupported(String),
    /// A ZIP archive could not be read.
    Zip(ZipError),
    /// A TAR archive could not be read.
    IoError(std::io::Error),
    /// An image could not be decoded or encoded.
    ImageError(ImageError),
    SmmError(SmmError),
    Smm2Error(Smm2Error),
    SaveError(SaveError),
    FromHex(FromHexError),
}

impl From<SmmError> for SmmdbError {
    fn from(err: SmmError) -> (res: SmmdbError) {
        SmmdbError::SmmError(err)
    }
}

impl vstd::std_specs::convert::FromSpecImpl<SmmError> for SmmdbError {
    open spec fn obeys_from_spec() -> bool {
        true
    }

    open spec fn from_spec(err: SmmError) -> SmmdbError {
        SmmdbError::SmmError(err)
    }
}

impl From<Smm2Error> for SmmdbError {
    fn from(err: Smm2Error) -> (res: SmmdbError) {
        SmmdbError::Smm2Error(err)
    }
}

impl vstd::std_specs::convert::FromSpecImpl<Smm2Error> for SmmdbError {
    open spec fn obeys_from_spec() -> bool {
        true
    }

    open spec fn from_spec(err: Smm2Error) -> SmmdbError {
        SmmdbError::Smm2Error(err)
    }
}

impl From<SaveError> for SmmdbError {
    fn from(err: SaveError) -> (res: SmmdbError) {
        SmmdbError::SaveError(err)
    }
}

impl vstd::std_specs::convert::FromSpecImpl<SaveError> for SmmdbError {
    open spec fn obeys_from_spec() -> bool {
        true
    }

    open spec fn from_spec(err: SaveError) -> SmmdbError {
        SmmdbError::SaveError(err)
    }
}

impl From<FromHexError> for SmmdbError {
    fn from(err: FromHexError) -> (res: SmmdbError) {
        SmmdbError::FromHex(err)
    }
}

impl vstd::std_specs::convert::FromSpecImpl<FromHexError> for SmmdbError {
    open spec fn obeys_from_spec() -> bool {
        true
    }

    open spec fn from_spec(err: FromHexError) -> SmmdbError {
        SmmdbError::FromHex(err)
    }
}

impl From<ZipError> for SmmdbError {
    fn from(err: ZipError) -> (res: SmmdbError) {
        SmmdbError::Zip(err)
    }
}

impl vstd::std_specs::convert::FromSpecImpl<ZipError> for SmmdbError {
    open spec fn obeys_from_spec() -> bool {
        true
    }

    open spec fn from_spec(err: ZipError) -> SmmdbError {
        SmmdbError::Zip(err)
    }
}

impl From<std::io::Error> for SmmdbError {
    fn from(err: std::io::Error) -> (res: SmmdbError) {
        SmmdbError::IoError(err)
    }
}

impl vstd::std_specs::convert::FromSpecImpl<std::io::Error> for SmmdbError {
    open spec fn obeys_from_spec() -> bool {
        true
    }

    open spec fn from_spec(err: std::io::Error) -> SmmdbError {
        SmmdbError::IoError(err)
    }
}

impl From<ImageError> for SmmdbError {
    fn from(err: ImageError) -> (res: SmmdbError) {
        SmmdbError::ImageError(err)
    }
}

impl vstd::std_specs::convert::FromSpecImpl<ImageError> for SmmdbError {
    open spec fn obeys_from_spec() -> bool {
        true
    }

    open spec fn from_spec(err: ImageError) -> SmmdbError {
        SmmdbError::ImageError(err)
    }
}

} // verus!
