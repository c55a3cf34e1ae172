//! The files of a save folder, and the actions on them that a change of the
//! catalogue asks for.

use vstd::prelude::*;
use vstd::string::*;

verus! {

/// The two files of a slot.
#[derive(Clone, Copy, Debug, PartialEq, Eq, Structural)]
pub enum FileKind {
    /// The encrypted course: `course_data_NNN.bcd`.
    CourseData,
    /// The encrypted thumbnail: `course_thumb_NNN.btl`.
    CourseThumb,
}

/// A file of a save folder.
#[derive(Clone, Copy, Debug, PartialEq, Eq, Structural)]
pub enum FileRef {
    /// A file of the slot with the given number.
    Slot(FileKind, u8),
    /// The file that holds a course or thumbnail while two slots are
    /// exchanged: `swap.bcd` or `swap.btl`.
    SwapTemp(FileKind),
    /// The index file: `save.dat`.
    SaveFile,
}

/// One action on the files of a save folder.
#[derive(Clone, Debug, PartialEq, Eq)]
pub enum FsAction {
    /// Create the file, or replace it, with the given content.
    Write { file: FileRef, data: Vec<u8> },
    Rename { from: FileRef, to: FileRef },
    Remove { file: FileRef },
}

/// An action without the content that it writes.
#[derive(Clone, Copy, Debug, PartialEq, Eq, Structural)]
pub enum ActionShape {
    Write(FileRef),
    Rename(FileRef, FileRef),
    Remove(FileRef),
}

impl FsAction {
    /// What the action does, whatever it writes.
    pub open spec fn shape(&self) -> ActionShape {
        match *self {
            FsAction::Write { file, data } => ActionShape::Write(file),
            FsAction::Rename { from, to } => ActionShape::Rename(from, to),
            FsAction::Remove { file } => ActionShape::Remove(file),
        }
    }
}

/// The shapes of a list of actions.
pub open spec fn shapes(actions: Seq<FsAction>) -> Seq<ActionShape> {
    Seq::new(actions.len(), |i: int| actions[i].shape())
}

/// The decimal digit of a value under 10.
pub open spec fn digit_char(d: int) -> char {
    (0x30 + d) as char
}

/// A slot number in three decimal digits.
pub open spec fn padded_index(index: int) -> Seq<char> {
    seq![digit_char(index / 100), digit_char(index / 10 % 10), digit_char(index % 10)]
}

/// The name of a file in the save folder.
pub open spec fn name_of(file: FileRef) -> Seq<char> {
    match file {
        FileRef::Slot(FileKind::CourseData, index) => "course_data_"@ + padded_index(index as int)
            + ".bcd"@,
        FileRef::Slot(FileKind::CourseThumb, index) => "course_thumb_"@ + padded_index(
            index as int,
        ) + ".btl"@,
        FileRef::SwapTemp(FileKind::CourseData) => "swap.bcd"@,
        FileRef::SwapTemp(FileKind::CourseThumb) => "swap.btl"@,
        FileRef::SaveFile => "save.dat"@,
    }
}

/// A decimal digit as a text.
pub fn digit_text(digit: u8) -> (text: &'static str)
    requires
        digit < 10,
    ensures
        text@ == seq![digit_char(digit as int)],
{
    proof {
        reveal_strlit("0");
        reveal_strlit("1");
        reveal_strlit("2");
        reveal_strlit("3");
        reveal_strlit("4");
        reveal_strlit("5");
        reveal_strlit("6");
        reveal_strlit("7");
        reveal_strlit("8");
        reveal_strlit("9");
    }
    let text: &'static str = match digit {
        0 => "0",
        1 => "1",
        2 => "2",
        3 => "3",
        4 => "4",
        5 => "5",
        6 => "6",
        7 => "7",
        8 => "8",
        _ => "9",
    };
    assert(text@ =~= seq![digit_char(digit as int)]);
    text
}

/// Writes a slot number in three decimal digits.
pub fn format_index(index: u8) -> (text: String)
    ensures
        text@ == padded_index(index as int),
{
    let text: String = String::from_str(digit_text(index / 100)).concat(
        digit_text(index / 10 % 10),
    ).concat(digit_text(index % 10));
    assert(text@ =~= padded_index(index as int));
    text
}

impl FileRef {
    /// The name of the file in the save folder.
    pub fn file_name(&self) -> (name: String)
        ensures
            name@ == name_of(*self),
    {
        match *self {
            FileRef::Slot(FileKind::CourseData, index) => {
                let number: String = format_index(index);
                String::from_str("course_data_").concat(number.as_str()).concat(".bcd")
            },
            FileRef::Slot(FileKind::CourseThumb, index) => {
                let number: String = format_index(index);
                String::from_str("course_thumb_").concat(number.as_str()).concat(".btl")
            },
            FileRef::SwapTemp(FileKind::CourseData) => String::from_str("swap.bcd"),
            FileRef::SwapTemp(FileKind::CourseThumb) => String::from_str("swap.btl"),
            FileRef::SaveFile => String::from_str("save.dat"),
        }
    }
}

/// The files that exist after an action, given those that existed in front
/// of it.
pub open spec fn disk_after_action(action: ActionShape, disk: Set<FileRef>) -> Set<FileRef> {
    match action {
        ActionShape::Write(file) => disk.insert(file),
        ActionShape::Rename(from, to) => disk.remove(from).insert(to),
        ActionShape::Remove(file) => disk.remove(file),
    }
}

/// Whether an action can be performed: a file that is renamed or deleted
/// exists.
pub open spec fn action_runs(action: ActionShape, disk: Set<FileRef>) -> bool {
    match action {
        ActionShape::Write(file) => true,
        ActionShape::Rename(from, to) => disk.contains(from),
        ActionShape::Remove(file) => disk.contains(file),
    }
}

/// The files that exist after a list of actions.
pub open spec fn disk_after(actions: Seq<ActionShape>, disk: Set<FileRef>) -> Set<FileRef>
    decreases actions.len(),
{
    if actions.len() == 0 {
        disk
    } else {
        disk_after_action(actions.last(), disk_after(actions.drop_last(), disk))
    }
}

/// Whether each action of a list can be performed in its turn.
pub open spec fn actions_run(actions: Seq<ActionShape>, disk: Set<FileRef>) -> bool
    decreases actions.len(),
{
    if actions.len() == 0 {
        true
    } else {
        actions_run(actions.drop_last(), disk) && action_runs(
            actions.last(),
            disk_after(actions.drop_last(), disk),
        )
    }
}

} // verus!
