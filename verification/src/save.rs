//! The save catalogue of Super Mario Maker 2: 180 slots of courses, the
//! index file that says which are taken, and the file operations that a
//! change of the catalogue asks for.
//!
//! The library decides; the caller reads and writes the files. A change of
//! the catalogue is noted as a pending operation under the slot that it was
//! asked for, an exchange under the first of its two slots. `Save::save`
//! turns the pending operations, by ascending slot, into the file actions to
//! perform, the rewritten index file last.

use crate::constants2::{COURSE_LEN, SAVE_COURSE_OFFSET, SLOT_COUNT, SLOT_LEN};
use crate::course2::{
    course_decrypted, course_opens, course_refusal, load_refusal, parsed_course, plain_part,
    valid_course_file_len, Course2,
};
use crate::encryption::{
    crc_fixed, decrypt, decrypted_body, encrypt, fix_crc32, opens, valid_body_len, with_crc,
};
use crate::errors::{SaveError, SaveErrorView, Smm2Error, Smm2ErrorView, SmmdbError};
use crate::files::{actions_run, disk_after, shapes, ActionShape, FileKind, FileRef, FsAction};
use crate::key_tables::KeyTables;
use crate::save_plan::{
    disk_agrees, lemma_add_again_keeps_plan_sound, lemma_add_keeps_plan_sound,
    lemma_done_keeps_plan_sound, lemma_nothing_pending, lemma_remove_again_keeps_plan_sound,
    lemma_remove_keeps_plan_sound, lemma_save_consistency, lemma_swap_keeps_plan_sound,
    named_before, plan_sound, slot_files_exist, stands_alone,
};
use crate::wire::{copy_range, write_range};
use vstd::pervasive::unreached;
use vstd::prelude::*;

verus! {

/// Least length of a decrypted save file: the course section's header and
/// its slot table lie inside it.
pub const SAVE_MIN_LEN: usize = 0xBED0;

/// Offset of the descriptor of a slot in the decrypted save file.
pub open spec fn slot_offset(index: int) -> int {
    SAVE_COURSE_OFFSET as int + 0x10 + index * SLOT_LEN as int
}

/// The occupancy flag of a slot: the second byte of its descriptor.
pub open spec fn slot_flag(save_file: Seq<u8>, index: int) -> u8 {
    save_file[slot_offset(index) + 1]
}

/// The descriptor of a slot.
pub open spec fn slot_descriptor(save_file: Seq<u8>, index: int) -> Seq<u8> {
    save_file.subrange(slot_offset(index), slot_offset(index) + SLOT_LEN as int)
}

/// A course of the catalogue with the descriptor of the slot it was put in.
#[derive(Clone, Debug, PartialEq, Eq)]
pub struct SavedCourse {
    index: u8,
    exists: u8,
    buf: [u8; 8],
    course: Course2,
}

impl SavedCourse {
    /// The descriptor that the course was stored with.
    pub closed spec fn descriptor(&self) -> Seq<u8> {
        self.buf@
    }

    /// The slot number that the descriptor names: its first byte.
    pub closed spec fn index_view(&self) -> u8 {
        self.index
    }

    /// The occupancy flag of the descriptor: its second byte.
    pub closed spec fn exists_view(&self) -> u8 {
        self.exists
    }

    /// The course.
    pub closed spec fn course_view(&self) -> Course2 {
        self.course
    }

    /// Binds a course to a frozen copy of a slot's descriptor.
    pub fn new(buf: [u8; 8], course: Course2) -> (saved: SavedCourse)
        ensures
            saved.descriptor() == buf@,
            saved.index_view() == buf@[0],
            saved.exists_view() == buf@[1],
            saved.course_view() == course,
    {
        SavedCourse { index: buf[0], exists: buf[1], buf, course }
    }

    pub fn get_index(&self) -> (index: u8)
        ensures
            index == self.index_view(),
    {
        self.index
    }

    pub fn get_course(&self) -> (course: &Course2)
        ensures
            *course == self.course_view(),
    {
        &self.course
    }
}

/// What a taken slot holds: a course, or the reason why its files could not
/// be read as one.
#[derive(Clone, Debug, PartialEq, Eq)]
pub enum CourseEntry {
    SavedCourse(SavedCourse),
    CorruptedCourse(Smm2Error),
}

/// A change of the files that is yet to be made.
#[derive(Clone, Copy, Debug, PartialEq, Eq, Structural)]
pub enum PendingFsOperation {
    /// Write the course and the thumbnail of the slot.
    AddOrReplace(u8),
    /// Exchange the files of two slots.
    Swap(u8, u8),
    /// Give the files of the first slot the names of the second.
    Move(u8, u8),
    /// Delete the files of the slot.
    Remove(u8),
}

/// The slots that a pending operation names are slots of the catalogue.
pub open spec fn op_in_range(op: Option<PendingFsOperation>) -> bool {
    match op {
        Some(PendingFsOperation::AddOrReplace(index)) => index < SLOT_COUNT,
        Some(PendingFsOperation::Swap(first, second)) => first < SLOT_COUNT && second < SLOT_COUNT,
        Some(PendingFsOperation::Move(from, to)) => from < SLOT_COUNT && to < SLOT_COUNT,
        Some(PendingFsOperation::Remove(index)) => index < SLOT_COUNT,
        None => true,
    }
}

/// The files of one slot as they were read from disk.
#[derive(Clone, Debug, PartialEq, Eq)]
pub struct SlotFiles {
    pub index: u8,
    pub course_data: Vec<u8>,
    pub thumb_data: Vec<u8>,
}

/// The save catalogue.
#[derive(Clone, Debug)]
pub struct Save {
    save_file: Vec<u8>,
    courses: Vec<Option<CourseEntry>>,
    pending_fs_operations: Vec<Option<PendingFsOperation>>,
}

/// The position of the first files in `files` that belong to `index`.
pub open spec fn files_position(files: Seq<SlotFiles>, index: u8, from: int) -> Option<int>
    decreases files.len() - from,
{
    if from < 0 || from >= files.len() {
        None
    } else if files[from].index == index {
        Some(from)
    } else {
        files_position(files, index, from + 1)
    }
}

/// The entry that the files of a slot give: the course where the course file
/// and the thumbnail open and the course can be read, else the reason why
/// not, kept in the entry.
pub open spec fn entry_loaded(
    entry: CourseEntry,
    descriptor: Seq<u8>,
    files: SlotFiles,
    keys: KeyTables,
) -> bool {
    let readable = course_opens(files.course_data@, keys.course@) && parsed_course(
        course_decrypted(files.course_data@, keys.course@),
    ) is Ok && opens(files.thumb_data@, keys.thumbnail@);
    match entry {
        CourseEntry::SavedCourse(saved) => {
            &&& readable
            &&& saved.descriptor() == descriptor
            &&& saved.index_view() == descriptor[0]
            &&& saved.exists_view() == descriptor[1]
            &&& saved.course_view().wf()
            &&& saved.course_view().data_view() == course_decrypted(
                files.course_data@,
                keys.course@,
            )
            &&& saved.course_view().thumb_view() is Some
            &&& saved.course_view().thumb_view().unwrap().encrypted_view() == files.thumb_data@
        },
        CourseEntry::CorruptedCourse(e) => !readable && e@ == load_refusal(
            files.course_data@,
            Some(files.thumb_data@),
            true,
            keys,
        ),
    }
}

/// The least taken slot from `from` on for which `files` holds no files.
pub open spec fn first_missing(save_file: Seq<u8>, files: Seq<SlotFiles>, from: int) -> Option<int>
    decreases SLOT_COUNT - from,
{
    if from < 0 || from >= SLOT_COUNT {
        None
    } else if slot_flag(save_file, from) != 0 && files_position(files, from as u8, 0) is None {
        Some(from)
    } else {
        first_missing(save_file, files, from + 1)
    }
}

/// The file actions of one pending operation, without what they write.
pub open spec fn op_shapes(op: Option<PendingFsOperation>) -> Seq<ActionShape> {
    match op {
        Some(PendingFsOperation::AddOrReplace(index)) => seq![
            ActionShape::Write(FileRef::Slot(FileKind::CourseData, index)),
            ActionShape::Write(FileRef::Slot(FileKind::CourseThumb, index)),
        ],
        Some(PendingFsOperation::Swap(first, second)) => seq![
            ActionShape::Rename(
                FileRef::Slot(FileKind::CourseData, first),
                FileRef::SwapTemp(FileKind::CourseData),
            ),
            ActionShape::Rename(
                FileRef::Slot(FileKind::CourseThumb, first),
                FileRef::SwapTemp(FileKind::CourseThumb),
            ),
            ActionShape::Rename(
                FileRef::Slot(FileKind::CourseData, second),
                FileRef::Slot(FileKind::CourseData, first),
            ),
            ActionShape::Rename(
                FileRef::Slot(FileKind::CourseThumb, second),
                FileRef::Slot(FileKind::CourseThumb, first),
            ),
            ActionShape::Rename(
                FileRef::SwapTemp(FileKind::CourseData),
                FileRef::Slot(FileKind::CourseData, second),
            ),
            ActionShape::Rename(
                FileRef::SwapTemp(FileKind::CourseThumb),
                FileRef::Slot(FileKind::CourseThumb, second),
            ),
        ],
        Some(PendingFsOperation::Move(from, to)) => seq![
            ActionShape::Rename(
                FileRef::Slot(FileKind::CourseData, from),
                FileRef::Slot(FileKind::CourseData, to),
            ),
            ActionShape::Rename(
                FileRef::Slot(FileKind::CourseThumb, from),
                FileRef::Slot(FileKind::CourseThumb, to),
            ),
        ],
        Some(PendingFsOperation::Remove(index)) => seq![
            ActionShape::Remove(FileRef::Slot(FileKind::CourseData, index)),
            ActionShape::Remove(FileRef::Slot(FileKind::CourseThumb, index)),
        ],
        None => Seq::empty(),
    }
}

/// The file actions of the pending operations of the slots `0 .. upto`, by
/// ascending slot.
pub open spec fn plan_shapes(pending: Seq<Option<PendingFsOperation>>, upto: int) -> Seq<
    ActionShape,
>
    decreases upto,
{
    if upto <= 0 {
        Seq::empty()
    } else {
        plan_shapes(pending, upto - 1) + op_shapes(pending[upto - 1])
    }
}

/// Why a pending operation cannot be turned into file actions, if it cannot:
/// only the writing of a slot fails, where the slot holds nothing, holds a
/// course that could not be read or that has no thumbnail, or holds a course
/// whose buffer has no length that can be encrypted.
pub open spec fn op_failure(
    op: Option<PendingFsOperation>,
    entries: Seq<Option<CourseEntry>>,
) -> Option<SaveErrorView> {
    match op {
        Some(PendingFsOperation::AddOrReplace(index)) => match entries[index as int] {
            None => Some(SaveErrorView::CourseNotFound(index)),
            Some(CourseEntry::CorruptedCourse(e)) => Some(SaveErrorView::CorruptedCourse(e@)),
            Some(CourseEntry::SavedCourse(saved)) => {
                let course = saved.course_view();
                if course.data_view().len() != COURSE_LEN
                    && !valid_course_file_len(course.data_view().len() as int) {
                    Some(SaveErrorView::CorruptedCourse(Smm2ErrorView::InvalidLength))
                } else if course.thumb_view() is None {
                    Some(SaveErrorView::ThumbnailRequired(course.get_course_spec().header.title))
                } else {
                    None
                }
            },
        },
        _ => None,
    }
}

/// What an action writes is what the catalogue holds: the file of a course
/// opens and holds the course's buffer with its checksum set; the file of a
/// thumbnail is the course's encrypted thumbnail.
pub open spec fn write_sound(
    action: FsAction,
    entries: Seq<Option<CourseEntry>>,
    keys: KeyTables,
) -> bool {
    match action {
        FsAction::Write { file: FileRef::Slot(kind, index), data } => index < entries.len() && (
        match entries[index as int] {
            Some(CourseEntry::SavedCourse(saved)) => match kind {
                FileKind::CourseData => {
                    &&& course_opens(data@, keys.course@)
                    &&& course_decrypted(data@, keys.course@).subrange(0, data@.len() - 48)
                        == with_crc(plain_part(saved.course_view().data_view()))
                },
                FileKind::CourseThumb => {
                    &&& saved.course_view().thumb_view() is Some
                    &&& data@ == saved.course_view().thumb_view().unwrap().encrypted_view()
                },
            },
            _ => false,
        }),
        _ => true,
    }
}

/// The index file with the checksum of its course section set.
pub open spec fn with_section_crc(save_file: Seq<u8>) -> Seq<u8> {
    save_file.subrange(0, SAVE_COURSE_OFFSET as int) + with_crc(
        save_file.subrange(SAVE_COURSE_OFFSET as int, save_file.len() as int),
    )
}

/// One pending operation of a plan: the slot that it stands under, and the
/// number of actions of the plan after which it is performed.
#[derive(Clone, Copy, Debug, PartialEq, Eq, Structural)]
pub struct SaveStep {
    pub slot: u8,
    pub end: usize,
}

/// The file actions that `Save::save` asks for, and whether the pending
/// operations could all be turned into actions. The actions are to be
/// performed in order, up to the first that fails. An operation stays
/// pending until `Save::operation_done` is told that it was performed: that
/// is the case once the actions in front of its `end` are.
#[derive(Debug)]
pub struct SavePlan {
    pub actions: Vec<FsAction>,
    pub steps: Vec<SaveStep>,
    pub result: Result<(), SaveError>,
}

/// The pending operations of the slots `0 .. upto`, by ascending slot, each
/// with the number of actions after which it is performed.
pub open spec fn steps_upto(pending: Seq<Option<PendingFsOperation>>, upto: int) -> Seq<SaveStep>
    decreases upto,
{
    if upto <= 0 {
        Seq::empty()
    } else if pending[upto - 1] is Some {
        steps_upto(pending, upto - 1).push(
            SaveStep { slot: (upto - 1) as u8, end: plan_shapes(pending, upto).len() as usize },
        )
    } else {
        steps_upto(pending, upto - 1)
    }
}

impl PendingFsOperation {
    /// The file actions that perform the operation.
    pub fn run(self, courses: &Vec<Option<CourseEntry>>, keys: &KeyTables) -> (res: Result<
        Vec<FsAction>,
        SaveError,
    >)
        requires
            courses@.len() == SLOT_COUNT,
            op_in_range(Some(self)),
        ensures
            match res {
                Ok(actions) => {
                    &&& op_failure(Some(self), courses@) is None
                    &&& shapes(actions@) == op_shapes(Some(self))
                    &&& forall|k: int|
                        0 <= k < actions@.len() ==> write_sound(
                            #[trigger] actions@[k],
                            courses@,
                            *keys,
                        )
                },
                Err(e) => op_failure(Some(self), courses@) == Some(e@),
            },
    {
        let mut actions: Vec<FsAction> = Vec::new();
        match self {
            PendingFsOperation::AddOrReplace(index) => {
                match &courses[index as usize] {
                    None => {
                        return Err(SaveError::CourseNotFound(index));
                    },
                    Some(CourseEntry::CorruptedCourse(e)) => {
                        return Err(SaveError::CorruptedCourse(e.clone()));
                    },
                    Some(CourseEntry::SavedCourse(saved)) => {
                        let course: &Course2 = saved.get_course();
                        let mut course_data: Vec<u8> = course.get_course_data().clone();
                        match Course2::encrypt(&mut course_data, keys) {
                            Ok(()) => {},
                            Err(e) => {
                                return Err(SaveError::CorruptedCourse(e));
                            },
                        }
                        let thumb_data: Vec<u8> = match course.get_course_thumb() {
                            Some(thumb) => thumb.get_encrypted().clone(),
                            None => {
                                return Err(
                                    SaveError::ThumbnailRequired(
                                        course.get_course().header.title.clone(),
                                    ),
                                );
                            },
                        };
                        actions.push(
                            FsAction::Write {
                                file: FileRef::Slot(FileKind::CourseData, index),
                                data: course_data,
                            },
                        );
                        actions.push(
                            FsAction::Write {
                                file: FileRef::Slot(FileKind::CourseThumb, index),
                                data: thumb_data,
                            },
                        );
                    },
                }
            },
            PendingFsOperation::Swap(first, second) => {
                actions.push(
                    FsAction::Rename {
                        from: FileRef::Slot(FileKind::CourseData, first),
                        to: FileRef::SwapTemp(FileKind::CourseData),
                    },
                );
                actions.push(
                    FsAction::Rename {
                        from: FileRef::Slot(FileKind::CourseThumb, first),
                        to: FileRef::SwapTemp(FileKind::CourseThumb),
                    },
                );
                actions.push(
                    FsAction::Rename {
                        from: FileRef::Slot(FileKind::CourseData, second),
                        to: FileRef::Slot(FileKind::CourseData, first),
                    },
                );
                actions.push(
                    FsAction::Rename {
                        from: FileRef::Slot(FileKind::CourseThumb, second),
                        to: FileRef::Slot(FileKind::CourseThumb, first),
                    },
                );
                actions.push(
                    FsAction::Rename {
                        from: FileRef::SwapTemp(FileKind::CourseData),
                        to: FileRef::Slot(FileKind::CourseData, second),
                    },
                );
                actions.push(
                    FsAction::Rename {
                        from: FileRef::SwapTemp(FileKind::CourseThumb),
                        to: FileRef::Slot(FileKind::CourseThumb, second),
                    },
                );
            },
            PendingFsOperation::Move(from, to) => {
                actions.push(
                    FsAction::Rename {
                        from: FileRef::Slot(FileKind::CourseData, from),
                        to: FileRef::Slot(FileKind::CourseData, to),
                    },
                );
                actions.push(
                    FsAction::Rename {
                        from: FileRef::Slot(FileKind::CourseThumb, from),
                        to: FileRef::Slot(FileKind::CourseThumb, to),
                    },
                );
            },
            PendingFsOperation::Remove(index) => {
                actions.push(FsAction::Remove { file: FileRef::Slot(FileKind::CourseData, index) });
                actions.push(
                    FsAction::Remove { file: FileRef::Slot(FileKind::CourseThumb, index) },
                );
            },
        }
        assert(shapes(actions@) =~= op_shapes(Some(self)));
        Ok(actions)
    }
}

impl Save {
    /// The decrypted index file, without trailer.
    pub closed spec fn save_file_view(&self) -> Seq<u8> {
        self.save_file@
    }

    /// What the 180 slots hold.
    pub closed spec fn entries(&self) -> Seq<Option<CourseEntry>> {
        self.courses@
    }

    /// The pending operation of each slot.
    pub closed spec fn pending(&self) -> Seq<Option<PendingFsOperation>> {
        self.pending_fs_operations@
    }

    /// The pending operations are sound for the files that exist: every
    /// slot is named by at most one of them, each finds the files it needs,
    /// and the slots that none names have their files exactly where the
    /// index file says that they are taken.
    pub open spec fn plan_sound(&self, disk: Set<FileRef>) -> bool {
        plan_sound(self.pending(), self.save_file_view(), disk)
    }

    /// Whether a pending operation names the slot.
    pub open spec fn names(&self, slot: u8) -> bool {
        named_before(self.pending(), SLOT_COUNT as int, slot)
    }

    /// Whether the index file says that the slot is taken.
    pub open spec fn occupied(&self, index: int) -> bool {
        slot_flag(self.save_file_view(), index) != 0
    }

    /// The index file holds the slot table, there are 180 slots, and a slot
    /// holds an entry exactly where the index file says that it is taken.
    pub open spec fn wf(&self) -> bool {
        &&& self.save_file_view().len() >= SAVE_MIN_LEN
        &&& valid_body_len(self.save_file_view().len() - 16)
        &&& self.entries().len() == SLOT_COUNT
        &&& self.pending().len() == SLOT_COUNT
        &&& forall|i: int| 0 <= i < SLOT_COUNT ==> (self.occupied(i) <==> self.entries()[i] is Some)
        &&& forall|i: int|
            0 <= i < SLOT_COUNT ==> op_in_range(#[trigger] self.pending()[i])
    }

    /// Decrypts an index file and takes off its trailer.
    pub fn decrypt_save_file(save_file: Vec<u8>, keys: &KeyTables) -> (res: Result<
        Vec<u8>,
        Smm2Error,
    >)
        ensures
            res is Ok <==> save_file@.len() >= 16 && opens(
                save_file@.subrange(16, save_file@.len() as int),
                keys.save@,
            ),
            match res {
                Ok(plain) => plain@ == save_file@.subrange(0, 16) + decrypted_body(
                    save_file@.subrange(16, save_file@.len() as int),
                    keys.save@,
                ),
                Err(e) => e@ == course_refusal(save_file@, keys.save@),
            },
    {
        let len: usize = save_file.len();
        if len < 16 {
            return Err(Smm2Error::InvalidLength);
        }
        let mut envelope: Vec<u8> = copy_range(save_file.as_slice(), 16, len);
        match decrypt(&mut envelope, &keys.save) {
            Ok(()) => {
                let mut plain: Vec<u8> = copy_range(save_file.as_slice(), 0, 16);
                let body: Vec<u8> = copy_range(envelope.as_slice(), 0, envelope.len() - 48);
                plain.extend_from_slice(body.as_slice());
                assert(plain@ =~= save_file@.subrange(0, 16) + decrypted_body(
                    save_file@.subrange(16, save_file@.len() as int),
                    keys.save@,
                ));
                Ok(plain)
            },
            Err(e) => Err(e),
        }
    }

    /// The slots that a decrypted index file marks as taken, in ascending
    /// order.
    pub fn occupied_slots(save_file: &[u8]) -> (res: Result<Vec<u8>, Smm2Error>)
        ensures
            save_file@.len() < SAVE_MIN_LEN ==> res == Err::<Vec<u8>, Smm2Error>(
                Smm2Error::InvalidLength,
            ),
            save_file@.len() >= SAVE_MIN_LEN ==> res is Ok && ({
                let slots = res.unwrap()@;
                &&& forall|k: int|
                    0 <= k < slots.len() ==> slots[k] < SLOT_COUNT && slot_flag(
                        save_file@,
                        #[trigger] slots[k] as int,
                    ) != 0
                &&& forall|i: int|
                    0 <= i < SLOT_COUNT && slot_flag(save_file@, i) != 0 ==> slots.contains(i as u8)
                &&& forall|j: int, k: int| 0 <= j < k < slots.len() ==> slots[j] < slots[k]
            }),
    {
        if save_file.len() < SAVE_MIN_LEN {
            return Err(Smm2Error::InvalidLength);
        }
        let mut slots: Vec<u8> = Vec::new();
        let mut index: usize = 0;
        while index < SLOT_COUNT
            invariant
                0 <= index <= SLOT_COUNT,
                save_file@.len() >= SAVE_MIN_LEN,
                forall|k: int|
                    0 <= k < slots@.len() ==> slots@[k] < index && slot_flag(
                        save_file@,
                        #[trigger] slots@[k] as int,
                    ) != 0,
                forall|i: int|
                    0 <= i < index && slot_flag(save_file@, i) != 0 ==> slots@.contains(i as u8),
                forall|j: int, k: int| 0 <= j < k < slots@.len() ==> slots@[j] < slots@[k],
            decreases SLOT_COUNT - index,
        {
            let offset: usize = SAVE_COURSE_OFFSET as usize + 0x10 + index * SLOT_LEN;
            if save_file[offset + 1] != 0 {
                let ghost before = slots@;
                slots.push(index as u8);
                proof {
                    assert(slots@[before.len() as int] == index as u8);
                    assert forall|i: int|
                        0 <= i < index + 1 && slot_flag(save_file@, i) != 0 implies slots@.contains(
                        i as u8,
                    ) by {
                        if i < index {
                            let k = choose|k: int| 0 <= k < before.len() && before[k] == i as u8;
                            assert(slots@[k] == i as u8);
                        }
                    }
                }
            }
            index += 1;
        }
        Ok(slots)
    }

    /// The decrypted index file, without trailer.
    pub fn get_save_file(&self) -> (save_file: &Vec<u8>)
        ensures
            save_file@ == self.save_file_view(),
    {
        &self.save_file
    }

    /// The courses of the player: slots 0 to 59.
    pub fn get_own_courses(&self) -> (courses: &[Option<CourseEntry>])
        requires
            self.wf(),
        ensures
            courses@ == self.entries().subrange(0, 60),
    {
        vstd::slice::slice_subrange(self.courses.as_slice(), 0, 60)
    }

    /// Slots 60 to 119.
    pub fn get_unknown_courses(&self) -> (courses: &[Option<CourseEntry>])
        requires
            self.wf(),
        ensures
            courses@ == self.entries().subrange(60, 120),
    {
        vstd::slice::slice_subrange(self.courses.as_slice(), 60, 120)
    }

    /// The downloaded courses: slots 120 to 179.
    pub fn get_downloaded_courses(&self) -> (courses: &[Option<CourseEntry>])
        requires
            self.wf(),
        ensures
            courses@ == self.entries().subrange(120, 180),
    {
        vstd::slice::slice_subrange(self.courses.as_slice(), 120, 180)
    }

    /// Puts a course into a slot, in place of what the slot held: marks the
    /// slot as taken, binds the course to the slot's descriptor, and notes
    /// that the files of the slot are to be written.
    ///
    /// A course without thumbnail is refused with its title, and nothing
    /// changes: every taken slot is to have a thumbnail file.
    pub fn add_course(&mut self, index: u8, course: Course2) -> (res: Result<(), SaveError>)
        requires
            old(self).wf(),
        ensures
            final(self).wf(),
            index >= SLOT_COUNT ==> res == Err::<(), SaveError>(
                SaveError::CourseIndexOutOfBounds(index),
            ) && *final(self) == *old(self),
            index < SLOT_COUNT && course.thumb_view() is None ==> (match res {
                Err(SaveError::ThumbnailRequired(title)) => title@
                    == course.get_course_spec().header.title,
                _ => false,
            }) && *final(self) == *old(self),
            index < SLOT_COUNT && course.thumb_view() is Some ==> {
                &&& res is Ok
                &&& final(self).save_file_view() == old(self).save_file_view().update(
                    slot_offset(index as int) + 1,
                    1u8,
                )
                &&& final(self).pending() == old(self).pending().update(
                    index as int,
                    Some(PendingFsOperation::AddOrReplace(index)),
                )
                &&& final(self).entries().len() == SLOT_COUNT
                &&& forall|i: int|
                    0 <= i < SLOT_COUNT && i != index ==> final(self).entries()[i] == old(
                        self,
                    ).entries()[i]
                &&& match final(self).entries()[index as int] {
                    Some(CourseEntry::SavedCourse(saved)) => {
                        &&& saved.course_view() == course
                        &&& saved.descriptor() == slot_descriptor(
                            final(self).save_file_view(),
                            index as int,
                        )
                        &&& saved.index_view() == saved.descriptor()[0]
                        &&& saved.exists_view() == 1
                    },
                    _ => false,
                }
            },
            index < SLOT_COUNT && course.thumb_view() is Some && !old(self).names(index)
                ==> forall|disk: Set<FileRef>| #[trigger]
                old(self).plan_sound(disk) ==> final(self).plan_sound(disk),
            index < SLOT_COUNT && course.thumb_view() is Some && stands_alone(
                old(self).pending(),
                index,
            ) ==> forall|disk: Set<FileRef>| #[trigger]
                old(self).plan_sound(disk) ==> final(self).plan_sound(disk),
    {
        if index as usize >= SLOT_COUNT {
            return Err(SaveError::CourseIndexOutOfBounds(index));
        }
        if course.get_course_thumb().is_none() {
            return Err(SaveError::ThumbnailRequired(course.get_course().header.title.clone()));
        }
        let offset: usize = SAVE_COURSE_OFFSET as usize + 0x10 + index as usize * SLOT_LEN;
        let ghost before = self.save_file@;
        self.save_file.set(offset + 1, 1);
        let buf: [u8; 8] = [
            self.save_file[offset],
            self.save_file[offset + 1],
            self.save_file[offset + 2],
            self.save_file[offset + 3],
            self.save_file[offset + 4],
            self.save_file[offset + 5],
            self.save_file[offset + 6],
            self.save_file[offset + 7],
        ];
        assert(buf@ =~= slot_descriptor(self.save_file@, index as int));
        let saved = SavedCourse::new(buf, course);
        self.pending_fs_operations.set(
            index as usize,
            Some(PendingFsOperation::AddOrReplace(index)),
        );
        self.courses.set(index as usize, Some(CourseEntry::SavedCourse(saved)));
        proof {
            if stands_alone(old(self).pending(), index) {
                assert forall|disk: Set<FileRef>| #[trigger]
                    old(self).plan_sound(disk) implies self.plan_sound(disk) by {
                    lemma_add_again_keeps_plan_sound(
                        old(self).pending(),
                        old(self).save_file_view(),
                        disk,
                        index,
                    );
                }
            }
            if !old(self).names(index) {
                assert forall|disk: Set<FileRef>| #[trigger]
                    old(self).plan_sound(disk) implies self.plan_sound(disk) by {
                    lemma_add_keeps_plan_sound(
                        old(self).pending(),
                        old(self).save_file_view(),
                        disk,
                        index,
                    );
                }
            }
            assert forall|i: int| 0 <= i < SLOT_COUNT implies (self.occupied(i)
                <==> self.entries()[i] is Some) by {
                if i != index {
                    assert(slot_flag(self.save_file@, i) == slot_flag(before, i));
                    assert(old(self).occupied(i) <==> old(self).entries()[i] is Some);
                }
            }
        }
        Ok(())
    }

    /// Empties a slot: marks it as free and notes that its files are to be
    /// deleted.
    pub fn remove_course(&mut self, index: u8) -> (res: Result<(), SaveError>)
        requires
            old(self).wf(),
        ensures
            final(self).wf(),
            index >= SLOT_COUNT ==> res == Err::<(), SaveError>(
                SaveError::CourseIndexOutOfBounds(index),
            ) && *final(self) == *old(self),
            index < SLOT_COUNT ==> {
                &&& res is Ok
                &&& final(self).save_file_view() == old(self).save_file_view().update(
                    slot_offset(index as int) + 1,
                    0u8,
                )
                &&& final(self).pending() == old(self).pending().update(
                    index as int,
                    Some(PendingFsOperation::Remove(index)),
                )
                &&& final(self).entries() == old(self).entries().update(index as int, None)
            },
            index < SLOT_COUNT && old(self).occupied(index as int) && !old(self).names(index)
                ==> forall|disk: Set<FileRef>| #[trigger]
                old(self).plan_sound(disk) ==> final(self).plan_sound(disk),
            index < SLOT_COUNT && stands_alone(old(self).pending(), index) ==> forall|
                disk: Set<FileRef>,
            | #[trigger]
                old(self).plan_sound(disk) && slot_files_exist(disk, index)
                    ==> final(self).plan_sound(disk),
    {
        if index as usize >= SLOT_COUNT {
            return Err(SaveError::CourseIndexOutOfBounds(index));
        }
        let offset: usize = SAVE_COURSE_OFFSET as usize + 0x10 + index as usize * SLOT_LEN;
        let ghost before = self.save_file@;
        self.save_file.set(offset + 1, 0);
        self.pending_fs_operations.set(index as usize, Some(PendingFsOperation::Remove(index)));
        self.courses.set(index as usize, None);
        proof {
            if stands_alone(old(self).pending(), index) {
                assert forall|disk: Set<FileRef>| #[trigger]
                    old(self).plan_sound(disk) && slot_files_exist(
                        disk,
                        index,
                    ) implies self.plan_sound(disk) by {
                    lemma_remove_again_keeps_plan_sound(
                        old(self).pending(),
                        old(self).save_file_view(),
                        disk,
                        index,
                    );
                }
            }
            if old(self).occupied(index as int) && !old(self).names(index) {
                assert forall|disk: Set<FileRef>| #[trigger]
                    old(self).plan_sound(disk) implies self.plan_sound(disk) by {
                    lemma_remove_keeps_plan_sound(
                        old(self).pending(),
                        old(self).save_file_view(),
                        disk,
                        index,
                    );
                }
            }
            assert forall|i: int| 0 <= i < SLOT_COUNT implies (self.occupied(i)
                <==> self.entries()[i] is Some) by {
                if i != index {
                    assert(slot_flag(self.save_file@, i) == slot_flag(before, i));
                    assert(old(self).occupied(i) <==> old(self).entries()[i] is Some);
                }
            }
        }
        Ok(())
    }
    /// Exchanges what two slots hold.
    ///
    /// Where both are taken, the exchange of their files is noted. Where one
    /// is taken, its course moves to the other slot: the flags of both slots
    /// change and the move of the files is noted. Where none is taken,
    /// nothing changes. The operation is noted under the first slot.
    pub fn swap_course(&mut self, first: u8, second: u8) -> (res: Result<(), SaveError>)
        requires
            old(self).wf(),
        ensures
            final(self).wf(),
            first >= SLOT_COUNT ==> res == Err::<(), SaveError>(
                SaveError::CourseIndexOutOfBounds(first),
            ) && *final(self) == *old(self),
            first < SLOT_COUNT && second >= SLOT_COUNT ==> res == Err::<(), SaveError>(
                SaveError::CourseIndexOutOfBounds(second),
            ) && *final(self) == *old(self),
            first < SLOT_COUNT && second < SLOT_COUNT && !old(self).occupied(first as int) && !old(
                self,
            ).occupied(second as int) ==> res is Ok && *final(self) == *old(self),
            first < SLOT_COUNT && second < SLOT_COUNT && (old(self).occupied(first as int) || old(
                self,
            ).occupied(second as int)) ==> {
                &&& res is Ok
                &&& final(self).entries() == old(self).entries().update(
                    first as int,
                    old(self).entries()[second as int],
                ).update(second as int, old(self).entries()[first as int])
                &&& final(self).pending() == old(self).pending().update(
                    first as int,
                    Some(swap_operation(old(self).save_file_view(), first, second)),
                )
                &&& final(self).save_file_view() == swapped_flags(
                    old(self).save_file_view(),
                    first,
                    second,
                )
            },
            first < SLOT_COUNT && second < SLOT_COUNT && first != second && (old(self).occupied(
                first as int,
            ) || old(self).occupied(second as int)) && !old(self).names(first) && !old(self).names(
                second,
            ) ==> forall|disk: Set<FileRef>| #[trigger]
                old(self).plan_sound(disk) ==> final(self).plan_sound(disk),
    {
        if first as usize >= SLOT_COUNT {
            return Err(SaveError::CourseIndexOutOfBounds(first));
        }
        if second as usize >= SLOT_COUNT {
            return Err(SaveError::CourseIndexOutOfBounds(second));
        }
        let first_offset: usize = SAVE_COURSE_OFFSET as usize + 0x10 + first as usize * SLOT_LEN + 1;
        let second_offset: usize = SAVE_COURSE_OFFSET as usize + 0x10 + second as usize * SLOT_LEN
            + 1;
        let first_taken: bool = self.save_file[first_offset] != 0;
        let second_taken: bool = self.save_file[second_offset] != 0;
        let ghost before = self.save_file@;
        let ghost entries_before = self.courses@;
        if first_taken && !second_taken {
            self.pending_fs_operations.set(
                first as usize,
                Some(PendingFsOperation::Move(first, second)),
            );
            self.save_file.set(first_offset, 0);
            self.save_file.set(second_offset, 1);
        } else if !first_taken && second_taken {
            self.pending_fs_operations.set(
                first as usize,
                Some(PendingFsOperation::Move(second, first)),
            );
            self.save_file.set(first_offset, 1);
            self.save_file.set(second_offset, 0);
        } else if first_taken && second_taken {
            self.pending_fs_operations.set(
                first as usize,
                Some(PendingFsOperation::Swap(first, second)),
            );
        } else {
            return Ok(());
        }
        assert(self.save_file@ =~= swapped_flags(before, first, second));
        exchange(&mut self.courses, first as usize, second as usize);
        proof {
            assert forall|i: int| 0 <= i < SLOT_COUNT implies (slot_flag(before, i) != 0
                <==> entries_before[i] is Some) by {
                assert(old(self).occupied(i) <==> old(self).entries()[i] is Some);
            }
            lemma_swap_keeps_occupancy(before, entries_before, first, second);
            if first != second && !old(self).names(first) && !old(self).names(second) {
                assert forall|disk: Set<FileRef>| #[trigger]
                    old(self).plan_sound(disk) implies self.plan_sound(disk) by {
                    lemma_swap_keeps_plan_sound(
                        old(self).pending(),
                        old(self).save_file_view(),
                        disk,
                        first,
                        second,
                    );
                }
            }
            assert forall|i: int| 0 <= i < SLOT_COUNT implies op_in_range(
                #[trigger] self.pending()[i],
            ) by {
                assert(op_in_range(old(self).pending()[i]));
            }
        }
        Ok(())
    }

    /// Builds the catalogue from a decrypted index file and the files of its
    /// taken slots.
    ///
    /// A slot whose files cannot be opened or read keeps the reason in place
    /// of a course. Files are asked for every taken slot: the first taken
    /// slot without files is reported.
    pub fn new(save_file: Vec<u8>, files: Vec<SlotFiles>, keys: &KeyTables) -> (res: Result<
        Save,
        SmmdbError,
    >)
        ensures
            save_file@.len() < SAVE_MIN_LEN || !valid_body_len(save_file@.len() - 16) ==> res
                matches Err(SmmdbError::Smm2Error(Smm2Error::InvalidLength)),
            save_file@.len() >= SAVE_MIN_LEN && valid_body_len(save_file@.len() - 16) ==> (
            match first_missing(save_file@, files@, 0) {
                Some(index) => res matches Err(SmmdbError::SaveError(SaveError::CourseNotFound(i)))
                    && i == index,
                None => res matches Ok(save) && {
                    &&& save.wf()
                    &&& forall|disk: Set<FileRef>|
                        disk_agrees(disk, save_file@) ==> #[trigger] save.plan_sound(disk)
                    &&& save.save_file_view() == save_file@
                    &&& forall|i: int| 0 <= i < SLOT_COUNT ==> #[trigger] save.pending()[i] is None
                    &&& forall|i: int|
                        0 <= i < SLOT_COUNT && save.occupied(i) ==> entry_loaded(
                            (#[trigger] save.entries()[i]).unwrap(),
                            slot_descriptor(save_file@, i),
                            files@[files_position(files@, i as u8, 0).unwrap()],
                            *keys,
                        )
                },
            }),
    {
        if save_file.len() < SAVE_MIN_LEN || (save_file.len() - 16) % 16 != 0 {
            return Err(SmmdbError::Smm2Error(Smm2Error::InvalidLength));
        }
        let mut courses: Vec<Option<CourseEntry>> = Vec::new();
        let mut pending: Vec<Option<PendingFsOperation>> = Vec::new();
        let mut index: usize = 0;
        while index < SLOT_COUNT
            invariant
                0 <= index <= SLOT_COUNT,
                save_file@.len() >= SAVE_MIN_LEN,
                valid_body_len(save_file@.len() - 16),
                courses@.len() == index,
                pending@.len() == index,
                first_missing(save_file@, files@, 0) == first_missing(
                    save_file@,
                    files@,
                    index as int,
                ),
                forall|i: int| 0 <= i < index ==> #[trigger] pending@[i] is None,
                forall|i: int|
                    0 <= i < index ==> (slot_flag(save_file@, i) != 0 <==> (
                    #[trigger] courses@[i]) is Some),
                forall|i: int|
                    0 <= i < index && slot_flag(save_file@, i) != 0 ==> entry_loaded(
                        (#[trigger] courses@[i]).unwrap(),
                        slot_descriptor(save_file@, i),
                        files@[files_position(files@, i as u8, 0).unwrap()],
                        *keys,
                    ),
            decreases SLOT_COUNT - index,
        {
            let offset: usize = SAVE_COURSE_OFFSET as usize + 0x10 + index * SLOT_LEN;
            pending.push(None);
            if save_file[offset + 1] == 0 {
                courses.push(None);
            } else {
                let position: usize = match find_files(&files, index as u8) {
                    Some(position) => position,
                    None => {
                        return Err(
                            SmmdbError::SaveError(SaveError::CourseNotFound(index as u8)),
                        );
                    },
                };
                let mut course_data: Vec<u8> = files[position].course_data.clone();
                let thumb_data: Vec<u8> = files[position].thumb_data.clone();
                let buf: [u8; 8] = [
                    save_file[offset],
                    save_file[offset + 1],
                    save_file[offset + 2],
                    save_file[offset + 3],
                    save_file[offset + 4],
                    save_file[offset + 5],
                    save_file[offset + 6],
                    save_file[offset + 7],
                ];
                assert(buf@ =~= slot_descriptor(save_file@, index as int));
                let entry: CourseEntry = match Course2::from_switch_files(
                    &mut course_data,
                    Some(thumb_data),
                    true,
                    keys,
                ) {
                    Ok(course) => CourseEntry::SavedCourse(SavedCourse::new(buf, course)),
                    Err(e) => CourseEntry::CorruptedCourse(e),
                };
                courses.push(Some(entry));
            }
            index += 1;
        }
        let save = Save { save_file, courses, pending_fs_operations: pending };
        proof {
            assert forall|disk: Set<FileRef>| disk_agrees(disk, save.save_file_view()) implies #[trigger]
                save.plan_sound(disk) by {
                lemma_nothing_pending(save.pending(), save.save_file_view(), disk);
            }
        }
        Ok(save)
    }

    /// Takes the pending operation of a slot off the list: the caller
    /// reports that its file actions were performed. The pending operations
    /// that remain are sound for the files that exist afterwards.
    pub fn operation_done(&mut self, slot: u8)
        requires
            old(self).wf(),
        ensures
            final(self).wf(),
            final(self).entries() == old(self).entries(),
            final(self).save_file_view() == old(self).save_file_view(),
            slot >= SLOT_COUNT ==> *final(self) == *old(self),
            slot < SLOT_COUNT ==> final(self).pending() == old(self).pending().update(
                slot as int,
                None,
            ),
            slot < SLOT_COUNT ==> forall|disk: Set<FileRef>| #[trigger]
                old(self).plan_sound(disk) ==> actions_run(
                    op_shapes(old(self).pending()[slot as int]),
                    disk,
                ) && final(self).plan_sound(
                    disk_after(op_shapes(old(self).pending()[slot as int]), disk),
                ),
    {
        if (slot as usize) < SLOT_COUNT {
            self.pending_fs_operations.set(slot as usize, None);
            proof {
                assert forall|k: int| 0 <= k < SLOT_COUNT implies op_in_range(
                    #[trigger] self.pending()[k],
                ) by {
                    assert(op_in_range(old(self).pending()[k]));
                }
                assert forall|k: int| 0 <= k < SLOT_COUNT implies (self.occupied(k)
                    <==> self.entries()[k] is Some) by {
                    assert(old(self).occupied(k) <==> old(self).entries()[k] is Some);
                }
                assert forall|disk: Set<FileRef>| #[trigger]
                    old(self).plan_sound(disk) implies actions_run(
                    op_shapes(old(self).pending()[slot as int]),
                    disk,
                ) && self.plan_sound(
                    disk_after(op_shapes(old(self).pending()[slot as int]), disk),
                ) by {
                    lemma_done_keeps_plan_sound(
                        old(self).pending(),
                        old(self).save_file_view(),
                        disk,
                        slot,
                    );
                }
            }
        }
    }

    /// Turns the pending operations, by ascending slot, into file actions,
    /// and ends with the writing of the index file: its checksum is set and
    /// it is encrypted under a fresh vector and seed.
    ///
    /// The operations stay pending: the caller performs the actions and
    /// reports each operation with `operation_done`. Where an operation
    /// cannot be turned into actions, the plan ends in front of it with the
    /// reason, and the index file is not written; that operation alone is
    /// taken off the list.
    ///
    /// Where the pending operations are sound for the files that exist, all
    /// actions of a full plan can be performed, and afterwards every taken
    /// slot has its course file and its thumbnail file, and no free slot has
    /// either.
    pub fn save(&mut self, keys: &KeyTables) -> (plan: SavePlan)
        requires
            old(self).wf(),
        ensures
            final(self).wf(),
            final(self).entries() == old(self).entries(),
            forall|k: int|
                0 <= k < plan.actions@.len() ==> write_sound(
                    #[trigger] plan.actions@[k],
                    old(self).entries(),
                    *keys,
                ) || plan.actions@[k].shape() == ActionShape::Write(FileRef::SaveFile),
            plan.result is Ok ==> forall|disk: Set<FileRef>| #[trigger]
                old(self).plan_sound(disk) ==> {
                    &&& actions_run(shapes(plan.actions@), disk)
                    &&& disk_agrees(
                        disk_after(shapes(plan.actions@), disk),
                        final(self).save_file_view(),
                    )
                },
            match plan.result {
                Ok(()) => {
                    &&& forall|i: int|
                        0 <= i < SLOT_COUNT ==> op_failure(
                            #[trigger] old(self).pending()[i],
                            old(self).entries(),
                        ) is None
                    &&& shapes(plan.actions@) == plan_shapes(
                        old(self).pending(),
                        SLOT_COUNT as int,
                    ).push(ActionShape::Write(FileRef::SaveFile))
                    &&& plan.steps@ == steps_upto(old(self).pending(), SLOT_COUNT as int)
                    &&& final(self).pending() == old(self).pending()
                    &&& final(self).save_file_view() == with_section_crc(old(self).save_file_view())
                    &&& crc_fixed(
                        final(self).save_file_view().subrange(
                            SAVE_COURSE_OFFSET as int,
                            final(self).save_file_view().len() as int,
                        ),
                    )
                    &&& match plan.actions@.last() {
                        FsAction::Write { file, data } => {
                            &&& file == FileRef::SaveFile
                            &&& data@.len() == final(self).save_file_view().len() + 48
                            &&& opens(data@.subrange(16, data@.len() as int), keys.save@)
                            &&& data@.subrange(0, 16) + decrypted_body(
                                data@.subrange(16, data@.len() as int),
                                keys.save@,
                            ) == final(self).save_file_view()
                        },
                        _ => false,
                    }
                },
                Err(e) => exists|at: int|
                    {
                        &&& 0 <= at < SLOT_COUNT
                        &&& op_failure(#[trigger] old(self).pending()[at], old(self).entries())
                            == Some(e@)
                        &&& forall|i: int|
                            0 <= i < at ==> op_failure(
                                #[trigger] old(self).pending()[i],
                                old(self).entries(),
                            ) is None
                        &&& shapes(plan.actions@) == plan_shapes(old(self).pending(), at)
                        &&& plan.steps@ == steps_upto(old(self).pending(), at)
                        &&& final(self).save_file_view() == old(self).save_file_view()
                        &&& final(self).pending() == old(self).pending().update(at, None)
                    },
            },
    {
        let mut actions: Vec<FsAction> = Vec::new();
        let mut steps: Vec<SaveStep> = Vec::new();
        let mut i: usize = 0;
        while i < SLOT_COUNT
            invariant
                0 <= i <= SLOT_COUNT,
                old(self).wf(),
                *self == *old(self),
                forall|k: int|
                    0 <= k < i ==> op_failure(
                        #[trigger] old(self).pending_fs_operations@[k],
                        old(self).courses@,
                    ) is None,
                shapes(actions@) == plan_shapes(old(self).pending_fs_operations@, i as int),
                steps@ == steps_upto(old(self).pending_fs_operations@, i as int),
                forall|k: int|
                    0 <= k < actions@.len() ==> write_sound(
                        #[trigger] actions@[k],
                        old(self).courses@,
                        *keys,
                    ),
            decreases SLOT_COUNT - i,
        {
            let op: Option<PendingFsOperation> = self.pending_fs_operations[i];
            assert(op_in_range(old(self).pending()[i as int]));
            if let Some(op) = op {
                match op.run(&self.courses, keys) {
                    Ok(mut more) => {
                        let ghost so_far = actions@;
                        let ghost added = more@;
                        actions.append(&mut more);
                        proof {
                            assert(actions@ =~= so_far + added);
                            assert(shapes(actions@) =~= shapes(so_far) + shapes(added));
                        }
                        steps.push(SaveStep { slot: i as u8, end: actions.len() });
                    },
                    Err(e) => {
                        self.pending_fs_operations.set(i, None);
                        proof {
                            assert forall|k: int| 0 <= k < SLOT_COUNT implies op_in_range(
                                #[trigger] self.pending()[k],
                            ) by {
                                assert(op_in_range(old(self).pending()[k]));
                            }
                            assert forall|k: int| 0 <= k < SLOT_COUNT implies (self.occupied(k)
                                <==> self.entries()[k] is Some) by {
                                assert(old(self).occupied(k) <==> old(self).entries()[k] is Some);
                            }
                        }
                        return SavePlan { actions, steps, result: Err(e) };
                    },
                }
            } else {
                assert(plan_shapes(old(self).pending_fs_operations@, i + 1) =~= plan_shapes(
                    old(self).pending_fs_operations@,
                    i as int,
                ));
            }
            i += 1;
        }
        let offset: usize = SAVE_COURSE_OFFSET as usize;
        let len: usize = self.save_file.len();
        let ghost before = self.save_file@;
        let mut section: Vec<u8> = copy_range(self.save_file.as_slice(), offset, len);
        match fix_crc32(&mut section) {
            Ok(()) => {},
            Err(_) => unreached(),
        }
        write_range(&mut self.save_file, offset, section.as_slice());
        proof {
            assert(self.save_file@ =~= with_section_crc(before));
            assert(self.save_file@.subrange(offset as int, len as int) =~= section@);
            assert forall|k: int| 0 <= k < SLOT_COUNT implies (self.occupied(k)
                <==> self.entries()[k] is Some) by {
                assert(old(self).occupied(k) <==> old(self).entries()[k] is Some);
                assert(self.save_file@[slot_offset(k) + 1] == before[slot_offset(k) + 1]);
            }
        }
        let mut body: Vec<u8> = copy_range(self.save_file.as_slice(), 16, len);
        let mut save_data: Vec<u8> = copy_range(self.save_file.as_slice(), 0, 16);
        match encrypt(&mut body, &keys.save) {
            Ok(info) => {
                let ghost plain = self.save_file@;
                save_data.extend_from_slice(body.as_slice());
                save_data.extend_from_slice(info.as_slice());
                proof {
                    assert(save_data@.subrange(16, save_data@.len() as int) =~= body@ + info@);
                    assert(save_data@.subrange(0, 16) =~= plain.subrange(0, 16));
                    assert(plain =~= plain.subrange(0, 16) + plain.subrange(16, len as int));
                }
            },
            Err(_) => unreached(),
        }
        let ghost so_far = actions@;
        actions.push(FsAction::Write { file: FileRef::SaveFile, data: save_data });
        proof {
            assert(shapes(actions@) =~= shapes(so_far).push(ActionShape::Write(FileRef::SaveFile)));
            assert forall|k: int| 0 <= k < SLOT_COUNT implies op_in_range(
                #[trigger] self.pending()[k],
            ) by {
                assert(op_in_range(old(self).pending()[k]));
            }
            assert forall|disk: Set<FileRef>| #[trigger] old(self).plan_sound(disk) implies {
                &&& actions_run(shapes(actions@), disk)
                &&& disk_agrees(disk_after(shapes(actions@), disk), self.save_file_view())
            } by {
                lemma_save_consistency(*old(self), *self, shapes(actions@), disk);
            }
        }
        SavePlan { actions, steps, result: Ok(()) }
    }
}

/// The operation that an exchange of two slots notes: the exchange of their
/// files where both are taken, else the move of the files of the taken one.
pub open spec fn swap_operation(save_file: Seq<u8>, first: u8, second: u8) -> PendingFsOperation {
    if slot_flag(save_file, first as int) != 0 && slot_flag(save_file, second as int) != 0 {
        PendingFsOperation::Swap(first, second)
    } else if slot_flag(save_file, first as int) != 0 {
        PendingFsOperation::Move(first, second)
    } else {
        PendingFsOperation::Move(second, first)
    }
}

/// The index file after an exchange of two slots: where one of them is
/// taken, the taken one is free and the free one taken; else nothing
/// changes.
pub open spec fn swapped_flags(save_file: Seq<u8>, first: u8, second: u8) -> Seq<u8> {
    let first_taken = slot_flag(save_file, first as int) != 0;
    let second_taken = slot_flag(save_file, second as int) != 0;
    if first_taken && !second_taken {
        save_file.update(slot_offset(first as int) + 1, 0u8).update(
            slot_offset(second as int) + 1,
            1u8,
        )
    } else if !first_taken && second_taken {
        save_file.update(slot_offset(first as int) + 1, 1u8).update(
            slot_offset(second as int) + 1,
            0u8,
        )
    } else {
        save_file
    }
}

/// Exchanges two entries of a list.
pub fn exchange(courses: &mut Vec<Option<CourseEntry>>, first: usize, second: usize)
    requires
        first < old(courses)@.len(),
        second < old(courses)@.len(),
    ensures
        final(courses)@ == old(courses)@.update(first as int, old(courses)@[second as int]).update(
            second as int,
            old(courses)@[first as int],
        ),
{
    if first != second {
        let (low, high) = if first < second {
            (first, second)
        } else {
            (second, first)
        };
        let high_entry: Option<CourseEntry> = courses.remove(high);
        let low_entry: Option<CourseEntry> = courses.remove(low);
        courses.insert(low, high_entry);
        courses.insert(high, low_entry);
        assert(courses@ =~= old(courses)@.update(first as int, old(courses)@[second as int]).update(
            second as int,
            old(courses)@[first as int],
        ));
    } else {
        assert(courses@ =~= old(courses)@.update(first as int, old(courses)@[second as int]).update(
            second as int,
            old(courses)@[first as int],
        ));
    }
}

/// After an exchange of two slots, a slot holds an entry exactly where the
/// index file says that it is taken, as before.
pub proof fn lemma_swap_keeps_occupancy(
    save_file: Seq<u8>,
    entries: Seq<Option<CourseEntry>>,
    first: u8,
    second: u8,
)
    requires
        save_file.len() >= SAVE_MIN_LEN,
        entries.len() == SLOT_COUNT,
        first < SLOT_COUNT,
        second < SLOT_COUNT,
        forall|i: int| 0 <= i < SLOT_COUNT ==> (slot_flag(save_file, i) != 0 <==> entries[i] is Some),
    ensures
        swapped_flags(save_file, first, second).len() == save_file.len(),
        forall|i: int|
            0 <= i < SLOT_COUNT ==> (slot_flag(swapped_flags(save_file, first, second), i) != 0
                <==> entries.update(first as int, entries[second as int]).update(
                second as int,
                entries[first as int],
            )[i] is Some),
{
    let after = swapped_flags(save_file, first, second);
    let swapped = entries.update(first as int, entries[second as int]).update(
        second as int,
        entries[first as int],
    );
    assert(slot_flag(save_file, first as int) != 0 <==> entries[first as int] is Some);
    assert(slot_flag(save_file, second as int) != 0 <==> entries[second as int] is Some);
    assert forall|i: int| 0 <= i < SLOT_COUNT implies (slot_flag(after, i) != 0
        <==> swapped[i] is Some) by {
        assert(slot_flag(save_file, i) != 0 <==> entries[i] is Some);
        if i != first && i != second {
            assert(slot_offset(i) + 1 != slot_offset(first as int) + 1);
            assert(slot_offset(i) + 1 != slot_offset(second as int) + 1);
            assert(slot_flag(after, i) == slot_flag(save_file, i));
        }
    }
}

/// Finds the first files in `files` that belong to a slot.
pub fn find_files(files: &Vec<SlotFiles>, index: u8) -> (res: Option<usize>)
    ensures
        match res {
            Some(position) => files_position(files@, index, 0) == Some(position as int) && position
                < files@.len() && files@[position as int].index == index,
            None => files_position(files@, index, 0) is None,
        },
{
    let mut k: usize = 0;
    while k < files.len()
        invariant
            0 <= k <= files@.len(),
            files_position(files@, index, 0) == files_position(files@, index, k as int),
        decreases files@.len() - k,
    {
        if files[k].index == index {
            return Some(k);
        }
        k += 1;
    }
    None
}

} // verus!
