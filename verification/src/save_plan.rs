//! Why the files of a save folder agree with the catalogue after a save.
//!
//! The files are modelled as the set of those that exist. A catalogue's
//! pending operations are sound for a set of files when every slot is named
//! by at most one of them, each finds the files it needs, and the slots that
//! none names have their files exactly where the index file says that they
//! are taken. Adding, removing and exchanging keep the pending operations
//! sound as long as they name slots that no pending operation names; the
//! actions of a save then can all be performed and leave the files of
//! exactly the taken slots.

use crate::constants2::SLOT_COUNT;
use crate::files::{
    action_runs, actions_run, disk_after, disk_after_action, ActionShape, FileKind, FileRef,
};
use crate::save::{
    op_in_range, op_shapes, plan_shapes, slot_flag, slot_offset, swap_operation, swapped_flags,
    with_section_crc, PendingFsOperation, Save, SAVE_MIN_LEN,
};
use vstd::prelude::*;

verus! {

/// The file of the given kind of the slot exists.
pub open spec fn has_file(disk: Set<FileRef>, kind: FileKind, slot: u8) -> bool {
    disk.contains(FileRef::Slot(kind, slot))
}

/// Both files of the slot exist.
pub open spec fn slot_files_exist(disk: Set<FileRef>, slot: u8) -> bool {
    has_file(disk, FileKind::CourseData, slot) && has_file(disk, FileKind::CourseThumb, slot)
}

/// Neither file of the slot exists.
pub open spec fn slot_files_absent(disk: Set<FileRef>, slot: u8) -> bool {
    !has_file(disk, FileKind::CourseData, slot) && !has_file(disk, FileKind::CourseThumb, slot)
}

/// The files of the slot are there if the index file says that the slot is
/// taken, and are not there if it says that the slot is free.
pub open spec fn slot_agrees(disk: Set<FileRef>, save_file: Seq<u8>, slot: u8) -> bool {
    if slot_flag(save_file, slot as int) != 0 {
        slot_files_exist(disk, slot)
    } else {
        slot_files_absent(disk, slot)
    }
}

/// Every taken slot has both its files, and no free slot has either.
pub open spec fn disk_agrees(disk: Set<FileRef>, save_file: Seq<u8>) -> bool {
    forall|slot: u8| slot < SLOT_COUNT ==> slot_agrees(disk, save_file, slot)
}

/// Whether a pending operation names the slot.
pub open spec fn op_names(op: Option<PendingFsOperation>, slot: u8) -> bool {
    match op {
        Some(PendingFsOperation::AddOrReplace(index)) => index == slot,
        Some(PendingFsOperation::Swap(first, second)) => first == slot || second == slot,
        Some(PendingFsOperation::Move(from, to)) => from == slot || to == slot,
        Some(PendingFsOperation::Remove(index)) => index == slot,
        None => false,
    }
}

/// Whether one of the pending operations of the slots `0 .. upto` names the
/// slot.
pub open spec fn named_before(
    pending: Seq<Option<PendingFsOperation>>,
    upto: int,
    slot: u8,
) -> bool {
    exists|i: int| 0 <= i < upto && op_names(#[trigger] pending[i], slot)
}

/// Whether a pending operation finds the files that it needs, and the index
/// file says what the files will be once it is done.
pub open spec fn op_ready(
    op: Option<PendingFsOperation>,
    save_file: Seq<u8>,
    disk: Set<FileRef>,
) -> bool {
    match op {
        Some(PendingFsOperation::AddOrReplace(index)) => slot_flag(save_file, index as int) != 0,
        Some(PendingFsOperation::Swap(first, second)) => {
            &&& first != second
            &&& slot_files_exist(disk, first)
            &&& slot_files_exist(disk, second)
            &&& slot_flag(save_file, first as int) != 0
            &&& slot_flag(save_file, second as int) != 0
        },
        Some(PendingFsOperation::Move(from, to)) => {
            &&& from != to
            &&& slot_files_exist(disk, from)
            &&& slot_flag(save_file, from as int) == 0
            &&& slot_flag(save_file, to as int) != 0
        },
        Some(PendingFsOperation::Remove(index)) => {
            &&& slot_files_exist(disk, index)
            &&& slot_flag(save_file, index as int) == 0
        },
        None => true,
    }
}

/// The pending operations are sound for the files that exist.
pub open spec fn plan_sound(
    pending: Seq<Option<PendingFsOperation>>,
    save_file: Seq<u8>,
    disk: Set<FileRef>,
) -> bool {
    &&& pending.len() == SLOT_COUNT
    &&& forall|i: int| 0 <= i < SLOT_COUNT ==> op_in_range(#[trigger] pending[i])
    &&& forall|i: int| 0 <= i < SLOT_COUNT ==> op_ready(#[trigger] pending[i], save_file, disk)
    &&& forall|i: int|
        0 <= i < SLOT_COUNT && (#[trigger] pending[i]) is Some ==> op_names(pending[i], i as u8)
    &&& forall|i: int, j: int, slot: u8|
        0 <= i < j < SLOT_COUNT && #[trigger] op_names(pending[i], slot) ==> !#[trigger] op_names(
            pending[j],
            slot,
        )
    &&& forall|slot: u8|
        slot < SLOT_COUNT && !named_before(pending, SLOT_COUNT as int, slot) ==> slot_agrees(
            disk,
            save_file,
            slot,
        )
}

/// Performing a list of actions and then one more.
pub proof fn lemma_disk_after_push(actions: Seq<ActionShape>, action: ActionShape, disk: Set<FileRef>)
    ensures
        disk_after(actions.push(action), disk) == disk_after_action(
            action,
            disk_after(actions, disk),
        ),
        actions_run(actions.push(action), disk) == (actions_run(actions, disk) && action_runs(
            action,
            disk_after(actions, disk),
        )),
{
    assert(actions.push(action).drop_last() =~= actions);
    assert(actions.push(action).last() == action);
}

/// Performing two lists of actions one after the other.
pub proof fn lemma_disk_after_concat(
    first: Seq<ActionShape>,
    second: Seq<ActionShape>,
    disk: Set<FileRef>,
)
    ensures
        disk_after(first + second, disk) == disk_after(second, disk_after(first, disk)),
        actions_run(first + second, disk) == (actions_run(first, disk) && actions_run(
            second,
            disk_after(first, disk),
        )),
    decreases second.len(),
{
    if second.len() == 0 {
        assert(first + second =~= first);
    } else {
        lemma_disk_after_concat(first, second.drop_last(), disk);
        assert((first + second).drop_last() =~= first + second.drop_last());
        assert((first + second).last() == second.last());
    }
}

/// What the actions of one pending operation do to the files, where the
/// operation finds what it needs: they can be performed, the files of the
/// slots that the operation names agree with the index file afterwards, and
/// the files of all other slots stay as they are.
pub proof fn lemma_op_effect(
    op: Option<PendingFsOperation>,
    save_file: Seq<u8>,
    disk: Set<FileRef>,
)
    requires
        op_in_range(op),
        op_ready(op, save_file, disk),
    ensures
        actions_run(op_shapes(op), disk),
        forall|slot: u8|
            slot < SLOT_COUNT && op_names(op, slot) ==> slot_agrees(
                disk_after(op_shapes(op), disk),
                save_file,
                slot,
            ),
        forall|slot: u8, kind: FileKind|
            !op_names(op, slot) ==> (#[trigger] has_file(
                disk_after(op_shapes(op), disk),
                kind,
                slot,
            ) <==> has_file(disk, kind, slot)),
{
    let none = Seq::<ActionShape>::empty();
    match op {
        None => {},
        Some(PendingFsOperation::AddOrReplace(index)) => {
            let a0 = ActionShape::Write(FileRef::Slot(FileKind::CourseData, index));
            let a1 = ActionShape::Write(FileRef::Slot(FileKind::CourseThumb, index));
            assert(op_shapes(op) =~= none.push(a0).push(a1));
            lemma_disk_after_push(none, a0, disk);
            lemma_disk_after_push(none.push(a0), a1, disk);
        },
        Some(PendingFsOperation::Remove(index)) => {
            let a0 = ActionShape::Remove(FileRef::Slot(FileKind::CourseData, index));
            let a1 = ActionShape::Remove(FileRef::Slot(FileKind::CourseThumb, index));
            assert(op_shapes(op) =~= none.push(a0).push(a1));
            lemma_disk_after_push(none, a0, disk);
            lemma_disk_after_push(none.push(a0), a1, disk);
        },
        Some(PendingFsOperation::Move(from, to)) => {
            let a0 = ActionShape::Rename(
                FileRef::Slot(FileKind::CourseData, from),
                FileRef::Slot(FileKind::CourseData, to),
            );
            let a1 = ActionShape::Rename(
                FileRef::Slot(FileKind::CourseThumb, from),
                FileRef::Slot(FileKind::CourseThumb, to),
            );
            assert(op_shapes(op) =~= none.push(a0).push(a1));
            lemma_disk_after_push(none, a0, disk);
            lemma_disk_after_push(none.push(a0), a1, disk);
        },
        Some(PendingFsOperation::Swap(first, second)) => {
            let a0 = ActionShape::Rename(
                FileRef::Slot(FileKind::CourseData, first),
                FileRef::SwapTemp(FileKind::CourseData),
            );
            let a1 = ActionShape::Rename(
                FileRef::Slot(FileKind::CourseThumb, first),
                FileRef::SwapTemp(FileKind::CourseThumb),
            );
            let a2 = ActionShape::Rename(
                FileRef::Slot(FileKind::CourseData, second),
                FileRef::Slot(FileKind::CourseData, first),
            );
            let a3 = ActionShape::Rename(
                FileRef::Slot(FileKind::CourseThumb, second),
                FileRef::Slot(FileKind::CourseThumb, first),
            );
            let a4 = ActionShape::Rename(
                FileRef::SwapTemp(FileKind::CourseData),
                FileRef::Slot(FileKind::CourseData, second),
            );
            let a5 = ActionShape::Rename(
                FileRef::SwapTemp(FileKind::CourseThumb),
                FileRef::Slot(FileKind::CourseThumb, second),
            );
            let s1 = none.push(a0);
            let s2 = s1.push(a1);
            let s3 = s2.push(a2);
            let s4 = s3.push(a3);
            let s5 = s4.push(a4);
            assert(op_shapes(op) =~= s5.push(a5));
            lemma_disk_after_push(none, a0, disk);
            lemma_disk_after_push(s1, a1, disk);
            lemma_disk_after_push(s2, a2, disk);
            lemma_disk_after_push(s3, a3, disk);
            lemma_disk_after_push(s4, a4, disk);
            lemma_disk_after_push(s5, a5, disk);
        },
    }
}

/// What the actions of the pending operations of the slots `0 .. upto` do
/// to the files, where the operations are sound: they can be performed, the
/// files of the slots that they name agree with the index file afterwards,
/// and the files of all other slots stay as they are.
pub proof fn lemma_plan_prefix(
    pending: Seq<Option<PendingFsOperation>>,
    save_file: Seq<u8>,
    disk: Set<FileRef>,
    upto: int,
)
    requires
        plan_sound(pending, save_file, disk),
        0 <= upto <= SLOT_COUNT,
    ensures
        actions_run(plan_shapes(pending, upto), disk),
        forall|slot: u8|
            slot < SLOT_COUNT && named_before(pending, upto, slot) ==> slot_agrees(
                disk_after(plan_shapes(pending, upto), disk),
                save_file,
                slot,
            ),
        forall|slot: u8, kind: FileKind|
            !named_before(pending, upto, slot) ==> (#[trigger] has_file(
                disk_after(plan_shapes(pending, upto), disk),
                kind,
                slot,
            ) <==> has_file(disk, kind, slot)),
    decreases upto,
{
    if upto > 0 {
        let k = upto - 1;
        let op = pending[k];
        let before = disk_after(plan_shapes(pending, k), disk);
        let after = disk_after(plan_shapes(pending, upto), disk);
        lemma_plan_prefix(pending, save_file, disk, k);
        lemma_disk_after_concat(plan_shapes(pending, k), op_shapes(op), disk);
        assert(op_in_range(op));
        assert(op_ready(op, save_file, disk));
        assert forall|slot: u8| op_names(op, slot) implies !named_before(pending, k, slot) by {
            if named_before(pending, k, slot) {
                let i = choose|i: int| 0 <= i < k && op_names(#[trigger] pending[i], slot);
                assert(op_names(pending[i], slot));
                assert(!op_names(pending[k], slot));
            }
        }
        assert(op_ready(op, save_file, before)) by {
            match op {
                Some(PendingFsOperation::Swap(first, second)) => {
                    assert(op_names(op, first) && op_names(op, second));
                    assert(has_file(before, FileKind::CourseData, first) <==> has_file(
                        disk,
                        FileKind::CourseData,
                        first,
                    ));
                    assert(has_file(before, FileKind::CourseThumb, first) <==> has_file(
                        disk,
                        FileKind::CourseThumb,
                        first,
                    ));
                    assert(has_file(before, FileKind::CourseData, second) <==> has_file(
                        disk,
                        FileKind::CourseData,
                        second,
                    ));
                    assert(has_file(before, FileKind::CourseThumb, second) <==> has_file(
                        disk,
                        FileKind::CourseThumb,
                        second,
                    ));
                },
                Some(PendingFsOperation::Move(from, to)) => {
                    assert(op_names(op, from));
                    assert(has_file(before, FileKind::CourseData, from) <==> has_file(
                        disk,
                        FileKind::CourseData,
                        from,
                    ));
                    assert(has_file(before, FileKind::CourseThumb, from) <==> has_file(
                        disk,
                        FileKind::CourseThumb,
                        from,
                    ));
                },
                Some(PendingFsOperation::Remove(index)) => {
                    assert(op_names(op, index));
                    assert(has_file(before, FileKind::CourseData, index) <==> has_file(
                        disk,
                        FileKind::CourseData,
                        index,
                    ));
                    assert(has_file(before, FileKind::CourseThumb, index) <==> has_file(
                        disk,
                        FileKind::CourseThumb,
                        index,
                    ));
                },
                _ => {},
            }
        }
        lemma_op_effect(op, save_file, before);
        assert forall|slot: u8| slot < SLOT_COUNT && named_before(pending, upto, slot) implies slot_agrees(
            after,
            save_file,
            slot,
        ) by {
            if !op_names(op, slot) {
                let i = choose|i: int| 0 <= i < upto && op_names(#[trigger] pending[i], slot);
                assert(i < k);
                assert(named_before(pending, k, slot));
                assert(slot_agrees(before, save_file, slot));
                assert(has_file(after, FileKind::CourseData, slot) <==> has_file(
                    before,
                    FileKind::CourseData,
                    slot,
                ));
                assert(has_file(after, FileKind::CourseThumb, slot) <==> has_file(
                    before,
                    FileKind::CourseThumb,
                    slot,
                ));
            }
        }
        assert forall|slot: u8, kind: FileKind| !named_before(pending, upto, slot) implies (
        #[trigger] has_file(after, kind, slot) <==> has_file(disk, kind, slot)) by {
            assert(!op_names(pending[k], slot));
            assert(!named_before(pending, k, slot)) by {
                if named_before(pending, k, slot) {
                    let i = choose|i: int| 0 <= i < k && op_names(#[trigger] pending[i], slot);
                    assert(0 <= i < upto && op_names(pending[i], slot));
                }
            }
            assert(has_file(after, kind, slot) <==> has_file(before, kind, slot));
            assert(has_file(before, kind, slot) <==> has_file(disk, kind, slot));
        }
    }
}

/// Where the pending operations are sound for the files that exist, all
/// actions of a save can be performed in their order, and afterwards every
/// taken slot has both its files and no free slot has either.
pub proof fn lemma_save_leaves_files_of_taken_slots(
    pending: Seq<Option<PendingFsOperation>>,
    save_file: Seq<u8>,
    disk: Set<FileRef>,
)
    requires
        plan_sound(pending, save_file, disk),
    ensures
        actions_run(
            plan_shapes(pending, SLOT_COUNT as int).push(ActionShape::Write(FileRef::SaveFile)),
            disk,
        ),
        disk_agrees(
            disk_after(
                plan_shapes(pending, SLOT_COUNT as int).push(ActionShape::Write(FileRef::SaveFile)),
                disk,
            ),
            save_file,
        ),
{
    let plan = plan_shapes(pending, SLOT_COUNT as int);
    let before = disk_after(plan, disk);
    let after = disk_after(plan.push(ActionShape::Write(FileRef::SaveFile)), disk);
    lemma_plan_prefix(pending, save_file, disk, SLOT_COUNT as int);
    lemma_disk_after_push(plan, ActionShape::Write(FileRef::SaveFile), disk);
    assert forall|slot: u8| slot < SLOT_COUNT implies slot_agrees(after, save_file, slot) by {
        assert(has_file(after, FileKind::CourseData, slot) <==> has_file(
            before,
            FileKind::CourseData,
            slot,
        ));
        assert(has_file(after, FileKind::CourseThumb, slot) <==> has_file(
            before,
            FileKind::CourseThumb,
            slot,
        ));
        if !named_before(pending, SLOT_COUNT as int, slot) {
            assert(slot_agrees(disk, save_file, slot));
            assert(has_file(before, FileKind::CourseData, slot) <==> has_file(
                disk,
                FileKind::CourseData,
                slot,
            ));
            assert(has_file(before, FileKind::CourseThumb, slot) <==> has_file(
                disk,
                FileKind::CourseThumb,
                slot,
            ));
        } else {
            assert(slot_agrees(before, save_file, slot));
        }
    }
}

/// With nothing pending, the operations are sound exactly for files that
/// agree with the index file.
pub proof fn lemma_nothing_pending(
    pending: Seq<Option<PendingFsOperation>>,
    save_file: Seq<u8>,
    disk: Set<FileRef>,
)
    requires
        pending.len() == SLOT_COUNT,
        forall|i: int| 0 <= i < SLOT_COUNT ==> #[trigger] pending[i] is None,
    ensures
        plan_sound(pending, save_file, disk) <==> disk_agrees(disk, save_file),
{
    assert forall|slot: u8| !named_before(pending, SLOT_COUNT as int, slot) by {
        if named_before(pending, SLOT_COUNT as int, slot) {
            let i = choose|i: int| 0 <= i < SLOT_COUNT && op_names(#[trigger] pending[i], slot);
            assert(pending[i] is None);
        }
    }
}

/// A slot that no pending operation names has nothing pending under it.
pub proof fn lemma_unnamed_slot_is_free(
    pending: Seq<Option<PendingFsOperation>>,
    save_file: Seq<u8>,
    disk: Set<FileRef>,
    slot: u8,
)
    requires
        plan_sound(pending, save_file, disk),
        slot < SLOT_COUNT,
        !named_before(pending, SLOT_COUNT as int, slot),
    ensures
        pending[slot as int] is None,
        slot_agrees(disk, save_file, slot),
        forall|i: int| 0 <= i < SLOT_COUNT ==> !op_names(#[trigger] pending[i], slot),
{
    assert forall|i: int| 0 <= i < SLOT_COUNT implies !op_names(#[trigger] pending[i], slot) by {
        if op_names(pending[i], slot) {
            assert(named_before(pending, SLOT_COUNT as int, slot));
        }
    }
    if pending[slot as int] is Some {
        assert(op_names(pending[slot as int], slot));
    }
}

/// Putting a course into a slot that no pending operation names keeps the
/// pending operations sound.
pub proof fn lemma_add_keeps_plan_sound(
    pending: Seq<Option<PendingFsOperation>>,
    save_file: Seq<u8>,
    disk: Set<FileRef>,
    index: u8,
)
    requires
        plan_sound(pending, save_file, disk),
        save_file.len() >= SAVE_MIN_LEN,
        index < SLOT_COUNT,
        !named_before(pending, SLOT_COUNT as int, index),
    ensures
        plan_sound(
            pending.update(index as int, Some(PendingFsOperation::AddOrReplace(index))),
            save_file.update(slot_offset(index as int) + 1, 1u8),
            disk,
        ),
{
    let op = Some(PendingFsOperation::AddOrReplace(index));
    let pending2 = pending.update(index as int, op);
    let save_file2 = save_file.update(slot_offset(index as int) + 1, 1u8);
    lemma_unnamed_slot_is_free(pending, save_file, disk, index);
    assert forall|slot: u8| slot < SLOT_COUNT && slot != index implies slot_flag(save_file2, slot as int)
        == slot_flag(save_file, slot as int) by {
        assert(slot_offset(slot as int) + 1 != slot_offset(index as int) + 1);
    }
    lemma_one_op_replaced(pending, save_file, save_file2, disk, index, op);
}

/// Emptying a taken slot that no pending operation names keeps the pending
/// operations sound.
pub proof fn lemma_remove_keeps_plan_sound(
    pending: Seq<Option<PendingFsOperation>>,
    save_file: Seq<u8>,
    disk: Set<FileRef>,
    index: u8,
)
    requires
        plan_sound(pending, save_file, disk),
        save_file.len() >= SAVE_MIN_LEN,
        index < SLOT_COUNT,
        slot_flag(save_file, index as int) != 0,
        !named_before(pending, SLOT_COUNT as int, index),
    ensures
        plan_sound(
            pending.update(index as int, Some(PendingFsOperation::Remove(index))),
            save_file.update(slot_offset(index as int) + 1, 0u8),
            disk,
        ),
{
    let op = Some(PendingFsOperation::Remove(index));
    let pending2 = pending.update(index as int, op);
    let save_file2 = save_file.update(slot_offset(index as int) + 1, 0u8);
    lemma_unnamed_slot_is_free(pending, save_file, disk, index);
    assert forall|slot: u8| slot < SLOT_COUNT && slot != index implies slot_flag(save_file2, slot as int)
        == slot_flag(save_file, slot as int) by {
        assert(slot_offset(slot as int) + 1 != slot_offset(index as int) + 1);
    }
    lemma_one_op_replaced(pending, save_file, save_file2, disk, index, op);
}

/// Exchanging two different slots that no pending operation names, one of
/// them taken at least, keeps the pending operations sound.
pub proof fn lemma_swap_keeps_plan_sound(
    pending: Seq<Option<PendingFsOperation>>,
    save_file: Seq<u8>,
    disk: Set<FileRef>,
    first: u8,
    second: u8,
)
    requires
        plan_sound(pending, save_file, disk),
        save_file.len() >= SAVE_MIN_LEN,
        first < SLOT_COUNT,
        second < SLOT_COUNT,
        first != second,
        slot_flag(save_file, first as int) != 0 || slot_flag(save_file, second as int) != 0,
        !named_before(pending, SLOT_COUNT as int, first),
        !named_before(pending, SLOT_COUNT as int, second),
    ensures
        plan_sound(
            pending.update(first as int, Some(swap_operation(save_file, first, second))),
            swapped_flags(save_file, first, second),
            disk,
        ),
{
    let op = Some(swap_operation(save_file, first, second));
    let save_file2 = swapped_flags(save_file, first, second);
    lemma_unnamed_slot_is_free(pending, save_file, disk, first);
    lemma_unnamed_slot_is_free(pending, save_file, disk, second);
    assert(slot_offset(first as int) + 1 != slot_offset(second as int) + 1);
    assert forall|slot: u8|
        slot < SLOT_COUNT && slot != first && slot != second implies slot_flag(
        save_file2,
        slot as int,
    ) == slot_flag(save_file, slot as int) by {
        assert(slot_offset(slot as int) + 1 != slot_offset(first as int) + 1);
        assert(slot_offset(slot as int) + 1 != slot_offset(second as int) + 1);
    }
    lemma_one_op_replaced(pending, save_file, save_file2, disk, first, op);
}

/// Noting one operation under a free slot keeps the pending operations
/// sound, where the operation names that slot, names only slots that no
/// pending operation names, finds what it needs, and the index file changes
/// for the slots that it names at most.
pub proof fn lemma_one_op_replaced(
    pending: Seq<Option<PendingFsOperation>>,
    save_file: Seq<u8>,
    save_file2: Seq<u8>,
    disk: Set<FileRef>,
    at: u8,
    op: Option<PendingFsOperation>,
)
    requires
        plan_sound(pending, save_file, disk),
        at < SLOT_COUNT,
        op is Some,
        op_in_range(op),
        op_names(op, at),
        op_ready(op, save_file2, disk),
        forall|slot: u8| op_names(op, slot) ==> !named_before(pending, SLOT_COUNT as int, slot),
        forall|slot: u8|
            slot < SLOT_COUNT && !op_names(op, slot) ==> slot_flag(save_file2, slot as int)
                == slot_flag(save_file, slot as int),
    ensures
        plan_sound(pending.update(at as int, op), save_file2, disk),
{
    let pending2 = pending.update(at as int, op);
    lemma_unnamed_slot_is_free(pending, save_file, disk, at);
    assert forall|i: int, slot: u8| 0 <= i < SLOT_COUNT && op_names(op, slot) implies !#[trigger] op_names(
        pending[i],
        slot,
    ) by {
        if op_names(pending[i], slot) {
            assert(named_before(pending, SLOT_COUNT as int, slot));
        }
    }
    assert forall|i: int| 0 <= i < SLOT_COUNT implies op_ready(
        #[trigger] pending2[i],
        save_file2,
        disk,
    ) by {
        if i != at {
            assert(pending2[i] == pending[i]);
            assert(op_ready(pending[i], save_file, disk));
            match pending[i] {
                Some(PendingFsOperation::AddOrReplace(index)) => {
                    assert(op_names(pending[i], index));
                    assert(!op_names(op, index));
                },
                Some(PendingFsOperation::Swap(a, b)) => {
                    assert(op_names(pending[i], a) && op_names(pending[i], b));
                    assert(!op_names(op, a) && !op_names(op, b));
                },
                Some(PendingFsOperation::Move(a, b)) => {
                    assert(op_names(pending[i], a) && op_names(pending[i], b));
                    assert(!op_names(op, a) && !op_names(op, b));
                },
                Some(PendingFsOperation::Remove(index)) => {
                    assert(op_names(pending[i], index));
                    assert(!op_names(op, index));
                },
                None => {},
            }
        }
    }
    assert forall|i: int| 0 <= i < SLOT_COUNT implies op_in_range(#[trigger] pending2[i]) by {
        if i != at {
            assert(op_in_range(pending[i]));
        }
    }
    assert forall|i: int| 0 <= i < SLOT_COUNT && (#[trigger] pending2[i]) is Some implies op_names(
        pending2[i],
        i as u8,
    ) by {
        if i != at {
            assert(pending[i] is Some ==> op_names(pending[i], i as u8));
        }
    }
    assert forall|i: int, j: int, slot: u8|
        0 <= i < j < SLOT_COUNT && #[trigger] op_names(pending2[i], slot) implies !#[trigger] op_names(
        pending2[j],
        slot,
    ) by {
        if i != at && j != at {
            assert(op_names(pending[i], slot));
            assert(!op_names(pending[j], slot));
        } else if i == at {
            assert(!op_names(pending[j], slot));
        } else {
            assert(op_names(pending[i], slot));
            if op_names(op, slot) {
                assert(!op_names(pending[i], slot));
            }
        }
    }
    assert forall|slot: u8|
        slot < SLOT_COUNT && !named_before(pending2, SLOT_COUNT as int, slot) implies slot_agrees(
        disk,
        save_file2,
        slot,
    ) by {
        assert(!op_names(pending2[at as int], slot));
        assert(!named_before(pending, SLOT_COUNT as int, slot)) by {
            if named_before(pending, SLOT_COUNT as int, slot) {
                let i = choose|i: int| 0 <= i < SLOT_COUNT && op_names(#[trigger] pending[i], slot);
                assert(i != at);
                assert(op_names(pending2[i], slot));
            }
        }
        assert(slot_agrees(disk, save_file, slot));
    }
}

/// Setting the checksum of the course section leaves the flags of all slots
/// as they are.
pub proof fn lemma_section_crc_keeps_flags(save_file: Seq<u8>, slot: u8)
    requires
        save_file.len() >= SAVE_MIN_LEN,
        slot < SLOT_COUNT,
    ensures
        with_section_crc(save_file).len() == save_file.len(),
        slot_flag(with_section_crc(save_file), slot as int) == slot_flag(save_file, slot as int),
{
}

/// After a save whose actions were all performed, the files agree with the
/// catalogue: every taken slot has its course file and its thumbnail file,
/// and no free slot has either. This holds where the pending operations
/// were sound for the files that existed in front of the save.
pub proof fn lemma_save_consistency(
    before: Save,
    after: Save,
    actions: Seq<ActionShape>,
    disk: Set<FileRef>,
)
    requires
        before.wf(),
        plan_sound(before.pending(), before.save_file_view(), disk),
        actions == plan_shapes(before.pending(), SLOT_COUNT as int).push(
            ActionShape::Write(FileRef::SaveFile),
        ),
        after.save_file_view() == with_section_crc(before.save_file_view()),
    ensures
        actions_run(actions, disk),
        disk_agrees(disk_after(actions, disk), after.save_file_view()),
        forall|slot: u8|
            slot < SLOT_COUNT ==> (after.occupied(slot as int) ==> slot_files_exist(
                disk_after(actions, disk),
                slot,
            )) && (!after.occupied(slot as int) ==> slot_files_absent(
                disk_after(actions, disk),
                slot,
            )),
{
    lemma_save_leaves_files_of_taken_slots(before.pending(), before.save_file_view(), disk);
    assert forall|slot: u8| slot < SLOT_COUNT implies slot_agrees(
        disk_after(actions, disk),
        after.save_file_view(),
        slot,
    ) by {
        lemma_section_crc_keeps_flags(before.save_file_view(), slot);
        assert(slot_agrees(disk_after(actions, disk), before.save_file_view(), slot));
    }
    assert forall|slot: u8| slot < SLOT_COUNT implies (after.occupied(slot as int)
        ==> slot_files_exist(disk_after(actions, disk), slot)) && (!after.occupied(slot as int)
        ==> slot_files_absent(disk_after(actions, disk), slot)) by {
        assert(slot_agrees(disk_after(actions, disk), after.save_file_view(), slot));
    }
}

/// Performing the pending operation of a slot and taking it off the list
/// keeps the pending operations sound for the files that exist afterwards.
pub proof fn lemma_done_keeps_plan_sound(
    pending: Seq<Option<PendingFsOperation>>,
    save_file: Seq<u8>,
    disk: Set<FileRef>,
    slot: u8,
)
    requires
        plan_sound(pending, save_file, disk),
        slot < SLOT_COUNT,
    ensures
        actions_run(op_shapes(pending[slot as int]), disk),
        plan_sound(
            pending.update(slot as int, None),
            save_file,
            disk_after(op_shapes(pending[slot as int]), disk),
        ),
{
    let op = pending[slot as int];
    let rest = pending.update(slot as int, None);
    let after = disk_after(op_shapes(op), disk);
    assert(op_in_range(op));
    assert(op_ready(op, save_file, disk));
    lemma_op_effect(op, save_file, disk);
    assert forall|i: int, named: u8|
        0 <= i < SLOT_COUNT && i != slot && #[trigger] op_names(pending[i], named) implies !op_names(
        op,
        named,
    ) by {
        if i < slot {
            assert(!op_names(pending[slot as int], named));
        } else {
            if op_names(pending[slot as int], named) {
                assert(!op_names(pending[i], named));
            }
        }
    }
    assert forall|i: int| 0 <= i < SLOT_COUNT implies op_in_range(#[trigger] rest[i]) by {
        assert(op_in_range(pending[i]));
    }
    assert forall|i: int| 0 <= i < SLOT_COUNT && (#[trigger] rest[i]) is Some implies op_names(
        rest[i],
        i as u8,
    ) by {
        assert(pending[i] is Some ==> op_names(pending[i], i as u8));
    }
    assert forall|i: int, j: int, named: u8|
        0 <= i < j < SLOT_COUNT && #[trigger] op_names(rest[i], named) implies !#[trigger] op_names(
        rest[j],
        named,
    ) by {
        assert(op_names(pending[i], named));
        assert(!op_names(pending[j], named));
    }
    assert forall|i: int| 0 <= i < SLOT_COUNT implies op_ready(#[trigger] rest[i], save_file, after) by {
        if i != slot {
            assert(op_ready(pending[i], save_file, disk));
            match pending[i] {
                Some(PendingFsOperation::Swap(a, b)) => {
                    assert(op_names(pending[i], a) && op_names(pending[i], b));
                    assert(has_file(after, FileKind::CourseData, a) <==> has_file(
                        disk,
                        FileKind::CourseData,
                        a,
                    ));
                    assert(has_file(after, FileKind::CourseThumb, a) <==> has_file(
                        disk,
                        FileKind::CourseThumb,
                        a,
                    ));
                    assert(has_file(after, FileKind::CourseData, b) <==> has_file(
                        disk,
                        FileKind::CourseData,
                        b,
                    ));
                    assert(has_file(after, FileKind::CourseThumb, b) <==> has_file(
                        disk,
                        FileKind::CourseThumb,
                        b,
                    ));
                },
                Some(PendingFsOperation::Move(a, b)) => {
                    assert(op_names(pending[i], a));
                    assert(has_file(after, FileKind::CourseData, a) <==> has_file(
                        disk,
                        FileKind::CourseData,
                        a,
                    ));
                    assert(has_file(after, FileKind::CourseThumb, a) <==> has_file(
                        disk,
                        FileKind::CourseThumb,
                        a,
                    ));
                },
                Some(PendingFsOperation::Remove(a)) => {
                    assert(op_names(pending[i], a));
                    assert(has_file(after, FileKind::CourseData, a) <==> has_file(
                        disk,
                        FileKind::CourseData,
                        a,
                    ));
                    assert(has_file(after, FileKind::CourseThumb, a) <==> has_file(
                        disk,
                        FileKind::CourseThumb,
                        a,
                    ));
                },
                _ => {},
            }
        }
    }
    assert forall|named: u8|
        named < SLOT_COUNT && !named_before(rest, SLOT_COUNT as int, named) implies slot_agrees(
        after,
        save_file,
        named,
    ) by {
        if !op_names(op, named) {
            assert(!named_before(pending, SLOT_COUNT as int, named)) by {
                if named_before(pending, SLOT_COUNT as int, named) {
                    let i = choose|i: int|
                        0 <= i < SLOT_COUNT && op_names(#[trigger] pending[i], named);
                    assert(i != slot);
                    assert(op_names(rest[i], named));
                }
            }
            assert(slot_agrees(disk, save_file, named));
            assert(has_file(after, FileKind::CourseData, named) <==> has_file(
                disk,
                FileKind::CourseData,
                named,
            ));
            assert(has_file(after, FileKind::CourseThumb, named) <==> has_file(
                disk,
                FileKind::CourseThumb,
                named,
            ));
        }
    }
}

/// Whether the slot stands alone among the pending operations: none that
/// stands under another slot names it, and the one that stands under it, if
/// any, names no other slot.
pub open spec fn stands_alone(pending: Seq<Option<PendingFsOperation>>, slot: u8) -> bool {
    &&& forall|i: int| 0 <= i < SLOT_COUNT && i != slot ==> !op_names(#[trigger] pending[i], slot)
    &&& forall|other: u8| other != slot ==> !#[trigger] op_names(pending[slot as int], other)
}

/// Noting an operation that names one slot alone, under that slot, keeps the
/// pending operations sound where the slot stands alone, the operation finds
/// what it needs, and the index file changes for that slot at most.
pub proof fn lemma_own_op_replaced(
    pending: Seq<Option<PendingFsOperation>>,
    save_file: Seq<u8>,
    save_file2: Seq<u8>,
    disk: Set<FileRef>,
    at: u8,
    op: Option<PendingFsOperation>,
)
    requires
        plan_sound(pending, save_file, disk),
        at < SLOT_COUNT,
        op == Some(PendingFsOperation::AddOrReplace(at)) || op == Some(
            PendingFsOperation::Remove(at),
        ),
        stands_alone(pending, at),
        op_ready(op, save_file2, disk),
        forall|slot: u8|
            slot < SLOT_COUNT && slot != at ==> slot_flag(save_file2, slot as int) == slot_flag(
                save_file,
                slot as int,
            ),
    ensures
        plan_sound(pending.update(at as int, op), save_file2, disk),
{
    let pending2 = pending.update(at as int, op);
    assert forall|i: int| 0 <= i < SLOT_COUNT implies op_ready(
        #[trigger] pending2[i],
        save_file2,
        disk,
    ) by {
        if i != at {
            assert(pending2[i] == pending[i]);
            assert(op_ready(pending[i], save_file, disk));
            assert(!op_names(pending[i], at));
        }
    }
    assert forall|i: int| 0 <= i < SLOT_COUNT implies op_in_range(#[trigger] pending2[i]) by {
        if i != at {
            assert(op_in_range(pending[i]));
        }
    }
    assert forall|i: int| 0 <= i < SLOT_COUNT && (#[trigger] pending2[i]) is Some implies op_names(
        pending2[i],
        i as u8,
    ) by {
        if i != at {
            assert(pending[i] is Some ==> op_names(pending[i], i as u8));
        }
    }
    assert forall|i: int, j: int, slot: u8|
        0 <= i < j < SLOT_COUNT && #[trigger] op_names(pending2[i], slot) implies !#[trigger] op_names(
        pending2[j],
        slot,
    ) by {
        if i != at && j != at {
            assert(op_names(pending[i], slot));
            assert(!op_names(pending[j], slot));
        } else if i == at {
            assert(slot == at);
            assert(!op_names(pending[j], at));
        } else {
            assert(op_names(pending[i], slot));
            assert(!op_names(pending[i], at));
        }
    }
    assert forall|slot: u8|
        slot < SLOT_COUNT && !named_before(pending2, SLOT_COUNT as int, slot) implies slot_agrees(
        disk,
        save_file2,
        slot,
    ) by {
        assert(!op_names(pending2[at as int], slot));
        assert(slot != at);
        assert(!named_before(pending, SLOT_COUNT as int, slot)) by {
            if named_before(pending, SLOT_COUNT as int, slot) {
                let i = choose|i: int| 0 <= i < SLOT_COUNT && op_names(#[trigger] pending[i], slot);
                if i == at {
                    assert(!op_names(pending[at as int], slot));
                } else {
                    assert(op_names(pending2[i], slot));
                }
            }
        }
        assert(slot_agrees(disk, save_file, slot));
    }
}

/// Putting a course into a slot that stands alone among the pending
/// operations keeps them sound: also where a course was put there or taken
/// from there since the last save.
pub proof fn lemma_add_again_keeps_plan_sound(
    pending: Seq<Option<PendingFsOperation>>,
    save_file: Seq<u8>,
    disk: Set<FileRef>,
    index: u8,
)
    requires
        plan_sound(pending, save_file, disk),
        save_file.len() >= SAVE_MIN_LEN,
        index < SLOT_COUNT,
        stands_alone(pending, index),
    ensures
        plan_sound(
            pending.update(index as int, Some(PendingFsOperation::AddOrReplace(index))),
            save_file.update(slot_offset(index as int) + 1, 1u8),
            disk,
        ),
{
    let save_file2 = save_file.update(slot_offset(index as int) + 1, 1u8);
    assert forall|slot: u8| slot < SLOT_COUNT && slot != index implies slot_flag(save_file2, slot as int)
        == slot_flag(save_file, slot as int) by {
        assert(slot_offset(slot as int) + 1 != slot_offset(index as int) + 1);
    }
    lemma_own_op_replaced(
        pending,
        save_file,
        save_file2,
        disk,
        index,
        Some(PendingFsOperation::AddOrReplace(index)),
    );
}

/// Emptying a slot that stands alone among the pending operations, and
/// whose files exist, keeps them sound.
pub proof fn lemma_remove_again_keeps_plan_sound(
    pending: Seq<Option<PendingFsOperation>>,
    save_file: Seq<u8>,
    disk: Set<FileRef>,
    index: u8,
)
    requires
        plan_sound(pending, save_file, disk),
        save_file.len() >= SAVE_MIN_LEN,
        index < SLOT_COUNT,
        stands_alone(pending, index),
        slot_files_exist(disk, index),
    ensures
        plan_sound(
            pending.update(index as int, Some(PendingFsOperation::Remove(index))),
            save_file.update(slot_offset(index as int) + 1, 0u8),
            disk,
        ),
{
    let save_file2 = save_file.update(slot_offset(index as int) + 1, 0u8);
    assert forall|slot: u8| slot < SLOT_COUNT && slot != index implies slot_flag(save_file2, slot as int)
        == slot_flag(save_file, slot as int) by {
        assert(slot_offset(slot as int) + 1 != slot_offset(index as int) + 1);
    }
    lemma_own_op_replaced(
        pending,
        save_file,
        save_file2,
        disk,
        index,
        Some(PendingFsOperation::Remove(index)),
    );
}

} // verus!
