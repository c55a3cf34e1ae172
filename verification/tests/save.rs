use smmdb::constants2::{
    COURSE_LEN, DAY_OFFSET, GAME_STYLE_OFFSET, MONTH_OFFSET, SAVE_COURSE_OFFSET, TITLE_OFFSET,
    YEAR_OFFSET,
};
use smmdb::course2::Course2;
use smmdb::errors::{SaveError, Smm2Error, SmmdbError};
use smmdb::files::{FileKind, FileRef, FsAction};
use smmdb::key_tables::KeyTables;
use smmdb::save::{
    CourseEntry, PendingFsOperation, Save, SavePlan, SaveStep, SavedCourse, SlotFiles,
};
use smmdb::thumbnail2::Thumbnail2;
use std::collections::HashMap;

fn sv_table(mul: u32) -> [u32; 256] {
    let mut table = [0u32; 256];
    for (i, entry) in table.iter_mut().enumerate() {
        *entry = (i as u32).wrapping_mul(mul).wrapping_add(0x7F4A_7C15);
    }
    table
}

fn sv_keys() -> KeyTables {
    KeyTables {
        course: sv_table(0x9E37_79B1),
        thumbnail: sv_table(0x85EB_CA6B),
        save: sv_table(0xC2B2_AE35),
    }
}

fn sv_plain_course(number: usize) -> Vec<u8> {
    let mut data = vec![0u8; COURSE_LEN];
    data[YEAR_OFFSET..YEAR_OFFSET + 2].copy_from_slice(&2021u16.to_le_bytes());
    data[MONTH_OFFSET] = 3;
    data[DAY_OFFSET] = 4;
    data[GAME_STYLE_OFFSET] = b'W';
    data[GAME_STYLE_OFFSET + 1] = b'U';
    let title = format!("Saved {}", number);
    for (i, unit) in title.encode_utf16().enumerate() {
        data[TITLE_OFFSET + 2 * i] = unit as u8;
        data[TITLE_OFFSET + 2 * i + 1] = (unit >> 8) as u8;
    }
    data
}

fn sv_course_file(number: usize) -> Vec<u8> {
    let mut data = sv_plain_course(number);
    Course2::encrypt(&mut data, &sv_keys()).unwrap();
    data
}

fn sv_thumb_file(number: usize) -> Vec<u8> {
    Thumbnail2::from_decrypted(vec![number as u8; 16], &sv_keys()).take_encrypted()
}

fn sv_course(number: usize) -> Course2 {
    let mut data = sv_course_file(number);
    Course2::from_switch_files(&mut data, Some(sv_thumb_file(number)), true, &sv_keys()).unwrap()
}

fn sv_flag_offset(slot: usize) -> usize {
    SAVE_COURSE_OFFSET as usize + 0x10 + slot * 8 + 1
}

fn sv_plain_save(taken: &[usize]) -> Vec<u8> {
    let mut data: Vec<u8> = (0..0xBFD0usize).map(|i| (i % 251) as u8).collect();
    for slot in 0..180 {
        let offset = SAVE_COURSE_OFFSET as usize + 0x10 + slot * 8;
        data[offset] = slot as u8;
        data[offset + 1] = 0;
    }
    for slot in taken {
        data[sv_flag_offset(*slot)] = 1;
    }
    data
}

fn sv_save_dat(plain: &[u8]) -> Vec<u8> {
    let mut body = plain[0x10..].to_vec();
    let info = smmdb::encryption::encrypt(&mut body, &sv_keys().save).unwrap();
    let mut file = plain[..0x10].to_vec();
    file.extend_from_slice(&body);
    file.extend_from_slice(&info);
    file
}

fn sv_disk(taken: &[usize]) -> HashMap<String, Vec<u8>> {
    let mut disk = HashMap::new();
    disk.insert("save.dat".to_string(), sv_save_dat(&sv_plain_save(taken)));
    for slot in taken {
        disk.insert(format!("course_data_{:0>3}.bcd", slot), sv_course_file(*slot));
        disk.insert(format!("course_thumb_{:0>3}.btl", slot), sv_thumb_file(*slot));
    }
    disk
}

fn sv_open(disk: &HashMap<String, Vec<u8>>) -> Save {
    let keys = sv_keys();
    let save_file = Save::decrypt_save_file(disk["save.dat"].clone(), &keys).unwrap();
    let mut files = Vec::new();
    for index in Save::occupied_slots(&save_file).unwrap() {
        files.push(SlotFiles {
            index,
            course_data: disk[&format!("course_data_{:0>3}.bcd", index)].clone(),
            thumb_data: disk[&format!("course_thumb_{:0>3}.btl", index)].clone(),
        });
    }
    Save::new(save_file, files, &keys).unwrap()
}

fn sv_commit(save: &mut Save, disk: &mut HashMap<String, Vec<u8>>, plan: SavePlan) {
    let mut performed = 0;
    for step in plan.steps.iter() {
        sv_perform(disk, plan.actions[performed..step.end].to_vec());
        performed = step.end;
        save.operation_done(step.slot);
    }
    sv_perform(disk, plan.actions[performed..].to_vec());
}

fn sv_perform(disk: &mut HashMap<String, Vec<u8>>, actions: Vec<FsAction>) {
    for action in actions {
        match action {
            FsAction::Write { file, data } => {
                disk.insert(file.file_name(), data);
            }
            FsAction::Rename { from, to } => {
                let data = disk.remove(&from.file_name()).expect("file to rename exists");
                disk.insert(to.file_name(), data);
            }
            FsAction::Remove { file } => {
                disk.remove(&file.file_name()).expect("file to remove exists");
            }
        }
    }
}

fn sv_check_disk(disk: &HashMap<String, Vec<u8>>) -> Vec<u8> {
    let keys = sv_keys();
    let save_file = Save::decrypt_save_file(disk["save.dat"].clone(), &keys).unwrap();
    for slot in 0..180usize {
        let taken = save_file[sv_flag_offset(slot)] != 0;
        assert_eq!(disk.contains_key(&format!("course_data_{:0>3}.bcd", slot)), taken, "{}", slot);
        assert_eq!(disk.contains_key(&format!("course_thumb_{:0>3}.btl", slot)), taken, "{}", slot);
    }
    assert_eq!(disk.len(), 1 + 2 * Save::occupied_slots(&save_file).unwrap().len());
    let offset = SAVE_COURSE_OFFSET as usize;
    let checksum = crc::crc32::checksum_ieee(&save_file[offset + 0x10..]);
    assert_eq!(&save_file[offset + 8..offset + 12], &checksum.to_le_bytes());
    save_file
}

fn sv_title(entry: &Option<CourseEntry>) -> Option<String> {
    match entry {
        Some(CourseEntry::SavedCourse(saved)) => {
            Some(saved.get_course().get_course().header.title.clone())
        }
        _ => None,
    }
}

#[test]
fn test_save() {
    let taken: Vec<usize> = (120..130).collect();
    let mut disk = sv_disk(&taken);
    let mut save = sv_open(&disk);

    let courses: Vec<Course2> = (0..7).map(sv_course).collect();
    save.add_course(0, courses[0].clone()).unwrap();
    save.add_course(1, courses[1].clone()).unwrap();
    save.add_course(2, courses[2].clone()).unwrap();
    save.add_course(5, courses[3].clone()).unwrap();
    save.add_course(6, courses[4].clone()).unwrap();
    save.add_course(9, courses[5].clone()).unwrap();
    save.add_course(12, courses[6].clone()).unwrap();
    save.remove_course(122).unwrap();
    save.remove_course(126).unwrap();
    let plan = save.save(&sv_keys());
    assert_eq!(plan.result, Ok(()));
    assert_eq!(plan.actions.len(), 7 * 2 + 2 * 2 + 1);
    assert!(matches!(
        plan.actions.last(),
        Some(FsAction::Write { file: FileRef::SaveFile, .. })
    ));
    sv_commit(&mut save, &mut disk, plan);

    let save_file = sv_check_disk(&disk);
    assert_eq!(&save_file, save.get_save_file());
    assert_eq!(save_file[sv_flag_offset(122)], 0);
    assert_eq!(save_file[sv_flag_offset(126)], 0);
    assert_eq!(save_file[sv_flag_offset(12)], 1);
    assert!(!disk.contains_key("course_data_122.bcd"));
    assert!(!disk.contains_key("course_thumb_122.btl"));

    let reopened = sv_open(&disk);
    assert_eq!(sv_title(&reopened.get_own_courses()[12]), Some("Saved 6".to_string()));
    assert_eq!(sv_title(&reopened.get_own_courses()[3]), None);
    assert_eq!(sv_title(&reopened.get_downloaded_courses()[2]), None);
    assert_eq!(sv_title(&reopened.get_downloaded_courses()[3]), Some("Saved 123".to_string()));
    assert_eq!(reopened.get_unknown_courses().len(), 60);
    assert!(reopened.get_unknown_courses().iter().all(|entry| entry.is_none()));
}

#[test]
fn save_opens_the_taken_slots() {
    let disk = sv_disk(&[0, 59, 60, 179]);
    let save = sv_open(&disk);
    assert_eq!(sv_title(&save.get_own_courses()[0]), Some("Saved 0".to_string()));
    assert_eq!(sv_title(&save.get_own_courses()[59]), Some("Saved 59".to_string()));
    assert_eq!(sv_title(&save.get_unknown_courses()[0]), Some("Saved 60".to_string()));
    assert_eq!(sv_title(&save.get_downloaded_courses()[59]), Some("Saved 179".to_string()));
    assert_eq!(sv_title(&save.get_own_courses()[1]), None);
    match &save.get_own_courses()[59] {
        Some(CourseEntry::SavedCourse(saved)) => assert_eq!(saved.get_index(), 59),
        other => panic!("unexpected entry {:?}", other),
    }
}

#[test]
fn save_keeps_what_cannot_be_read() {
    let mut disk = sv_disk(&[4, 5]);
    disk.get_mut("course_data_004.bcd").unwrap()[0x300] ^= 1;
    let save = sv_open(&disk);
    assert!(matches!(
        save.get_own_courses()[4],
        Some(CourseEntry::CorruptedCourse(Smm2Error::CmacMismatch { .. }))
    ));
    assert_eq!(sv_title(&save.get_own_courses()[5]), Some("Saved 5".to_string()));
}

#[test]
fn save_asks_for_the_files_of_taken_slots() {
    let keys = sv_keys();
    let save_file = sv_plain_save(&[3, 8]);
    assert_eq!(Save::occupied_slots(&save_file), Ok(vec![3, 8]));
    let files = vec![SlotFiles {
        index: 8,
        course_data: sv_course_file(8),
        thumb_data: sv_thumb_file(8),
    }];
    assert!(matches!(
        Save::new(save_file, files, &keys),
        Err(SmmdbError::SaveError(SaveError::CourseNotFound(3)))
    ));
    assert!(matches!(
        Save::new(vec![0u8; 100], Vec::new(), &keys),
        Err(SmmdbError::Smm2Error(Smm2Error::InvalidLength))
    ));
    assert_eq!(Save::occupied_slots(&[0u8; 100]), Err(Smm2Error::InvalidLength));
}

#[test]
fn save_file_is_decrypted_and_checked() {
    let keys = sv_keys();
    let plain = sv_plain_save(&[1]);
    let file = sv_save_dat(&plain);
    assert_eq!(file.len(), 0xC000);
    assert_eq!(Save::decrypt_save_file(file.clone(), &keys), Ok(plain));
    let mut damaged = file;
    damaged[0x20] ^= 1;
    assert!(matches!(
        Save::decrypt_save_file(damaged, &keys),
        Err(Smm2Error::CmacMismatch { .. })
    ));
    assert_eq!(Save::decrypt_save_file(vec![0u8; 8], &keys), Err(Smm2Error::InvalidLength));
}

#[test]
fn save_refuses_slots_that_do_not_exist() {
    let mut save = sv_open(&sv_disk(&[1]));
    assert_eq!(save.add_course(180, sv_course(1)), Err(SaveError::CourseIndexOutOfBounds(180)));
    assert_eq!(save.remove_course(200), Err(SaveError::CourseIndexOutOfBounds(200)));
    assert_eq!(save.swap_course(180, 1), Err(SaveError::CourseIndexOutOfBounds(180)));
    assert_eq!(save.swap_course(1, 255), Err(SaveError::CourseIndexOutOfBounds(255)));
    let before = save.get_save_file().clone();
    assert_eq!(save.swap_course(2, 3), Ok(()));
    assert_eq!(save.swap_course(3, 3), Ok(()));
    assert_eq!(save.get_save_file(), &before);
    let plan = save.save(&sv_keys());
    assert_eq!(plan.result, Ok(()));
    assert_eq!(plan.actions.len(), 1);
}

#[test]
fn save_swaps_taken_slots() {
    let mut disk = sv_disk(&[1, 2]);
    let mut save = sv_open(&disk);
    save.swap_course(1, 2).unwrap();
    assert_eq!(sv_title(&save.get_own_courses()[1]), Some("Saved 2".to_string()));
    assert_eq!(sv_title(&save.get_own_courses()[2]), Some("Saved 1".to_string()));
    let plan = save.save(&sv_keys());
    assert_eq!(plan.result, Ok(()));
    assert_eq!(plan.actions.len(), 7);
    assert_eq!(
        plan.actions[0],
        FsAction::Rename {
            from: FileRef::Slot(FileKind::CourseData, 1),
            to: FileRef::SwapTemp(FileKind::CourseData),
        }
    );
    sv_commit(&mut save, &mut disk, plan);
    sv_check_disk(&disk);
    let reopened = sv_open(&disk);
    assert_eq!(sv_title(&reopened.get_own_courses()[1]), Some("Saved 2".to_string()));
    assert_eq!(sv_title(&reopened.get_own_courses()[2]), Some("Saved 1".to_string()));
}

#[test]
fn save_moves_a_course_to_a_free_slot() {
    for (first, second) in [(1u8, 70u8), (70, 1)] {
        let mut disk = sv_disk(&[1, 2]);
        let mut save = sv_open(&disk);
        save.swap_course(first, second).unwrap();
        assert_eq!(sv_title(&save.get_own_courses()[1]), None);
        assert_eq!(sv_title(&save.get_unknown_courses()[10]), Some("Saved 1".to_string()));
        let plan = save.save(&sv_keys());
        assert_eq!(plan.result, Ok(()));
        assert_eq!(
            plan.actions[..2],
            [
                FsAction::Rename {
                    from: FileRef::Slot(FileKind::CourseData, 1),
                    to: FileRef::Slot(FileKind::CourseData, 70),
                },
                FsAction::Rename {
                    from: FileRef::Slot(FileKind::CourseThumb, 1),
                    to: FileRef::Slot(FileKind::CourseThumb, 70),
                },
            ]
        );
        sv_commit(&mut save, &mut disk, plan);
        let save_file = sv_check_disk(&disk);
        assert_eq!(save_file[sv_flag_offset(1)], 0);
        assert_eq!(save_file[sv_flag_offset(70)], 1);
        let reopened = sv_open(&disk);
        assert_eq!(sv_title(&reopened.get_unknown_courses()[10]), Some("Saved 1".to_string()));
    }
}

#[test]
fn save_writes_actions_by_ascending_slot() {
    let mut disk = sv_disk(&[10, 20, 30]);
    let mut save = sv_open(&disk);
    save.remove_course(30).unwrap();
    save.swap_course(20, 40).unwrap();
    save.add_course(5, sv_course(5)).unwrap();
    let plan = save.save(&sv_keys());
    assert_eq!(plan.result, Ok(()));
    let names: Vec<String> = plan
        .actions
        .iter()
        .map(|action| match action {
            FsAction::Write { file, .. } => format!("write {}", file.file_name()),
            FsAction::Rename { from, to } => {
                format!("rename {} {}", from.file_name(), to.file_name())
            }
            FsAction::Remove { file } => format!("remove {}", file.file_name()),
        })
        .collect();
    assert_eq!(
        names,
        vec![
            "write course_data_005.bcd",
            "write course_thumb_005.btl",
            "rename course_data_020.bcd course_data_040.bcd",
            "rename course_thumb_020.btl course_thumb_040.btl",
            "remove course_data_030.bcd",
            "remove course_thumb_030.btl",
            "write save.dat",
        ]
    );
    sv_commit(&mut save, &mut disk, plan);
    sv_check_disk(&disk);
    let again = save.save(&sv_keys());
    assert_eq!(again.result, Ok(()));
    assert_eq!(again.actions.len(), 1);
}

#[test]
fn save_writes_what_the_catalogue_holds() {
    let keys = sv_keys();
    let mut disk = sv_disk(&[]);
    let mut save = sv_open(&disk);
    let course = sv_course(33);
    save.add_course(33, course.clone()).unwrap();
    let plan = save.save(&keys);
    assert_eq!(plan.result, Ok(()));
    sv_commit(&mut save, &mut disk, plan);
    sv_check_disk(&disk);
    let mut written = disk["course_data_033.bcd"].clone();
    assert_eq!(written.len(), 0x5c000);
    let loaded = Course2::from_switch_files(&mut written, None, true, &keys).unwrap();
    assert_eq!(loaded.get_course(), course.get_course());
    assert_eq!(
        &disk["course_thumb_033.btl"],
        course.get_course_thumb().unwrap().get_encrypted()
    );
}

#[test]
fn save_refuses_a_course_without_thumbnail() {
    let keys = sv_keys();
    let mut save = sv_open(&sv_disk(&[50]));
    let mut data = sv_course_file(7);
    let bare = Course2::from_switch_files(&mut data, None, true, &keys).unwrap();
    let before = save.get_save_file().clone();
    assert_eq!(
        save.add_course(60, bare.clone()),
        Err(SaveError::ThumbnailRequired("Saved 7".to_string()))
    );
    assert_eq!(save.get_save_file(), &before);
    assert!(save.get_unknown_courses()[0].is_none());
    assert_eq!(save.add_course(200, bare.clone()), Err(SaveError::CourseIndexOutOfBounds(200)));
    let plan = save.save(&keys);
    assert_eq!(plan.result, Ok(()));
    assert_eq!(plan.actions.len(), 1);
    assert!(plan.steps.is_empty());

    let mut courses: Vec<Option<CourseEntry>> = (0..180).map(|_| None).collect();
    courses[60] = Some(CourseEntry::SavedCourse(SavedCourse::new([60, 1, 0, 0, 0, 0, 0, 0], bare)));
    assert_eq!(
        PendingFsOperation::AddOrReplace(60).run(&courses, &keys),
        Err(SaveError::ThumbnailRequired("Saved 7".to_string()))
    );
}

#[test]
fn save_keeps_operations_pending_until_they_are_done() {
    let keys = sv_keys();
    let mut disk = sv_disk(&[10, 20]);
    let mut save = sv_open(&disk);
    save.remove_course(10).unwrap();
    save.remove_course(20).unwrap();
    let plan = save.save(&keys);
    assert_eq!(plan.result, Ok(()));
    assert_eq!(
        plan.steps,
        vec![SaveStep { slot: 10, end: 2 }, SaveStep { slot: 20, end: 4 }]
    );
    assert_eq!(plan.actions.len(), 5);

    sv_perform(&mut disk, plan.actions[..2].to_vec());
    save.operation_done(10);
    save.operation_done(200);

    let rest = save.save(&keys);
    assert_eq!(rest.result, Ok(()));
    assert_eq!(rest.steps, vec![SaveStep { slot: 20, end: 2 }]);
    assert_eq!(
        rest.actions[0],
        FsAction::Remove { file: FileRef::Slot(FileKind::CourseData, 20) }
    );
    sv_commit(&mut save, &mut disk, rest);
    sv_check_disk(&disk);
    assert_eq!(save.save(&keys).actions.len(), 1);
}

#[test]
fn save_after_repeated_changes_of_one_slot() {
    let keys = sv_keys();
    let mut disk = sv_disk(&[3, 4]);
    let mut save = sv_open(&disk);
    save.add_course(8, sv_course(1)).unwrap();
    save.add_course(8, sv_course(2)).unwrap();
    save.remove_course(3).unwrap();
    save.add_course(3, sv_course(5)).unwrap();
    save.add_course(4, sv_course(6)).unwrap();
    save.remove_course(4).unwrap();
    let plan = save.save(&keys);
    assert_eq!(plan.result, Ok(()));
    sv_commit(&mut save, &mut disk, plan);
    sv_check_disk(&disk);
    let reopened = sv_open(&disk);
    assert_eq!(sv_title(&reopened.get_own_courses()[8]), Some("Saved 2".to_string()));
    assert_eq!(sv_title(&reopened.get_own_courses()[3]), Some("Saved 5".to_string()));
    assert_eq!(sv_title(&reopened.get_own_courses()[4]), None);
}

#[test]
fn save_binds_a_course_to_the_descriptor_of_its_slot() {
    let mut save = sv_open(&sv_disk(&[7]));
    save.add_course(33, sv_course(1)).unwrap();
    for slot in [7usize, 33] {
        match &save.get_own_courses()[slot] {
            Some(CourseEntry::SavedCourse(saved)) => assert_eq!(saved.get_index(), slot as u8),
            other => panic!("unexpected entry {:?}", other),
        }
    }
}

#[test]
fn save_fails_on_what_cannot_be_written() {
    let keys = sv_keys();
    let mut disk = sv_disk(&[4]);
    disk.get_mut("course_thumb_004.btl").unwrap()[1] ^= 1;
    let mut save = sv_open(&disk);
    save.add_course(9, sv_course(9)).unwrap();
    save.swap_course(4, 9).unwrap();
    let plan = save.save(&keys);
    assert!(matches!(
        plan.result,
        Err(SaveError::CorruptedCourse(Smm2Error::CmacMismatch { .. }))
    ));
    assert_eq!(plan.actions.len(), 6);
    assert_eq!(plan.steps, vec![SaveStep { slot: 4, end: 6 }]);

    let mut save = sv_open(&sv_disk(&[]));
    save.add_course(9, sv_course(9)).unwrap();
    save.swap_course(8, 9).unwrap();
    let plan = save.save(&keys);
    assert_eq!(plan.result, Err(SaveError::CourseNotFound(9)));
}

#[test]
fn pending_operation_gives_its_actions() {
    let keys = sv_keys();
    let courses: Vec<Option<CourseEntry>> = (0..180).map(|_| None).collect();
    let actions = PendingFsOperation::Remove(3).run(&courses, &keys).unwrap();
    assert_eq!(
        actions,
        vec![
            FsAction::Remove { file: FileRef::Slot(FileKind::CourseData, 3) },
            FsAction::Remove { file: FileRef::Slot(FileKind::CourseThumb, 3) },
        ]
    );
    assert_eq!(PendingFsOperation::Swap(1, 2).run(&courses, &keys).unwrap().len(), 6);
    assert_eq!(PendingFsOperation::Move(1, 2).run(&courses, &keys).unwrap().len(), 2);
    assert_eq!(
        PendingFsOperation::AddOrReplace(5).run(&courses, &keys),
        Err(SaveError::CourseNotFound(5))
    );
}
