use file_rotate::disk::{apply_plan, SlotDisk};
use file_rotate::rotate::{
    AclEntry, FileRotate, RenameStep, DEFAULT_FILESIZE, DEFAULT_GENERATIONS, FILE_MODE, PERM_READ,
    PERM_WRITE,
};

fn writer(filesize: u64, generations: u64) -> FileRotate {
    FileRotate::new(String::from("app.log"))
        .with_filesize(filesize)
        .with_generations(generations)
}

fn disk_with(slots: &[(usize, &[u8])]) -> SlotDisk {
    let mut disk = SlotDisk::empty();
    for (suffix, data) in slots {
        disk.ensure_at(*suffix);
        disk.append_at(*suffix, &data.to_vec());
    }
    disk
}

#[test]
fn defaults() {
    let w = FileRotate::new(String::from("app.log"));
    assert_eq!(w.basename, "app.log");
    assert_eq!(w.filesize, DEFAULT_FILESIZE);
    assert_eq!(DEFAULT_FILESIZE, 10 * 1024 * 1024);
    assert_eq!(w.generations, DEFAULT_GENERATIONS);
    assert_eq!(DEFAULT_GENERATIONS, 5);
    assert!(w.uids.is_empty());
    assert!(!w.is_open());
}

#[test]
fn builders() {
    let w = FileRotate::new(String::from("x"))
        .with_filesize(123)
        .with_generations(7)
        .with_uid(1000)
        .with_uid(1001);
    assert_eq!(w.filesize, 123);
    assert_eq!(w.generations, 7);
    assert_eq!(w.uids, vec![1000, 1001]);
}

#[test]
fn threshold_triggers_exactly_on_crossing_write() {
    let mut w = writer(10, 2);
    w.opened(0);
    assert!(!w.note_write(5), "offset 5 is below the threshold");
    assert_eq!(w.offset(), 5);
    assert!(!w.note_write(5), "offset 10 equals the threshold: no rotation yet");
    assert_eq!(w.offset(), 10);
    assert!(w.note_write(1), "offset 11 strictly exceeds the threshold");
}

#[test]
fn rotation_plan_is_descending() {
    let mut w = writer(10, 3);
    w.opened(0);
    let plan = w.rotate();
    assert!(!w.is_open());
    assert_eq!(
        plan,
        vec![
            RenameStep { from: 2, to: 3 },
            RenameStep { from: 1, to: 2 },
            RenameStep { from: 0, to: 1 },
        ]
    );
}

#[test]
fn rotation_shifts_every_suffix_up_by_one() {
    // Backups at suffixes 1..=2 plus the active file, retention 3.
    let mut disk = disk_with(&[(0, b"newest"), (1, b"older"), (2, b"oldest")]);
    let plan = writer(10, 3).rotate();
    apply_plan(&mut disk, &plan);
    assert!(!disk.exists_at(0), "the active slot is vacated");
    assert_eq!(disk.read_at(1).as_slice(), b"newest");
    assert_eq!(disk.read_at(2).as_slice(), b"older");
    assert_eq!(disk.read_at(3).as_slice(), b"oldest");
    assert!(!disk.exists_at(4), "no suffix above the retention count appears");
}

#[test]
fn retention_is_bounded_over_many_rotations() {
    let mut disk = disk_with(&[(0, b"a")]);
    for round in 0..10 {
        let mut w = writer(10, 2);
        w.opened(0);
        let plan = w.rotate();
        apply_plan(&mut disk, &plan);
        assert!(!disk.exists_at(3), "round {}: no third backup may exist", round);
        assert!(!disk.exists_at(0));
        // The next round's active file.
        disk.ensure_at(0);
        disk.append_at(0, &b"a".to_vec());
    }
    // Only the active file and at most two backups remain.
    assert!(disk.exists_at(1) && disk.exists_at(2));
}

#[test]
fn oldest_generation_is_discarded() {
    let mut disk = disk_with(&[(0, b"n"), (1, b"m"), (2, b"doomed")]);
    let plan = writer(10, 2).rotate();
    apply_plan(&mut disk, &plan);
    assert_eq!(disk.read_at(1).as_slice(), b"n");
    assert_eq!(disk.read_at(2).as_slice(), b"m", "the old suffix 2 was overwritten");
    assert!(!disk.exists_at(3), "nothing is renamed past the retention count");
}

#[test]
fn missing_intermediate_generation_is_skipped() {
    // Suffix 1 is absent; suffixes 0 and 2 exist; retention 4.
    let mut disk = disk_with(&[(0, b"zero"), (2, b"two")]);
    let plan = writer(10, 4).rotate();
    apply_plan(&mut disk, &plan);
    assert_eq!(disk.read_at(1).as_slice(), b"zero");
    assert!(!disk.exists_at(2), "the slot fed only by the missing suffix stays empty");
    assert_eq!(disk.read_at(3).as_slice(), b"two");
    assert!(!disk.exists_at(0));
}

#[test]
fn zero_generations_keeps_no_backups() {
    let mut disk = disk_with(&[(0, b"active")]);
    for _ in 0..3 {
        let mut w = writer(10, 0);
        w.opened(0);
        let plan = w.rotate();
        assert!(plan.is_empty(), "an empty rename chain: rotation is a no-op on disk");
        apply_plan(&mut disk, &plan);
        assert_eq!(disk.read_at(0).as_slice(), b"active");
        assert!(!disk.exists_at(1));
    }
}

#[test]
fn lazy_open_creates_exactly_one_file() {
    let mut w = writer(10, 2);
    let mut disk = SlotDisk::empty();
    assert!(!disk.exists_at(0), "no file exists before the first write");
    let n = w.write_model(&mut disk, &b"hi".to_vec());
    assert_eq!(n, 2);
    assert!(disk.exists_at(0), "the first write creates the active file");
    for suffix in 1..5 {
        assert!(!disk.exists_at(suffix), "no other file is created");
    }
    assert_eq!(w.open_plan().mode, FILE_MODE);
    assert_eq!(FILE_MODE, 0o600);
}

#[test]
fn acl_grants_owner_rw_and_readers_read_only() {
    let w = FileRotate::new(String::from("x")).with_uid(1000).with_uid(42);
    let plan = w.open_plan();
    assert_eq!(plan.mode, 0o600);
    assert_eq!(plan.owner_perm, PERM_READ | PERM_WRITE);
    assert_eq!(plan.group_perm, 0);
    assert_eq!(plan.other_perm, 0);
    assert_eq!(
        plan.readers,
        vec![
            AclEntry { uid: 1000, perm: PERM_READ },
            AclEntry { uid: 42, perm: PERM_READ },
        ]
    );
}

#[test]
fn acl_entries_keep_duplicates_and_order() {
    let w = FileRotate::new(String::from("x")).with_uid(7).with_uid(7);
    let entries = w.acl_entries();
    assert_eq!(entries.len(), 2);
    assert_eq!(entries[0], AclEntry { uid: 7, perm: PERM_READ });
    assert_eq!(entries[1], AclEntry { uid: 7, perm: PERM_READ });
}

#[test]
fn decimal_rendering() {
    assert_eq!(file_rotate::rotate::decimal(0), "0");
    assert_eq!(file_rotate::rotate::decimal(7), "7");
    assert_eq!(file_rotate::rotate::decimal(10), "10");
    assert_eq!(file_rotate::rotate::decimal(205), "205");
    assert_eq!(file_rotate::rotate::decimal(u64::MAX), "18446744073709551615");
}

#[test]
fn backup_names_append_dot_and_number() {
    let w = FileRotate::new(String::from("app.log"));
    assert_eq!(w.backup_name(0), "app.log");
    assert_eq!(w.backup_name(1), "app.log.1");
    assert_eq!(w.backup_name(2), "app.log.2");
    assert_eq!(w.backup_name(12), "app.log.12");
}

#[test]
fn scenario_threshold_ten_retention_two() {
    let mut w = writer(10, 2);
    let mut disk = SlotDisk::empty();

    // Write "hello": 5 bytes, offset 5, no rotation.
    let n = w.write_model(&mut disk, &b"hello".to_vec());
    assert_eq!(n, 5);
    assert!(w.is_open());
    assert_eq!(w.offset(), 5);
    assert_eq!(disk.read_at(0).as_slice(), b"hello");
    assert!(!disk.exists_at(1));

    // Write "world!": offset 11 > 10, so rotation occurs.
    let n = w.write_model(&mut disk, &b"world!".to_vec());
    assert_eq!(n, 6);
    assert!(!w.is_open(), "the writer is closed until the next write");
    assert!(!disk.exists_at(0), "the active file is absent after rotation");
    assert_eq!(disk.read_at(1).as_slice(), b"helloworld!");
    assert!(!disk.exists_at(2));

    // Write "abc": a fresh active file is created.
    let n = w.write_model(&mut disk, &b"abc".to_vec());
    assert_eq!(n, 3);
    assert!(w.is_open());
    assert_eq!(w.offset(), 3);
    assert_eq!(disk.read_at(0).as_slice(), b"abc");
    assert_eq!(disk.read_at(1).as_slice(), b"helloworld!");
    assert!(!disk.exists_at(2), "no second backup exists yet");
}

#[test]
fn many_writes_keep_the_chain_contiguous_and_bounded() {
    let mut w = writer(4, 3);
    let mut disk = SlotDisk::empty();
    for round in 0..20 {
        w.write_model(&mut disk, &b"abc".to_vec());
        // The occupied backup suffixes must always be exactly 1..=k for
        // some k at most the retention count.
        let mut top: usize = 0;
        for s in 1..10 {
            if disk.exists_at(s) {
                assert_eq!(s, top + 1, "round {}: a gap in the backup chain", round);
                top = s;
            }
        }
        assert!(top <= 3, "round {}: more backups than the retention count", round);
    }
}

#[test]
fn reopen_after_partial_fill_continues_at_end_of_file() {
    let mut w = writer(100, 2);
    let mut disk = disk_with(&[(0, b"prior")]);
    // The writer is closed; the lazy open seeks to the end of the file.
    let n = w.write_model(&mut disk, &b"-more".to_vec());
    assert_eq!(n, 5);
    assert_eq!(w.offset(), 10);
    assert_eq!(disk.read_at(0).as_slice(), b"prior-more");
}
