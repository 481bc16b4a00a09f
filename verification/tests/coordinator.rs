use daily_rotate_file::rotation::rotation_check;
use daily_rotate_file::sink::DailyRotateFile;
use daily_rotate_file::sink::DailyRotateFileBuilder;
use daily_rotate_file::sink::WriteAction;

fn options(max_size: Option<u64>) -> daily_rotate_file::sink::DailyRotateFileOptions {
    let b = DailyRotateFileBuilder::new().filename("test.log");
    let b = match max_size {
        Some(s) => b.max_size(s),
        None => b,
    };
    b.build().expect("a named sink must build")
}

fn line_of(act: &WriteAction) -> &str {
    match act {
        WriteAction::Append { line } => line.as_str(),
        WriteAction::RotateThenAppend { line, .. } => line.as_str(),
    }
}

#[test]
fn rotation_policy_triggers() {
    let a = String::from("2024-01-01");
    let b = String::from("2024-01-02");
    // same bucket, no size limit: no rotation
    assert!(!rotation_check(&a, &a, 1000, 1000, &None));
    // a bucket change alone rotates
    assert!(rotation_check(&a, &b, 0, 0, &None));
    // reaching the limit exactly rotates
    assert!(rotation_check(&a, &a, 90, 10, &Some(100)));
    // staying below it does not
    assert!(!rotation_check(&a, &a, 90, 9, &Some(100)));
    // the saturating sum still rotates
    assert!(rotation_check(&a, &a, u64::MAX, 1000, &Some(u64::MAX)));
}

#[test]
fn same_bucket_writes_stay_in_one_file() {
    let bucket = String::from("2024-01-01");
    let mut s = DailyRotateFile::new_at(options(Some(1024)), bucket.clone());
    let a1 = s.log_at(&bucket, "first entry");
    let a2 = s.log_at(&bucket, "second entry");
    assert!(matches!(a1, WriteAction::Append { .. }));
    assert!(matches!(a2, WriteAction::Append { .. }));
    assert_eq!(line_of(&a1), "first entry\n");
    assert_eq!(line_of(&a2), "second entry\n");
    assert_eq!(s.bucket, "2024-01-01");
    assert_eq!(s.active_len, "first entry\n".len() as u64 + "second entry\n".len() as u64);
}

#[test]
fn bucket_change_opens_a_second_file() {
    let day1 = String::from("2024-01-01");
    let day2 = String::from("2024-01-02");
    let mut s = DailyRotateFile::new_at(options(None), day1.clone());
    let a1 = s.log_at(&day1, "log entry 1");
    assert!(matches!(a1, WriteAction::Append { .. }));
    let a2 = s.log_at(&day2, "log entry 2");
    match a2 {
        WriteAction::RotateThenAppend { desired, line } => {
            assert_eq!(desired, "test.log.2024-01-02");
            assert_eq!(line, "log entry 2\n");
        }
        WriteAction::Append { .. } => panic!("a bucket change must rotate"),
    }
    assert_eq!(s.bucket, "2024-01-02");
    assert_eq!(s.active_len, "log entry 2\n".len() as u64);
}

#[test]
fn reaching_the_size_limit_rotates_before_the_write() {
    let bucket = String::from("2024-01-01");
    // limit of 25 bytes: two 12-byte lines stay below it
    let mut s = DailyRotateFile::new_at(options(Some(25)), bucket.clone());
    let a1 = s.log_at(&bucket, "0123456789a");
    let a2 = s.log_at(&bucket, "0123456789b");
    // only with the third line pending would the size reach the limit
    assert!(matches!(a1, WriteAction::Append { .. }));
    assert!(matches!(a2, WriteAction::Append { .. }));
    let a3 = s.log_at(&bucket, "0123456789c");
    match a3 {
        WriteAction::RotateThenAppend { desired, line } => {
            assert_eq!(desired, "test.log.2024-01-01");
            assert_eq!(line, "0123456789c\n");
        }
        WriteAction::Append { .. } => panic!("reaching the size limit must rotate"),
    }
    // the new file holds only the entry that caused the rotation
    assert_eq!(s.active_len, 12);
}

#[test]
fn every_write_yields_exactly_one_line() {
    let bucket = String::from("2024-01-01");
    let mut s = DailyRotateFile::new_at(options(Some(64)), bucket.clone());
    let mut lines: usize = 0;
    for i in 0..50 {
        let msg = format!("entry number {}", i);
        let act = s.log_at(&bucket, msg.as_str());
        let line = line_of(&act);
        assert_eq!(line, format!("{}\n", msg));
        lines += 1;
    }
    assert_eq!(lines, 50);
}

#[test]
fn plan_agrees_with_commit_and_commits_nothing_itself() {
    let day1 = String::from("2024-01-01");
    let day2 = String::from("2024-01-02");
    let mut s = DailyRotateFile::new_at(options(None), day1.clone());
    // planning changes no state, however often it is asked
    let p1 = s.plan_entry(&day2, "entry");
    let p2 = s.plan_entry(&day2, "entry");
    assert!(matches!(p1, WriteAction::RotateThenAppend { .. }));
    assert!(matches!(p2, WriteAction::RotateThenAppend { .. }));
    assert_eq!(s.bucket, "2024-01-01");
    assert_eq!(s.active_len, 0);
    // the commit takes the same verdict the plan announced
    let act = s.log_at(&day2, "entry");
    match (p1, act) {
        (
            WriteAction::RotateThenAppend { desired: pd, line: pl },
            WriteAction::RotateThenAppend { desired, line },
        ) => {
            assert_eq!(pd, desired);
            assert_eq!(pl, line);
            assert_eq!(desired, "test.log.2024-01-02");
        }
        _ => panic!("plan and commit must agree"),
    }
    assert_eq!(s.bucket, "2024-01-02");
}

#[test]
fn flush_with_nothing_pending_is_idempotent() {
    let bucket = String::from("2024-01-01");
    let mut s = DailyRotateFile::new_at(options(None), bucket.clone());
    let _ = s.log_at(&bucket, "one entry");
    s.flush();
    assert_eq!(s.pending, 0);
    let active = s.active_len;
    let b = s.bucket.clone();
    // flushing again with nothing pending changes nothing
    s.flush();
    assert_eq!(s.pending, 0);
    assert_eq!(s.active_len, active);
    assert_eq!(s.bucket, b);
}

#[test]
fn should_rotate_on_size_against_the_clock() {
    let o = DailyRotateFileBuilder::new()
        .filename("test.log")
        .max_size(1)
        .utc(true)
        .build()
        .unwrap();
    let s = DailyRotateFile::new(o);
    // active file empty, but any one-byte entry reaches the limit
    assert!(s.should_rotate(1));
}
