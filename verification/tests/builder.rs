use daily_rotate_file::sink::DailyRotateFile;
use daily_rotate_file::sink::DailyRotateFileBuilder;

#[test]
fn builder_defaults() {
    let b = DailyRotateFile::builder();
    assert!(b.level.is_none());
    assert!(b.filename.is_none());
    assert_eq!(b.date_pattern, "%Y-%m-%d");
    assert!(b.max_files.is_none());
    assert!(b.max_size.is_none());
    assert!(b.dirname.is_none());
    assert!(!b.zipped_archive);
    assert!(!b.utc);
}

#[test]
fn builder_sets_every_field() {
    let b = DailyRotateFileBuilder::new()
        .level("info")
        .filename("logs/app.log")
        .date_pattern("%Y-%m-%d_%H-%M-%S")
        .max_files(3)
        .max_size(1024)
        .dirname("logs")
        .zipped_archive(true)
        .utc(true);
    let o = b.build().expect("a named sink must build");
    assert_eq!(o.level.as_deref(), Some("info"));
    assert_eq!(o.filename, "logs/app.log");
    assert_eq!(o.date_pattern, "%Y-%m-%d_%H-%M-%S");
    assert_eq!(o.max_files, Some(3));
    assert_eq!(o.max_size, Some(1024));
    assert_eq!(o.dirname.as_deref(), Some("logs"));
    assert!(o.zipped_archive);
    assert!(o.utc);
}

#[test]
fn build_without_filename_is_refused() {
    let r = DailyRotateFileBuilder::new().level("info").build();
    match r {
        Ok(_) => panic!("a sink without a filename must not build"),
        Err(e) => assert_eq!(e, "Filename is required"),
    }
}

#[test]
fn build_with_empty_filename_is_refused() {
    let r = DailyRotateFileBuilder::new().filename("").build();
    match r {
        Ok(_) => panic!("a sink with an empty filename must not build"),
        Err(e) => assert_eq!(e, "Filename is required"),
    }
}

#[test]
fn get_level_reports_the_configured_level() {
    let o = DailyRotateFileBuilder::new()
        .filename("t.log")
        .level("warn")
        .build()
        .unwrap();
    let s = DailyRotateFile::new_at(o, String::from("2024-01-01"));
    assert_eq!(s.get_level().map(|l| l.as_str()), Some("warn"));

    let o2 = DailyRotateFileBuilder::new().filename("t.log").build().unwrap();
    let s2 = DailyRotateFile::new_at(o2, String::from("2024-01-01"));
    assert!(s2.get_level().is_none());
}
