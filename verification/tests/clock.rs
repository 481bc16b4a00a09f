use daily_rotate_file::clock::bucket_for;
use daily_rotate_file::clock::format_utc_millis;
use daily_rotate_file::clock::now_millis;
use daily_rotate_file::sink::DailyRotateFile;
use daily_rotate_file::sink::DailyRotateFileBuilder;
use daily_rotate_file::sink::WriteAction;

#[test]
fn utc_formatting_renders_the_instant() {
    assert_eq!(format_utc_millis(0, "%Y-%m-%d"), "1970-01-01");
    assert_eq!(format_utc_millis(0, "%Y-%m-%d_%H-%M-%S"), "1970-01-01_00-00-00");
    // 2024-01-01 00:00:00 UTC
    assert_eq!(format_utc_millis(1704067200000, "%Y-%m-%d"), "2024-01-01");
    assert_eq!(format_utc_millis(1704067200000, "%H:%M"), "00:00");
}

#[test]
fn utc_formatting_is_deterministic() {
    let a = format_utc_millis(1704067200000, "%Y-%m-%d_%H-%M-%S");
    let b = format_utc_millis(1704067200000, "%Y-%m-%d_%H-%M-%S");
    assert_eq!(a, b);
    assert_eq!(bucket_for(1704067200000, "%Y-%m-%d", true), "2024-01-01");
}

#[test]
fn out_of_range_instants_render_empty() {
    assert_eq!(format_utc_millis(i64::MAX, "%Y-%m-%d"), "");
    assert_eq!(format_utc_millis(i64::MIN, "%Y-%m-%d"), "");
}

#[test]
fn an_invalid_pattern_does_not_panic() {
    // chrono has no %Q specifier; the rendering degrades, the call returns
    let s = format_utc_millis(0, "%Q");
    let _ = s.len();
    let s2 = bucket_for(0, "%Q", false);
    let _ = s2.len();
}

#[test]
fn the_clock_moves_forward() {
    // the sink was written well after 2020-01-01
    assert!(now_millis() > 1577836800000);
}

#[test]
fn logging_against_the_real_clock() {
    let o = DailyRotateFileBuilder::new()
        .filename("test.log")
        .utc(true)
        .build()
        .unwrap();
    let mut s = DailyRotateFile::new(o);
    let act = s.log("Test message");
    let line = match act {
        WriteAction::Append { line } => line,
        WriteAction::RotateThenAppend { line, .. } => line,
    };
    assert_eq!(line, "Test message\n");
    s.flush();
    assert_eq!(s.pending, 0);
}
