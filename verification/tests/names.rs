use daily_rotate_file::digits::u64_to_dec;
use daily_rotate_file::names::append_mode_name;
use daily_rotate_file::names::candidate_name;
use daily_rotate_file::names::find_last;
use daily_rotate_file::names::first_free_name;
use daily_rotate_file::names::get_filename;

#[test]
fn decimal_rendering() {
    assert_eq!(u64_to_dec(0), "0");
    assert_eq!(u64_to_dec(7), "7");
    assert_eq!(u64_to_dec(10), "10");
    assert_eq!(u64_to_dec(123456789), "123456789");
    assert_eq!(u64_to_dec(u64::MAX), "18446744073709551615");
}

#[test]
fn find_last_positions() {
    assert_eq!(find_last("a/b/c", '/'), Some(3));
    assert_eq!(find_last("abc", '/'), None);
    assert_eq!(find_last("", '.'), None);
    assert_eq!(find_last("x.y.z", '.'), Some(3));
}

#[test]
fn filename_derivation() {
    assert_eq!(get_filename("logs/test.log", "2024-01-01"), "logs/test.log.2024-01-01");
    assert_eq!(get_filename("test.log", "2024-01-01"), "test.log.2024-01-01");
    assert_eq!(get_filename("a/b/c.txt", "07"), "a/b/c.txt.07");
}

#[test]
fn filename_derivation_degenerate_bases() {
    // trailing slashes are ignored when picking the final component
    assert_eq!(get_filename("dir/", "2024-01-01"), "dir.2024-01-01");
    assert_eq!(get_filename("a/dir//", "2024-01-01"), "a/dir.2024-01-01");
    // no usable final component: the base stays the directory, "log" fills in
    assert_eq!(get_filename("", "2024-01-01"), "log.2024-01-01");
    assert_eq!(get_filename("/", "2024-01-01"), "/log.2024-01-01");
    assert_eq!(get_filename(".", "2024-01-01"), "./log.2024-01-01");
    assert_eq!(get_filename("a/..", "2024-01-01"), "a/../log.2024-01-01");
    // three dots are an ordinary name
    assert_eq!(get_filename("...", "2024-01-01"), "....2024-01-01");
}

#[test]
fn candidate_names() {
    // counter 0 is the desired name itself
    assert_eq!(candidate_name("test.log.2024-01-01", 0), "test.log.2024-01-01");
    // the numeric suffix goes before the extension
    assert_eq!(candidate_name("test.log.2024-01-01", 1), "test.log_1.2024-01-01");
    assert_eq!(candidate_name("a/b.txt", 3), "a/b_3.txt");
    // no extension: the suffix goes at the end
    assert_eq!(candidate_name("noext", 2), "noext_2");
    // a leading dot is not an extension separator
    assert_eq!(candidate_name(".bashrc", 1), ".bashrc_1");
    // an empty extension is dropped
    assert_eq!(candidate_name("a.", 1), "a_1");
}

#[test]
fn exclusive_create_twice_distinct_paths() {
    let desired = String::from("test.log.2024-01-01");
    let first = first_free_name(&desired, &vec![]);
    assert_eq!(first, "test.log.2024-01-01");
    // the second call sees the first file in the listing
    let second = first_free_name(&desired, &vec![first.clone()]);
    assert_eq!(second, "test.log_1.2024-01-01");
    assert_ne!(first, second);
    let third = first_free_name(&desired, &vec![first.clone(), second.clone()]);
    assert_eq!(third, "test.log_2.2024-01-01");
}

#[test]
fn exclusive_create_takes_the_first_gap() {
    let desired = String::from("app.log");
    // the desired name and the second variant are taken, the first is free
    let existing = vec![String::from("app.log"), String::from("app_2.log")];
    assert_eq!(first_free_name(&desired, &existing), "app_1.log");
    // unrelated names in the listing do not matter
    let other = vec![String::from("elsewhere.txt")];
    assert_eq!(first_free_name(&desired, &other), "app.log");
}

#[test]
fn append_mode_reuses_the_path() {
    let desired = String::from("test.log.2024-01-01");
    let first = append_mode_name(&desired);
    let second = append_mode_name(&desired);
    assert_eq!(first, desired);
    assert_eq!(first, second);
}
