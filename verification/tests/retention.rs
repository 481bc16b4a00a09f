use daily_rotate_file::retention::select_prune;

#[test]
fn keeps_the_three_most_recent_of_five() {
    // five rotated files, oldest first
    let mtimes: Vec<u64> = vec![10, 20, 30, 40, 50];
    let del = select_prune(&mtimes, 3);
    // exactly the two oldest are pruned; the three most recent remain
    assert_eq!(del, vec![0usize, 1]);
}

#[test]
fn equal_times_break_ties_by_position() {
    // the later position counts as more recent
    let mtimes: Vec<u64> = vec![5, 5, 5];
    let del = select_prune(&mtimes, 2);
    assert_eq!(del, vec![0usize]);
}

#[test]
fn unordered_listing() {
    let mtimes: Vec<u64> = vec![40, 10, 50, 30, 20];
    let del = select_prune(&mtimes, 2);
    // only 40 (index 0) and 50 (index 2) stay
    assert_eq!(del, vec![1usize, 3, 4]);
}

#[test]
fn keeping_all_prunes_nothing() {
    let mtimes: Vec<u64> = vec![1, 2, 3];
    assert!(select_prune(&mtimes, 3).is_empty());
    assert!(select_prune(&mtimes, 10).is_empty());
}

#[test]
fn keeping_none_prunes_everything() {
    let mtimes: Vec<u64> = vec![1, 2, 3];
    assert_eq!(select_prune(&mtimes, 0), vec![0usize, 1, 2]);
}

#[test]
fn empty_listing() {
    let mtimes: Vec<u64> = vec![];
    assert!(select_prune(&mtimes, 3).is_empty());
}
