use anki_bible_stats::progress::cumulative_progress;

#[test]
fn cumulative_progress_is_running_net() {
    let matured = vec![2, 0, 3, 1];
    let lost = vec![0, 1, 1, 4];
    assert_eq!(cumulative_progress(&matured, &lost), vec![2, 1, 3, 0]);
}

#[test]
fn cumulative_progress_of_no_periods() {
    assert!(cumulative_progress(&Vec::new(), &Vec::new()).is_empty());
}

#[test]
fn cumulative_progress_may_go_negative() {
    assert_eq!(cumulative_progress(&vec![0, 0], &vec![3, 2]), vec![-3, -5]);
}

#[test]
fn cumulative_progress_at_i64_limit() {
    let matured = vec![i64::MAX, 0];
    let lost = vec![0, 1];
    assert_eq!(cumulative_progress(&matured, &lost), vec![i64::MAX, i64::MAX - 1]);
}
