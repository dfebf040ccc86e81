use webol::start::get_eta;

#[test]
fn eta_is_the_mean_of_recorded_durations() {
    assert_eq!(get_eta(Some(vec![10, 20, 30])), 20);
}

#[test]
fn eta_without_history_is_zero() {
    assert_eq!(get_eta(None), 0);
}

#[test]
fn eta_with_empty_history_is_zero() {
    assert_eq!(get_eta(Some(vec![])), 0);
}

#[test]
fn eta_of_a_single_duration_is_that_duration() {
    assert_eq!(get_eta(Some(vec![7])), 7);
}

#[test]
fn eta_truncates_downward() {
    assert_eq!(get_eta(Some(vec![1, 2])), 1);
    assert_eq!(get_eta(Some(vec![5, 5, 5, 6])), 5);
}
