use webol::ping::{probe_step, times_after_success, BroadcastCommands, ProbeAttempt};

#[test]
fn a_reply_succeeds_at_once() {
    assert_eq!(probe_step(ProbeAttempt::Reply, 0, 10), Some(BroadcastCommands::Success));
    assert_eq!(probe_step(ProbeAttempt::Reply, 10_000, 10), Some(BroadcastCommands::Success));
}

#[test]
fn a_transport_error_is_terminal_at_once() {
    assert_eq!(probe_step(ProbeAttempt::Failed, 0, 10), Some(BroadcastCommands::Error));
}

#[test]
fn a_probe_timeout_keeps_the_loop_going_until_the_bound() {
    assert_eq!(probe_step(ProbeAttempt::TimedOut, 599, 10), None);
    assert_eq!(probe_step(ProbeAttempt::TimedOut, 600, 10), Some(BroadcastCommands::Timeout));
    assert_eq!(probe_step(ProbeAttempt::TimedOut, 601, 10), Some(BroadcastCommands::Timeout));
}

#[test]
fn a_non_positive_bound_times_out_at_once() {
    assert_eq!(probe_step(ProbeAttempt::TimedOut, 0, 0), Some(BroadcastCommands::Timeout));
    assert_eq!(probe_step(ProbeAttempt::TimedOut, 0, -3), Some(BroadcastCommands::Timeout));
}

#[test]
fn a_wake_beyond_the_threshold_is_recorded() {
    assert_eq!(times_after_success(None, 5, 1), Some(vec![5]));
    assert_eq!(times_after_success(Some(vec![3]), 10, 1), Some(vec![3, 10]));
}

#[test]
fn a_wake_within_the_threshold_is_not_recorded() {
    assert_eq!(times_after_success(Some(vec![3]), 1, 1), None);
    assert_eq!(times_after_success(None, 0, 1), None);
}
