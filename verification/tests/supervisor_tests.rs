use agent_browser::supervisor::{
    daemon_candidates, daemon_ready, first_existing, parse_pid, poll_step, run_poll, DaemonError,
    PollOutcome, PollStep, POLL_ATTEMPTS, POLL_INTERVAL_MS,
};

#[test]
fn ready_needs_both_probe_and_socket() {
    assert!(daemon_ready(true, true));
    assert!(!daemon_ready(true, false));
    assert!(!daemon_ready(false, true));
    assert!(!daemon_ready(false, false));
}

#[test]
fn parse_pid_trims_and_parses() {
    assert_eq!(parse_pid("1234"), Some(1234));
    assert_eq!(parse_pid(" 1234\n"), Some(1234));
    assert_eq!(parse_pid("\t-5\r\n"), Some(-5));
    assert_eq!(parse_pid(""), None);
    assert_eq!(parse_pid("  \n"), None);
    assert_eq!(parse_pid("12a4"), None);
    assert_eq!(parse_pid("99999999999"), None);
}

#[test]
fn parse_pid_strips_unicode_whitespace() {
    assert_eq!(parse_pid("\u{a0}42\u{2003}\n"), Some(42));
    assert_eq!(parse_pid("\u{3000}7"), Some(7));
}

#[test]
fn poll_step_follows_the_budget() {
    assert_eq!(poll_step(true, 50), PollStep::Ready);
    assert_eq!(poll_step(false, 50), PollStep::Sleep);
    assert_eq!(poll_step(false, 1), PollStep::Sleep);
    assert_eq!(poll_step(false, 0), PollStep::GiveUp);
    assert_eq!(poll_step(true, 0), PollStep::GiveUp);
    assert_eq!(POLL_ATTEMPTS, 50);
    assert_eq!(POLL_INTERVAL_MS, 100);
}

#[test]
fn candidates_in_documented_order() {
    let c = daemon_candidates("/opt/bin");
    assert_eq!(c.len(), 3);
    assert_eq!(c[0], "/opt/bin/daemon.js");
    assert_eq!(c[1], "/opt/bin/../dist/daemon.js");
    assert_eq!(c[2], "dist/daemon.js");
}

#[test]
fn first_existing_candidate_wins() {
    assert_eq!(first_existing(&vec![false, true, true]), Some(1));
    assert_eq!(first_existing(&vec![true, false, false]), Some(0));
    assert_eq!(first_existing(&vec![false, false, false]), None);
    assert_eq!(first_existing(&vec![]), None);
}

#[test]
fn poll_succeeds_when_socket_appears_within_budget() {
    // the socket file appears at the third check, well inside the budget
    let obs: Vec<bool> = (0..50).map(|i| i >= 3).collect();
    assert_eq!(run_poll(&obs, 50), PollOutcome::Ready { attempt: 3 });
}

#[test]
fn poll_times_out_when_socket_appears_too_late() {
    // the socket would appear only after the whole budget is spent
    let obs: Vec<bool> = (0..60).map(|i| i >= 55).collect();
    assert_eq!(run_poll(&obs, 50), PollOutcome::TimedOut);
}

#[test]
fn poll_never_runs_past_its_budget() {
    let obs: Vec<bool> = vec![false; 50];
    assert_eq!(run_poll(&obs, 50), PollOutcome::TimedOut);
    let obs2: Vec<bool> = (0..50).map(|i| i >= 49).collect();
    assert_eq!(run_poll(&obs2, 50), PollOutcome::Ready { attempt: 49 });
}

#[test]
fn daemon_error_messages() {
    assert_eq!(
        DaemonError::NotFound.message(),
        "Daemon not found. Run from project directory or ensure daemon.js is alongside binary."
    );
    assert_eq!(
        DaemonError::SpawnFailed { detail: "no such file".to_string() }.message(),
        "Failed to start daemon: no such file"
    );
    assert_eq!(DaemonError::StartTimeout.message(), "Daemon failed to start");
}
