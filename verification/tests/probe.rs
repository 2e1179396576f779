use taarof_app::probe::{ProbeSnapshot, ProbeState};


#[test]
fn failure_without_prior_value_becomes_error() {
    let mut probe = ProbeSnapshot::<u32>::unknown();
    let transition = probe.record_failure("boom");

    assert_eq!(transition.previous, ProbeState::Unknown);
    assert_eq!(transition.current, ProbeState::Error);
    assert_eq!(probe.state, ProbeState::Error);
    assert_eq!(probe.value, None);
    assert_eq!(probe.error.as_deref(), Some("boom"));
    assert!(probe.checked_at_unix_ms.is_some());
    assert_eq!(probe.observed_at_unix_ms, None);
}

#[test]
fn failure_after_success_becomes_stale_and_keeps_last_value() {
    let mut probe = ProbeSnapshot::<u32>::unknown();
    probe.record_success(7);
    let observed_at = probe.observed_at_unix_ms;

    let transition = probe.record_failure("timeout");

    assert_eq!(transition.previous, ProbeState::Okay);
    assert_eq!(transition.current, ProbeState::Stale);
    assert_eq!(probe.state, ProbeState::Stale);
    assert_eq!(probe.value, Some(7));
    assert_eq!(probe.observed_at_unix_ms, observed_at);
    assert_eq!(probe.error.as_deref(), Some("timeout"));
}

#[test]
fn success_after_stale_recovers_and_clears_error() {
    let mut probe = ProbeSnapshot::<u32>::unknown();
    probe.record_success(7);
    probe.record_failure("timeout");

    let transition = probe.record_success(11);

    assert_eq!(transition.previous, ProbeState::Stale);
    assert_eq!(transition.current, ProbeState::Okay);
    assert_eq!(probe.state, ProbeState::Okay);
    assert_eq!(probe.value, Some(11));
    assert_eq!(probe.error, None);
    assert!(probe.checked_at_unix_ms.is_some());
    assert!(probe.observed_at_unix_ms.is_some());
}

#[test]
fn unknown_to_ok_success_reports_change() {
    let mut probe = ProbeSnapshot::<u32>::unknown();
    let (_, changed) = probe.record_success_reporting(7);
    assert!(changed);
}

#[test]
fn repeated_identical_success_reports_no_change() {
    let mut probe = ProbeSnapshot::<u32>::unknown();
    let (_, first) = probe.record_success_reporting(7);
    let (_, second) = probe.record_success_reporting(7);
    assert!(first);
    assert!(!second);
}

#[test]
fn changed_value_success_reports_change() {
    let mut probe = ProbeSnapshot::<u32>::unknown();
    probe.record_success_reporting(7);
    let (_, changed) = probe.record_success_reporting(8);
    assert!(changed);
}

#[test]
fn recovery_success_reports_change_even_with_same_value() {
    let mut probe = ProbeSnapshot::<u32>::unknown();
    probe.record_success_reporting(7);
    probe.record_failure_reporting("boom");
    // Stale keeps the last value (7); a fresh success with the same value
    // still changes the rendered state (Stale -> Ok) and clears the error.
    let (_, changed) = probe.record_success_reporting(7);
    assert!(changed);
}

#[test]
fn repeated_identical_failure_reports_no_change() {
    let mut probe = ProbeSnapshot::<u32>::unknown();
    let (_, first) = probe.record_failure_reporting("boom");
    let (_, second) = probe.record_failure_reporting("boom");
    assert!(first);
    assert!(!second);
}

#[test]
fn failure_after_success_reports_change() {
    let mut probe = ProbeSnapshot::<u32>::unknown();
    probe.record_success_reporting(7);
    let (_, changed) = probe.record_failure_reporting("timeout");
    assert!(changed);
}

#[test]
fn labels_name_every_state() {
    assert_eq!(ProbeState::Okay.label(), "ok");
    assert_eq!(ProbeState::Stale.label(), "stale");
    assert_eq!(ProbeState::Unknown.label(), "unknown");
    assert_eq!(ProbeState::Error.label(), "error");
}

#[test]
fn transitions_report_degradation_and_recovery() {
    let mut probe = ProbeSnapshot::<u32>::default();
    let failed = probe.record_failure_at("boom", 5);
    assert!(failed.changed());
    assert!(failed.entered_degraded());
    assert!(!failed.recovered());
    let back = probe.record_success_at(9, 8);
    assert!(back.recovered());
    assert!(!back.entered_degraded());
    assert_eq!(probe.observed_at_unix_ms, Some(8));
    assert_eq!(probe.checked_at_unix_ms, Some(8));
    assert_eq!(probe.value(), Some(&9));
    let same = probe.record_success_at(9, 9);
    assert!(!same.changed());
}

#[test]
fn unit_meta_drops_the_value_and_keeps_the_rest() {
    let mut probe = ProbeSnapshot::<String>::unknown();
    probe.record_success_at("x".to_string(), 3);
    probe.record_failure_at("late", 4);
    let meta = probe.unit_meta();
    assert_eq!(meta.state, ProbeState::Stale);
    assert_eq!(meta.value, Some(()));
    assert_eq!(meta.observed_at_unix_ms, Some(3));
    assert_eq!(meta.checked_at_unix_ms, Some(4));
    assert_eq!(meta.error.as_deref(), Some("late"));
}

#[test]
fn the_clock_gives_a_time_of_this_century() {
    let mut probe = ProbeSnapshot::<u32>::unknown();
    probe.record_success(1);
    assert!(probe.observed_at_unix_ms.unwrap() > 1_000_000_000_000);
}
