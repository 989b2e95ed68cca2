//! Scenario runs of the orchestration state machine: load order, skipping,
//! aborts, and the single resume.

use rivets_launcher::mods::descriptors_from_names;
use rivets_launcher::orchestrator::{Action, Orchestrator, RunError, TargetState};

fn names(list: &[&[u8]]) -> Vec<Vec<u8>> {
    list.iter().map(|s| s.to_vec()).collect()
}

fn machine(list: &[&[u8]]) -> Orchestrator {
    Orchestrator::new(descriptors_from_names(&names(list)))
}

#[test]
fn full_success_run_in_load_order() {
    let mut o = machine(&[b"alpha", b"beta", b"gamma"]);
    assert!(matches!(o.next_action(), Action::Launch));
    o.launched();
    for i in 0..3usize {
        assert!(matches!(o.next_action(), Action::Materialize(j) if j == i));
        o.payload_written(i);
        assert!(matches!(o.next_action(), Action::Inject(j) if j == i));
        o.injected_ok(i);
        assert!(matches!(o.next_action(), Action::Initialize(j) if j == i));
        o.init_ok(i);
    }
    assert!(matches!(o.next_action(), Action::Resume));
    o.resumed();
    assert!(matches!(o.next_action(), Action::Relay));
    o.relay_finished();
    assert!(matches!(o.next_action(), Action::Finish));
    assert_eq!(o.target_state(), TargetState::Resumed);
    let report = o.into_report();
    assert!(report.resumed);
    assert!(report.error.is_none());
    assert!(!report.termination_failed);
    assert_eq!(report.injected, names(&[b"alpha", b"beta", b"gamma"]));
}

#[test]
fn injection_failure_aborts_and_names_the_mod() {
    let mut o = machine(&[b"alpha", b"beta", b"gamma"]);
    o.launched();
    // alpha: injected and initialized.
    o.payload_written(0);
    o.injected_ok(0);
    o.init_ok(0);
    // beta: injection is attempted and fails.
    o.payload_written(1);
    assert!(matches!(o.next_action(), Action::Inject(1)));
    o.inject_failed(1, b"mapping rejected".to_vec());
    // gamma is never touched: the machine turns to teardown at once.
    assert!(matches!(o.next_action(), Action::Terminate));
    o.terminated();
    assert!(matches!(o.next_action(), Action::Finish));
    assert_eq!(o.target_state(), TargetState::Terminated);
    let report = o.into_report();
    assert!(!report.resumed);
    assert!(!report.termination_failed);
    assert_eq!(report.injected, names(&[b"alpha"]));
    match report.error {
        Some(RunError::Inject(name, message)) => {
            assert_eq!(name, b"beta".to_vec());
            assert_eq!(message, b"mapping rejected".to_vec());
        }
        other => panic!("wrong error: {:?}", other),
    }
}

#[test]
fn mod_without_payload_is_skipped_and_unreported() {
    let mut o = machine(&[b"alpha", b"beta", b"gamma"]);
    o.launched();
    o.payload_written(0);
    o.injected_ok(0);
    o.init_ok(0);
    // beta has no extension payload: skipped, the run goes on.
    assert!(matches!(o.next_action(), Action::Materialize(1)));
    o.payload_absent(1);
    assert!(matches!(o.next_action(), Action::Materialize(2)));
    o.payload_written(2);
    o.injected_ok(2);
    o.init_ok(2);
    o.resumed();
    o.relay_finished();
    let report = o.into_report();
    assert!(report.resumed);
    assert!(report.error.is_none());
    assert_eq!(report.injected, names(&[b"alpha", b"gamma"]));
}

#[test]
fn initialization_failure_reports_message_and_terminates() {
    let mut o = machine(&[b"alpha", b"beta"]);
    o.launched();
    o.payload_written(0);
    o.injected_ok(0);
    assert!(matches!(o.next_action(), Action::Initialize(0)));
    o.init_reported_failure(0, b"missing game version".to_vec());
    assert!(matches!(o.next_action(), Action::Terminate));
    o.terminated();
    let report = o.into_report();
    assert!(!report.resumed);
    assert!(report.injected.is_empty());
    match report.error {
        Some(RunError::InitFailed(name, message)) => {
            assert_eq!(name, b"alpha".to_vec());
            assert_eq!(message, b"missing game version".to_vec());
        }
        other => panic!("wrong error: {:?}", other),
    }
}

#[test]
fn missing_entry_point_is_its_own_error() {
    let mut o = machine(&[b"alpha"]);
    o.launched();
    o.payload_written(0);
    o.injected_ok(0);
    o.entry_point_missing(0);
    o.terminated();
    let report = o.into_report();
    assert!(matches!(report.error, Some(RunError::NoEntryPoint(name)) if name == b"alpha".to_vec()));
}

#[test]
fn entry_point_resolution_failure_is_reported() {
    let mut o = machine(&[b"alpha"]);
    o.launched();
    o.payload_written(0);
    o.injected_ok(0);
    o.entry_point_resolve_failed(0, b"cannot reach target".to_vec());
    o.terminated();
    let report = o.into_report();
    assert!(matches!(report.error, Some(RunError::ResolveFailed(n, _)) if n == b"alpha".to_vec()));
}

#[test]
fn initialization_crash_is_reported() {
    let mut o = machine(&[b"alpha"]);
    o.launched();
    o.payload_written(0);
    o.injected_ok(0);
    o.init_crashed(0, b"target-side fault".to_vec());
    o.terminated();
    let report = o.into_report();
    assert!(matches!(report.error, Some(RunError::InitCrashed(n, _)) if n == b"alpha".to_vec()));
}

#[test]
fn corrupted_package_aborts_before_any_injection() {
    let mut o = machine(&[b"alpha", b"beta"]);
    o.launched();
    assert!(matches!(o.next_action(), Action::Materialize(0)));
    o.payload_corrupted(0, b"bad archive encoding".to_vec());
    assert!(matches!(o.next_action(), Action::Terminate));
    o.terminated();
    let report = o.into_report();
    assert!(report.injected.is_empty());
    assert!(!report.resumed);
    assert!(matches!(report.error, Some(RunError::Extract(n, _)) if n == b"alpha".to_vec()));
}

#[test]
fn write_failure_aborts() {
    let mut o = machine(&[b"alpha"]);
    o.launched();
    o.payload_write_failed(0, b"temp directory missing".to_vec());
    o.terminated();
    let report = o.into_report();
    assert!(matches!(report.error, Some(RunError::Write(n, _)) if n == b"alpha".to_vec()));
}

#[test]
fn launch_failure_has_nothing_to_clean_up() {
    let mut o = machine(&[b"alpha"]);
    assert!(matches!(o.next_action(), Action::Launch));
    o.launch_failed(b"executable not found".to_vec());
    assert!(matches!(o.next_action(), Action::Finish));
    assert_eq!(o.target_state(), TargetState::NotCreated);
    let report = o.into_report();
    assert!(!report.resumed);
    assert!(report.injected.is_empty());
    assert!(matches!(report.error, Some(RunError::Launch(_))));
}

#[test]
fn setup_failure_tears_the_target_down() {
    let mut o = machine(&[b"alpha"]);
    o.launched();
    o.setup_failed(b"debug symbols unavailable".to_vec());
    assert!(matches!(o.next_action(), Action::Terminate));
    o.terminated();
    let report = o.into_report();
    assert!(!report.resumed);
    assert!(matches!(report.error, Some(RunError::Setup(_))));
}

#[test]
fn failed_termination_is_surfaced() {
    let mut o = machine(&[b"alpha"]);
    o.launched();
    o.payload_written(0);
    o.injected_ok(0);
    o.init_reported_failure(0, b"refused".to_vec());
    o.terminate_failed();
    assert_eq!(o.target_state(), TargetState::Suspended);
    let report = o.into_report();
    assert!(report.termination_failed);
    assert!(matches!(report.error, Some(RunError::InitFailed(_, _))));
}

#[test]
fn empty_mod_set_resumes_immediately() {
    let mut o = machine(&[]);
    o.launched();
    assert!(matches!(o.next_action(), Action::Resume));
    o.resumed();
    o.relay_finished();
    let report = o.into_report();
    assert!(report.resumed);
    assert!(report.injected.is_empty());
    assert!(report.error.is_none());
}

#[test]
fn relay_failure_after_resume_does_not_terminate() {
    let mut o = machine(&[b"alpha"]);
    o.launched();
    o.payload_written(0);
    o.injected_ok(0);
    o.init_ok(0);
    o.resumed();
    o.relay_failed(b"pipe closed unexpectedly".to_vec());
    assert!(matches!(o.next_action(), Action::Finish));
    assert_eq!(o.target_state(), TargetState::Resumed);
    let report = o.into_report();
    assert!(report.resumed);
    assert!(matches!(report.error, Some(RunError::Relay(_))));
}

#[test]
fn mod_names_and_count_are_exposed() {
    let o = machine(&[b"alpha", b"beta"]);
    assert_eq!(o.mod_count(), 2);
    assert_eq!(o.mod_name(0), b"alpha".to_vec());
    assert_eq!(o.mod_name(1), b"beta".to_vec());
}
