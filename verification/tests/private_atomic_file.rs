use taarof_app::private_atomic_file::{
    new_temporary_path, save_directory, temporary_path, temporary_path_from, SaveStep, StepOutcome, MAX_ATTEMPTS,
};

fn run(outcomes: &[StepOutcome]) -> SaveStep {
    let mut step = SaveStep::OpenDirectory;
    for outcome in outcomes {
        step = step.after(*outcome);
    }
    step
}

#[test]
fn a_save_goes_through_all_steps() {
    assert_eq!(run(&[StepOutcome::Done; 6]), SaveStep::SyncDirectory);
    assert_eq!(run(&[StepOutcome::Done; 7]), SaveStep::Saved);
    assert_eq!(run(&[StepOutcome::Done; 9]), SaveStep::Saved);
}

#[test]
fn a_failure_says_whether_the_destination_changed() {
    for done in 0..6 {
        let mut outcomes = vec![StepOutcome::Done; done];
        outcomes.push(StepOutcome::Failed);
        assert_eq!(run(&outcomes), SaveStep::Failed { replaced: false });
    }
    let mut outcomes = vec![StepOutcome::Done; 6];
    outcomes.push(StepOutcome::Failed);
    assert_eq!(run(&outcomes), SaveStep::Failed { replaced: true });
}

#[test]
fn names_are_tried_a_bounded_number_of_times() {
    let mut outcomes = vec![StepOutcome::Done];
    for _ in 1..MAX_ATTEMPTS {
        outcomes.push(StepOutcome::Exists);
    }
    assert_eq!(
        run(&outcomes),
        SaveStep::CreateTemporary {
            attempt: MAX_ATTEMPTS
        }
    );
    outcomes.push(StepOutcome::Exists);
    assert_eq!(run(&outcomes), SaveStep::Collision);
}

#[test]
fn temporary_files_stand_beside_the_destination() {
    assert_eq!(save_directory("/var/state/store.json"), "/var/state");
    assert_eq!(save_directory("store.json"), ".");
    let path = temporary_path("/var/state", u128::from_ne_bytes([0xab; 16]));
    assert!(path.starts_with("/var/state/"));
    assert!(path.contains(&"ab".repeat(16)));
    let first = new_temporary_path("/var/state").expect("random bytes");
    let second = new_temporary_path("/var/state").expect("random bytes");
    assert_ne!(first, second);
    assert_eq!(first.len(), path.len());
}

#[test]
fn without_random_bytes_there_is_no_temporary_file() {
    assert_eq!(temporary_path_from("/var/state", None), None);
    assert_eq!(
        temporary_path_from("/var/state", Some([0x0f; 16])).as_deref(),
        Some("/var/state/.taarof-save-0f0f0f0f0f0f0f0f0f0f0f0f0f0f0f0f.tmp")
    );
    let bytes: [u8; 16] = [0, 1, 2, 3, 4, 5, 6, 7, 8, 9, 10, 11, 12, 13, 14, 255];
    let nonce = u128::from_ne_bytes(bytes);
    assert_eq!(
        temporary_path_from("/var/state", Some(bytes)),
        Some(format!("/var/state/.taarof-save-{nonce:032x}.tmp"))
    );
    assert_eq!(
        temporary_path("", 0x2a),
        ".taarof-save-0000000000000000000000000000002a.tmp"
    );
}
