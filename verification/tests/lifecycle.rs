use node_ide::runtime::lifecycle::{Lifecycle, LifecycleError, LifecycleMode};
use std::collections::HashSet;

fn apply_sequence(mode: LifecycleMode, sequence: &[Lifecycle]) -> Result<(), LifecycleError> {
    let mut lc = Lifecycle::initial_for_mode(mode);
    for &to in sequence {
        lc.transition_with_mode(to, mode)?;
    }
    Ok(())
}

#[test]
fn ephemeral_happy_path_idle_running_done() {
    let mut lc = Lifecycle::Idle;
    assert!(lc.transition_with_mode(Lifecycle::Running, LifecycleMode::Ephemeral).is_ok());
    assert!(lc.transition_with_mode(Lifecycle::Done, LifecycleMode::Ephemeral).is_ok());
}

#[test]
fn ephemeral_rerun_from_done() {
    let mut lc = Lifecycle::Done;
    assert!(lc.transition_with_mode(Lifecycle::Running, LifecycleMode::Ephemeral).is_ok());
    assert!(lc.transition_with_mode(Lifecycle::Done, LifecycleMode::Ephemeral).is_ok());
}

#[test]
fn ephemeral_reject_idle_to_done() {
    let mut lc = Lifecycle::Idle;
    assert!(lc.transition_with_mode(Lifecycle::Done, LifecycleMode::Ephemeral).is_err());
}

#[test]
fn persistent_start_stop_path() {
    apply_sequence(
        LifecycleMode::Persistent,
        &[
            Lifecycle::Initializing,
            Lifecycle::Idle,
            Lifecycle::Running,
            Lifecycle::Idle,
            Lifecycle::Stopping,
            Lifecycle::Stopped,
        ],
    )
    .unwrap();
}

#[test]
fn persistent_start_to_waiting() {
    apply_sequence(LifecycleMode::Persistent, &[Lifecycle::Initializing, Lifecycle::Waiting]).unwrap();
}

#[test]
fn persistent_reject_done_transition() {
    let mut lc = Lifecycle::Idle;
    assert!(lc.transition_with_mode(Lifecycle::Done, LifecycleMode::Persistent).is_err());
}

#[test]
fn fuzz_random_sequences_never_panic() {
    let all = [
        Lifecycle::Idle,
        Lifecycle::Initializing,
        Lifecycle::Running,
        Lifecycle::Waiting,
        Lifecycle::Stopping,
        Lifecycle::Stopped,
        Lifecycle::Done,
        Lifecycle::Failed,
    ];

    for mode in [LifecycleMode::Ephemeral, LifecycleMode::Persistent] {
        for seed in 0..500u64 {
            let mut lc = Lifecycle::initial_for_mode(mode);
            let mut seen = HashSet::from([lc]);
            for step in 0..12usize {
                let pick = all[((seed as usize).wrapping_mul(31).wrapping_add(step)) % all.len()];
                if let Ok(()) = lc.transition_with_mode(pick, mode) {
                    seen.insert(lc);
                }
            }
            assert!(!seen.is_empty());
        }
    }
}

#[test]
fn initial_states_follow_mode() {
    assert_eq!(Lifecycle::initial_for_mode(LifecycleMode::Ephemeral), Lifecycle::Idle);
    assert_eq!(Lifecycle::initial_for_mode(LifecycleMode::Persistent), Lifecycle::Stopped);
    assert_eq!(Lifecycle::after_success(LifecycleMode::Ephemeral), Lifecycle::Done);
    assert_eq!(Lifecycle::after_success(LifecycleMode::Persistent), Lifecycle::Idle);
}

#[test]
fn refused_transition_leaves_state_and_reports_it() {
    let mut lc = Lifecycle::Stopped;
    let err = lc.transition_with_mode(Lifecycle::Running, LifecycleMode::Persistent).unwrap_err();
    assert_eq!(lc, Lifecycle::Stopped);
    assert_eq!(err.message(), "invalid lifecycle transition: Stopped -> Running (mode Persistent)");
}

#[test]
fn persistent_run_cycle_returns_to_idle() {
    let mut lc = Lifecycle::Idle;
    lc.transition_with_mode(Lifecycle::Running, LifecycleMode::Persistent).unwrap();
    lc.transition_with_mode(Lifecycle::Idle, LifecycleMode::Persistent).unwrap();
    assert_eq!(lc, Lifecycle::Idle);
    assert!(Lifecycle::can_transition_with_mode(Lifecycle::Waiting, Lifecycle::Stopping, LifecycleMode::Persistent));
    assert!(!Lifecycle::can_transition_with_mode(Lifecycle::Stopped, Lifecycle::Running, LifecycleMode::Persistent));
}
