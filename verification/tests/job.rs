use transcodarr::job::JobState;
use transcodarr::job::JobState::{
    Assigned, Blocked, Cancelled, Committing, DeadLettered, Eligible, Failed, NeedsOperator,
    Pending, Retrying, Running, Succeeded, Verifying,
};

#[test]
fn the_happy_path_is_legal_end_to_end() {
    let path = [
        Pending, Eligible, Assigned, Running, Verifying, Committing, Succeeded,
    ];
    for w in path.windows(2) {
        assert!(
            JobState::can_transition(w[0], w[1]),
            "{:?} -> {:?} should be legal",
            w[0],
            w[1]
        );
    }
}

/// Terminal rows are immutable; an operator retry inserts a new job rather
/// than reanimating the old one, so its history stays intact.
#[test]
fn terminal_states_are_immutable() {
    for t in [Succeeded, Failed, Cancelled, DeadLettered, NeedsOperator] {
        assert!(t.is_terminal());
        for to in [Eligible, Running, Pending, Assigned] {
            assert!(
                !JobState::can_transition(t, to),
                "{t:?} -> {to:?} must be rejected"
            );
        }
    }
}

/// Both directions matter: a new agent unblocks work, and an agent leaving
/// blocks work that was previously routable.
#[test]
fn routability_can_change_in_both_directions() {
    assert!(JobState::can_transition(Blocked, Eligible));
    assert!(JobState::can_transition(Eligible, Blocked));
}

/// Capacity is released on leaving the admitted set, not on reaching a
/// terminal state. Holding a grant through `Retrying` leaks slots until the
/// fleet deadlocks.
#[test]
fn retrying_does_not_hold_capacity() {
    assert!(Running.holds_capacity());
    assert!(Committing.holds_capacity());
    assert!(!Retrying.holds_capacity());
    assert!(!Eligible.holds_capacity());
    assert!(!Succeeded.holds_capacity());
}

#[test]
fn an_ambiguous_commit_goes_to_needs_operator_not_a_guess() {
    assert!(JobState::can_transition(Committing, NeedsOperator));
    assert!(NeedsOperator.is_terminal());
}

#[test]
fn cancellation_interrupts_anything_not_yet_terminal() {
    for s in [
        Pending, Blocked, Eligible, Assigned, Running, Verifying, Retrying,
    ] {
        assert!(JobState::can_transition(s, Cancelled), "{s:?}");
    }
}

#[test]
fn nonsense_transitions_are_rejected() {
    assert!(!JobState::can_transition(Pending, Running));
    assert!(!JobState::can_transition(Pending, Succeeded));
    assert!(!JobState::can_transition(Eligible, Committing));
    assert!(!JobState::can_transition(Running, Succeeded));
}

#[test]
fn only_retrying_can_dead_letter() {
    assert!(JobState::can_transition(Retrying, DeadLettered));
    assert!(!JobState::can_transition(Running, DeadLettered));
    assert!(!JobState::can_transition(Eligible, DeadLettered));
}
