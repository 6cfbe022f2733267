use transcodarr::error::ProtoError;
use transcodarr::message::CommitPhase;

#[test]
fn phases_round_trip_through_their_wire_spelling() {
    for p in [
        CommitPhase::Granted,
        CommitPhase::Retired,
        CommitPhase::Installed,
    ] {
        assert_eq!(CommitPhase::parse(p.as_str()).unwrap(), p);
    }
}

/// The proto enum names are lowercase and the stored SQL values are
/// capitalised; both appear in practice, and refusing one over
/// capitalisation would be a protocol break for no reason.
#[test]
fn parsing_accepts_either_capitalisation() {
    assert_eq!(CommitPhase::parse("Retired").unwrap(), CommitPhase::Retired);
    assert_eq!(CommitPhase::parse("retired").unwrap(), CommitPhase::Retired);
    assert_eq!(CommitPhase::parse("RETIRED").unwrap(), CommitPhase::Retired);
}

/// A value from a newer peer is refused, not guessed at. Guessing would let
/// an unknown commit state become a known one by assignment.
#[test]
fn an_unrecognised_phase_is_refused() {
    let e = CommitPhase::parse("teleported").unwrap_err();
    assert!(matches!(e, ProtoError::Unrecognised { field: "phase", .. }));
}
