use transcodarr::file::FileState;

/// The stored spelling is the contract; a round trip failure would mean a
/// row written by one version is unreadable by the next.
#[test]
fn every_state_round_trips_through_its_stored_spelling() {
    for s in [
        FileState::Discovered,
        FileState::Probing,
        FileState::Probed,
        FileState::ProbeFailed,
        FileState::Evaluated,
        FileState::Processed,
        FileState::Quarantined,
        FileState::Missing,
    ] {
        assert_eq!(FileState::parse(s.as_str()), Some(s));
    }
}

#[test]
fn an_unknown_spelling_is_rejected_rather_than_defaulted() {
    assert_eq!(FileState::parse("Probed "), None);
    assert_eq!(FileState::parse("probed"), None);
    assert_eq!(FileState::parse(""), None);
}

/// A processed file is re-evaluated: the audio pass being installed does
/// not mean the video pass is not still owed.
#[test]
fn processed_files_remain_evaluable() {
    assert!(FileState::Processed.has_usable_facts());
    assert!(FileState::Probed.has_usable_facts());
    assert!(!FileState::Discovered.has_usable_facts());
    assert!(!FileState::ProbeFailed.has_usable_facts());
    assert!(!FileState::Quarantined.has_usable_facts());
}
