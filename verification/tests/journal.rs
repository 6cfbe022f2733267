use std::cell::RefCell;
use std::collections::BTreeMap;

use transcodarr::error::AgentError;
use transcodarr::journal::{IntentJournal, IntentPhase, IntentRecord, Removal};

/// A journal and what its directory holds: a record, or bytes that are none.
struct Shelf {
    journal: IntentJournal,
    files: RefCell<BTreeMap<String, Result<IntentRecord, String>>>,
}

impl Shelf {
    fn open() -> Shelf {
        Shelf {
            journal: IntentJournal::open("/j", Ok(())).unwrap(),
            files: RefCell::new(BTreeMap::new()),
        }
    }

    fn record(&self, rec: &IntentRecord) -> Result<(), AgentError> {
        let staging = self.journal.staging_for(&rec.job_id, rec.attempt);
        let path = self.journal.path_for(&rec.job_id, rec.attempt);
        let mut files = self.files.borrow_mut();
        files.insert(staging.clone(), Ok(rec.clone()));
        let staged = files.remove(&staging).unwrap();
        files.insert(path, staged);
        self.journal.record(rec, Ok(()))
    }

    fn read(&self, job_id: &str, attempt: i64) -> Result<Option<IntentRecord>, AgentError> {
        let path = self.journal.path_for(job_id, attempt);
        let found = self.files.borrow().get(&path).cloned();
        self.journal.read(job_id, attempt, found)
    }

    fn outstanding(&self) -> Result<Vec<IntentRecord>, AgentError> {
        let found = self.files.borrow().iter().map(|(p, c)| (p.clone(), c.clone())).collect();
        self.journal.outstanding(found)
    }

    fn clear(&self, job_id: &str, attempt: i64) -> Result<(), AgentError> {
        let path = self.journal.path_for(job_id, attempt);
        let removal = match self.files.borrow_mut().remove(&path) {
            Some(_) => Removal::Removed,
            None => Removal::NotFound,
        };
        self.journal.clear(job_id, attempt, removal, Ok(()))
    }

    fn write(&self, name: &str, bytes: &str) {
        self.files.borrow_mut().insert(format!("/j/{name}"), Err(bytes.to_string()));
    }
}

fn record(phase: IntentPhase) -> IntentRecord {
    IntentRecord {
        job_id: "job-1".into(),
        attempt: 0,
        agent_uid: "agent-a".into(),
        boot_id: "boot-1".into(),
        fencing_epoch: 3,
        temp_path: "/w/job-1.0.partial.mkv".into(),
        final_path: "/mnt/tv/a.mkv".into(),
        trash_path: "/t/a.mkv".into(),
        expected_content_sig: "sig".into(),
        phase,
    }
}

#[test]
fn a_record_round_trips() {
    let j = Shelf::open();
    let rec = record(IntentPhase::Granted);
    j.record(&rec).unwrap();
    assert_eq!(j.read("job-1", 0).unwrap(), Some(rec));
}

#[test]
fn a_missing_record_is_none_not_an_error() {
    let j = Shelf::open();
    assert_eq!(j.read("nope", 0).unwrap(), None);
}

/// Phases advance in place. Recovery reads the latest, so an overwrite that
/// left both would make "how far did it get" ambiguous.
#[test]
fn advancing_a_phase_replaces_the_record() {
    let j = Shelf::open();
    j.record(&record(IntentPhase::Granted)).unwrap();
    j.record(&record(IntentPhase::Retired)).unwrap();
    j.record(&record(IntentPhase::Installed)).unwrap();

    assert_eq!(
        j.read("job-1", 0).unwrap().unwrap().phase,
        IntentPhase::Installed
    );
    assert_eq!(j.outstanding().unwrap().len(), 1);
}

#[test]
fn outstanding_lists_every_live_record() {
    let j = Shelf::open();
    for i in 0..3 {
        let mut r = record(IntentPhase::Granted);
        r.job_id = format!("job-{i}");
        j.record(&r).unwrap();
    }
    assert_eq!(j.outstanding().unwrap().len(), 3);

    j.clear("job-1", 0).unwrap();
    let left: Vec<_> = j
        .outstanding()
        .unwrap()
        .into_iter()
        .map(|r| r.job_id)
        .collect();
    assert_eq!(left, vec!["job-0", "job-2"]);
}

/// A journal we cannot read describes an install we cannot reason about.
/// Skipping it silently is how a half-installed file becomes permanent.
#[test]
fn an_unreadable_record_is_reported_not_skipped() {
    let j = Shelf::open();
    j.record(&record(IntentPhase::Retired)).unwrap();
    j.write("garbage.json", "{not json");
    assert!(j.outstanding().is_err(), "must not silently ignore it");
}

/// A crash mid-write must leave the previous record, not a truncated one:
/// recovery would otherwise parse garbage and have no phase at all.
#[test]
fn a_partial_write_never_replaces_a_good_record() {
    let j = Shelf::open();
    j.record(&record(IntentPhase::Retired)).unwrap();

    // The staging name the writer uses; a crash leaves this behind.
    j.write("job-1.0.intent.writing", "{truncated");

    assert_eq!(
        j.read("job-1", 0).unwrap().unwrap().phase,
        IntentPhase::Retired,
        "the good record must still be readable"
    );
    assert_eq!(
        j.outstanding().unwrap().len(),
        1,
        "the staging file must not be mistaken for a record"
    );
}

#[test]
fn clearing_a_missing_record_is_not_an_error() {
    let j = Shelf::open();
    j.clear("nope", 0).unwrap();
}

/// The phase ordering *is* the recovery logic, so it must not drift.
#[test]
fn phases_are_ordered_by_how_far_the_ritual_got() {
    assert!(IntentPhase::Granted < IntentPhase::Retired);
    assert!(IntentPhase::Retired < IntentPhase::Installed);
}

/// What goes wrong on disk names the file it went wrong on.
#[test]
fn a_journal_error_names_its_file() {
    let why = || "disk full".to_string();
    let e = IntentJournal::open("/j", Err(why())).unwrap_err();
    assert_eq!(e, AgentError::Journal { path: "/j".into(), source: why() });
    let journal = IntentJournal::open("/j", Ok(())).unwrap();
    let file = || AgentError::Journal { path: "/j/job-1.0.intent.json".into(), source: why() };
    assert_eq!(journal.record(&record(IntentPhase::Granted), Err(why())).unwrap_err(), file());
    assert_eq!(journal.read("job-1", 0, Some(Err(why()))).unwrap_err(), file());
    let failed = Removal::Failed(why());
    assert_eq!(journal.clear("job-1", 0, failed, Ok(())).unwrap_err(), file());
    assert_eq!(
        journal.clear("job-1", 0, Removal::Removed, Err(why())).unwrap_err(),
        AgentError::Journal { path: "/j".into(), source: why() }
    );
}

/// Each phase is later than the one before it, and none is later than itself.
#[test]
fn a_phase_precedes_the_later_ones() {
    let all = [IntentPhase::Granted, IntentPhase::Retired, IntentPhase::Installed];
    for a in all {
        for b in all {
            assert_eq!(a.precedes(b), a < b, "{a:?} {b:?}");
        }
    }
}
