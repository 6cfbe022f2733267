use std::cell::RefCell;
use std::collections::BTreeMap;

use transcodarr::commit::{
    CommitAction, CommitOutcome, CommitProgress, CommitRequest, CommitRitual, CommitRun, FileStat,
    RecoveryAction, Resolution, SourceGuard, restore_failed,
};
use transcodarr::error::AgentError;
use transcodarr::journal::{IntentJournal, IntentPhase, IntentRecord};
use transcodarr::workarea::WorkArea;

const ORIGINAL: &[u8] = b"the original file, which must never be lost";
const REPLACEMENT: &[u8] = b"the replacement";

/// What is on disk, and what the journal holds.
#[derive(Default)]
struct Disk {
    files: BTreeMap<String, Vec<u8>>,
    journal: BTreeMap<String, IntentRecord>,
}

struct Fixture {
    ritual: CommitRitual,
    work: WorkArea,
    disk: RefCell<Disk>,
}

fn fixture() -> Fixture {
    let work = WorkArea::at("/d/work", "agent-a", "boot-1");
    let journal = IntentJournal::at("/d/journal");
    Fixture {
        ritual: CommitRitual::new(journal, work.duplicate()),
        work,
        disk: RefCell::new(Disk::default()),
    }
}

impl Fixture {
    fn write(&self, path: &str, bytes: &[u8]) {
        self.disk.borrow_mut().files.insert(path.to_string(), bytes.to_vec());
    }

    fn read(&self, path: &str) -> Result<Vec<u8>, String> {
        self.disk.borrow().files.get(path).cloned().ok_or("not found".to_string())
    }

    fn is_there(&self, path: &str) -> bool {
        self.read(path).is_ok()
    }

    fn remove_file(&self, path: &str) -> Result<(), String> {
        self.disk.borrow_mut().files.remove(path).map(|_| ()).ok_or("not found".to_string())
    }

    fn rename(&self, from: &str, to: &str) -> Result<(), String> {
        let bytes = self.read(from)?;
        self.remove_file(from)?;
        self.write(to, &bytes);
        Ok(())
    }

    fn observe(&self, path: &str) -> Result<SourceGuard, String> {
        let stat = self.read(path).map(|b| FileStat {
            size_bytes: b.len() as u64,
            modified_s: Some(7),
            inode: Some(1),
        });
        SourceGuard::observe(path, stat).map_err(|e| e.message())
    }

    fn record(&self, rec: &IntentRecord) {
        let path = self.ritual.journal().path_for(&rec.job_id, rec.attempt);
        self.disk.borrow_mut().journal.insert(path, rec.clone());
    }

    fn clear(&self, job_id: &str, attempt: i64) {
        let path = self.ritual.journal().path_for(job_id, attempt);
        self.disk.borrow_mut().journal.remove(&path);
    }

    fn outstanding(&self) -> Result<Vec<IntentRecord>, AgentError> {
        let found = self
            .disk
            .borrow()
            .journal
            .iter()
            .map(|(p, r)| (p.clone(), Ok(r.clone())))
            .collect();
        self.ritual.journal().outstanding(found)
    }

    fn request(&self, name: &str) -> CommitRequest {
        let final_path = format!("/d/lib/{name}");
        self.write(&final_path, ORIGINAL);
        let temp_path = self.work.temp_path("job-1", 0, &final_path);
        self.write(&temp_path, REPLACEMENT);
        CommitRequest {
            job_id: "job-1".into(),
            attempt: 0,
            fencing_epoch: 1,
            temp_path,
            final_path: final_path.clone(),
            trash_path: format!("/d/trash/{name}"),
            expected_content_sig: "sig".into(),
            source_guard: self.observe(&final_path).unwrap(),
        }
    }

    /// What happens when the ritual's next action is carried out here.
    fn perform(&self, run: &CommitRun) -> CommitOutcome {
        let done = |r: Result<(), String>| match r {
            Ok(()) => CommitOutcome::Done,
            Err(e) => CommitOutcome::Failed(e),
        };
        match run.action() {
            CommitAction::Find(p) | CommitAction::Open(p) | CommitAction::Sync(p) => {
                done(self.read(&p).map(|_| ()))
            }
            CommitAction::Observe(p) => match self.observe(&p) {
                Ok(g) => CommitOutcome::Observed(g),
                Err(e) => CommitOutcome::Failed(e),
            },
            CommitAction::Record(rec) => {
                self.record(&rec);
                CommitOutcome::Done
            }
            CommitAction::Rename { from, to } => done(self.rename(&from, &to)),
            CommitAction::Clear { job_id, attempt } => {
                self.clear(&job_id, attempt);
                CommitOutcome::Done
            }
            CommitAction::Measure(p) => match self.read(&p) {
                Ok(b) => CommitOutcome::Sized(b.len() as u64),
                Err(e) => CommitOutcome::Failed(e),
            },
            CommitAction::SyncDir(_) | CommitAction::MakeDir(_) => CommitOutcome::Done,
        }
    }

    fn commit(&self, req: &CommitRequest) -> Result<Resolution, AgentError> {
        let mut run = self.ritual.commit(req.clone(), Ok(1), Ok(1))?;
        loop {
            let outcome = self.perform(&run);
            match run.advance(outcome) {
                CommitProgress::Continue(next) => run = next,
                CommitProgress::Resolved(r) => return Ok(r),
                CommitProgress::Broken(e) => return Err(e),
            }
        }
    }

    fn recover_one(&self, rec: &IntentRecord) -> Result<Resolution, AgentError> {
        let plan = self.ritual.recover_one(
            rec,
            self.is_there(&rec.final_path),
            self.is_there(&rec.trash_path),
        );
        for action in plan.actions.clone() {
            match action {
                RecoveryAction::DiscardStaged => {
                    let _ = self.remove_file(&rec.temp_path);
                }
                RecoveryAction::RestoreOriginal => self
                    .rename(&rec.trash_path, &rec.final_path)
                    .map_err(|e| restore_failed(rec, e))?,
                RecoveryAction::SyncDestination => {}
            }
        }
        let bytes = self.read(&rec.final_path).map(|b| b.len() as u64).unwrap_or(0);
        Ok(plan.resolution(rec, bytes))
    }

    fn recover_all(&self) -> Result<Vec<(String, Resolution)>, AgentError> {
        let mut resolved = Vec::new();
        for rec in self.outstanding()? {
            let r = self.recover_one(&rec)?;
            resolved.push((rec, r));
        }
        let (report, keys) = self.ritual.recover_all(resolved);
        for (job_id, attempt) in keys {
            self.clear(&job_id, attempt);
        }
        Ok(report)
    }

    /// Build the journal state a crash at `phase` would have left, without
    /// actually performing the ritual. This is what lets the crash matrix
    /// exercise every window deterministically.
    fn crashed_at(&self, req: &CommitRequest, phase: IntentPhase) -> IntentRecord {
        let rec = IntentRecord {
            job_id: req.job_id.clone(),
            attempt: req.attempt,
            agent_uid: "agent-a".into(),
            boot_id: "boot-1".into(),
            fencing_epoch: req.fencing_epoch,
            temp_path: req.temp_path.clone(),
            final_path: req.final_path.clone(),
            trash_path: req.trash_path.clone(),
            expected_content_sig: req.expected_content_sig.clone(),
            phase,
        };
        self.record(&rec);
        rec
    }
}

/// The invariant, stated as an assertion: after any outcome, either the
/// original is intact somewhere findable or the replacement is installed.
/// Never neither.
fn assert_never_neither(f: &Fixture, req: &CommitRequest, resolution: &Resolution) {
    let final_bytes = f.read(&req.final_path).ok();
    let trash_bytes = f.read(&req.trash_path).ok();

    let original_intact =
        final_bytes.as_deref() == Some(ORIGINAL) || trash_bytes.as_deref() == Some(ORIGINAL);
    let replacement_installed = final_bytes.as_deref() == Some(REPLACEMENT);

    if let Resolution::NeedsOperator { .. } = resolution {
        // The one honest exit. It is allowed to be ambiguous precisely
        // because it refuses to claim otherwise.
        return;
    }
    assert!(
        original_intact || replacement_installed,
        "INVARIANT VIOLATED: neither original nor replacement survives.\n\
         resolution={resolution:?}\n final={final_bytes:?}\n trash={trash_bytes:?}"
    );
}

#[test]
fn a_clean_commit_installs_and_retains_the_original() {
    let f = fixture();
    let req = f.request("a.mkv");
    let r = f.commit(&req).unwrap();

    assert!(matches!(r, Resolution::Installed { .. }), "{r:?}");
    assert_eq!(f.read(&req.final_path).unwrap(), REPLACEMENT);
    assert_eq!(
        f.read(&req.trash_path).unwrap(),
        ORIGINAL,
        "the original must be retained, not deleted"
    );
    assert!(!f.is_there(&req.temp_path), "the staged file is consumed");
    assert_never_neither(&f, &req, &r);
}

/// The journal is cleared on success. A record left behind would make the
/// next startup try to recover an install that already completed.
#[test]
fn a_completed_commit_leaves_no_outstanding_intent() {
    let f = fixture();
    let req = f.request("a.mkv");
    f.commit(&req).unwrap();
    assert!(f.outstanding().unwrap().is_empty());
}

/// A job planned against facts that no longer hold would install an encode
/// of a file that has since been replaced, destroying the newer copy.
#[test]
fn a_source_that_changed_since_planning_is_not_replaced() {
    let f = fixture();
    let mut req = f.request("a.mkv");
    req.source_guard.size_bytes += 1;

    let r = f.commit(&req).unwrap();
    assert!(matches!(r, Resolution::SourceIntact { .. }), "{r:?}");
    assert_eq!(f.read(&req.final_path).unwrap(), ORIGINAL);
    assert!(!f.is_there(&req.trash_path), "nothing may have been retired");
    assert_never_neither(&f, &req, &r);
}

#[test]
fn a_missing_staged_output_is_declined_not_attempted() {
    let f = fixture();
    let req = f.request("a.mkv");
    f.remove_file(&req.temp_path).unwrap();

    let r = f.commit(&req).unwrap();
    assert!(matches!(r, Resolution::SourceIntact { .. }), "{r:?}");
    assert_eq!(f.read(&req.final_path).unwrap(), ORIGINAL);
    assert_never_neither(&f, &req, &r);
}

#[test]
fn a_vanished_source_is_declined_rather_than_erroring() {
    let f = fixture();
    let req = f.request("a.mkv");
    f.remove_file(&req.final_path).unwrap();

    let r = f.commit(&req).unwrap();
    assert!(matches!(r, Resolution::SourceIntact { .. }), "{r:?}");
}

// ---------------------------------------------------------------------
// The crash matrix. Every window in the ritual, in every on-disk state it
// can leave, must resolve to source-intact or replacement-installed --
// never neither, and never a guess.
// ---------------------------------------------------------------------

/// Crash after journalling intent, before anything moved.
#[test]
fn crash_matrix_granted_original_still_in_place() {
    let f = fixture();
    let req = f.request("a.mkv");
    let rec = f.crashed_at(&req, IntentPhase::Granted);

    let r = f.recover_one(&rec).unwrap();
    assert!(matches!(r, Resolution::SourceIntact { .. }), "{r:?}");
    assert_eq!(f.read(&req.final_path).unwrap(), ORIGINAL);
    assert!(
        !f.is_there(&req.temp_path),
        "the stale staged file is discarded"
    );
    assert_never_neither(&f, &req, &r);
}

/// Crash in the dangerous window: original retired, destination empty.
/// This is the case the entire design exists for.
#[test]
fn crash_matrix_retired_destination_empty_restores_the_original() {
    let f = fixture();
    let req = f.request("a.mkv");
    f.rename(&req.final_path, &req.trash_path).unwrap();
    let rec = f.crashed_at(&req, IntentPhase::Retired);
    assert!(!f.is_there(&req.final_path), "precondition: the window is open");

    let r = f.recover_one(&rec).unwrap();
    assert!(matches!(r, Resolution::SourceRestored { .. }), "{r:?}");
    assert_eq!(
        f.read(&req.final_path).unwrap(),
        ORIGINAL,
        "the original must come back"
    );
    assert_never_neither(&f, &req, &r);
}

/// Crash after both renames landed but before the `Installed` record was
/// written. The install is real; recovery must not undo it.
#[test]
fn crash_matrix_retired_but_install_actually_landed() {
    let f = fixture();
    let req = f.request("a.mkv");
    f.rename(&req.final_path, &req.trash_path).unwrap();
    f.rename(&req.temp_path, &req.final_path).unwrap();
    let rec = f.crashed_at(&req, IntentPhase::Retired);

    let r = f.recover_one(&rec).unwrap();
    assert!(matches!(r, Resolution::Installed { .. }), "{r:?}");
    assert_eq!(f.read(&req.final_path).unwrap(), REPLACEMENT);
    assert_never_neither(&f, &req, &r);
}

/// Crash after the install and its journal record.
#[test]
fn crash_matrix_installed_is_left_alone() {
    let f = fixture();
    let req = f.request("a.mkv");
    f.rename(&req.final_path, &req.trash_path).unwrap();
    f.rename(&req.temp_path, &req.final_path).unwrap();
    let rec = f.crashed_at(&req, IntentPhase::Installed);

    let r = f.recover_one(&rec).unwrap();
    assert!(matches!(r, Resolution::Installed { .. }), "{r:?}");
    assert_eq!(f.read(&req.final_path).unwrap(), REPLACEMENT);
    assert_eq!(f.read(&req.trash_path).unwrap(), ORIGINAL);
    assert_never_neither(&f, &req, &r);
}

/// Journal says installed, but the destination is gone — something outside
/// transcodarr removed it. The original is still recoverable, so recover it
/// rather than leave the library short a file.
#[test]
fn crash_matrix_installed_but_destination_vanished_restores_the_original() {
    let f = fixture();
    let req = f.request("a.mkv");
    f.rename(&req.final_path, &req.trash_path).unwrap();
    let rec = f.crashed_at(&req, IntentPhase::Installed);

    let r = f.recover_one(&rec).unwrap();
    assert!(matches!(r, Resolution::SourceRestored { .. }), "{r:?}");
    assert_eq!(f.read(&req.final_path).unwrap(), ORIGINAL);
    assert_never_neither(&f, &req, &r);
}

/// Neither the destination nor the trash copy exists. This is the only
/// honest ambiguity, and it must never be resolved by guessing.
#[test]
fn crash_matrix_nothing_findable_needs_an_operator() {
    let f = fixture();
    let req = f.request("a.mkv");
    f.remove_file(&req.final_path).unwrap();
    let rec = f.crashed_at(&req, IntentPhase::Retired);

    let r = f.recover_one(&rec).unwrap();
    assert!(matches!(r, Resolution::NeedsOperator { .. }), "{r:?}");
    assert!(!r.is_resolved(), "this outcome must be alarmable");
}

/// Granted, but the original is missing anyway: the journal said nothing
/// had moved, so this is not a state the ritual could have produced.
#[test]
fn crash_matrix_granted_but_source_gone_needs_an_operator() {
    let f = fixture();
    let req = f.request("a.mkv");
    f.remove_file(&req.final_path).unwrap();
    let rec = f.crashed_at(&req, IntentPhase::Granted);

    let r = f.recover_one(&rec).unwrap();
    assert!(matches!(r, Resolution::NeedsOperator { .. }), "{r:?}");
}

/// The whole matrix in one sweep, asserting the single invariant against
/// every reachable on-disk state at every phase.
#[test]
fn crash_matrix_no_phase_and_state_combination_loses_the_file() {
    // (phase, original retired?, replacement installed?)
    let states = [
        (IntentPhase::Granted, false, false),
        (IntentPhase::Granted, true, false),
        (IntentPhase::Granted, true, true),
        (IntentPhase::Retired, false, false),
        (IntentPhase::Retired, true, false),
        (IntentPhase::Retired, true, true),
        (IntentPhase::Installed, true, false),
        (IntentPhase::Installed, true, true),
    ];

    for (i, (phase, retired, installed)) in states.into_iter().enumerate() {
        let f = fixture();
        let req = f.request(&format!("case{i}.mkv"));
        if retired {
            f.rename(&req.final_path, &req.trash_path).unwrap();
        }
        if installed {
            f.rename(&req.temp_path, &req.final_path).unwrap();
        }
        let rec = f.crashed_at(&req, phase);

        let r = f
            .recover_one(&rec)
            .unwrap_or_else(|e| panic!("case {i} ({phase:?}) errored: {e:?}"));
        assert_never_neither(&f, &req, &r);

        // And whatever the outcome, it is one of the four named ones --
        // recovery never invents a fifth answer.
        assert!(
            matches!(
                r,
                Resolution::Installed { .. }
                    | Resolution::SourceIntact { .. }
                    | Resolution::SourceRestored { .. }
                    | Resolution::NeedsOperator { .. }
            ),
            "case {i}"
        );
    }
}

/// Recovery runs over everything left on disk, and clears only what it
/// actually resolved. An unresolved intent is the only record that a human
/// is needed; clearing it would erase the evidence with the problem.
#[test]
fn recovery_clears_resolved_intents_and_keeps_ambiguous_ones() {
    let f = fixture();

    let good = f.request("good.mkv");
    f.rename(&good.final_path, &good.trash_path).unwrap();
    f.crashed_at(&good, IntentPhase::Retired);

    let mut bad = f.request("bad.mkv");
    bad.job_id = "job-2".into();
    f.remove_file(&bad.final_path).unwrap();
    f.crashed_at(&bad, IntentPhase::Retired);

    let results = f.recover_all().unwrap();
    assert_eq!(results.len(), 2);
    assert!(
        results
            .iter()
            .any(|(_, r)| matches!(r, Resolution::SourceRestored { .. }))
    );
    assert!(
        results
            .iter()
            .any(|(_, r)| matches!(r, Resolution::NeedsOperator { .. }))
    );

    let left = f.outstanding().unwrap();
    assert_eq!(left.len(), 1, "only the ambiguous one is retained");
    assert_eq!(left[0].job_id, "job-2");
}

/// Every resolution carries a stable label for the commit ledger and the
/// `transcodarr_commit_intent_recovered_total{resolution}` metric.
#[test]
fn every_resolution_has_a_metric_label() {
    assert_eq!(
        Resolution::Installed {
            trash_path: "/t".into(),
            output_bytes: 1
        }
        .label(),
        "installed"
    );
    assert_eq!(
        Resolution::SourceIntact {
            reason: String::new()
        }
        .label(),
        "source_intact"
    );
    assert_eq!(
        Resolution::SourceRestored {
            reason: String::new()
        }
        .label(),
        "source_restored"
    );
    assert_eq!(
        Resolution::NeedsOperator {
            detail: String::new()
        }
        .label(),
        "needs_operator"
    );
}

/// Two agents, or two boots of one agent, must not adopt each other's
/// in-flight work. The record carries who owned it.
#[test]
fn an_intent_records_which_agent_instance_owned_it() {
    let f = fixture();
    let req = f.request("a.mkv");
    f.commit(&req).unwrap();

    let rec = f.crashed_at(&req, IntentPhase::Granted);
    assert_eq!(rec.agent_uid, "agent-a");
    assert_eq!(rec.boot_id, "boot-1");
}

#[test]
fn a_source_that_cannot_be_seen_is_named() {
    let e = SourceGuard::observe("/f", Err("gone".into())).unwrap_err();
    assert_eq!(e.message(), "commit ritual, stat source on /f: gone");
    let stat = FileStat { size_bytes: 3, modified_s: None, inode: None };
    let g = SourceGuard::observe("/f", Ok(stat)).unwrap();
    assert_eq!(g, SourceGuard { size_bytes: 3, mtime_unix: 0, inode: None });
}

/// Crash between moving the original aside and recording that it moved: it is
/// in the trash, so it comes back without anyone being called.
#[test]
fn crash_matrix_granted_but_already_retired_restores_the_original() {
    let f = fixture();
    let req = f.request("a.mkv");
    f.rename(&req.final_path, &req.trash_path).unwrap();
    let rec = f.crashed_at(&req, IntentPhase::Granted);

    let r = f.recover_one(&rec).unwrap();
    assert_eq!(
        r,
        Resolution::SourceRestored {
            reason: "interrupted between retiring the original and recording it".into()
        }
    );
    assert_eq!(f.read(&req.final_path).unwrap(), ORIGINAL);
    assert!(!f.is_there(&req.trash_path));
    assert!(!f.is_there(&req.temp_path));
    assert_never_neither(&f, &req, &r);
}

#[test]
fn a_restore_that_fails_names_its_window() {
    let f = fixture();
    let req = f.request("a.mkv");
    for (phase, step) in [
        (IntentPhase::Granted, "restore original moved but not recorded"),
        (IntentPhase::Retired, "restore retired original"),
        (IntentPhase::Installed, "restore after a vanished install"),
    ] {
        let rec = f.crashed_at(&req, phase);
        let e = restore_failed(&rec, "busy".into());
        assert_eq!(e.message(), format!("commit ritual, {step} on {}: busy", req.trash_path));
    }
}
