use std::collections::BTreeMap;

use transcodarr::error::AgentError;
use transcodarr::journal::{IntentJournal, IntentPhase, IntentRecord, Removal};
use transcodarr::paths::{extension_of, parent_of};
use transcodarr::workarea::{Adoption, WorkArea, adopt, adoption_target};

const ROOT: &str = "/d";

/// Records on a shelf of files, by path.
#[derive(Default)]
struct Shelf {
    files: BTreeMap<String, IntentRecord>,
}

impl Shelf {
    fn record(&mut self, journal: &IntentJournal, rec: &IntentRecord) {
        self.files.insert(journal.path_for(&rec.job_id, rec.attempt), rec.clone());
    }

    fn under(&self, dir: &str) -> Vec<String> {
        let prefix = format!("{dir}/");
        self.files.keys().filter(|p| p.starts_with(&prefix)).cloned().collect()
    }

    /// Open the journal of an area, adopting what per-boot journals hold.
    fn open_journal(&mut self, w: &WorkArea, old: &[&WorkArea]) -> IntentJournal {
        let stable = w.journal_dir();
        for o in old {
            for from in self.under(&format!("{}/journal", o.path())) {
                let taken =
                    adoption_target(&stable, &from).is_some_and(|to| self.files.contains_key(&to));
                if let Adoption::MoveTo(to) = adopt(&stable, &from, taken) {
                    let rec = self.files.remove(&from).unwrap();
                    self.files.insert(to, rec);
                }
            }
        }
        IntentJournal::at(&stable)
    }

    fn outstanding(&self, journal: &IntentJournal) -> Result<Vec<IntentRecord>, AgentError> {
        let found = self
            .under(journal.dir())
            .into_iter()
            .map(|p| {
                let rec = self.files[&p].clone();
                (p, Ok(rec))
            })
            .collect();
        journal.outstanding(found)
    }
}

fn record(job_id: &str) -> IntentRecord {
    IntentRecord {
        job_id: job_id.into(),
        attempt: 0,
        agent_uid: "agent-1".into(),
        boot_id: "boot-a".into(),
        fencing_epoch: 1,
        temp_path: "/w/j.partial.mkv".into(),
        final_path: "/mnt/tv/a.mkv".into(),
        trash_path: "/t/a.mkv".into(),
        expected_content_sig: "sig".into(),
        phase: IntentPhase::Retired,
    }
}

#[test]
fn the_work_area_is_namespaced_by_agent_and_boot() {
    let a = WorkArea::open(ROOT, "agent-1", "boot-a", Ok(())).unwrap();
    let b = WorkArea::open(ROOT, "agent-1", "boot-b", Ok(())).unwrap();
    let c = WorkArea::open(ROOT, "agent-2", "boot-a", Ok(())).unwrap();
    assert_ne!(a.path(), b.path(), "a restart must not reuse its own area");
    assert_ne!(a.path(), c.path(), "two agents must not share an area");
    assert_eq!(a.path(), "/d/agent-1/boot-a");
}

/// A job id carrying a slash or `..` must not escape the work area — it
/// arrives from the server, and a path traversal here writes anywhere the
/// agent can reach.
#[test]
fn identifiers_cannot_escape_the_work_area() {
    let w = WorkArea::at(ROOT, "../../etc", "boot/../..");
    assert!(w.path().starts_with(ROOT), "{:?}", w.path());

    let temp = w.temp_path("../../../etc/passwd", 0, "/mnt/tv/a.mkv");
    assert!(temp.starts_with(ROOT), "{temp:?}");
    assert!(!temp.contains(".."));
}

/// ffmpeg picks its muxer from the extension. A temporary file named
/// `.tmp` would be muxed as whatever ffmpeg guesses.
#[test]
fn the_temporary_path_keeps_the_destination_extension() {
    let w = WorkArea::at(ROOT, "a", "b");
    let t = w.temp_path("job1", 2, "/mnt/tv/show.mkv");
    assert!(t.ends_with(".mkv"));
    assert!(t.contains("job1"));
    assert!(t.contains(".2."));
}

#[test]
fn two_attempts_of_one_job_do_not_share_a_temporary_path() {
    let w = WorkArea::at(ROOT, "a", "b");
    assert_ne!(
        w.temp_path("job1", 0, "/x/a.mkv"),
        w.temp_path("job1", 1, "/x/a.mkv")
    );
}

#[test]
fn a_work_area_on_the_destination_filesystem_is_accepted() {
    let w = WorkArea::at("/d/work", "a", "b");
    w.ensure_same_device("/d/lib/out.mkv", Ok(17), Ok(17)).unwrap();
}

/// `rename(2)` is atomic only within a filesystem. Across one it is EXDEV,
/// and the copy-then-delete fallback has a window where neither the source
/// nor a complete replacement exists.
#[test]
fn a_cross_device_work_area_is_refused() {
    let w = WorkArea::at("/dev/shm/transcodarr-test", "a", "b");
    let err = w.ensure_same_device("/d/out.mkv", Ok(17), Ok(18)).unwrap_err();
    assert!(
        matches!(err, AgentError::CrossDeviceWorkArea { .. }),
        "{err:?}"
    );
    assert_eq!(
        err.message(),
        "work area /dev/shm/transcodarr-test/a/b is not on the same filesystem as /d; \
         an atomic install is impossible -- colocate the work area"
    );
}

/// A device that cannot be told is an error, never a match.
#[test]
fn a_device_that_cannot_be_told_is_not_the_same_device() {
    let w = WorkArea::at(ROOT, "a", "b");
    let unknown = AgentError::DeviceUnknowable { path: "/d".into() };
    let err = w.ensure_same_device("/x/a.mkv", Err(unknown.clone()), Ok(1)).unwrap_err();
    assert_eq!(err, unknown);
    assert_eq!(
        err.message(),
        "cannot determine the filesystem of /d; this agent must be produce-only"
    );
}

#[test]
fn clearing_a_missing_leftover_is_not_an_error() {
    let w = WorkArea::at(ROOT, "a", "b");
    w.clear("job1", 0, "/x/a.mkv", Removal::NotFound).unwrap();
}

/// The reason the journal is not namespaced by `boot_id`. A restart takes a
/// new one, and a journal that moved with it would hand the successor an
/// empty directory — recovery finding nothing, every time, in exactly the
/// case it exists for.
#[test]
fn the_journal_survives_a_restart() {
    let mut d = Shelf::default();
    let before = WorkArea::at(ROOT, "agent-1", "boot-a");
    let journal = d.open_journal(&before, &[]);
    d.record(&journal, &record("job-1"));

    let after = WorkArea::at(ROOT, "agent-1", "boot-b");
    assert_ne!(before.path(), after.path(), "a restart is a new work area");
    assert_eq!(
        before.journal_dir(),
        after.journal_dir(),
        "but not a new journal"
    );

    let journal = d.open_journal(&after, &[]);
    let outstanding = d.outstanding(&journal).unwrap();
    assert_eq!(outstanding.len(), 1, "the successor must see the record");
    assert_eq!(outstanding[0].job_id, "job-1");
}

/// Two installations still keep their journals apart: the record says which
/// `agent_uid` owns the intent, and adopting another installation's would
/// mean acting on a work area that is not ours.
#[test]
fn two_installations_do_not_share_a_journal() {
    let mut d = Shelf::default();
    let a = WorkArea::at(ROOT, "agent-1", "boot-a");
    let b = WorkArea::at(ROOT, "agent-2", "boot-a");
    let ja = d.open_journal(&a, &[]);
    d.record(&ja, &record("job-1"));
    assert_ne!(a.journal_dir(), b.journal_dir());
    let jb = d.open_journal(&b, &[]);
    assert!(d.outstanding(&jb).unwrap().is_empty());
}

/// Records written by the build that kept the journal under the boot
/// directory describe installs that were in flight. A `Retired` one means
/// the original is in the trash and the destination may be empty, so they
/// are adopted rather than orphaned by the path change.
#[test]
fn a_journal_left_by_an_older_build_is_adopted() {
    let mut d = Shelf::default();
    let old = WorkArea::at(ROOT, "agent-1", "boot-old");

    // Exactly where the previous build put it.
    let legacy = IntentJournal::at(&format!("{}/journal", old.path()));
    d.record(&legacy, &record("job-old"));

    let now = WorkArea::at(ROOT, "agent-1", "boot-new");
    let journal = d.open_journal(&now, &[&old]);
    let outstanding = d.outstanding(&journal).unwrap();
    assert_eq!(outstanding.len(), 1, "the old record must not be orphaned");
    assert_eq!(outstanding[0].job_id, "job-old");
    assert!(
        d.under(legacy.dir()).is_empty(),
        "the emptied directory should be gone"
    );
}

/// The current record wins. An older copy of the same job is left where it
/// is rather than overwriting what the live journal says.
#[test]
fn adopting_never_overwrites_a_current_record() {
    let mut d = Shelf::default();
    let w = WorkArea::at(ROOT, "agent-1", "boot-new");

    let mut current = record("job-1");
    current.phase = IntentPhase::Installed;
    let journal = d.open_journal(&w, &[]);
    d.record(&journal, &current);

    let old = WorkArea::at(ROOT, "agent-1", "boot-old");
    let legacy = IntentJournal::at(&format!("{}/journal", old.path()));
    d.record(&legacy, &record("job-1"));

    let journal = d.open_journal(&w, &[&old]);
    let outstanding = d.outstanding(&journal).unwrap();
    assert_eq!(outstanding.len(), 1);
    assert_eq!(
        outstanding[0].phase,
        IntentPhase::Installed,
        "the live record must not be replaced by the stale one"
    );
}

/// No `boot_id` may sanitise to the journal's name, or an agent booting
/// under it would stage output into the directory recording what it was
/// about to do.
#[test]
fn no_boot_id_can_collide_with_the_journal_directory() {
    for boot in ["journal", ".journal", "..journal", "-journal"] {
        let w = WorkArea::at(ROOT, "agent-1", boot);
        assert_ne!(w.path(), w.journal_dir(), "boot_id {boot}");
    }
}

/// A temporary file that survived means the attempt that wrote it did not
/// install it, so it is stale by definition.
#[test]
fn clearing_removes_a_leftover() {
    let w = WorkArea::at(ROOT, "a", "b");
    let p = w.temp_path("job1", 0, "/x/a.mkv");
    assert_eq!(p, "/d/a/b/job1.0.partial.mkv");
    w.clear("job1", 0, "/x/a.mkv", Removal::Removed).unwrap();
    let err = w
        .clear("job1", 0, "/x/a.mkv", Removal::Failed("permission denied".into()))
        .unwrap_err();
    assert_eq!(err.message(), "work area /d/a/b/job1.0.partial.mkv: permission denied");
}

#[test]
fn an_area_that_cannot_be_made_names_its_directory() {
    let e = WorkArea::open(ROOT, "a", "b", Err("read-only".into())).unwrap_err();
    assert_eq!(e.message(), "work area /d/a/b: read-only");
}

#[test]
fn a_temporary_file_keeps_the_extension() {
    let w = WorkArea::at(ROOT, "a", "b");
    for (path, ext) in [("/x/f.mp4", "mp4"), ("/x/f.tar.gz", "gz"), ("/x/f", "mkv"), ("/x/.f", "mkv")] {
        let p = w.temp_path("../../etc/passwd", 3, path);
        assert_eq!(extension_of(&p).as_deref(), Some(ext), "{path}");
        assert_eq!(parent_of(&p).as_deref(), Some(w.path()), "{path}");
    }
}
