use std::collections::BTreeMap;

use transcodarr::capability::Cores;
use transcodarr::client::{
    ClientConfig, ClientError, ConnectClient, GrantReply, ReconnectPolicy, SessionAction,
    SessionEvent, heartbeat, permission, report_commit,
};
use transcodarr::commit::{
    CommitAction, CommitOutcome, CommitProgress, CommitRequest, CommitRitual, CommitRun,
    RecoveryAction, Resolution, SourceGuard,
};
use transcodarr::double::Double;
use transcodarr::error::AgentError;
use transcodarr::executor::{Execution, Executor, ExecutorConfig, Progress};
use transcodarr::handshake::{MIN_SUPPORTED_PROTO, PROTO_VERSION};
use transcodarr::journal::{IntentJournal, IntentPhase, IntentRecord};
use transcodarr::pb;
use transcodarr::probe::{MediaProbe, StreamInfo, StreamKind};
use transcodarr::validate::{SizePolicy, ValidationSpec};
use transcodarr::worker::{Acceptance, JobRun, LocalWorker, RunAction, RunEvent, judge};
use transcodarr::workarea::WorkArea;

fn cores(n: f64) -> Cores {
    Cores {
        amount: Double { bits: n.to_bits() },
        json: serde_json::Value::from(n).to_string(),
        shown: n.to_string(),
    }
}

fn config() -> ClientConfig {
    let mut c = ClientConfig::new(
        "http://127.0.0.1:1".into(),
        "u1".into(),
        "uid-1".into(),
        "0.1.0".into(),
    );
    c.reconnect = ReconnectPolicy { initial_ns: 20_000_000, max_ns: 50_000_000 };
    c
}

fn client() -> ConnectClient {
    ConnectClient::new(config(), "boot-a".into())
}

fn capability() -> pb::Capability {
    pb::Capability {
        platform: "linux".into(),
        effective_cores: cores(4.0),
        classes: vec!["audio".into()],
        ..Default::default()
    }
}

/// A server that answers registrations and remembers what it was told.
#[derive(Default)]
struct FakeServer {
    registrations: Vec<pb::RegisterRequest>,
    stream_metadata: Vec<BTreeMap<String, String>>,
    disown_intents: bool,
    answered_unknown: Vec<Vec<String>>,
}

impl FakeServer {
    fn register(&mut self, req: pb::RegisterRequest) -> pb::RegisterResponse {
        let unknown: Vec<String> = if self.disown_intents {
            req.live_intents.iter().map(|i| i.job_id.clone()).collect()
        } else {
            Vec::new()
        };
        self.registrations.push(req);
        self.answered_unknown.push(unknown.clone());
        pb::RegisterResponse {
            accepted: true,
            reject_reason: String::new(),
            server_proto_version: PROTO_VERSION,
            min_supported_proto: MIN_SUPPORTED_PROTO,
            min_agent_version: String::new(),
            server_version: "fake".into(),
            fencing_epoch: 7,
            unknown_job_ids: unknown,
        }
    }
}

/// Files by path, and the journal's records.
#[derive(Default)]
struct Disk {
    files: BTreeMap<String, Vec<u8>>,
    journal: BTreeMap<String, IntentRecord>,
}

impl Disk {
    fn rename(&mut self, from: &str, to: &str) -> Result<(), String> {
        let bytes = self.files.remove(from).ok_or("not found".to_string())?;
        self.files.insert(to.to_string(), bytes);
        Ok(())
    }

    fn observe(&self, path: &str) -> Option<SourceGuard> {
        self.files.get(path).map(|b| SourceGuard {
            size_bytes: b.len() as u64,
            mtime_unix: 7,
            inode: Some(1),
        })
    }

    fn outstanding(&self, worker: &LocalWorker) -> Vec<IntentRecord> {
        let found = self.journal.iter().map(|(p, r)| (p.clone(), Ok(r.clone()))).collect();
        worker.journal().outstanding(found).unwrap()
    }

    fn record(&mut self, worker: &LocalWorker, rec: &IntentRecord) {
        let path = worker.journal().path_for(&rec.job_id, rec.attempt);
        self.journal.insert(path, rec.clone());
    }

    fn recover(&mut self, worker: &LocalWorker, records: Vec<IntentRecord>) {
        let mut resolved = Vec::new();
        for rec in records {
            let plan = worker.ritual.recover_one(
                &rec,
                self.files.contains_key(&rec.final_path),
                self.files.contains_key(&rec.trash_path),
            );
            for action in plan.actions.clone() {
                match action {
                    RecoveryAction::DiscardStaged => {
                        self.files.remove(&rec.temp_path);
                    }
                    RecoveryAction::RestoreOriginal => {
                        self.rename(&rec.trash_path, &rec.final_path).unwrap();
                    }
                    RecoveryAction::SyncDestination => {}
                }
            }
            let bytes = self.files.get(&rec.final_path).map_or(0, |b| b.len() as u64);
            let r = plan.resolution(&rec, bytes);
            resolved.push((rec, r));
        }
        let (_, keys) = worker.ritual.recover_all(resolved);
        for (job_id, attempt) in keys {
            self.journal.remove(&worker.journal().path_for(&job_id, attempt));
        }
    }

    fn commit(&mut self, worker: &LocalWorker, req: CommitRequest) -> Result<Resolution, AgentError> {
        let mut run: CommitRun = worker.ritual.commit(req, Ok(1), Ok(1))?;
        loop {
            let done = |r: Result<(), String>| match r {
                Ok(()) => CommitOutcome::Done,
                Err(e) => CommitOutcome::Failed(e),
            };
            let outcome = match run.action() {
                CommitAction::Observe(p) => match self.observe(&p) {
                    Some(g) => CommitOutcome::Observed(g),
                    None => CommitOutcome::Failed("not found".into()),
                },
                CommitAction::Record(rec) => {
                    self.record(worker, &rec);
                    CommitOutcome::Done
                }
                CommitAction::Rename { from, to } => done(self.rename(&from, &to)),
                CommitAction::Clear { job_id, attempt } => {
                    self.journal.remove(&worker.journal().path_for(&job_id, attempt));
                    CommitOutcome::Done
                }
                CommitAction::Measure(p) => match self.files.get(&p) {
                    Some(b) => CommitOutcome::Sized(b.len() as u64),
                    None => CommitOutcome::Failed("not found".into()),
                },
                _ => CommitOutcome::Done,
            };
            match run.advance(outcome) {
                CommitProgress::Continue(next) => run = next,
                CommitProgress::Resolved(r) => return Ok(r),
                CommitProgress::Broken(e) => return Err(e),
            }
        }
    }
}

fn local_worker() -> (LocalWorker, WorkArea) {
    let work = WorkArea::at("/d/work", "uid-1", "boot-a");
    let ritual = CommitRitual::new(IntentJournal::at(&work.journal_dir()), work.duplicate());
    let worker = LocalWorker::new(
        Executor::new(ExecutorConfig::default()),
        ritual,
        work.duplicate(),
        capability(),
    );
    (worker, work)
}

/// Run a session up to the open stream.
fn connect(c: &mut ConnectClient, worker: &LocalWorker, disk: &mut Disk, server: &mut FakeServer) {
    let mut action = c.session();
    loop {
        let event = match action {
            SessionAction::Dial => SessionEvent::Dialled,
            SessionAction::Register => {
                let intents = worker.live_intents(Some(disk.outstanding(worker)));
                let req = c.register(worker.capability.clone(), intents);
                SessionEvent::Registered(server.register(req))
            }
            SessionAction::Resolve(ids) => {
                let records = worker.on_unknown_intents(&ids, disk.outstanding(worker));
                disk.recover(worker, records);
                SessionEvent::Resolved
            }
            SessionAction::Recover => {
                let records = disk.outstanding(worker);
                disk.recover(worker, records);
                SessionEvent::Recovered
            }
            SessionAction::Open { agent_id, epoch } => {
                server.stream_metadata.push(BTreeMap::from([
                    (transcodarr::client::AGENT_ID_KEY.to_string(), agent_id),
                    (transcodarr::client::AGENT_EPOCH_KEY.to_string(), epoch),
                ]));
                SessionEvent::Opened
            }
            SessionAction::Listen => return,
            other => panic!("unexpected {other:?}"),
        };
        action = c.advance(event).unwrap();
    }
}

/// The stream carries no identity, so the metadata is the only thing that says
/// who is calling. It must also carry the epoch actually issued.
#[test]
fn the_stream_is_identified_by_metadata() {
    let (worker, _) = local_worker();
    let (mut c, mut fake) = (client(), FakeServer::default());
    connect(&mut c, &worker, &mut Disk::default(), &mut fake);

    let md = fake.stream_metadata[0].clone();
    assert_eq!(md.get("x-agent-id").map(String::as_str), Some("u1"));
    assert_eq!(md.get("x-agent-epoch").map(String::as_str), Some("7"));
}

/// The rule the whole fence rests on: a reconnect must present the *same*
/// `boot_id`, or the server treats each network blip as a new process instance
/// and fences work that is running perfectly well.
#[test]
fn a_reconnect_presents_the_same_boot_id() {
    let (worker, _) = local_worker();
    let (mut c, mut fake, mut disk) = (client(), FakeServer::default(), Disk::default());
    connect(&mut c, &worker, &mut disk, &mut fake);
    assert!(matches!(c.advance(SessionEvent::Ended), Ok(SessionAction::Close)));
    assert!(c.run(10, false).is_some());
    connect(&mut c, &worker, &mut disk, &mut fake);

    let ids: Vec<_> = fake
        .registrations
        .iter()
        .map(|r| r.identity.clone().unwrap())
        .collect();
    assert_eq!(
        ids[0].boot_id, ids[1].boot_id,
        "a reconnect must not mint a new boot_id"
    );
    assert!(!ids[0].boot_id.is_empty());
    assert_eq!(ids[0].agent_uid, ids[1].agent_uid);
    assert_eq!(ids[0].agent_id, "u1");
}

/// The journal goes out with `Register`, and what comes back is acted on before
/// the stream opens — no assignment can arrive while an unaccounted-for install
/// is still on disk.
#[test]
fn the_journal_is_replayed_and_the_answer_acted_on() {
    let (worker, _) = local_worker();
    let mut c = client();
    assert!(matches!(c.session(), SessionAction::Dial));
    assert!(matches!(c.advance(SessionEvent::Dialled), Ok(SessionAction::Register)));

    let rec = IntentRecord {
        job_id: "job-1".into(),
        attempt: 0,
        agent_uid: "uid-1".into(),
        boot_id: "boot-previous".into(),
        fencing_epoch: 7,
        temp_path: "/w/job-1.partial.mkv".into(),
        final_path: "/mnt/tv/a.mkv".into(),
        trash_path: "/t/a.mkv".into(),
        expected_content_sig: "sig".into(),
        phase: IntentPhase::Retired,
    };
    let mut fake = FakeServer { disown_intents: true, ..Default::default() };
    let intents = worker.live_intents(Some(vec![rec]));
    assert_eq!(intents[0].phase, "retired");
    let answer = fake.register(c.register(capability(), intents));

    let replayed = fake.registrations[0].live_intents.clone();
    assert_eq!(replayed.len(), 1, "the journal must reach the server");
    assert_eq!(replayed[0].job_id, "job-1");
    let next = c.advance(SessionEvent::Registered(answer));
    assert_eq!(next, Ok(SessionAction::Resolve(vec!["job-1".to_string()])));
    assert_eq!(c.advance(SessionEvent::Resolved), Ok(SessionAction::Recover));
}

/// The running set is the load-bearing half of a heartbeat: the server revokes
/// anything in it that it does not recognise.
#[test]
fn a_heartbeat_carries_the_running_set() {
    let (mut worker, _) = local_worker();
    worker.hold("job-7");
    let beat = heartbeat(Some(1_722_000_000_000), worker.running_job_ids(), Vec::new(), cores(0.0).amount);
    assert_eq!(beat.running_job_ids, vec!["job-7"]);
    assert!(beat.at_unix_ms > 0);
}

/// A `Revoke` must reach the worker while it is busy.
#[test]
fn a_revoke_reaches_the_worker() {
    let (mut worker, _) = local_worker();
    let (mut c, mut fake) = (client(), FakeServer::default());
    connect(&mut c, &worker, &mut Disk::default(), &mut fake);
    worker.hold("job-9");
    let sent = pb::ServerBody::Revoke(pb::Revoke {
        job_id: "job-9".into(),
        reason: "no record".into(),
    });
    match c.advance(SessionEvent::Message(Some(sent))) {
        Ok(SessionAction::Revoke(v)) => worker.on_revoke(&v.job_id),
        other => panic!("{other:?}"),
    }
    assert!(worker.is_revoked("job-9"));
    assert!(worker.running_job_ids().is_empty());
    worker.finished("job-9");
    assert!(!worker.is_revoked("job-9"));
}

/// A drain is acknowledged with what is still running, not with silence.
#[test]
fn a_drain_is_acknowledged() {
    let (mut worker, _) = local_worker();
    let (mut c, mut fake) = (client(), FakeServer::default());
    connect(&mut c, &worker, &mut Disk::default(), &mut fake);
    worker.hold("job-3");
    let sent = pb::ServerBody::Drain(pb::Drain {
        immediate: false,
        reason: "maintenance".into(),
    });
    let still_running = match c.advance(SessionEvent::Message(Some(sent))) {
        Ok(SessionAction::Drain(_)) => worker.on_drain(),
        other => panic!("{other:?}"),
    };
    assert_eq!(pb::DrainAck { still_running }.still_running, ["job-3"]);
    assert!(worker.is_draining());

    // From then on nothing new is taken.
    match worker.on_assignment(&assignment("/d/lib/b.mkv", "/w/b.mkv")) {
        Acceptance::Refused(r) => {
            assert_eq!(r.exit_code, -1);
            assert_eq!(r.stderr_tail, "the agent is draining");
        }
        Acceptance::Taken => panic!("a draining agent took work"),
    }
}

fn retired(work: &WorkArea, final_path: &str, trash_path: &str) -> IntentRecord {
    IntentRecord {
        job_id: "job-1".into(),
        attempt: 0,
        agent_uid: "uid-1".into(),
        boot_id: "boot-previous".into(),
        fencing_epoch: 6,
        temp_path: work.temp_path("job-1", 0, final_path),
        final_path: final_path.into(),
        trash_path: trash_path.into(),
        expected_content_sig: "sig".into(),
        phase: IntentPhase::Retired,
    }
}

/// The dangerous case.
///
/// The agent crashed between retiring the original and installing the
/// replacement, so the destination is empty and the original is in the trash.
/// The server has no live intent for it. Discarding — the obvious reading of
/// "the server does not know about this" — would lose the file outright; the
/// original has to come back.
#[test]
fn a_retired_intent_the_server_disowns_is_restored() {
    let (worker, work) = local_worker();
    let mut disk = Disk::default();
    // The original, where a crash between the two renames leaves it.
    disk.files.insert("/d/trash/a.mkv".into(), b"the original".to_vec());
    disk.record(&worker, &retired(&work, "/d/lib/a.mkv", "/d/trash/a.mkv"));

    let mut fake = FakeServer { disown_intents: true, ..Default::default() };
    connect(&mut client(), &worker, &mut disk, &mut fake);

    assert_eq!(disk.files["/d/lib/a.mkv"], b"the original");
    assert!(!disk.files.contains_key("/d/trash/a.mkv"), "it was moved back, not copied");
    assert_eq!(
        fake.registrations[0].live_intents.len(),
        1,
        "the record must have been replayed before it was resolved"
    );
    assert!(disk.journal.is_empty());
}

/// The ordinary crash, and the case the unknown intents do **not** cover.
///
/// The server has a live intent for this job, so it names nothing unknown —
/// there is no answer to act on. Recovery still has to run, or a `Retired`
/// record sits on disk with the destination empty while the agent cheerfully
/// takes new work.
#[test]
fn a_crash_the_server_still_knows_about_is_recovered_at_startup() {
    let (worker, work) = local_worker();
    let mut disk = Disk::default();
    disk.files.insert("/d/trash/a.mkv".into(), b"the original".to_vec());
    disk.record(&worker, &retired(&work, "/d/lib/a.mkv", "/d/trash/a.mkv"));

    let mut fake = FakeServer { disown_intents: false, ..Default::default() };
    connect(&mut client(), &worker, &mut disk, &mut fake);

    assert_eq!(disk.files["/d/lib/a.mkv"], b"the original");
    let answered = fake.answered_unknown[0].clone();
    assert!(
        answered.is_empty(),
        "the server must have named nothing, or this proves the other path: {answered:?}"
    );
    let replayed = fake.registrations[0].live_intents.clone();
    assert_eq!(replayed.len(), 1, "the record was still replayed");
}

fn assignment(final_path: &str, temp: &str) -> pb::JobAssignment {
    pb::JobAssignment {
        job_id: "job-1".into(),
        attempt: 0,
        fencing_epoch: 7,
        source_path: final_path.into(),
        final_path: final_path.into(),
        temp_path: temp.into(),
        // A remux: every stream copied. Built server-side, run verbatim.
        argv: ["-v", "error", "-y", "-i", final_path, "-map", "0", "-c", "copy", temp]
            .iter()
            .map(|s| s.to_string())
            .collect(),
        validation_spec_json: "{}".into(),
        expected_content_sig: "sig".into(),
    }
}

fn spec() -> ValidationSpec {
    ValidationSpec {
        source_duration_us: 2_000_000,
        max_shorter_us: 100_000,
        max_longer_us: 2_000_000,
        expected_audio_streams: 1,
        expected_subtitle_streams: 0,
        source_bytes: 12,
        size_policy: SizePolicy::MayGrow,
    }
}

fn probe() -> MediaProbe {
    MediaProbe {
        duration_us: Some(2_000_000),
        streams: vec![
            StreamInfo { index: 0, kind: StreamKind::Video, ..Default::default() },
            StreamInfo { index: 1, kind: StreamKind::Audio, ..Default::default() },
        ],
        ..Default::default()
    }
}

/// Work one assignment through with the server's answer to the commit request.
/// Gives back the report, if there is one, and whether permission was asked.
fn work_through(
    c: &mut ConnectClient,
    worker: &mut LocalWorker,
    disk: &mut Disk,
    a: pb::JobAssignment,
    granted: bool,
) -> (Option<pb::CommitReport>, bool) {
    assert!(matches!(worker.on_assignment(&a), Acceptance::Taken));
    let mut asked = false;
    let argv = a.argv.clone();
    let (mut run, mut action) = JobRun::execute(a);
    loop {
        let event = match action {
            RunAction::Place(destination) => {
                RunEvent::Placed(worker.work_area.ensure_same_device(&destination, Ok(1), Ok(1)))
            }
            RunAction::Observe(path) => RunEvent::Observed(Ok(disk.observe(&path).unwrap())),
            RunAction::Encode { argv: given, output, progress_path } => {
                assert_eq!(given, argv, "the argv is run verbatim");
                assert!(progress_path.ends_with(".progress"));
                disk.files.insert(output, b"the remux".to_vec());
                let x: Execution = Executor::finished(
                    given,
                    Some(0),
                    None,
                    "",
                    Some(9),
                    5,
                    Progress::default(),
                );
                RunEvent::Encoded(Ok(x))
            }
            RunAction::Judge { exit_code, .. } => {
                let report = judge(
                    &worker.executor,
                    Ok(spec()),
                    Some(2_000_000),
                    Some(probe()),
                    exit_code,
                    Some(9),
                );
                RunEvent::Judged { report, report_json: "{}".into() }
            }
            RunAction::Report(r) => {
                assert_eq!(r.exit_code, 0);
                RunEvent::Reported { revoked: worker.is_revoked("job-1") }
            }
            RunAction::Ask => {
                asked = true;
                let req = c.request_commit(&run.assignment.job_id, 0);
                assert_eq!(req.fencing_epoch, 7);
                let grant = pb::CommitGrant {
                    job_id: "job-1".into(),
                    granted,
                    reason: "not now".into(),
                    trash_path: "/d/trash/a.mkv".into(),
                };
                let message = SessionEvent::Message(Some(pb::ServerBody::CommitGrant(grant)));
                let reply = match c.advance(message) {
                    Ok(SessionAction::Deliver(g)) => GrantReply::Answered(g),
                    other => panic!("{other:?}"),
                };
                RunEvent::Answered { grant: permission(reply), epoch: c.fencing_epoch() }
            }
            RunAction::Commit(req) => RunEvent::Committed(disk.commit(worker, req)),
            RunAction::Conclude { resolution, detail } => {
                worker.finished("job-1");
                let report =
                    report_commit("job-1", 0, c.fencing_epoch(), &resolution, &detail);
                return (Some(report), asked);
            }
            RunAction::Discard { staged, .. } => {
                disk.files.remove(&staged);
                worker.finished("job-1");
                return (None, asked);
            }
            other => panic!("{other:?}"),
        };
        action = run.advance(event);
    }
}

/// One assignment, all the way through: encode, validate, ask, install, report.
#[test]
fn an_assignment_runs_end_to_end() {
    let (mut worker, work) = local_worker();
    let mut disk = Disk::default();
    let original = b"the original".to_vec();
    disk.files.insert("/d/lib/a.mkv".into(), original.clone());
    let temp = work.temp_path("job-1", 0, "/d/lib/a.mkv");
    let (mut c, mut fake) = (client(), FakeServer::default());
    connect(&mut c, &worker, &mut disk, &mut fake);

    let a = assignment("/d/lib/a.mkv", &temp);
    let (report, _) = work_through(&mut c, &mut worker, &mut disk, a, true);
    let report = report.expect("a report");
    assert_eq!(report.job_id, "job-1");
    assert_eq!(report.resolution, "installed", "{}", report.detail);
    assert_eq!(report.detail, "installed, 9 bytes");
    assert_eq!(
        report.fencing_epoch, 7,
        "the report must carry the current epoch"
    );

    // The replacement is in place, the original is retained, and the staged
    // file is gone.
    assert_ne!(
        disk.files["/d/lib/a.mkv"],
        original,
        "the destination should hold the remux, not the original"
    );
    assert_eq!(disk.files["/d/trash/a.mkv"], original);
    assert!(!disk.files.contains_key(&temp), "the staged file should have been renamed");
}

/// A refusal is not permission. When the server says no, the source must be
/// exactly where it was — this is the case where getting it wrong destroys a
/// file the server had good reason to protect.
#[test]
fn a_refused_commit_leaves_the_source_intact() {
    let (mut worker, work) = local_worker();
    let mut disk = Disk::default();
    let original = b"the original".to_vec();
    disk.files.insert("/d/lib/a.mkv".into(), original.clone());
    let temp = work.temp_path("job-1", 0, "/d/lib/a.mkv");
    let (mut c, mut fake) = (client(), FakeServer::default());
    connect(&mut c, &worker, &mut disk, &mut fake);

    let a = assignment("/d/lib/a.mkv", &temp);
    let (report, asked) = work_through(&mut c, &mut worker, &mut disk, a, false);
    assert!(asked, "the refusal was exercised");
    assert!(!disk.files.contains_key(&temp), "the staged file is discarded");
    assert_eq!(
        disk.files["/d/lib/a.mkv"],
        original,
        "a refusal must leave the source exactly as it was"
    );
    assert!(report.is_none(), "nothing was committed to report");
}

/// A grant nobody is waiting for is not acted on.
#[test]
fn an_unmatched_grant_is_ignored() {
    let (worker, _) = local_worker();
    let (mut c, mut fake) = (client(), FakeServer::default());
    connect(&mut c, &worker, &mut Disk::default(), &mut fake);
    let grant = pb::CommitGrant { job_id: "job-5".into(), granted: true, ..Default::default() };
    let message = || SessionEvent::Message(Some(pb::ServerBody::CommitGrant(grant.clone())));
    assert_eq!(c.advance(message()), Ok(SessionAction::Unmatched("job-5".into())));

    c.request_commit("job-5", 0);
    c.forget("job-5");
    assert_eq!(c.advance(message()), Ok(SessionAction::Unmatched("job-5".into())));

    c.request_commit("job-5", 0);
    assert_eq!(c.advance(message()), Ok(SessionAction::Deliver(grant.clone())));
    assert_eq!(c.advance(message()), Ok(SessionAction::Unmatched("job-5".into())));
}

/// Startup recovery runs once per process: a reconnect in the middle of an
/// install must not undo it.
#[test]
fn a_reconnect_does_not_recover_again() {
    let (worker, work) = local_worker();
    let mut disk = Disk::default();
    let (mut c, mut fake) = (client(), FakeServer::default());
    connect(&mut c, &worker, &mut disk, &mut fake);

    disk.files.insert("/d/trash/a.mkv".into(), b"the original".to_vec());
    disk.record(&worker, &retired(&work, "/d/lib/a.mkv", "/d/trash/a.mkv"));
    assert!(matches!(c.advance(SessionEvent::Ended), Ok(SessionAction::Close)));
    connect(&mut c, &worker, &mut disk, &mut fake);
    assert!(disk.files.contains_key("/d/trash/a.mkv"));
}

/// Each way a session fails, and what it says.
#[test]
fn a_failed_session_says_why() {
    let mut c = client();
    c.session();
    let e = c.advance(SessionEvent::DialFailed("refused".into())).unwrap_err();
    assert_eq!(e.message(), "dialling http://127.0.0.1:1: refused");

    c.session();
    c.advance(SessionEvent::Dialled).unwrap();
    let e = c.advance(SessionEvent::RegisterFailed("timed out".into())).unwrap_err();
    assert_eq!(e.message(), "register: timed out");

    c.session();
    c.advance(SessionEvent::Dialled).unwrap();
    let no = pb::RegisterResponse { reject_reason: "too old".into(), ..Default::default() };
    let e = c.advance(SessionEvent::Registered(no)).unwrap_err();
    assert_eq!(e, ClientError::Rejected { reason: "too old".into() });
    assert_eq!(c.fencing_epoch(), 0);

    // A name that cannot travel as metadata is refused, not mangled.
    let mut named = config();
    named.agent_id = "u\n1".into();
    let mut c = ConnectClient::new(named, "boot-a".into());
    c.session();
    c.advance(SessionEvent::Dialled).unwrap();
    let yes = pb::RegisterResponse { accepted: true, fencing_epoch: 7, ..Default::default() };
    assert_eq!(c.advance(SessionEvent::Registered(yes)), Ok(SessionAction::Recover));
    let e = c.advance(SessionEvent::Recovered).unwrap_err();
    assert!(matches!(e, ClientError::BadIdentity { .. }), "{e:?}");
}

/// Only a session that lasted resets the backoff; a stopped client waits for
/// nothing.
#[test]
fn a_short_session_does_not_reset_the_backoff() {
    let mut c = client();
    c.run(29_999, false);
    c.run(29_999, false);
    assert_eq!(c.attempt, 2);
    c.run(30_000, false);
    assert_eq!(c.attempt, 0);
    assert_eq!(c.run(0, true), None);
}

/// No grant, a withheld one and one for nobody all mean no permission.
#[test]
fn only_a_grant_is_permission() {
    let grant = pb::CommitGrant { job_id: "j".into(), granted: true, ..Default::default() };
    assert_eq!(permission(GrantReply::Answered(grant.clone())), Some(grant.clone()));
    let refused = pb::CommitGrant { granted: false, ..grant };
    assert_eq!(permission(GrantReply::Answered(refused)), None);
}
