use transcodarr::commit::{Resolution, SourceGuard};
use transcodarr::error::AgentError;
use transcodarr::executor::{Executor, ExecutorConfig, Progress};
use transcodarr::journal::{IntentPhase, IntentRecord};
use transcodarr::pb;
use transcodarr::probe::{MediaProbe, StreamInfo, StreamKind};
use transcodarr::validate::{SizePolicy, ValidationGate, ValidationReport, ValidationSpec};
use transcodarr::worker::{
    JobRun, RunAction, RunEvent, RunStage, detail_of, encode_task_failed, failed_result, judge,
    progress_message, ritual_task_failed, wire_intent,
};

fn assignment() -> pb::JobAssignment {
    pb::JobAssignment {
        job_id: "job-1".into(),
        attempt: 2,
        fencing_epoch: 7,
        argv: vec!["-i".into(), "/mnt/a.mkv".into()],
        source_path: "/mnt/a.mkv".into(),
        temp_path: "/w/job-1.2.partial.mkv".into(),
        final_path: "/mnt/a.mkv".into(),
        expected_content_sig: "sig".into(),
        validation_spec_json: String::new(),
    }
}

fn guard() -> SourceGuard {
    SourceGuard { size_bytes: 5, mtime_unix: 6, inode: Some(7) }
}

fn report(passed: bool) -> RunEvent {
    let report = ValidationReport {
        passed,
        failed_gate: None,
        detail: String::new(),
        gates_run: Vec::new(),
    };
    RunEvent::Judged { report, report_json: "{\"passed\":true}".into() }
}

fn encoded() -> JobRun {
    let (mut run, _) = JobRun::execute(assignment());
    run.advance(RunEvent::Placed(Ok(())));
    match run.advance(RunEvent::Observed(Ok(guard()))) {
        RunAction::Encode { argv, output, progress_path } => {
            assert_eq!(argv, ["-i", "/mnt/a.mkv"]);
            assert_eq!(output, "/w/job-1.2.partial.mkv");
            assert_eq!(progress_path, "/w/job-1.2.partial.progress");
        }
        other => panic!("{other:?}"),
    }
    let x = Executor::finished(vec![], Some(0), None, "tail", Some(9), 5, Progress::default());
    assert!(matches!(
        run.advance(RunEvent::Encoded(Ok(x))),
        RunAction::Judge { exit_code: 0, .. }
    ));
    run
}

/// Nothing that produced no output carries the exit code of a success.
#[test]
fn a_failure_never_reports_success() {
    let why = || AgentError::DeviceUnknowable { path: "/w".into() };
    let (mut run, _) = JobRun::execute(assignment());
    match run.advance(RunEvent::Placed(Err(why()))) {
        RunAction::Refuse(r) => {
            assert_eq!((r.exit_code, r.attempt), (-1, 2));
            assert_eq!(r.stderr_tail, why().message());
        }
        other => panic!("{other:?}"),
    }
    assert_eq!(run.stage, RunStage::Over);

    let (mut run, _) = JobRun::execute(assignment());
    run.advance(RunEvent::Placed(Ok(())));
    run.advance(RunEvent::Observed(Ok(guard())));
    match run.advance(RunEvent::Encoded(Err(why()))) {
        RunAction::Discard { result: Some(r), .. } => assert_eq!(r.exit_code, -1),
        other => panic!("{other:?}"),
    }
    let r = failed_result("j", -4, "why");
    assert_eq!((r.exit_code, r.attempt, r.output_bytes), (-1, 0, 0));
}

/// An install needs a verdict and permission.
#[test]
fn an_output_that_fails_or_is_revoked_is_never_asked_for() {
    let mut run = encoded();
    match run.advance(report(false)) {
        RunAction::Report(r) => assert_eq!(r.validation_json, "{\"passed\":true}"),
        other => panic!("{other:?}"),
    }
    assert!(matches!(
        run.advance(RunEvent::Reported { revoked: false }),
        RunAction::Discard { result: None, .. }
    ));

    let mut run = encoded();
    run.advance(report(true));
    assert!(matches!(
        run.advance(RunEvent::Reported { revoked: true }),
        RunAction::Discard { result: None, .. }
    ));

    let mut run = encoded();
    run.advance(report(true));
    assert!(matches!(run.advance(RunEvent::Reported { revoked: false }), RunAction::Ask));
    assert!(matches!(
        run.advance(RunEvent::Answered { grant: None, epoch: 7 }),
        RunAction::Discard { result: None, .. }
    ));
}

/// The ritual runs under the epoch held when permission came, and reports what
/// became of the file.
#[test]
fn the_ritual_is_asked_for_under_the_current_epoch() {
    let mut run = encoded();
    run.advance(report(true));
    run.advance(RunEvent::Reported { revoked: false });
    let grant = pb::CommitGrant {
        job_id: "job-1".into(),
        granted: true,
        reason: String::new(),
        trash_path: "/t/a.mkv".into(),
    };
    match run.advance(RunEvent::Answered { grant: Some(grant), epoch: 8 }) {
        RunAction::Commit(req) => {
            assert_eq!(req.fencing_epoch, 8);
            assert_eq!(req.attempt, 2);
            assert_eq!(req.trash_path, "/t/a.mkv");
            assert_eq!(req.source_guard, guard());
        }
        other => panic!("{other:?}"),
    }
    match run.advance(RunEvent::Committed(Err(ritual_task_failed("panicked")))) {
        RunAction::Conclude { resolution, detail } => {
            assert_eq!(resolution, "needs_operator");
            assert_eq!(detail, ritual_task_failed("panicked").message());
        }
        other => panic!("{other:?}"),
    }
    assert!(matches!(run.advance(RunEvent::Reported { revoked: false }), RunAction::Nothing));
}

/// An event out of turn ends the assignment rather than skipping a step.
#[test]
fn an_event_out_of_turn_ends_the_assignment() {
    let (mut run, _) = JobRun::execute(assignment());
    let out_of_turn = RunEvent::Answered { grant: None, epoch: 1 };
    assert!(matches!(run.advance(out_of_turn), RunAction::Nothing));
    assert_eq!(run.stage, RunStage::Over);
}

fn spec() -> ValidationSpec {
    ValidationSpec {
        source_duration_us: 1_422_016_000,
        max_shorter_us: 5_000_000,
        max_longer_us: 2_000_000,
        expected_audio_streams: 0,
        expected_subtitle_streams: 0,
        source_bytes: 100,
        size_policy: SizePolicy::MayGrow,
    }
}

/// The source is measured the way the output is, and a spec that cannot be
/// read passes nothing.
#[test]
fn an_output_is_judged_against_a_measured_source() {
    let ex = Executor::new(ExecutorConfig::default());
    let probe = |us| MediaProbe {
        duration_us: Some(us),
        streams: vec![StreamInfo { kind: StreamKind::Video, ..Default::default() }],
        ..Default::default()
    };
    let r = judge(&ex, Ok(spec()), Some(1_400_000_000), Some(probe(1_400_000_000)), 0, Some(9));
    assert!(r.passed, "{r:?}");
    let r = judge(&ex, Ok(spec()), None, Some(probe(1_400_000_000)), 0, Some(9));
    assert_eq!(r.failed_gate, Some(ValidationGate::Duration));
    let r = judge(&ex, Err("no such field".into()), None, Some(probe(1)), 0, Some(9));
    assert!(!r.passed && r.gates_run.is_empty());
    assert_eq!(r.detail, "the validation spec could not be read: no such field");
}

#[test]
fn resolutions_and_records_are_put_on_the_wire() {
    let installed = Resolution::Installed { output_bytes: 12, trash_path: "/t".into() };
    assert_eq!(detail_of(&installed), "installed, 12 bytes");
    assert_eq!(detail_of(&Resolution::SourceIntact { reason: "r".into() }), "r");
    assert_eq!(detail_of(&Resolution::SourceRestored { reason: "s".into() }), "s");
    assert_eq!(detail_of(&Resolution::NeedsOperator { detail: "d".into() }), "d");

    let rec = IntentRecord {
        job_id: "j".into(),
        attempt: -1,
        agent_uid: "u".into(),
        boot_id: "b".into(),
        fencing_epoch: -5,
        temp_path: "/w".into(),
        final_path: "/f".into(),
        trash_path: "/t".into(),
        expected_content_sig: "s".into(),
        phase: IntentPhase::Installed,
    };
    let w = wire_intent(&rec);
    assert_eq!((w.attempt, w.fencing_epoch), (0, 0));
    assert_eq!(w.phase, "installed");

    let m = progress_message("j", &Progress { frames: 3, ..Progress::default() });
    assert_eq!((m.frames, m.speed.as_str()), (3, ""));
    assert_eq!(
        encode_task_failed("j", "cancelled").message(),
        "running encode task for j: cancelled"
    );
}
