//! The work itself: an assignment in, an installed file or a reason out.
//!
//! The agent does not compose the command: an assignment's argv is run as it
//! stands, and its output is judged against the spec that came with it.
//!
//! The order is the safety argument. Encode into the work area, validate, ask
//! permission, and only then run the ritual, which is the only step that
//! touches the destination. A failure before it leaves the library as it was.
use vstd::prelude::*;

use crate::client;
use crate::client::{attempt_on_wire, epoch_on_wire};
use crate::commit::{CommitRequest, CommitRitual, Resolution, SourceGuard};
use crate::error::AgentError;
use crate::executor::{Execution, Executor, Progress};
use crate::journal::{IntentJournal, IntentRecord};
use crate::names::NameSet;
use crate::paths;
use crate::pb;
use crate::probe::MediaProbe;
use crate::text;
use crate::validate;
use crate::validate::{ValidationReport, ValidationSpec};
use crate::workarea::WorkArea;

verus! {

// ---------------------------------------------------------------- messages --

/// A result for a job that never produced an output.
pub open spec fn is_failed_result(r: pb::JobResult, job_id: Seq<char>, attempt: u32, detail: Seq<char>) -> bool {
    &&& r.job_id@ == job_id
    &&& r.attempt == attempt
    &&& r.exit_code == -1
    &&& r.signal == 0
    &&& r.stderr_tail@ == detail
    &&& r.validation_json@.len() == 0
    &&& r.output_bytes == 0
}

/// A result for a job that never produced an output. Its exit code is not zero,
/// which is what a successful encode exits with.
pub fn failed_result(job_id: &str, attempt: i64, detail: &str) -> (r: pb::JobResult)
    ensures
        is_failed_result(r, job_id@, client::wire_attempt(attempt), detail@),
{
    pb::JobResult {
        job_id: job_id.to_owned(),
        attempt: attempt_on_wire(attempt),
        exit_code: -1,
        signal: 0,
        stderr_tail: detail.to_owned(),
        validation_json: String::new(),
        output_bytes: 0,
    }
}

/// One journal record, in the wire's shape.
pub open spec fn is_wire_intent(w: pb::LiveIntent, rec: IntentRecord) -> bool {
    &&& w.job_id == rec.job_id
    &&& w.attempt == client::wire_attempt(rec.attempt)
    &&& w.fencing_epoch == client::wire_epoch(rec.fencing_epoch)
    &&& w.phase@ == text::ascii_lower(rec.phase.spelling())
    &&& w.temp_path == rec.temp_path
    &&& w.final_path == rec.final_path
    &&& w.trash_path == rec.trash_path
}

/// One journal record, in the wire's shape: the phase is spelled small there.
pub fn wire_intent(record: &IntentRecord) -> (r: pb::LiveIntent)
    ensures
        is_wire_intent(r, *record),
{
    pb::LiveIntent {
        job_id: record.job_id.clone(),
        attempt: attempt_on_wire(record.attempt),
        fencing_epoch: epoch_on_wire(record.fencing_epoch),
        phase: text::to_ascii_lower(record.phase.as_str()),
        temp_path: record.temp_path.clone(),
        final_path: record.final_path.clone(),
        trash_path: record.trash_path.clone(),
    }
}

/// The operator-facing half of a resolution.
pub open spec fn resolution_detail(r: Resolution) -> Seq<char> {
    match r {
        Resolution::Installed { output_bytes, .. } => "installed, "@ + text::dec(
            output_bytes as nat,
        ) + " bytes"@,
        Resolution::SourceIntact { reason } => reason@,
        Resolution::SourceRestored { reason } => reason@,
        Resolution::NeedsOperator { detail } => detail@,
    }
}

/// The operator-facing half of a resolution.
pub fn detail_of(resolution: &Resolution) -> (r: String)
    ensures
        r@ == resolution_detail(*resolution),
{
    match resolution {
        Resolution::Installed { output_bytes, .. } => {
            let mut s = "installed, ".to_owned();
            text::push_u64(&mut s, *output_bytes);
            s.append(" bytes");
            s
        },
        Resolution::SourceIntact { reason } => reason.clone(),
        Resolution::SourceRestored { reason } => reason.clone(),
        Resolution::NeedsOperator { detail } => detail.clone(),
    }
}

/// A progress report, in the wire's shape.
pub fn progress_message(job_id: &str, p: &Progress) -> (r: pb::JobProgress)
    ensures
        r.job_id@ == job_id@,
        r.out_time_us == p.out_time_us,
        r.frames == p.frames,
        r.speed@ == (match p.speed {
            Some(s) => s@,
            None => Seq::empty(),
        }),
        r.total_size == p.total_size,
{
    pb::JobProgress {
        job_id: job_id.to_owned(),
        out_time_us: p.out_time_us,
        frames: p.frames,
        speed: match &p.speed {
            Some(s) => s.clone(),
            None => String::new(),
        },
        total_size: p.total_size,
    }
}

/// How an encode ended, in the wire's shape. `report_json` is the verdict on
/// its output.
pub fn result_message(a: &pb::JobAssignment, x: &Execution, report_json: String) -> (r: pb::JobResult)
    ensures
        r.job_id == a.job_id,
        r.attempt == a.attempt,
        r.exit_code == x.exit_code,
        r.signal == (match x.signal {
            Some(s) => s,
            None => 0i32,
        }),
        r.stderr_tail == x.stderr_tail,
        r.validation_json == report_json,
        r.output_bytes == x.output_bytes,
{
    pb::JobResult {
        job_id: a.job_id.clone(),
        attempt: a.attempt,
        exit_code: x.exit_code,
        signal: match x.signal {
            Some(s) => s,
            None => 0,
        },
        stderr_tail: x.stderr_tail.clone(),
        validation_json: report_json,
        output_bytes: x.output_bytes,
    }
}

/// The error of an encode whose task itself broke down.
pub fn encode_task_failed(job_id: &str, why: &str) -> (r: AgentError)
    ensures
        r matches AgentError::Execute { program, source } && program@ == "encode task for "@ + job_id@
            && source@ == why@,
{
    AgentError::Execute { program: text::cat2("encode task for ", job_id), source: why.to_owned() }
}

/// The error of a ritual whose task itself broke down.
pub fn ritual_task_failed(why: &str) -> (r: AgentError)
    ensures
        r matches AgentError::Commit { step, path, source } && step@ == "run the ritual"@
            && path@.len() == 0 && source@ == why@,
{
    AgentError::Commit { step: "run the ritual", path: String::new(), source: why.to_owned() }
}

// --------------------------------------------------------------- judgement --

/// A spec with its source measured the way the output is. The spec's own
/// duration came from a container header, which is not the same quantity; it
/// stays where nothing could be measured, which can reject a good output but
/// never accept a truncated one.
pub open spec fn remeasured(spec: ValidationSpec, source_last_packet_us: Option<u64>) -> ValidationSpec {
    match source_last_packet_us {
        Some(us) => ValidationSpec { source_duration_us: us, ..spec },
        None => spec,
    }
}

/// Judge an output against the spec the server sent. A spec that could not be
/// read fails the job. It is not defaulted: an empty spec passes every gate.
pub fn judge(
    executor: &Executor,
    spec: Result<ValidationSpec, String>,
    source_last_packet_us: Option<u64>,
    probed: Option<MediaProbe>,
    exit_code: i32,
    output_bytes: Option<u64>,
) -> (r: ValidationReport)
    ensures
        spec matches Err(e) ==> {
            &&& !r.passed
            &&& r.failed_gate is None
            &&& r.detail@ == "the validation spec could not be read: "@ + e@
            &&& r.gates_run@.len() == 0
        },
        spec matches Ok(s) ==> match probed {
            Some(p) => validate::reports(
                r,
                validate::judged(
                    remeasured(s, source_last_packet_us),
                    p,
                    exit_code,
                    match output_bytes {
                        Some(n) => n,
                        None => 0,
                    },
                ),
            ),
            None => if exit_code != 0 {
                &&& !r.passed
                &&& r.failed_gate == Some(validate::ValidationGate::ExitCode)
                &&& r.detail@ == "ffmpeg exited "@ + text::dec_int(exit_code as int)
                &&& r.gates_run@ == validate::ValidationGate::spec_order().take(1)
            } else {
                &&& !r.passed
                &&& r.failed_gate == Some(validate::ValidationGate::Probe)
                &&& r.detail@ == "output has no readable duration"@
                &&& r.gates_run@ == validate::ValidationGate::spec_order().take(2)
            },
        },
{
    match spec {
        Err(e) => ValidationReport {
            passed: false,
            failed_gate: None,
            detail: text::cat2("the validation spec could not be read: ", e.as_str()),
            gates_run: Vec::new(),
        },
        Ok(s) => {
            let mut s = s;
            if let Some(us) = source_last_packet_us {
                s.source_duration_us = us;
            }
            executor.validate(&s, probed, exit_code, output_bytes)
        },
    }
}

// ----------------------------------------------------------- one assignment --

/// Where an assignment stands.
#[derive(Debug, Clone, Copy, PartialEq, Eq, Structural)]
pub enum RunStage {
    /// Is the work area on the destination's device?
    Placing,
    /// What does the source look like?
    Observing,
    /// The encoder is running.
    Encoding,
    /// Its output is being judged.
    Judging,
    /// The result is on its way to the server; the output passed or not.
    Reporting {
        /// Whether the output passed.
        passed: bool,
    },
    /// Permission has been asked for.
    Asking,
    /// The ritual is running.
    Committing,
    /// Nothing more is to be done.
    Over,
}

/// What happened to an assignment.
#[derive(Debug)]
pub enum RunEvent {
    /// Whether the install can be atomic.
    Placed(Result<(), AgentError>),
    /// What the source looks like, before the encode.
    Observed(Result<SourceGuard, AgentError>),
    /// How the encode ended.
    Encoded(Result<Execution, AgentError>),
    /// The verdict on the output, and its document.
    Judged {
        /// The verdict.
        report: ValidationReport,
        /// Its document.
        report_json: String,
    },
    /// The result was sent; whether the job has been revoked meanwhile.
    Reported {
        /// Whether the job has been revoked.
        revoked: bool,
    },
    /// What permission came, and the epoch the link holds now.
    Answered {
        /// The grant, if there is one.
        grant: Option<pb::CommitGrant>,
        /// The epoch held now: a registration since the assignment moves it.
        epoch: i64,
    },
    /// How the ritual ended.
    Committed(Result<Resolution, AgentError>),
}

/// What to do next for an assignment.
#[derive(Debug)]
pub enum RunAction {
    /// Find out the devices of the work area and of this destination.
    Place(String),
    /// Observe this path, where the original is.
    Observe(String),
    /// Run this argv, with its progress in this file.
    Encode {
        /// The argv, as it was assigned.
        argv: Vec<String>,
        /// Where it writes.
        output: String,
        /// The progress file.
        progress_path: String,
    },
    /// Judge the staged output, of an encode that exited so.
    Judge {
        /// The staged output.
        output: String,
        /// The source it was encoded from.
        source: String,
        /// How the encoder exited.
        exit_code: i32,
    },
    /// Send this result.
    Report(pb::JobResult),
    /// Send this result. The assignment is over.
    Refuse(pb::JobResult),
    /// Remove the staged output, and send the result if there is one. The
    /// assignment is over.
    Discard {
        /// The staged output.
        staged: String,
        /// The result.
        result: Option<pb::JobResult>,
    },
    /// Ask permission to install.
    Ask,
    /// Run the ritual.
    Commit(CommitRequest),
    /// Report how the install ended. The assignment is over.
    Conclude {
        /// The resolution, in the ledger's vocabulary.
        resolution: String,
        /// The operator-facing half of it.
        detail: String,
    },
    /// Nothing.
    Nothing,
}

/// One assignment being worked on.
#[derive(Debug)]
pub struct JobRun {
    /// What was assigned.
    pub assignment: pb::JobAssignment,
    /// Where it stands.
    pub stage: RunStage,
    /// What the source looked like before the encode.
    pub guard: Option<SourceGuard>,
    /// How the encode ended.
    pub execution: Option<Execution>,
}

/// The request an assignment makes of the ritual.
pub open spec fn is_request(
    req: CommitRequest,
    a: pb::JobAssignment,
    guard: SourceGuard,
    trash_path: Seq<char>,
    epoch: i64,
) -> bool {
    &&& req.job_id == a.job_id
    &&& req.attempt == a.attempt
    &&& req.fencing_epoch == epoch
    &&& req.temp_path == a.temp_path
    &&& req.final_path == a.final_path
    &&& req.trash_path@ == trash_path
    &&& req.expected_content_sig == a.expected_content_sig
    &&& req.source_guard == guard
}

/// An assignment that ends with a failed result for a reason.
pub open spec fn failed_for(r: pb::JobResult, a: pb::JobAssignment, e: AgentError) -> bool {
    is_failed_result(r, a.job_id@, a.attempt, e.spec_message())
}

/// How an event moves an assignment.
pub open spec fn works(before: JobRun, event: RunEvent, after: JobRun, action: RunAction) -> bool {
    let a = before.assignment;
    let kept = after.guard == before.guard && after.execution == before.execution;
    match (before.stage, event) {
        (RunStage::Placing, RunEvent::Placed(Ok(_))) => kept && after.stage is Observing
            && action == RunAction::Observe(a.final_path),
        (RunStage::Placing, RunEvent::Placed(Err(e))) => kept && after.stage is Over && (
        action matches RunAction::Refuse(r) && failed_for(r, a, e)),
        (RunStage::Observing, RunEvent::Observed(Ok(g))) => {
            &&& after.guard == Some(g)
            &&& after.execution == before.execution
            &&& after.stage is Encoding
            &&& action matches RunAction::Encode { argv, output, progress_path } && text::texts(argv@)
                == text::texts(a.argv@) && output == a.temp_path && progress_path@ == paths::with_extension(
                a.temp_path@,
                "progress"@,
            )
        },
        (RunStage::Observing, RunEvent::Observed(Err(e))) => kept && after.stage is Over && (
        action matches RunAction::Refuse(r) && failed_for(r, a, e)),
        (RunStage::Encoding, RunEvent::Encoded(Ok(x))) => {
            &&& after.guard == before.guard
            &&& after.execution == Some(x)
            &&& after.stage is Judging
            &&& action == (RunAction::Judge {
                output: a.temp_path,
                source: a.source_path,
                exit_code: x.exit_code,
            })
        },
        (RunStage::Encoding, RunEvent::Encoded(Err(e))) => kept && after.stage is Over && (
        action matches RunAction::Discard { staged, result: Some(r) } && staged == a.temp_path
            && failed_for(r, a, e)),
        (RunStage::Judging, RunEvent::Judged { report, report_json }) => match before.execution {
            Some(x) => kept && after.stage == (RunStage::Reporting { passed: report.passed }) && (
            action matches RunAction::Report(r) && r.job_id == a.job_id && r.attempt == a.attempt
                && r.exit_code == x.exit_code && r.signal == (match x.signal {
                Some(s) => s,
                None => 0i32,
            }) && r.stderr_tail == x.stderr_tail && r.validation_json == report_json
                && r.output_bytes == x.output_bytes),
            None => kept && after.stage is Over && action is Nothing,
        },
        (RunStage::Reporting { passed }, RunEvent::Reported { revoked }) => if passed && !revoked {
            kept && after.stage is Asking && action is Ask
        } else {
            kept && after.stage is Over && action == (RunAction::Discard {
                staged: a.temp_path,
                result: None,
            })
        },
        (RunStage::Asking, RunEvent::Answered { grant, epoch }) => match (grant, before.guard) {
            (Some(g), Some(guard)) => kept && after.stage is Committing && (
            action matches RunAction::Commit(req) && is_request(req, a, guard, g.trash_path@, epoch)),
            _ => kept && after.stage is Over && action == (RunAction::Discard {
                staged: a.temp_path,
                result: None,
            }),
        },
        (RunStage::Committing, RunEvent::Committed(Ok(res))) => kept && after.stage is Over && (
        action matches RunAction::Conclude { resolution, detail } && resolution@ == res.spec_label()
            && detail@ == resolution_detail(res)),
        (RunStage::Committing, RunEvent::Committed(Err(e))) => kept && after.stage is Over && (
        action matches RunAction::Conclude { resolution, detail } && resolution@
            == "needs_operator"@ && detail@ == e.spec_message()),
        _ => kept && after.stage is Over && action is Nothing,
    }
}

impl JobRun {
    /// Take on an assignment.
    pub fn execute(assignment: pb::JobAssignment) -> (r: (JobRun, RunAction))
        ensures
            r.0.assignment == assignment,
            r.0.stage is Placing,
            r.0.guard is None,
            r.0.execution is None,
            r.1 == RunAction::Place(assignment.final_path),
    {
        let destination = assignment.final_path.clone();
        (
            JobRun { assignment, stage: RunStage::Placing, guard: None, execution: None },
            RunAction::Place(destination),
        )
    }

    fn failure(&self, e: &AgentError) -> (r: pb::JobResult)
        ensures
            failed_for(r, self.assignment, *e),
    {
        failed_result(
            self.assignment.job_id.as_str(),
            self.assignment.attempt as i64,
            e.message().as_str(),
        )
    }

    fn discard(&self) -> (r: RunAction)
        ensures
            r == (RunAction::Discard { staged: self.assignment.temp_path, result: None }),
    {
        RunAction::Discard { staged: self.assignment.temp_path.clone(), result: None }
    }

    /// Take in what happened and say what to do next. What does not belong to
    /// the stage ends the assignment.
    pub fn advance(&mut self, event: RunEvent) -> (r: RunAction)
        ensures
            final(self).assignment == old(self).assignment,
            works(*old(self), event, *final(self), r),
    {
        let stage = self.stage;
        self.stage = RunStage::Over;
        match (stage, event) {
            (RunStage::Placing, RunEvent::Placed(Ok(_))) => {
                self.stage = RunStage::Observing;
                RunAction::Observe(self.assignment.final_path.clone())
            },
            (RunStage::Placing, RunEvent::Placed(Err(e))) => RunAction::Refuse(self.failure(&e)),
            (RunStage::Observing, RunEvent::Observed(Ok(g))) => {
                self.guard = Some(g);
                self.stage = RunStage::Encoding;
                RunAction::Encode {
                    argv: text::clone_texts(self.assignment.argv.as_slice()),
                    output: self.assignment.temp_path.clone(),
                    progress_path: paths::set_extension(
                        self.assignment.temp_path.as_str(),
                        "progress",
                    ),
                }
            },
            (RunStage::Observing, RunEvent::Observed(Err(e))) => RunAction::Refuse(
                self.failure(&e),
            ),
            (RunStage::Encoding, RunEvent::Encoded(Ok(x))) => {
                let exit_code: i32 = x.exit_code;
                self.execution = Some(x);
                self.stage = RunStage::Judging;
                RunAction::Judge {
                    output: self.assignment.temp_path.clone(),
                    source: self.assignment.source_path.clone(),
                    exit_code,
                }
            },
            (RunStage::Encoding, RunEvent::Encoded(Err(e))) => RunAction::Discard {
                staged: self.assignment.temp_path.clone(),
                result: Some(self.failure(&e)),
            },
            (RunStage::Judging, RunEvent::Judged { report, report_json }) => {
                match &self.execution {
                    Some(x) => {
                        let r = result_message(&self.assignment, x, report_json);
                        self.stage = RunStage::Reporting { passed: report.passed };
                        RunAction::Report(r)
                    },
                    None => RunAction::Nothing,
                }
            },
            (RunStage::Reporting { passed }, RunEvent::Reported { revoked }) => {
                if passed && !revoked {
                    self.stage = RunStage::Asking;
                    RunAction::Ask
                } else {
                    self.discard()
                }
            },
            (RunStage::Asking, RunEvent::Answered { grant, epoch }) => {
                match (grant, self.guard) {
                    (Some(g), Some(guard)) => {
                        self.stage = RunStage::Committing;
                        RunAction::Commit(
                            CommitRequest {
                                job_id: self.assignment.job_id.clone(),
                                attempt: self.assignment.attempt as i64,
                                fencing_epoch: epoch,
                                temp_path: self.assignment.temp_path.clone(),
                                final_path: self.assignment.final_path.clone(),
                                trash_path: g.trash_path,
                                expected_content_sig: self.assignment.expected_content_sig.clone(),
                                source_guard: guard,
                            },
                        )
                    },
                    _ => self.discard(),
                }
            },
            (RunStage::Committing, RunEvent::Committed(Ok(res))) => RunAction::Conclude {
                resolution: res.label().to_owned(),
                detail: detail_of(&res),
            },
            (RunStage::Committing, RunEvent::Committed(Err(e))) => RunAction::Conclude {
                resolution: "needs_operator".to_owned(),
                detail: e.message(),
            },
            _ => RunAction::Nothing,
        }
    }
}

// --------------------------------------------------------------- the worker --

/// Runs assigned jobs on this machine.
#[derive(Debug)]
pub struct LocalWorker {
    /// What runs and judges encodes.
    pub executor: Executor,
    /// What installs their output.
    pub ritual: CommitRitual,
    /// Where output is staged.
    pub work_area: WorkArea,
    /// What this machine can do.
    pub capability: pb::Capability,
    /// Jobs being worked on.
    pub running: NameSet,
    /// Jobs the server has revoked since they were handed out.
    pub revoked: NameSet,
    /// Whether new assignments are refused.
    pub draining: bool,
}

/// The answer to an assignment.
#[derive(Debug)]
pub enum Acceptance {
    /// It is taken on.
    Taken,
    /// It is refused with this result.
    Refused(pb::JobResult),
}

/// Whether a record belongs to one of the jobs.
pub open spec fn concerns(job_ids: Seq<Seq<char>>, rec: IntentRecord) -> bool {
    job_ids.contains(rec.job_id@)
}

/// The records of the jobs, in their order.
pub open spec fn records_of(job_ids: Seq<Seq<char>>, records: Seq<IntentRecord>) -> Seq<IntentRecord>
    decreases records.len(),
{
    if records.len() == 0 {
        Seq::empty()
    } else if concerns(job_ids, records.last()) {
        records_of(job_ids, records.drop_last()).push(records.last())
    } else {
        records_of(job_ids, records.drop_last())
    }
}

impl LocalWorker {
    /// Names are held once each.
    pub open spec fn wf(self) -> bool {
        self.running.wf() && self.revoked.wf()
    }

    /// Everything but the books.
    pub open spec fn same_tools(self, other: LocalWorker) -> bool {
        &&& self.executor == other.executor
        &&& self.ritual == other.ritual
        &&& self.work_area == other.work_area
        &&& self.capability == other.capability
    }

    /// Build a worker. The ritual is passed in because it owns the journal.
    pub fn new(
        executor: Executor,
        ritual: CommitRitual,
        work_area: WorkArea,
        capability: pb::Capability,
    ) -> (r: LocalWorker)
        ensures
            r.wf(),
            r.executor == executor,
            r.ritual == ritual,
            r.work_area == work_area,
            r.capability == capability,
            r.running@ == Set::<Seq<char>>::empty(),
            r.revoked@ == Set::<Seq<char>>::empty(),
            !r.draining,
    {
        LocalWorker {
            executor,
            ritual,
            work_area,
            capability,
            running: NameSet::new(),
            revoked: NameSet::new(),
            draining: false,
        }
    }

    /// The journal this worker records intents in.
    pub fn journal(&self) -> (r: &IntentJournal)
        ensures
            *r == self.ritual.journal_spec(),
    {
        self.ritual.journal()
    }

    /// Whether this worker has stopped accepting new assignments.
    pub fn is_draining(&self) -> (r: bool)
        ensures
            r == self.draining,
    {
        self.draining
    }

    /// Whether this job has been revoked since it was handed out.
    pub fn is_revoked(&self, job_id: &str) -> (r: bool)
        ensures
            r == self.revoked@.contains(job_id@),
    {
        self.revoked.contains(job_id)
    }

    /// Jobs this worker believes it is running.
    pub fn running_job_ids(&self) -> (r: Vec<String>)
        requires
            self.wf(),
        ensures
            text::texts(r@).to_set() == self.running@,
            text::texts(r@).no_duplicates(),
    {
        self.running.list()
    }

    /// Installs that were in flight, in the wire's shape, from what reading the
    /// journal gave. A journal that could not be read reports nothing; its
    /// records are still on disk.
    pub fn live_intents(&self, records: Option<Vec<IntentRecord>>) -> (r: Vec<pb::LiveIntent>)
        ensures
            records is None ==> r@.len() == 0,
            records matches Some(v) ==> r@.len() == v@.len() && forall|i: int|
                0 <= i < v@.len() ==> is_wire_intent(#[trigger] r@[i], v@[i]),
    {
        let mut r: Vec<pb::LiveIntent> = Vec::new();
        if let Some(v) = records {
            let mut i: usize = 0;
            while i < v.len()
                invariant
                    i <= v@.len(),
                    r@.len() == i,
                    forall|k: int| 0 <= k < i ==> is_wire_intent(#[trigger] r@[k], v@[k]),
                decreases v.len() - i,
            {
                r.push(wire_intent(&v[i]));
                i += 1;
            }
        }
        r
    }

    /// The outstanding records of the installs the server has no record of.
    /// Each is then resolved by the ritual's own recovery, which branches on
    /// how far it got: treating them alike would delete media.
    pub fn on_unknown_intents(&self, job_ids: &Vec<String>, records: Vec<IntentRecord>) -> (r: Vec<
        IntentRecord,
    >)
        ensures
            r@ == records_of(text::texts(job_ids@), records@),
    {
        let ghost all = records@;
        let mut r: Vec<IntentRecord> = Vec::new();
        assert(all.take(0) =~= Seq::<IntentRecord>::empty());
        for rec in it: records
            invariant
                it.seq() == all,
                r@ == records_of(text::texts(job_ids@), all.take(it.index() as int)),
        {
            let ghost k = it.index() as int;
            assert(all.take(k + 1).drop_last() =~= all.take(k));
            assert(all.take(k + 1).last() == rec);
            let known = text::list_has(job_ids, rec.job_id.as_str());
            proof {
                let ids = text::texts(job_ids@);
                assert(known == ids.contains(rec.job_id@)) by {
                    if ids.contains(rec.job_id@) {
                        let j = choose|j: int| 0 <= j < ids.len() && ids[j] == rec.job_id@;
                        assert(job_ids@[j]@ == rec.job_id@);
                    }
                    if known {
                        let j = choose|j: int|
                            0 <= j < job_ids@.len() && (#[trigger] job_ids@[j])@ == rec.job_id@;
                        assert(ids[j] == rec.job_id@);
                    }
                }
            }
            if known {
                r.push(rec);
            }
        }
        assert(all.take(all.len() as int) =~= all);
        r
    }

    /// Take on an assignment, or refuse it while draining.
    pub fn on_assignment(&mut self, a: &pb::JobAssignment) -> (r: Acceptance)
        requires
            old(self).wf(),
        ensures
            final(self).wf(),
            final(self).same_tools(*old(self)),
            final(self).draining == old(self).draining,
            final(self).revoked@ == old(self).revoked@,
            old(self).draining ==> final(self).running@ == old(self).running@ && (
            r matches Acceptance::Refused(res) && is_failed_result(
                res,
                a.job_id@,
                a.attempt,
                "the agent is draining"@,
            )),
            !old(self).draining ==> r is Taken && final(self).running@ == old(
                self,
            ).running@.insert(a.job_id@),
    {
        if self.draining {
            return Acceptance::Refused(
                failed_result(a.job_id.as_str(), a.attempt as i64, "the agent is draining"),
            );
        }
        self.hold(a.job_id.as_str());
        Acceptance::Taken
    }

    /// A job is being worked on.
    pub fn hold(&mut self, job_id: &str)
        requires
            old(self).wf(),
        ensures
            final(self).wf(),
            final(self).same_tools(*old(self)),
            final(self).draining == old(self).draining,
            final(self).revoked@ == old(self).revoked@,
            final(self).running@ == old(self).running@.insert(job_id@),
    {
        self.running.insert(job_id);
    }

    /// A job is no longer being worked on.
    pub fn release(&mut self, job_id: &str)
        requires
            old(self).wf(),
        ensures
            final(self).wf(),
            final(self).same_tools(*old(self)),
            final(self).draining == old(self).draining,
            final(self).revoked@ == old(self).revoked@,
            final(self).running@ == old(self).running@.remove(job_id@),
    {
        let _ = self.running.remove(job_id);
    }

    /// An assignment has come to its end, however it ended.
    pub fn finished(&mut self, job_id: &str)
        requires
            old(self).wf(),
        ensures
            final(self).wf(),
            final(self).same_tools(*old(self)),
            final(self).draining == old(self).draining,
            final(self).revoked@ == old(self).revoked@.remove(job_id@),
            final(self).running@ == old(self).running@.remove(job_id@),
    {
        self.release(job_id);
        let _ = self.revoked.remove(job_id);
    }

    /// Stop a job the server no longer recognises. Its encode goes on, writing
    /// only into the work area; what is stopped is the install.
    pub fn on_revoke(&mut self, job_id: &str)
        requires
            old(self).wf(),
        ensures
            final(self).wf(),
            final(self).same_tools(*old(self)),
            final(self).draining == old(self).draining,
            final(self).revoked@ == old(self).revoked@.insert(job_id@),
            final(self).running@ == old(self).running@.remove(job_id@),
    {
        self.revoked.insert(job_id);
        self.release(job_id);
    }

    /// Stop taking work, and say what is still running. Even an immediate drain
    /// kills nothing: a job in the middle of the ritual has a journal and a
    /// defined recovery, and one killed between two renames has neither.
    pub fn on_drain(&mut self) -> (r: Vec<String>)
        requires
            old(self).wf(),
        ensures
            final(self).wf(),
            final(self).same_tools(*old(self)),
            final(self).draining,
            final(self).revoked@ == old(self).revoked@,
            final(self).running@ == old(self).running@,
            text::texts(r@).to_set() == old(self).running@,
    {
        self.draining = true;
        self.running_job_ids()
    }
}

// -------------------------------------------------------------------- laws --

/// The destination is only ever touched by the ritual, and the ritual is only
/// asked for after the output passed, the job was not revoked, and permission
/// came.
pub proof fn law_an_install_needs_a_verdict_and_permission(
    before: JobRun,
    event: RunEvent,
    after: JobRun,
    action: RunAction,
)
    requires
        works(before, event, after, action),
    ensures
        action is Commit ==> before.stage is Asking && (event matches RunEvent::Answered {
            grant,
            epoch,
        } && grant is Some),
        action is Ask ==> before.stage == (RunStage::Reporting { passed: true }) && (
        event matches RunEvent::Reported { revoked } && !revoked),
        after.stage is Asking <==> action is Ask,
        after.stage == (RunStage::Reporting { passed: true }) ==> before.stage is Judging && (
        event matches RunEvent::Judged { report, report_json } && report.passed),
{
}

/// Nothing is reported as a success by accident: a result for a job that
/// produced no output never carries the exit code of a successful encode.
pub proof fn law_a_failure_never_reports_success(
    before: JobRun,
    event: RunEvent,
    after: JobRun,
    action: RunAction,
)
    requires
        works(before, event, after, action),
    ensures
        action matches RunAction::Refuse(r) ==> r.exit_code != 0,
        action matches RunAction::Discard { staged, result: Some(r) } ==> r.exit_code != 0,
{
}

/// Whatever comes, an assignment ends: every event moves it on to a later
/// stage.
pub proof fn law_an_assignment_ends(
    before: JobRun,
    event: RunEvent,
    after: JobRun,
    action: RunAction,
)
    requires
        works(before, event, after, action),
        !(before.stage is Over),
    ensures
        stage_rank(after.stage) > stage_rank(before.stage),
{
}

/// How far an assignment has come.
pub open spec fn stage_rank(s: RunStage) -> int {
    match s {
        RunStage::Placing => 0,
        RunStage::Observing => 1,
        RunStage::Encoding => 2,
        RunStage::Judging => 3,
        RunStage::Reporting { .. } => 4,
        RunStage::Asking => 5,
        RunStage::Committing => 6,
        RunStage::Over => 7,
    }
}

/// A truncated output does not pass against a measured source.
pub proof fn law_a_truncated_output_is_rejected(
    spec: ValidationSpec,
    source_us: u64,
    probe: MediaProbe,
    exit_code: i32,
    out_bytes: u64,
)
    requires
        probe.duration_us matches Some(d) && d + spec.max_shorter_us < source_us,
    ensures
        validate::judged(remeasured(spec, Some(source_us)), probe, exit_code, out_bytes) is Some,
{
}

/// The install that is asked for is the one that was assigned: its own job and
/// attempt, the file that was written for it, the destination that was observed
/// before the encode, the place in the trash that was granted, and the epoch it
/// was granted under.
pub proof fn law_the_assigned_install_is_asked_for(
    before: JobRun,
    grant: pb::CommitGrant,
    epoch: i64,
    after: JobRun,
    action: RunAction,
)
    requires
        before.stage is Asking,
        before.guard is Some,
        works(before, RunEvent::Answered { grant: Some(grant), epoch }, after, action),
    ensures
        after.stage is Committing,
        action matches RunAction::Commit(req) && {
            &&& req.job_id == before.assignment.job_id
            &&& req.attempt == before.assignment.attempt
            &&& req.fencing_epoch == epoch
            &&& req.temp_path == before.assignment.temp_path
            &&& req.final_path == before.assignment.final_path
            &&& req.trash_path@ == grant.trash_path@
            &&& req.expected_content_sig == before.assignment.expected_content_sig
            &&& req.source_guard == before.guard->0
        },
{
}

/// The way of a job that meets no failure: placed, observed, encoded as assigned,
/// judged, reported, permitted, committed and concluded.
pub proof fn law_the_way_of_a_job(before: JobRun, event: RunEvent, after: JobRun, action: RunAction)
    requires
        works(before, event, after, action),
    ensures
        before.stage is Placing ==> (event matches RunEvent::Placed(placed) ==> placed is Ok
            ==> after.stage is Observing && action == RunAction::Observe(
            before.assignment.final_path,
        )),
        before.stage is Observing ==> (event matches RunEvent::Observed(seen) ==> (seen
            matches Ok(g) ==> after.stage is Encoding && after.guard == Some(g) && (action
            matches RunAction::Encode { argv, output, .. } && text::texts(argv@) == text::texts(
            before.assignment.argv@,
        ) && output == before.assignment.temp_path))),
        before.stage is Encoding ==> (event matches RunEvent::Encoded(ran) ==> (ran matches Ok(x)
            ==> after.stage is Judging && after.execution == Some(x) && action == (
        RunAction::Judge {
            output: before.assignment.temp_path,
            source: before.assignment.source_path,
            exit_code: x.exit_code,
        }))),
        before.stage is Judging && before.execution is Some ==> (event matches RunEvent::Judged {
            report,
            report_json,
        } ==> after.stage == (RunStage::Reporting { passed: report.passed }) && (action
            matches RunAction::Report(r) && r.job_id == before.assignment.job_id && r.exit_code
            == before.execution->0.exit_code && r.validation_json == report_json && r.output_bytes
            == before.execution->0.output_bytes)),
        before.stage is Reporting ==> (event matches RunEvent::Reported { revoked } ==> (
        before.stage->passed && !revoked <==> after.stage is Asking)),
        before.stage is Committing ==> (event matches RunEvent::Committed(done) ==> (done
            matches Ok(res) ==> after.stage is Over && (action matches RunAction::Conclude {
            resolution,
            detail,
        } && resolution@ == res.spec_label() && detail@ == resolution_detail(res)))),
        before.stage is Committing ==> (event matches RunEvent::Committed(done) ==> (done
            matches Err(e) ==> (action matches RunAction::Conclude { resolution, detail }
            && resolution@ == "needs_operator"@ && detail@ == e.spec_message()))),
{
}

/// What is not installed does not stay: a job that failed its encode, its
/// validation or its permission, or was revoked, has its output discarded.
pub proof fn law_what_is_not_installed_is_discarded(
    before: JobRun,
    event: RunEvent,
    after: JobRun,
    action: RunAction,
)
    requires
        works(before, event, after, action),
    ensures
        before.stage is Encoding ==> (event matches RunEvent::Encoded(ran) ==> ran is Err ==> (action
            matches RunAction::Discard { staged, .. } && staged == before.assignment.temp_path)),
        before.stage is Reporting ==> (event matches RunEvent::Reported { revoked } ==> (
        !before.stage->passed || revoked) ==> (action matches RunAction::Discard { staged, .. }
            && staged == before.assignment.temp_path)),
        before.stage is Asking ==> (event matches RunEvent::Answered { grant, .. } ==> grant is None
            ==> (action matches RunAction::Discard { staged, .. } && staged
            == before.assignment.temp_path)),
{
}

/// A job that could not be run is answered as failed: exit code -1, no signal, no
/// output, and the reason.
pub proof fn law_how_a_failure_is_answered(
    r: pb::JobResult,
    job_id: Seq<char>,
    attempt: u32,
    detail: Seq<char>,
)
    requires
        is_failed_result(r, job_id, attempt, detail),
    ensures
        r.job_id@ == job_id,
        r.attempt == attempt,
        r.exit_code == -1,
        r.signal == 0,
        r.stderr_tail@ == detail,
        r.output_bytes == 0,
        r.validation_json@.len() == 0,
{
}

/// A record is announced as it stands, and can be read back: its job, its paths
/// and its phase.
pub proof fn law_a_record_is_announced_as_it_stands(w: pb::LiveIntent, rec: IntentRecord)
    requires
        is_wire_intent(w, rec),
    ensures
        w.job_id == rec.job_id,
        w.temp_path == rec.temp_path,
        w.final_path == rec.final_path,
        w.trash_path == rec.trash_path,
        0 <= rec.attempt <= u32::MAX ==> w.attempt == rec.attempt,
        rec.fencing_epoch >= 0 ==> w.fencing_epoch == rec.fencing_epoch,
        rec.phase is Granted ==> w.phase@ == "granted"@,
        rec.phase is Retired ==> w.phase@ == "retired"@,
        rec.phase is Installed ==> w.phase@ == "installed"@,
{
    reveal_strlit("Granted");
    reveal_strlit("granted");
    reveal_strlit("Retired");
    reveal_strlit("retired");
    reveal_strlit("Installed");
    reveal_strlit("installed");
    assert(text::ascii_lower("Granted"@) =~= "granted"@);
    assert(text::ascii_lower("Retired"@) =~= "retired"@);
    assert(text::ascii_lower("Installed"@) =~= "installed"@);
}

/// What is concluded is told in words: the size of what was installed, and the
/// reason where nothing was.
pub proof fn law_how_a_resolution_is_told(r: Resolution)
    ensures
        r matches Resolution::Installed { output_bytes, .. } ==> resolution_detail(r)
            == "installed, "@ + text::dec(output_bytes as nat) + " bytes"@,
        r matches Resolution::SourceIntact { reason } ==> resolution_detail(r) == reason@,
        r matches Resolution::SourceRestored { reason } ==> resolution_detail(r) == reason@,
        r matches Resolution::NeedsOperator { detail } ==> resolution_detail(r) == detail@,
{
}

/// A remeasured contract differs in the length of the source alone, which is the
/// time of its last packet; without one it is left as it is.
pub proof fn law_only_the_length_is_remeasured(spec: ValidationSpec, us: u64)
    ensures
        remeasured(spec, None) == spec,
        remeasured(spec, Some(us)).source_duration_us == us,
        remeasured(spec, Some(us)).max_shorter_us == spec.max_shorter_us,
        remeasured(spec, Some(us)).max_longer_us == spec.max_longer_us,
        remeasured(spec, Some(us)).expected_audio_streams == spec.expected_audio_streams,
        remeasured(spec, Some(us)).expected_subtitle_streams == spec.expected_subtitle_streams,
        remeasured(spec, Some(us)).source_bytes == spec.source_bytes,
        remeasured(spec, Some(us)).size_policy == spec.size_policy,
{
}

/// The records of the jobs that are asked for are all of them, in order, and no
/// other job's.
pub proof fn law_which_records_concern_a_job(
    job_ids: Seq<Seq<char>>,
    records: Seq<IntentRecord>,
    rec: IntentRecord,
)
    ensures
        job_ids.contains(rec.job_id@) ==> records_of(job_ids, records.push(rec)) == records_of(
            job_ids,
            records,
        ).push(rec),
        !job_ids.contains(rec.job_id@) ==> records_of(job_ids, records.push(rec)) == records_of(
            job_ids,
            records,
        ),
        records_of(job_ids, Seq::empty()).len() == 0,
{
    assert(records.push(rec).drop_last() =~= records);
}

} // verus!
