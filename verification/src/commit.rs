//! The commit ritual: installing a replacement without ever losing the source.
//!
//! Everything here protects one invariant: at every instant, and after any
//! crash at any instant, either the original file is intact or the replacement
//! is fully installed. Never neither.
//!
//! The ritual is a machine. It names the next action, the caller performs it
//! against the filesystem and hands the outcome back, and the machine decides
//! what follows. The steps are:
//!
//! 1. Refuse a work area on another device.
//! 2. Re-verify that the source still matches what the job was planned against.
//! 3. Journal `Granted`.
//! 4. Make the staged output durable.
//! 5. Rename the original to the trash path. The dangerous window opens.
//! 6. Journal `Retired`.
//! 7. Rename the staged output to the destination. The window closes.
//! 8. Journal `Installed`.
//! 9. Make the destination directory durable and resolve the intent.
use vstd::prelude::*;

use crate::error::AgentError;
use crate::journal::{IntentJournal, IntentPhase, IntentRecord};
use crate::paths;
use crate::text;
use crate::workarea::{destination_of, WorkArea};

verus! {

/// What a source file must still look like for an install to be allowed.
#[derive(Debug, Clone, Copy, PartialEq, Eq, Structural)]
pub struct SourceGuard {
    /// Size the job was planned against.
    pub size_bytes: u64,
    /// Modification time it was planned against.
    pub mtime_unix: i64,
    /// Inode, where the platform reports one.
    pub inode: Option<u64>,
}

/// What the filesystem says of a file.
#[derive(Debug, Clone, Copy, PartialEq, Eq, Structural)]
pub struct FileStat {
    /// Its size.
    pub size_bytes: u64,
    /// When it was modified, in seconds since the epoch, where that is known
    /// and not before it.
    pub modified_s: Option<u64>,
    /// Its inode, where the platform reports one.
    pub inode: Option<u64>,
}

impl SourceGuard {
    /// The state of a path, of what the filesystem said of it.
    pub fn observe(path: &str, stat: Result<FileStat, String>) -> (r: Result<SourceGuard, AgentError>)
        ensures
            match stat {
                Ok(m) => r == Ok::<SourceGuard, AgentError>(
                    SourceGuard {
                        size_bytes: m.size_bytes,
                        mtime_unix: match m.modified_s {
                            Some(s) => s as i64,
                            None => 0,
                        },
                        inode: m.inode,
                    },
                ),
                Err(why) => r matches Err(AgentError::Commit { step, path: p, source }) && step@
                    == "stat source"@ && p@ == path@ && source == why,
            },
    {
        match stat {
            Ok(m) => Ok(
                SourceGuard {
                    size_bytes: m.size_bytes,
                    mtime_unix: match m.modified_s {
                        Some(s) => s as i64,
                        None => 0,
                    },
                    inode: m.inode,
                },
            ),
            Err(source) => Err(
                AgentError::Commit { step: "stat source", path: path.to_owned(), source },
            ),
        }
    }

    /// The file still looks like the one that was planned.
    pub open spec fn agrees(self, other: SourceGuard) -> bool {
        &&& self.size_bytes == other.size_bytes
        &&& self.mtime_unix == other.mtime_unix
        &&& self.inode is Some && other.inode is Some ==> self.inode == other.inode
    }

    /// Whether the file still looks like the one that was planned.
    ///
    /// Inodes are compared only when both are known: treating unknown as
    /// different would refuse every install on a platform without them.
    pub fn matches(&self, other: &SourceGuard) -> (r: bool)
        ensures
            r == self.agrees(*other),
            r ==> self.size_bytes == other.size_bytes,
            r ==> self.mtime_unix == other.mtime_unix,
            r && self.inode is Some && other.inode is Some ==> self.inode == other.inode,
            self.size_bytes == other.size_bytes && self.mtime_unix == other.mtime_unix && (
            self.inode == other.inode || self.inode is None || other.inode is None) ==> r,
    {
        self.size_bytes == other.size_bytes && self.mtime_unix == other.mtime_unix && match (
            self.inode,
            other.inode,
        ) {
            (Some(a), Some(b)) => a == b,
            _ => true,
        }
    }
}

/// How an install, or a recovered install, turned out.
#[derive(Debug, Clone, PartialEq, Eq)]
#[non_exhaustive]
pub enum Resolution {
    /// The replacement is at the destination and the original is in the trash.
    Installed {
        /// Where the original was retained.
        trash_path: String,
        /// Size of the installed replacement.
        output_bytes: u64,
    },
    /// Nothing was installed and the original is untouched.
    SourceIntact {
        /// Why the install did not happen.
        reason: String,
    },
    /// The original was moved aside and then put back.
    SourceRestored {
        /// Why the install did not complete.
        reason: String,
    },
    /// Neither state could be established. A human must look.
    NeedsOperator {
        /// What is ambiguous.
        detail: String,
    },
}

impl Resolution {
    /// The label used in metrics and the commit ledger.
    pub fn label(&self) -> (r: &'static str)
        ensures
            r@ == self.spec_label(),
            self is Installed ==> r@ == "installed"@,
            self is SourceIntact ==> r@ == "source_intact"@,
            self is SourceRestored ==> r@ == "source_restored"@,
            self is NeedsOperator ==> r@ == "needs_operator"@,
    {
        match self {
            Resolution::Installed { .. } => "installed",
            Resolution::SourceIntact { .. } => "source_intact",
            Resolution::SourceRestored { .. } => "source_restored",
            Resolution::NeedsOperator { .. } => "needs_operator",
        }
    }

    /// The label used in metrics and the commit ledger.
    pub open spec fn spec_label(self) -> Seq<char> {
        match self {
            Resolution::Installed { .. } => "installed"@,
            Resolution::SourceIntact { .. } => "source_intact"@,
            Resolution::SourceRestored { .. } => "source_restored"@,
            Resolution::NeedsOperator { .. } => "needs_operator"@,
        }
    }

    /// Whether this outcome left the media in a well-defined state.
    pub fn is_resolved(&self) -> (r: bool)
        ensures
            r == !(self is NeedsOperator),
    {
        !matches!(self, Resolution::NeedsOperator { .. })
    }
}

/// Everything one install needs to know.
#[derive(Debug, Clone, PartialEq, Eq)]
pub struct CommitRequest {
    /// Which job.
    pub job_id: String,
    /// Which attempt.
    pub attempt: i64,
    /// Guards against a revoked assignment being acted on.
    pub fencing_epoch: i64,
    /// The staged output.
    pub temp_path: String,
    /// Where it is going. Also where the original currently is.
    pub final_path: String,
    /// Where the original will be retained.
    pub trash_path: String,
    /// The facts signature the job was planned against.
    pub expected_content_sig: String,
    /// What the source looked like when the job was planned.
    pub source_guard: SourceGuard,
}

/// Performs, and recovers, installs.
#[derive(Debug, Clone, PartialEq, Eq)]
pub struct CommitRitual {
    journal: IntentJournal,
    work_area: WorkArea,
}

/// Where a run of the ritual stands: the action it waits for.
#[derive(Debug, Clone, Copy, PartialEq, Eq, Structural)]
pub enum CommitStage {
    /// Is there a staged output?
    Staged,
    /// What does the source look like now?
    Source,
    /// Journal that nothing has moved yet.
    JournalGranted,
    /// Open the staged output.
    OpenStaged,
    /// Flush the staged output.
    SyncStaged,
    /// Flush the staged output's directory, as far as possible.
    SyncStagedDir,
    /// Create the trash directory.
    TrashDir,
    /// Rename the original to the trash path.
    Retire,
    /// Journal that the original has been moved.
    JournalRetired,
    /// Rename the staged output to the destination.
    Install,
    /// Put the original back.
    Restore,
    /// Flush the destination's directory after an attempt to restore.
    SyncUnfinished,
    /// Drop the record of an install that did not happen.
    ClearUnfinished,
    /// Journal that the replacement is in place.
    JournalInstalled,
    /// Flush the destination's directory, as far as possible.
    SyncInstalled,
    /// Measure the replacement.
    Measure,
    /// Drop the record of a finished install.
    ClearInstalled,
}

/// What the caller found when it performed an action.
#[derive(Debug, Clone, PartialEq, Eq)]
pub enum CommitOutcome {
    /// It succeeded.
    Done,
    /// It failed, for this reason.
    Failed(String),
    /// The journal could not be written.
    JournalFailed(AgentError),
    /// The source looks like this.
    Observed(SourceGuard),
    /// The replacement has this many bytes.
    Sized(u64),
}

impl CommitOutcome {
    /// The action did not succeed.
    pub open spec fn failed(self) -> bool {
        self is Failed || self is JournalFailed
    }

    /// The reason of a failure.
    pub open spec fn reason(self) -> Seq<char> {
        match self {
            CommitOutcome::Failed(s) => s@,
            CommitOutcome::JournalFailed(e) => e.spec_message(),
            _ => Seq::empty(),
        }
    }

    fn is_failure(&self) -> (r: bool)
        ensures
            r == self.failed(),
    {
        matches!(self, CommitOutcome::Failed(_) | CommitOutcome::JournalFailed(_))
    }

    fn into_reason(self) -> (r: String)
        ensures
            r@ == self.reason(),
    {
        match self {
            CommitOutcome::Failed(s) => s,
            CommitOutcome::JournalFailed(e) => e.message(),
            _ => String::new(),
        }
    }

    /// The error a failed journal write ends the run with.
    fn into_journal_error(self, path: String) -> (r: AgentError)
        ensures
            journal_fault(self, path@, r),
    {
        match self {
            CommitOutcome::JournalFailed(e) => e,
            other => AgentError::Journal { path, source: other.into_reason() },
        }
    }
}

/// The error of a failed journal write.
pub open spec fn journal_fault(o: CommitOutcome, path: Seq<char>, e: AgentError) -> bool {
    match o {
        CommitOutcome::JournalFailed(inner) => e == inner,
        _ => e is Journal && e->Journal_path@ == path && e->Journal_source@ == o.reason(),
    }
}

/// The error of a failed step against the filesystem.
pub open spec fn step_fault(o: CommitOutcome, step: Seq<char>, path: Seq<char>, e: AgentError) -> bool {
    e is Commit && e->step@ == step && e->Commit_path@ == path && e->Commit_source@ == o.reason()
}

/// A run of the ritual.
#[derive(Debug, Clone, PartialEq, Eq)]
pub struct CommitRun {
    /// What is to be installed.
    pub request: CommitRequest,
    /// The agent instance that owns the intent.
    pub agent_uid: String,
    /// Which boot of that agent.
    pub boot_id: String,
    /// The file of the journal record.
    pub record_path: String,
    /// The action the run waits for.
    pub stage: CommitStage,
    /// Why the install failed, once it has.
    pub failure: String,
    /// Whether the original was put back after a failed install.
    pub restored: bool,
    /// Size of the replacement, once measured.
    pub output_bytes: u64,
}

/// Where a run is after an outcome.
#[derive(Debug, Clone, PartialEq, Eq)]
pub enum CommitProgress {
    /// It waits for another action.
    Continue(CommitRun),
    /// It has come to an end.
    Resolved(Resolution),
    /// The filesystem failed under it.
    Broken(AgentError),
}

/// A resolution that leaves the source alone, for a reason.
pub open spec fn intact(p: CommitProgress, reason: Seq<char>) -> bool {
    p is Resolved && p->Resolved_0 is SourceIntact && p->Resolved_0->SourceIntact_reason@ == reason
}

/// What a run does with an outcome.
pub open spec fn follows(run: CommitRun, o: CommitOutcome, p: CommitProgress) -> bool {
    let req = run.request;
    match run.stage {
        CommitStage::Staged => if o.failed() {
            intact(p, "no staged output at "@ + req.temp_path@)
        } else {
            p == CommitProgress::Continue(CommitRun { stage: CommitStage::Source, ..run })
        },
        CommitStage::Source => match o {
            CommitOutcome::Observed(now) => if req.source_guard.agrees(now) {
                p == CommitProgress::Continue(
                    CommitRun { stage: CommitStage::JournalGranted, ..run },
                )
            } else {
                intact(
                    p,
                    "source "@ + req.final_path@
                        + " changed since the job was planned; refusing to install"@,
                )
            },
            _ => intact(
                p,
                "source "@ + req.final_path@ + " is no longer there; nothing was installed"@,
            ),
        },
        CommitStage::JournalGranted => if o.failed() {
            p is Broken && journal_fault(o, run.record_path@, p->Broken_0)
        } else {
            p == CommitProgress::Continue(CommitRun { stage: CommitStage::OpenStaged, ..run })
        },
        CommitStage::OpenStaged => if o.failed() {
            p is Broken && step_fault(o, "open staged output"@, req.temp_path@, p->Broken_0)
        } else {
            p == CommitProgress::Continue(CommitRun { stage: CommitStage::SyncStaged, ..run })
        },
        CommitStage::SyncStaged => if o.failed() {
            p is Broken && step_fault(o, "fsync staged output"@, req.temp_path@, p->Broken_0)
        } else {
            p == CommitProgress::Continue(CommitRun { stage: CommitStage::SyncStagedDir, ..run })
        },
        CommitStage::SyncStagedDir => p == CommitProgress::Continue(
            CommitRun { stage: CommitStage::TrashDir, ..run },
        ),
        CommitStage::TrashDir => if o.failed() {
            p is Broken && step_fault(
                o,
                "create trash directory"@,
                trash_dir(req.trash_path@),
                p->Broken_0,
            )
        } else {
            p == CommitProgress::Continue(CommitRun { stage: CommitStage::Retire, ..run })
        },
        CommitStage::Retire => if o.failed() {
            p is Broken && step_fault(o, "retire original"@, req.final_path@, p->Broken_0)
        } else {
            p == CommitProgress::Continue(CommitRun { stage: CommitStage::JournalRetired, ..run })
        },
        CommitStage::JournalRetired => if o.failed() {
            p is Broken && journal_fault(o, run.record_path@, p->Broken_0)
        } else {
            p == CommitProgress::Continue(CommitRun { stage: CommitStage::Install, ..run })
        },
        CommitStage::Install => if o.failed() {
            &&& p is Continue
            &&& p->Continue_0.failure@ == o.reason()
            &&& p->Continue_0 == (CommitRun {
                stage: CommitStage::Restore,
                failure: p->Continue_0.failure,
                ..run
            })
        } else {
            p == CommitProgress::Continue(CommitRun { stage: CommitStage::JournalInstalled, ..run })
        },
        CommitStage::Restore => p == CommitProgress::Continue(
            CommitRun { stage: CommitStage::SyncUnfinished, restored: !o.failed(), ..run },
        ),
        CommitStage::SyncUnfinished => p == CommitProgress::Continue(
            CommitRun { stage: CommitStage::ClearUnfinished, ..run },
        ),
        CommitStage::ClearUnfinished => if o.failed() {
            p is Broken && journal_fault(o, run.record_path@, p->Broken_0)
        } else if run.restored {
            &&& p is Resolved
            &&& p->Resolved_0 is SourceRestored
            &&& p->Resolved_0->SourceRestored_reason@ == "installing the replacement failed ("@
                + run.failure@ + "); original restored"@
        } else {
            &&& p is Resolved
            &&& p->Resolved_0 is NeedsOperator
            &&& p->Resolved_0->detail@ == "install failed ("@ + run.failure@
                + ") and the original could not be restored from "@ + req.trash_path@
        },
        CommitStage::JournalInstalled => if o.failed() {
            p is Broken && journal_fault(o, run.record_path@, p->Broken_0)
        } else {
            p == CommitProgress::Continue(CommitRun { stage: CommitStage::SyncInstalled, ..run })
        },
        CommitStage::SyncInstalled => p == CommitProgress::Continue(
            CommitRun { stage: CommitStage::Measure, ..run },
        ),
        CommitStage::Measure => p == CommitProgress::Continue(
            CommitRun {
                stage: CommitStage::ClearInstalled,
                output_bytes: match o {
                    CommitOutcome::Sized(n) => n,
                    _ => 0,
                },
                ..run
            },
        ),
        CommitStage::ClearInstalled => if o.failed() {
            p is Broken && journal_fault(o, run.record_path@, p->Broken_0)
        } else {
            p == CommitProgress::Resolved(
                Resolution::Installed {
                    trash_path: req.trash_path,
                    output_bytes: run.output_bytes,
                },
            )
        },
    }
}

/// The directory a trash path lies in.
pub open spec fn trash_dir(trash_path: Seq<char>) -> Seq<char> {
    match paths::parent(trash_path) {
        Some(p) => p,
        None => Seq::empty(),
    }
}

fn trash_dir_of(trash_path: &str) -> (r: String)
    ensures
        r@ == trash_dir(trash_path@),
{
    match paths::parent_of(trash_path) {
        Some(p) => p,
        None => String::new(),
    }
}

/// What a run asks to be done.
#[derive(Debug, Clone, PartialEq, Eq)]
pub enum CommitAction {
    /// See whether this is a file.
    Find(String),
    /// Observe this path.
    Observe(String),
    /// Make this record durable.
    Record(IntentRecord),
    /// Open this file.
    Open(String),
    /// Flush this file.
    Sync(String),
    /// Flush this directory, where there is one.
    SyncDir(Option<String>),
    /// Make this directory, where there is one.
    MakeDir(Option<String>),
    /// Rename this path to that.
    Rename {
        /// What is renamed.
        from: String,
        /// To what.
        to: String,
    },
    /// Measure this file.
    Measure(String),
    /// Drop the record of this attempt.
    Clear {
        /// Which job.
        job_id: String,
        /// Which attempt.
        attempt: i64,
    },
}

/// An optional path of a directory.
pub open spec fn opt_path(p: Option<String>) -> Option<Seq<char>> {
    match p {
        Some(t) => Some(t@),
        None => None,
    }
}

/// The journal record of a run at a phase.
pub open spec fn is_record(rec: IntentRecord, run: CommitRun, phase: IntentPhase) -> bool {
    &&& rec.job_id == run.request.job_id
    &&& rec.attempt == run.request.attempt
    &&& rec.agent_uid == run.agent_uid
    &&& rec.boot_id == run.boot_id
    &&& rec.fencing_epoch == run.request.fencing_epoch
    &&& rec.temp_path == run.request.temp_path
    &&& rec.final_path == run.request.final_path
    &&& rec.trash_path == run.request.trash_path
    &&& rec.expected_content_sig == run.request.expected_content_sig
    &&& rec.phase == phase
}

/// What a run asks for where it stands. Each rename goes between two of the
/// three paths of the request, and each record says how far the run has come.
pub open spec fn asks(run: CommitRun, a: CommitAction) -> bool {
    let req = run.request;
    match run.stage {
        CommitStage::Staged => a == CommitAction::Find(req.temp_path),
        CommitStage::Source => a == CommitAction::Observe(req.final_path),
        CommitStage::JournalGranted => a matches CommitAction::Record(rec) && is_record(
            rec,
            run,
            IntentPhase::Granted,
        ),
        CommitStage::OpenStaged => a == CommitAction::Open(req.temp_path),
        CommitStage::SyncStaged => a == CommitAction::Sync(req.temp_path),
        CommitStage::SyncStagedDir => a matches CommitAction::SyncDir(d) && opt_path(d)
            == paths::parent(req.temp_path@),
        CommitStage::TrashDir => a matches CommitAction::MakeDir(d) && opt_path(d) == paths::parent(
            req.trash_path@,
        ),
        CommitStage::Retire => a == (CommitAction::Rename {
            from: req.final_path,
            to: req.trash_path,
        }),
        CommitStage::JournalRetired => a matches CommitAction::Record(rec) && is_record(
            rec,
            run,
            IntentPhase::Retired,
        ),
        CommitStage::Install => a == (CommitAction::Rename {
            from: req.temp_path,
            to: req.final_path,
        }),
        CommitStage::Restore => a == (CommitAction::Rename {
            from: req.trash_path,
            to: req.final_path,
        }),
        CommitStage::JournalInstalled => a matches CommitAction::Record(rec) && is_record(
            rec,
            run,
            IntentPhase::Installed,
        ),
        CommitStage::SyncUnfinished | CommitStage::SyncInstalled => {
            a matches CommitAction::SyncDir(Some(d)) && d@ == crate::workarea::destination_dir(
                req.final_path@,
            )
        },
        CommitStage::Measure => a == CommitAction::Measure(req.final_path),
        CommitStage::ClearUnfinished | CommitStage::ClearInstalled => {
            a == (CommitAction::Clear { job_id: req.job_id, attempt: req.attempt })
        },
    }
}

impl CommitRun {
    /// A run with the next action to wait for.
    fn at(self, stage: CommitStage) -> (r: CommitProgress)
        ensures
            r == CommitProgress::Continue(CommitRun { stage, ..self }),
    {
        CommitProgress::Continue(CommitRun { stage, ..self })
    }

    /// What to do next.
    pub fn action(&self) -> (r: CommitAction)
        ensures
            asks(*self, r),
    {
        let req = &self.request;
        match self.stage {
            CommitStage::Staged => CommitAction::Find(req.temp_path.clone()),
            CommitStage::Source => CommitAction::Observe(req.final_path.clone()),
            CommitStage::JournalGranted => CommitAction::Record(self.record(IntentPhase::Granted)),
            CommitStage::OpenStaged => CommitAction::Open(req.temp_path.clone()),
            CommitStage::SyncStaged => CommitAction::Sync(req.temp_path.clone()),
            CommitStage::SyncStagedDir => CommitAction::SyncDir(
                paths::parent_of(req.temp_path.as_str()),
            ),
            CommitStage::TrashDir => CommitAction::MakeDir(
                paths::parent_of(req.trash_path.as_str()),
            ),
            CommitStage::Retire => CommitAction::Rename {
                from: req.final_path.clone(),
                to: req.trash_path.clone(),
            },
            CommitStage::JournalRetired => CommitAction::Record(self.record(IntentPhase::Retired)),
            CommitStage::Install => CommitAction::Rename {
                from: req.temp_path.clone(),
                to: req.final_path.clone(),
            },
            CommitStage::Restore => CommitAction::Rename {
                from: req.trash_path.clone(),
                to: req.final_path.clone(),
            },
            CommitStage::JournalInstalled => CommitAction::Record(
                self.record(IntentPhase::Installed),
            ),
            CommitStage::SyncUnfinished | CommitStage::SyncInstalled => CommitAction::SyncDir(
                Some(destination_of(req.final_path.as_str())),
            ),
            CommitStage::Measure => CommitAction::Measure(req.final_path.clone()),
            CommitStage::ClearUnfinished | CommitStage::ClearInstalled => CommitAction::Clear {
                job_id: req.job_id.clone(),
                attempt: req.attempt,
            },
        }
    }

    /// The journal record of this run at a phase.
    pub fn record(&self, phase: IntentPhase) -> (r: IntentRecord)
        ensures
            is_record(r, *self, phase),
    {
        IntentRecord {
            job_id: self.request.job_id.clone(),
            attempt: self.request.attempt,
            agent_uid: self.agent_uid.clone(),
            boot_id: self.boot_id.clone(),
            fencing_epoch: self.request.fencing_epoch,
            temp_path: self.request.temp_path.clone(),
            final_path: self.request.final_path.clone(),
            trash_path: self.request.trash_path.clone(),
            expected_content_sig: self.request.expected_content_sig.clone(),
            phase,
        }
    }

    /// Take the outcome of the action this run waited for.
    ///
    /// Declining to install is a normal outcome that leaves the media in a
    /// known state; an error means that the filesystem itself failed.
    pub fn advance(self, outcome: CommitOutcome) -> (p: CommitProgress)
        ensures
            follows(self, outcome, p),
    {
        match self.stage {
            CommitStage::Staged => {
                if outcome.is_failure() {
                    let reason = text::cat2("no staged output at ", self.request.temp_path.as_str());
                    return CommitProgress::Resolved(Resolution::SourceIntact { reason });
                }
                self.at(CommitStage::Source)
            },
            CommitStage::Source => match outcome {
                CommitOutcome::Observed(now) => {
                    if self.request.source_guard.matches(&now) {
                        return self.at(CommitStage::JournalGranted);
                    }
                    let reason = text::cat3(
                        "source ",
                        self.request.final_path.as_str(),
                        " changed since the job was planned; refusing to install",
                    );
                    CommitProgress::Resolved(Resolution::SourceIntact { reason })
                },
                _ => {
                    let reason = text::cat3(
                        "source ",
                        self.request.final_path.as_str(),
                        " is no longer there; nothing was installed",
                    );
                    CommitProgress::Resolved(Resolution::SourceIntact { reason })
                },
            },
            CommitStage::JournalGranted => {
                if outcome.is_failure() {
                    return CommitProgress::Broken(outcome.into_journal_error(self.record_path));
                }
                self.at(CommitStage::OpenStaged)
            },
            CommitStage::OpenStaged => {
                if outcome.is_failure() {
                    return CommitProgress::Broken(
                        AgentError::Commit {
                            step: "open staged output",
                            path: self.request.temp_path,
                            source: outcome.into_reason(),
                        },
                    );
                }
                self.at(CommitStage::SyncStaged)
            },
            CommitStage::SyncStaged => {
                if outcome.is_failure() {
                    return CommitProgress::Broken(
                        AgentError::Commit {
                            step: "fsync staged output",
                            path: self.request.temp_path,
                            source: outcome.into_reason(),
                        },
                    );
                }
                self.at(CommitStage::SyncStagedDir)
            },
            CommitStage::SyncStagedDir => self.at(CommitStage::TrashDir),
            CommitStage::TrashDir => {
                if outcome.is_failure() {
                    return CommitProgress::Broken(
                        AgentError::Commit {
                            step: "create trash directory",
                            path: trash_dir_of(self.request.trash_path.as_str()),
                            source: outcome.into_reason(),
                        },
                    );
                }
                self.at(CommitStage::Retire)
            },
            CommitStage::Retire => {
                if outcome.is_failure() {
                    return CommitProgress::Broken(
                        AgentError::Commit {
                            step: "retire original",
                            path: self.request.final_path,
                            source: outcome.into_reason(),
                        },
                    );
                }
                self.at(CommitStage::JournalRetired)
            },
            CommitStage::JournalRetired => {
                if outcome.is_failure() {
                    return CommitProgress::Broken(outcome.into_journal_error(self.record_path));
                }
                self.at(CommitStage::Install)
            },
            CommitStage::Install => {
                if outcome.is_failure() {
                    // The original is already moved aside. Put it back rather
                    // than leave the destination empty.
                    let failure = outcome.into_reason();
                    return CommitProgress::Continue(
                        CommitRun { stage: CommitStage::Restore, failure, ..self },
                    );
                }
                self.at(CommitStage::JournalInstalled)
            },
            CommitStage::Restore => {
                let restored = !outcome.is_failure();
                CommitProgress::Continue(
                    CommitRun { stage: CommitStage::SyncUnfinished, restored, ..self },
                )
            },
            CommitStage::SyncUnfinished => self.at(CommitStage::ClearUnfinished),
            CommitStage::ClearUnfinished => {
                if outcome.is_failure() {
                    return CommitProgress::Broken(outcome.into_journal_error(self.record_path));
                }
                if self.restored {
                    let reason = text::cat3(
                        "installing the replacement failed (",
                        self.failure.as_str(),
                        "); original restored",
                    );
                    CommitProgress::Resolved(Resolution::SourceRestored { reason })
                } else {
                    let mut detail = text::cat3(
                        "install failed (",
                        self.failure.as_str(),
                        ") and the original could not be restored from ",
                    );
                    detail.append(self.request.trash_path.as_str());
                    CommitProgress::Resolved(Resolution::NeedsOperator { detail })
                }
            },
            CommitStage::JournalInstalled => {
                if outcome.is_failure() {
                    return CommitProgress::Broken(outcome.into_journal_error(self.record_path));
                }
                self.at(CommitStage::SyncInstalled)
            },
            CommitStage::SyncInstalled => self.at(CommitStage::Measure),
            CommitStage::Measure => {
                let output_bytes: u64 = match outcome {
                    CommitOutcome::Sized(n) => n,
                    _ => 0,
                };
                CommitProgress::Continue(
                    CommitRun { stage: CommitStage::ClearInstalled, output_bytes, ..self },
                )
            },
            CommitStage::ClearInstalled => {
                if outcome.is_failure() {
                    return CommitProgress::Broken(outcome.into_journal_error(self.record_path));
                }
                CommitProgress::Resolved(
                    Resolution::Installed {
                        trash_path: self.request.trash_path,
                        output_bytes: self.output_bytes,
                    },
                )
            },
        }
    }
}

// --------------------------------------------------------------- recovery --

/// What recovery does before it says how an interrupted install turned out.
#[derive(Debug, Clone, Copy, PartialEq, Eq, Structural)]
pub enum RecoveryAction {
    /// Remove the staged output, as far as possible.
    DiscardStaged,
    /// Rename the original from the trash path to the destination.
    RestoreOriginal,
    /// Flush the destination's directory, as far as possible.
    SyncDestination,
}

/// How an interrupted install turned out.
#[derive(Debug, Clone, Copy, PartialEq, Eq, Structural)]
pub enum Recovered {
    /// The replacement is in place.
    Installed,
    /// The original was never moved.
    SourceIntact,
    /// The original was put back.
    SourceRestored,
    /// A human must look.
    NeedsOperator,
}

/// What recovery concludes from the journal and from what is on disk.
pub open spec fn concluded(phase: IntentPhase, final_exists: bool, trash_exists: bool) -> Recovered {
    match phase {
        IntentPhase::Granted => if final_exists {
            Recovered::SourceIntact
        } else if trash_exists {
            Recovered::SourceRestored
        } else {
            Recovered::NeedsOperator
        },
        IntentPhase::Retired => if final_exists {
            Recovered::Installed
        } else if trash_exists {
            Recovered::SourceRestored
        } else {
            Recovered::NeedsOperator
        },
        IntentPhase::Installed => if final_exists {
            Recovered::Installed
        } else if trash_exists {
            Recovered::SourceRestored
        } else {
            Recovered::NeedsOperator
        },
    }
}

/// What recovery does, in order.
pub open spec fn recovery_actions(
    phase: IntentPhase,
    final_exists: bool,
    trash_exists: bool,
) -> Seq<RecoveryAction> {
    match phase {
        IntentPhase::Granted => if final_exists || !trash_exists {
            seq![RecoveryAction::DiscardStaged]
        } else {
            seq![
                RecoveryAction::RestoreOriginal,
                RecoveryAction::SyncDestination,
                RecoveryAction::DiscardStaged,
            ]
        },
        IntentPhase::Retired => if final_exists {
            seq![RecoveryAction::DiscardStaged]
        } else if trash_exists {
            seq![
                RecoveryAction::RestoreOriginal,
                RecoveryAction::SyncDestination,
                RecoveryAction::DiscardStaged,
            ]
        } else {
            Seq::empty()
        },
        IntentPhase::Installed => if final_exists || !trash_exists {
            seq![RecoveryAction::DiscardStaged]
        } else {
            seq![RecoveryAction::DiscardStaged, RecoveryAction::RestoreOriginal]
        },
    }
}

/// The step name a failed restore is reported under.
pub open spec fn restore_step(phase: IntentPhase) -> Seq<char> {
    match phase {
        IntentPhase::Granted => "restore original moved but not recorded"@,
        IntentPhase::Retired => "restore retired original"@,
        IntentPhase::Installed => "restore after a vanished install"@,
    }
}

/// What to do about one interrupted install.
#[derive(Debug, Clone, PartialEq, Eq)]
pub struct RecoveryPlan {
    /// What to do, in order.
    pub actions: Vec<RecoveryAction>,
    /// How it turned out, once they are done.
    pub outcome: Recovered,
    /// Why, in words; empty for an install.
    pub detail: String,
}

/// Why recovery concludes what it does.
pub open spec fn recovery_detail(
    rec: IntentRecord,
    final_exists: bool,
    trash_exists: bool,
) -> Seq<char> {
    match concluded(rec.phase, final_exists, trash_exists) {
        Recovered::Installed => Seq::empty(),
        Recovered::SourceIntact => "interrupted before the original was moved"@,
        Recovered::SourceRestored => match rec.phase {
            IntentPhase::Granted => "interrupted between retiring the original and recording it"@,
            IntentPhase::Retired => "interrupted between retiring the original and installing"@,
            IntentPhase::Installed =>
                "the journal recorded an install but the destination was gone"@,
        },
        Recovered::NeedsOperator => match rec.phase {
            IntentPhase::Granted => "journal says nothing had moved, but "@ + rec.final_path@
                + " is not there"@,
            IntentPhase::Retired => "neither "@ + rec.final_path@ + " nor "@ + rec.trash_path@
                + " exists; the original cannot be accounted for"@,
            IntentPhase::Installed => "journal recorded an install but neither "@ + rec.final_path@
                + " nor "@ + rec.trash_path@ + " exists"@,
        },
    }
}

impl RecoveryPlan {
    /// The resolution of a plan that was carried out.
    pub fn resolution(self, rec: &IntentRecord, output_bytes: u64) -> (r: Resolution)
        ensures
            match self.outcome {
                Recovered::Installed => r == (Resolution::Installed {
                    trash_path: rec.trash_path,
                    output_bytes,
                }),
                Recovered::SourceIntact => r == (Resolution::SourceIntact { reason: self.detail }),
                Recovered::SourceRestored => r == (Resolution::SourceRestored {
                    reason: self.detail,
                }),
                Recovered::NeedsOperator => r == (Resolution::NeedsOperator { detail: self.detail }),
            },
    {
        match self.outcome {
            Recovered::Installed => Resolution::Installed {
                trash_path: rec.trash_path.clone(),
                output_bytes,
            },
            Recovered::SourceIntact => Resolution::SourceIntact { reason: self.detail },
            Recovered::SourceRestored => Resolution::SourceRestored { reason: self.detail },
            Recovered::NeedsOperator => Resolution::NeedsOperator { detail: self.detail },
        }
    }
}

/// The error of a restore that failed during recovery.
pub fn restore_failed(rec: &IntentRecord, source: String) -> (r: AgentError)
    ensures
        r is Commit,
        r->step@ == restore_step(rec.phase),
        r->Commit_path@ == rec.trash_path@,
        r->Commit_source == source,
{
    let step = match rec.phase {
        IntentPhase::Granted => "restore original moved but not recorded",
        IntentPhase::Retired => "restore retired original",
        IntentPhase::Installed => "restore after a vanished install",
    };
    AgentError::Commit { step, path: rec.trash_path.clone(), source }
}

impl CommitRitual {
    /// The journal this ritual writes to.
    pub closed spec fn journal_spec(self) -> IntentJournal {
        self.journal
    }

    /// The area this ritual stages in.
    pub closed spec fn area_spec(self) -> WorkArea {
        self.work_area
    }

    /// Build a ritual over a journal and a work area.
    pub fn new(journal: IntentJournal, work_area: WorkArea) -> (r: CommitRitual)
        ensures
            r.journal_spec() == journal,
            r.area_spec() == work_area,
    {
        CommitRitual { journal, work_area }
    }

    /// The journal this ritual writes to.
    pub fn journal(&self) -> (r: &IntentJournal)
        ensures
            *r == self.journal_spec(),
    {
        &self.journal
    }

    /// The area this ritual stages in.
    pub fn work_area(&self) -> (r: &WorkArea)
        ensures
            *r == self.area_spec(),
    {
        &self.work_area
    }

    /// Begin an install, or refuse it where it could not be atomic.
    pub fn commit(
        &self,
        request: CommitRequest,
        ours: Result<u64, AgentError>,
        theirs: Result<u64, AgentError>,
    ) -> (r: Result<CommitRun, AgentError>)
        ensures
            r is Ok == (ours is Ok && theirs is Ok && ours->Ok_0 == theirs->Ok_0),
            r is Ok ==> {
                let run = r->Ok_0;
                &&& run.request == request
                &&& run.agent_uid@ == self.area_spec().owner()
                &&& run.boot_id@ == self.area_spec().boot()
                &&& run.record_path@ == paths::joined(
                    self.journal_spec().place(),
                    crate::journal::record_name(request.job_id@, request.attempt as int),
                )
                &&& run.stage is Staged
                &&& run.failure@.len() == 0
                &&& !run.restored
                &&& run.output_bytes == 0
            },
            ours is Err ==> r->Err_0 == ours->Err_0,
            ours is Ok && theirs is Err ==> r->Err_0 == theirs->Err_0,
            ours is Ok && theirs is Ok && ours->Ok_0 != theirs->Ok_0 ==> {
                &&& r->Err_0 is CrossDeviceWorkArea
                &&& r->Err_0->work_area@ == self.area_spec().place()
                &&& r->Err_0->destination@ == crate::workarea::destination_dir(request.final_path@)
            },
    {
        match self.work_area.ensure_same_device(request.final_path.as_str(), ours, theirs) {
            Ok(()) => {},
            Err(e) => {
                return Err(e);
            },
        }
        let record_path = self.journal.path_for(request.job_id.as_str(), request.attempt);
        Ok(
            CommitRun {
                request,
                agent_uid: self.work_area.agent_uid().to_owned(),
                boot_id: self.work_area.boot_id().to_owned(),
                record_path,
                stage: CommitStage::Staged,
                failure: String::new(),
                restored: false,
                output_bytes: 0,
            },
        )
    }

    /// Decide what to do about one interrupted install.
    ///
    /// Nothing is guessed: where neither the original nor the replacement can
    /// be found, a human must look.
    pub fn recover_one(&self, rec: &IntentRecord, final_exists: bool, trash_exists: bool) -> (r:
        RecoveryPlan)
        ensures
            r.actions@ == recovery_actions(rec.phase, final_exists, trash_exists),
            r.outcome == concluded(rec.phase, final_exists, trash_exists),
            r.detail@ == recovery_detail(*rec, final_exists, trash_exists),
    {
        let mut actions: Vec<RecoveryAction> = Vec::new();
        match rec.phase {
            IntentPhase::Granted => {
                if !final_exists && trash_exists {
                    // The original was moved aside; its record was never written.
                    actions.push(RecoveryAction::RestoreOriginal);
                    actions.push(RecoveryAction::SyncDestination);
                    actions.push(RecoveryAction::DiscardStaged);
                    assert(actions@ =~= recovery_actions(rec.phase, final_exists, trash_exists));
                    return RecoveryPlan {
                        actions,
                        outcome: Recovered::SourceRestored,
                        detail: "interrupted between retiring the original and recording it".to_owned(),
                    };
                }
                actions.push(RecoveryAction::DiscardStaged);
                assert(actions@ =~= recovery_actions(rec.phase, final_exists, trash_exists));
                if final_exists {
                    RecoveryPlan {
                        actions,
                        outcome: Recovered::SourceIntact,
                        detail: "interrupted before the original was moved".to_owned(),
                    }
                } else {
                    let detail = text::cat3(
                        "journal says nothing had moved, but ",
                        rec.final_path.as_str(),
                        " is not there",
                    );
                    RecoveryPlan { actions, outcome: Recovered::NeedsOperator, detail }
                }
            },
            IntentPhase::Retired => {
                if final_exists {
                    // The install landed; its record was never written.
                    actions.push(RecoveryAction::DiscardStaged);
                    assert(actions@ =~= recovery_actions(rec.phase, final_exists, trash_exists));
                    return RecoveryPlan {
                        actions,
                        outcome: Recovered::Installed,
                        detail: String::new(),
                    };
                }
                if trash_exists {
                    actions.push(RecoveryAction::RestoreOriginal);
                    actions.push(RecoveryAction::SyncDestination);
                    actions.push(RecoveryAction::DiscardStaged);
                    assert(actions@ =~= recovery_actions(rec.phase, final_exists, trash_exists));
                    return RecoveryPlan {
                        actions,
                        outcome: Recovered::SourceRestored,
                        detail: "interrupted between retiring the original and installing".to_owned(),
                    };
                }
                let mut detail = text::cat3("neither ", rec.final_path.as_str(), " nor ");
                detail.append(rec.trash_path.as_str());
                detail.append(" exists; the original cannot be accounted for");
                assert(actions@ =~= recovery_actions(rec.phase, final_exists, trash_exists));
                RecoveryPlan { actions, outcome: Recovered::NeedsOperator, detail }
            },
            IntentPhase::Installed => {
                actions.push(RecoveryAction::DiscardStaged);
                if final_exists {
                    assert(actions@ =~= recovery_actions(rec.phase, final_exists, trash_exists));
                    RecoveryPlan {
                        actions,
                        outcome: Recovered::Installed,
                        detail: String::new(),
                    }
                } else if trash_exists {
                    actions.push(RecoveryAction::RestoreOriginal);
                    assert(actions@ =~= recovery_actions(rec.phase, final_exists, trash_exists));
                    RecoveryPlan {
                        actions,
                        outcome: Recovered::SourceRestored,
                        detail: "the journal recorded an install but the destination was gone".to_owned(),
                    }
                } else {
                    assert(actions@ =~= recovery_actions(rec.phase, final_exists, trash_exists));
                    let mut detail = text::cat3(
                        "journal recorded an install but neither ",
                        rec.final_path.as_str(),
                        " nor ",
                    );
                    detail.append(rec.trash_path.as_str());
                    detail.append(" exists");
                    RecoveryPlan { actions, outcome: Recovered::NeedsOperator, detail }
                }
            },
        }
    }

    /// Report the installs that were in flight when the process died, in the
    /// order they were resolved, with the records to drop: those whose outcome
    /// is certain. An unresolved record stays, because it is the only evidence
    /// that a human is needed.
    pub fn recover_all(&self, resolved: Vec<(IntentRecord, Resolution)>) -> (r: (
        Vec<(String, Resolution)>,
        Vec<(String, i64)>,
    ))
        ensures
            r.0@ == resolved@.map_values(|x: (IntentRecord, Resolution)| (x.0.job_id, x.1)),
            r.1@ == resolved_keys(resolved@),
    {
        let mut report: Vec<(String, Resolution)> = Vec::new();
        let mut drop: Vec<(String, i64)> = Vec::new();
        let ghost all = resolved@;
        for item in it: resolved
            invariant
                it.seq() == all,
                report@ == all.take(it.index()).map_values(
                    |x: (IntentRecord, Resolution)| (x.0.job_id, x.1),
                ),
                drop@ == resolved_keys(all.take(it.index())),
        {
            let ghost k = it.index();
            assert(item == all[k]);
            assert(all.take(k + 1).drop_last() =~= all.take(k));
            let (rec, resolution) = item;
            if resolution.is_resolved() {
                drop.push((rec.job_id.clone(), rec.attempt));
            }
            report.push((rec.job_id, resolution));
            assert(report@ =~= all.take(k + 1).map_values(
                |x: (IntentRecord, Resolution)| (x.0.job_id, x.1),
            ));
        }
        assert(all.take(all.len() as int) =~= all);
        (report, drop)
    }
}

/// The keys of the records whose install is resolved.
pub open spec fn resolved_keys(v: Seq<(IntentRecord, Resolution)>) -> Seq<(String, i64)>
    decreases v.len(),
{
    if v.len() == 0 {
        Seq::empty()
    } else if v.last().1 is NeedsOperator {
        resolved_keys(v.drop_last())
    } else {
        resolved_keys(v.drop_last()).push((v.last().0.job_id, v.last().0.attempt))
    }
}

// ------------------------------------------------------------------- laws --

/// What a path holds.
pub enum Content {
    /// The file the ritual must never lose.
    Original,
    /// The complete replacement.
    Replacement,
    /// Something else.
    Other,
}

/// What is on disk, and what the journal says.
pub struct Scene {
    /// At the destination.
    pub at_final: Option<Content>,
    /// At the trash path.
    pub at_trash: Option<Content>,
    /// At the staged path.
    pub staged: Option<Content>,
    /// The phase of the journal record, where there is one.
    pub journal: Option<IntentPhase>,
}

/// The original is intact, or the replacement is fully installed.
pub open spec fn never_neither(s: Scene) -> bool {
    ||| s.at_final == Some(Content::Original)
    ||| s.at_trash == Some(Content::Original)
    ||| s.at_final == Some(Content::Replacement)
}

/// What the action of a stage does to the disk when it takes effect.
pub open spec fn effect(stage: CommitStage, s: Scene) -> Scene {
    match stage {
        CommitStage::JournalGranted => Scene { journal: Some(IntentPhase::Granted), ..s },
        CommitStage::Retire => Scene { at_trash: s.at_final, at_final: None, ..s },
        CommitStage::JournalRetired => Scene { journal: Some(IntentPhase::Retired), ..s },
        CommitStage::Install => Scene { at_final: s.staged, staged: None, ..s },
        CommitStage::Restore => Scene { at_final: s.at_trash, at_trash: None, ..s },
        CommitStage::ClearUnfinished => Scene { journal: None, ..s },
        CommitStage::JournalInstalled => Scene { journal: Some(IntentPhase::Installed), ..s },
        CommitStage::ClearInstalled => Scene { journal: None, ..s },
        _ => s,
    }
}

/// What one of a request's three paths holds.
pub open spec fn held(req: CommitRequest, s: Scene, path: Seq<char>) -> Option<Content> {
    if path == req.final_path@ {
        s.at_final
    } else if path == req.trash_path@ {
        s.at_trash
    } else {
        s.staged
    }
}

/// The disk with something else at one of a request's three paths.
pub open spec fn put(req: CommitRequest, s: Scene, path: Seq<char>, c: Option<Content>) -> Scene {
    if path == req.final_path@ {
        Scene { at_final: c, ..s }
    } else if path == req.trash_path@ {
        Scene { at_trash: c, ..s }
    } else {
        Scene { staged: c, ..s }
    }
}

/// The disk after an action: a rename leaves nothing where it was and the same
/// thing where it goes, and the journal holds the last record written.
pub open spec fn done(req: CommitRequest, a: CommitAction, s: Scene) -> Scene {
    match a {
        CommitAction::Rename { from, to } => put(
            req,
            put(req, s, from@, None),
            to@,
            held(req, s, from@),
        ),
        CommitAction::Record(rec) => Scene { journal: Some(rec.phase), ..s },
        CommitAction::Clear { .. } => Scene { journal: None, ..s },
        _ => s,
    }
}

/// What a stage is taken to do to the disk is what the action it asks for does,
/// where the three paths are three.
pub proof fn law_each_action_has_its_effect(run: CommitRun, a: CommitAction, s: Scene)
    requires
        asks(run, a),
        run.request.temp_path@ != run.request.final_path@,
        run.request.temp_path@ != run.request.trash_path@,
        run.request.final_path@ != run.request.trash_path@,
    ensures
        done(run.request, a, s) == effect(run.stage, s),
{
}

/// What holds on disk while a run waits at a stage.
pub open spec fn waiting(run: CommitRun, s: Scene) -> bool {
    match run.stage {
        CommitStage::Staged => {
            &&& s.at_final == Some(Content::Original)
            &&& (s.staged is None || s.staged == Some(Content::Replacement))
            &&& s.journal is None
        },
        CommitStage::Source => {
            &&& s.at_final == Some(Content::Original)
            &&& s.staged == Some(Content::Replacement)
            &&& s.journal is None
        },
        CommitStage::JournalGranted => {
            &&& s.at_final == Some(Content::Original)
            &&& s.staged == Some(Content::Replacement)
            &&& s.journal is None
        },
        CommitStage::OpenStaged | CommitStage::SyncStaged | CommitStage::SyncStagedDir
        | CommitStage::TrashDir | CommitStage::Retire => {
            &&& s.at_final == Some(Content::Original)
            &&& s.staged == Some(Content::Replacement)
            &&& s.journal == Some(IntentPhase::Granted)
        },
        CommitStage::JournalRetired => {
            &&& s.at_final is None
            &&& s.at_trash == Some(Content::Original)
            &&& s.staged == Some(Content::Replacement)
            &&& s.journal == Some(IntentPhase::Granted)
        },
        CommitStage::Install | CommitStage::Restore => {
            &&& s.at_final is None
            &&& s.at_trash == Some(Content::Original)
            &&& s.staged == Some(Content::Replacement)
            &&& s.journal == Some(IntentPhase::Retired)
        },
        CommitStage::SyncUnfinished | CommitStage::ClearUnfinished => {
            &&& s.staged == Some(Content::Replacement)
            &&& s.journal == Some(IntentPhase::Retired)
            &&& if run.restored {
                s.at_final == Some(Content::Original) && s.at_trash is None
            } else {
                s.at_final is None && s.at_trash == Some(Content::Original)
            }
        },
        CommitStage::JournalInstalled => {
            &&& s.at_final == Some(Content::Replacement)
            &&& s.at_trash == Some(Content::Original)
            &&& s.staged is None
            &&& s.journal == Some(IntentPhase::Retired)
        },
        CommitStage::SyncInstalled | CommitStage::Measure | CommitStage::ClearInstalled => {
            &&& s.at_final == Some(Content::Replacement)
            &&& s.at_trash == Some(Content::Original)
            &&& s.staged is None
            &&& s.journal == Some(IntentPhase::Installed)
        },
    }
}

/// An outcome the filesystem can report: the staged output is found where it
/// is, and an action that succeeded took effect.
pub open spec fn truthful(run: CommitRun, s: Scene, o: CommitOutcome) -> bool {
    run.stage is Staged ==> o.failed() == (s.staged is None)
}

/// What a resolution claims of the disk.
pub open spec fn claims(r: Resolution, s: Scene) -> bool {
    match r {
        Resolution::Installed { .. } => s.at_final == Some(Content::Replacement) && s.at_trash
            == Some(Content::Original),
        Resolution::SourceIntact { .. } => s.at_final == Some(Content::Original),
        Resolution::SourceRestored { .. } => s.at_final == Some(Content::Original),
        Resolution::NeedsOperator { .. } => true,
    }
}

/// A run begins with the original in place and nothing journalled.
pub open spec fn beginning(s: Scene) -> bool {
    &&& s.at_final == Some(Content::Original)
    &&& s.staged is None || s.staged == Some(Content::Replacement)
    &&& s.journal is None
}

/// One step of the ritual keeps the disk in order. An action that succeeded
/// has taken effect and one that failed has not; where the run goes on, the
/// disk is what the next stage expects, and where it ends, the resolution says
/// what is on disk.
pub proof fn law_each_step_keeps_the_file(
    run: CommitRun,
    s: Scene,
    o: CommitOutcome,
    p: CommitProgress,
)
    requires
        waiting(run, s),
        truthful(run, s, o),
        follows(run, o, p),
    ensures
        never_neither(s),
        ({
            let after = if o.failed() {
                s
            } else {
                effect(run.stage, s)
            };
            &&& never_neither(after)
            &&& p is Continue ==> waiting(p->Continue_0, after)
            &&& p is Resolved ==> claims(p->Resolved_0, after)
        }),
{
}

/// The instants of a run: what it waits for, what is on disk, and what each
/// action came to.
pub open spec fn is_execution(
    runs: Seq<CommitRun>,
    scenes: Seq<Scene>,
    outcomes: Seq<CommitOutcome>,
) -> bool {
    &&& runs.len() == outcomes.len() + 1
    &&& scenes.len() == outcomes.len() + 1
    &&& runs[0].stage is Staged
    &&& beginning(scenes[0])
    &&& forall|i: int|
        0 <= i < outcomes.len() ==> {
            &&& truthful(runs[i], scenes[i], #[trigger] outcomes[i])
            &&& follows(runs[i], outcomes[i], CommitProgress::Continue(runs[i + 1]))
            &&& scenes[i + 1] == (if outcomes[i].failed() {
                scenes[i]
            } else {
                effect(runs[i].stage, scenes[i])
            })
        }
}

/// At every instant of every run, whatever fails along the way, the original
/// is intact or the replacement is installed.
pub proof fn law_no_run_loses_the_file(
    runs: Seq<CommitRun>,
    scenes: Seq<Scene>,
    outcomes: Seq<CommitOutcome>,
    i: int,
)
    requires
        is_execution(runs, scenes, outcomes),
        0 <= i < runs.len(),
    ensures
        waiting(runs[i], scenes[i]),
        never_neither(scenes[i]),
    decreases i,
{
    if i > 0 {
        law_no_run_loses_the_file(runs, scenes, outcomes, i - 1);
        law_each_step_keeps_the_file(
            runs[i - 1],
            scenes[i - 1],
            outcomes[i - 1],
            CommitProgress::Continue(runs[i]),
        );
    }
}

/// At no instant is the file lost: whether or not the action a run waits for
/// has taken effect, the original is intact or the replacement is installed.
pub proof fn law_never_neither(run: CommitRun, s: Scene)
    requires
        waiting(run, s),
    ensures
        never_neither(s),
        run.stage is Staged || never_neither(effect(run.stage, s)),
{
}

/// What recovery leaves on disk.
pub open spec fn recovered_scene(s: Scene) -> Scene {
    match s.journal {
        None => s,
        Some(phase) => match concluded(phase, s.at_final is Some, s.at_trash is Some) {
            Recovered::SourceRestored => Scene {
                at_final: s.at_trash,
                at_trash: None,
                staged: None,
                ..s
            },
            Recovered::NeedsOperator => if phase is Retired {
                s
            } else {
                Scene { staged: None, ..s }
            },
            _ => Scene { staged: None, ..s },
        },
    }
}

/// What a recovery action does to the disk.
pub open spec fn recovering(a: RecoveryAction, s: Scene) -> Scene {
    match a {
        RecoveryAction::DiscardStaged => Scene { staged: None, ..s },
        RecoveryAction::RestoreOriginal => Scene { at_final: s.at_trash, at_trash: None, ..s },
        RecoveryAction::SyncDestination => s,
    }
}

/// What recovery actions do to the disk, one after the other.
pub open spec fn carried_out(actions: Seq<RecoveryAction>, s: Scene) -> Scene
    decreases actions.len(),
{
    if actions.len() == 0 {
        s
    } else {
        recovering(actions.last(), carried_out(actions.drop_last(), s))
    }
}

/// What recovery leaves on disk is what its actions leave there.
pub proof fn law_recovery_does_what_it_plans(s: Scene)
    requires
        s.journal is Some,
    ensures
        carried_out(
            recovery_actions(s.journal->0, s.at_final is Some, s.at_trash is Some),
            s,
        ) == recovered_scene(s),
{
    reveal_with_fuel(carried_out, 4);
    let a = recovery_actions(s.journal->0, s.at_final is Some, s.at_trash is Some);
    if a.len() > 1 {
        assert(a.drop_last().last() == a[a.len() - 2]);
    }
    if a.len() > 2 {
        assert(a.drop_last().drop_last().last() == a[0]);
    }
}

/// Every instant at which a run can be cut short: before its action takes
/// effect, or after.
pub open spec fn crashed(run: CommitRun, before: Scene, s: Scene) -> bool {
    waiting(run, before) && !(run.stage is Staged) && (s == before || s == effect(run.stage, before))
}

/// After a crash at any instant, recovery leaves the original intact or the
/// replacement installed, and what it concludes is true, but for one thing: a
/// run that was putting the original back may be taken for an install, because
/// the destination is present again. No crash of the ritual needs an operator.
pub proof fn law_recovery_never_loses_the_file(run: CommitRun, before: Scene, s: Scene)
    requires
        crashed(run, before, s),
        s.journal is Some,
    ensures
        never_neither(recovered_scene(s)),
        match concluded(s.journal->0, s.at_final is Some, s.at_trash is Some) {
            Recovered::Installed => recovered_scene(s).at_final == Some(Content::Replacement)
                || run.stage is Restore || run.stage is SyncUnfinished
                || run.stage is ClearUnfinished,
            Recovered::SourceIntact => recovered_scene(s).at_final == Some(Content::Original),
            Recovered::SourceRestored => recovered_scene(s).at_final == Some(Content::Original),
            Recovered::NeedsOperator => false,
        },
{
}

/// A crash before the first record, or after the last one was dropped, leaves
/// nothing to recover, and the destination holds a whole file or the trash
/// holds the original.
pub proof fn law_nothing_journalled_is_nothing_lost(run: CommitRun, before: Scene, s: Scene)
    requires
        crashed(run, before, s),
        s.journal is None,
    ensures
        never_neither(s),
        recovered_scene(s) == s,
{
}

/// What a recovery that was cut short can leave on disk: the staged output may
/// be gone, and the original may be back where recovery would put it back.
pub open spec fn cut_short(s: Scene, t: Scene) -> bool {
    &&& s.journal matches Some(phase) && {
        ||| t.at_final == s.at_final && t.at_trash == s.at_trash
        ||| {
            &&& concluded(phase, s.at_final is Some, s.at_trash is Some) is SourceRestored
            &&& t.at_final == s.at_trash
            &&& t.at_trash is None
        }
    }
    &&& t.staged == s.staged || t.staged is None
    &&& t.journal == s.journal
}

/// Recovery can itself be cut short: whichever of its actions have been done,
/// the file is still there, and recovering once more keeps it so.
pub proof fn law_recovery_can_be_repeated(s: Scene, t: Scene)
    requires
        never_neither(s),
        s.at_final != Some(Content::Other),
        s.at_trash == Some(Content::Original) || s.at_trash is None,
        cut_short(s, t),
    ensures
        never_neither(t),
        never_neither(recovered_scene(t)),
        cut_short(s, recovered_scene(s)),
{
}

/// Recovery never claims more than it can see: an operator is called exactly
/// where neither the destination nor the trash path holds anything.
pub proof fn law_recovery_never_guesses(phase: IntentPhase, final_exists: bool, trash_exists: bool)
    ensures
        concluded(phase, final_exists, trash_exists) is NeedsOperator == (!final_exists
            && !trash_exists),
        concluded(phase, final_exists, trash_exists) is SourceRestored ==> trash_exists
            && !final_exists,
        concluded(phase, final_exists, trash_exists) is Installed ==> final_exists,
        recovery_actions(phase, final_exists, trash_exists).contains(
            RecoveryAction::RestoreOriginal,
        ) ==> !final_exists && trash_exists,
{
    let a = recovery_actions(phase, final_exists, trash_exists);
    if a.contains(RecoveryAction::RestoreOriginal) && (final_exists || !trash_exists) {
        let i = choose|i: int| 0 <= i < a.len() && a[i] == RecoveryAction::RestoreOriginal;
        assert(a[i] == RecoveryAction::DiscardStaged);
    }
}

/// A source that changed since the job was planned, or is gone, is never
/// replaced: the run ends without having moved anything.
pub proof fn law_a_changed_source_is_not_replaced(
    run: CommitRun,
    o: CommitOutcome,
    p: CommitProgress,
)
    requires
        run.stage is Source,
        follows(run, o, p),
        !(o is Observed && run.request.source_guard.agrees(o->Observed_0)),
    ensures
        p is Resolved,
        p->Resolved_0 is SourceIntact,
{
}

/// Whatever differs from what was planned refuses the install: a file that grew
/// or shrank, one modified since, earlier or later, and another file of the
/// same size and time, where both inodes are known. Nothing has moved.
pub proof fn law_every_difference_refuses_the_install(
    run: CommitRun,
    now: SourceGuard,
    p: CommitProgress,
)
    requires
        run.stage is Source,
        follows(run, CommitOutcome::Observed(now), p),
        ({
            let planned = run.request.source_guard;
            ||| planned.size_bytes < now.size_bytes
            ||| planned.size_bytes > now.size_bytes
            ||| planned.mtime_unix < now.mtime_unix
            ||| planned.mtime_unix > now.mtime_unix
            ||| planned.inode is Some && now.inode is Some && planned.inode->0 != now.inode->0
        }),
    ensures
        p matches CommitProgress::Resolved(r) && r is SourceIntact,
{
}

/// A source that looks as planned is accepted, and the same request goes on to
/// be journalled.
pub proof fn law_an_unchanged_source_is_accepted(
    run: CommitRun,
    now: SourceGuard,
    p: CommitProgress,
)
    requires
        run.stage is Source,
        follows(run, CommitOutcome::Observed(now), p),
        now.size_bytes == run.request.source_guard.size_bytes,
        now.mtime_unix == run.request.source_guard.mtime_unix,
        now.inode == run.request.source_guard.inode || now.inode is None
            || run.request.source_guard.inode is None,
    ensures
        p matches CommitProgress::Continue(next) && next.stage is JournalGranted && next.request
            == run.request,
{
}

/// A run installs what it was asked to and nothing else: no step changes the
/// request, the owner of the intent or the place of its record.
pub proof fn law_a_run_keeps_its_request(run: CommitRun, o: CommitOutcome, p: CommitProgress)
    requires
        follows(run, o, p),
    ensures
        p matches CommitProgress::Continue(next) ==> {
            &&& next.request == run.request
            &&& next.agent_uid == run.agent_uid
            &&& next.boot_id == run.boot_id
            &&& next.record_path == run.record_path
        },
        p matches CommitProgress::Resolved(Resolution::Installed { trash_path, output_bytes })
            ==> trash_path == run.request.trash_path && output_bytes == run.output_bytes,
{
}

/// The replacement is reported with the size it was measured to have, and a
/// failed install with the reason it failed for.
pub proof fn law_what_was_found_is_reported(run: CommitRun, o: CommitOutcome, p: CommitProgress)
    requires
        follows(run, o, p),
    ensures
        run.stage is Measure ==> (o matches CommitOutcome::Sized(n) ==> (p
            matches CommitProgress::Continue(next) && next.output_bytes == n)),
        run.stage is Install ==> (o matches CommitOutcome::Failed(why) ==> (p
            matches CommitProgress::Continue(next) && next.failure@ == why@
            && next.stage is Restore)),
        run.stage is Restore ==> (p matches CommitProgress::Continue(next) && next.restored == !(o
            is Failed || o is JournalFailed)),
        run.stage is ClearUnfinished && !(o is Failed || o is JournalFailed) ==> (p
            matches CommitProgress::Resolved(r) && (r is SourceRestored) == run.restored && (r
            is NeedsOperator) == !run.restored),
{
}

/// What a run asks for is about its own files: it looks for, opens and flushes
/// the staged output, observes and measures the destination, and every record
/// it writes names the job, the attempt, the epoch, the owner, the signature
/// and the three paths it was given.
pub proof fn law_a_run_touches_its_own_files(run: CommitRun, a: CommitAction)
    requires
        asks(run, a),
    ensures
        a matches CommitAction::Find(f) ==> f == run.request.temp_path,
        a matches CommitAction::Open(f) ==> f == run.request.temp_path,
        a matches CommitAction::Sync(f) ==> f == run.request.temp_path,
        a matches CommitAction::Observe(f) ==> f == run.request.final_path,
        a matches CommitAction::Measure(f) ==> f == run.request.final_path,
        a matches CommitAction::Clear { job_id, attempt } ==> job_id == run.request.job_id
            && attempt == run.request.attempt,
        a matches CommitAction::MakeDir(d) ==> opt_path(d) == paths::parent(
            run.request.trash_path@,
        ),
        a matches CommitAction::Record(rec) ==> {
            &&& rec.job_id == run.request.job_id
            &&& rec.attempt == run.request.attempt
            &&& rec.fencing_epoch == run.request.fencing_epoch
            &&& rec.agent_uid == run.agent_uid
            &&& rec.boot_id == run.boot_id
            &&& rec.temp_path == run.request.temp_path
            &&& rec.final_path == run.request.final_path
            &&& rec.trash_path == run.request.trash_path
            &&& rec.expected_content_sig == run.request.expected_content_sig
        },
        run.stage is Staged == a is Find,
        run.stage is Source == a is Observe,
        run.stage is OpenStaged == a is Open,
        run.stage is SyncStaged == a is Sync,
        run.stage is TrashDir == a is MakeDir,
        run.stage is Measure == a is Measure,
        (run.stage is SyncStagedDir || run.stage is SyncUnfinished || run.stage is SyncInstalled)
            == a is SyncDir,
        (run.stage is Retire || run.stage is Install || run.stage is Restore) == a is Rename,
{
}

/// A stage was passed, with success, before an instant.
pub open spec fn passed(
    runs: Seq<CommitRun>,
    outcomes: Seq<CommitOutcome>,
    i: int,
    stage: CommitStage,
) -> bool {
    exists|j: int|
        0 <= j < i && (#[trigger] runs[j]).stage == stage && !(outcomes[j] is Failed
            || outcomes[j] is JournalFailed)
}

/// The stage before, where it has to have succeeded.
proof fn lemma_stage_before(
    runs: Seq<CommitRun>,
    scenes: Seq<Scene>,
    outcomes: Seq<CommitOutcome>,
    i: int,
    now: CommitStage,
    before: CommitStage,
)
    requires
        is_execution(runs, scenes, outcomes),
        0 <= i < runs.len(),
        runs[i].stage == now,
        match now {
            CommitStage::OpenStaged => before is JournalGranted,
            CommitStage::SyncStaged => before is OpenStaged,
            CommitStage::SyncStagedDir => before is SyncStaged,
            CommitStage::Retire => before is TrashDir,
            CommitStage::JournalRetired => before is Retire,
            CommitStage::Install => before is JournalRetired,
            CommitStage::JournalInstalled => before is Install,
            CommitStage::SyncInstalled => before is JournalInstalled,
            _ => false,
        },
    ensures
        i > 0,
        runs[i - 1].stage == before,
        passed(runs, outcomes, i, before),
{
    let o = outcomes[i - 1];
    assert(follows(runs[i - 1], o, CommitProgress::Continue(runs[i])));
    assert(runs[i - 1].stage == before && !(o is Failed || o is JournalFailed));
}

/// Nothing irreversible happens unprepared. Before the original moves, the
/// intent is journalled, the output is flushed and the trash directory is there.
/// Before the output moves, the original has been retired and that is
/// journalled. Before an install is reported, the output was moved and that is
/// journalled.
pub proof fn law_nothing_moves_unprepared(
    runs: Seq<CommitRun>,
    scenes: Seq<Scene>,
    outcomes: Seq<CommitOutcome>,
    i: int,
)
    requires
        is_execution(runs, scenes, outcomes),
        0 <= i < runs.len(),
    ensures
        runs[i].stage is Retire ==> {
            &&& passed(runs, outcomes, i, CommitStage::JournalGranted)
            &&& passed(runs, outcomes, i, CommitStage::SyncStaged)
            &&& passed(runs, outcomes, i, CommitStage::TrashDir)
        },
        runs[i].stage is Install ==> {
            &&& passed(runs, outcomes, i, CommitStage::Retire)
            &&& passed(runs, outcomes, i, CommitStage::JournalRetired)
        },
        runs[i].stage is SyncInstalled ==> {
            &&& passed(runs, outcomes, i, CommitStage::Install)
            &&& passed(runs, outcomes, i, CommitStage::JournalInstalled)
        },
{
    if runs[i].stage is Retire {
        lemma_stage_before(runs, scenes, outcomes, i, CommitStage::Retire, CommitStage::TrashDir);
        assert(follows(runs[i - 2], outcomes[i - 2], CommitProgress::Continue(runs[i - 1])));
        assert(runs[i - 2].stage is SyncStagedDir);
        lemma_stage_before(
            runs,
            scenes,
            outcomes,
            i - 2,
            CommitStage::SyncStagedDir,
            CommitStage::SyncStaged,
        );
        lemma_stage_before(
            runs,
            scenes,
            outcomes,
            i - 3,
            CommitStage::SyncStaged,
            CommitStage::OpenStaged,
        );
        lemma_stage_before(
            runs,
            scenes,
            outcomes,
            i - 4,
            CommitStage::OpenStaged,
            CommitStage::JournalGranted,
        );
    } else if runs[i].stage is Install {
        lemma_stage_before(
            runs,
            scenes,
            outcomes,
            i,
            CommitStage::Install,
            CommitStage::JournalRetired,
        );
        lemma_stage_before(
            runs,
            scenes,
            outcomes,
            i - 1,
            CommitStage::JournalRetired,
            CommitStage::Retire,
        );
    } else if runs[i].stage is SyncInstalled {
        lemma_stage_before(
            runs,
            scenes,
            outcomes,
            i,
            CommitStage::SyncInstalled,
            CommitStage::JournalInstalled,
        );
        lemma_stage_before(
            runs,
            scenes,
            outcomes,
            i - 1,
            CommitStage::JournalInstalled,
            CommitStage::Install,
        );
    }
}

/// A run that meets no failure and an unchanged source installs: it comes to the
/// next step at every step, and its last answer is `Installed`.
pub proof fn law_a_run_without_failures_installs(
    run: CommitRun,
    o: CommitOutcome,
    p: CommitProgress,
)
    requires
        follows(run, o, p),
        !(o is Failed || o is JournalFailed),
        run.stage is Source ==> o == CommitOutcome::Observed(run.request.source_guard),
        !(run.stage is Restore || run.stage is SyncUnfinished || run.stage is ClearUnfinished),
    ensures
        run.stage is ClearInstalled ==> (p matches CommitProgress::Resolved(r) && r is Installed),
        !(run.stage is ClearInstalled) ==> (p matches CommitProgress::Continue(next) && {
            &&& run.stage is Staged ==> next.stage is Source
            &&& run.stage is Source ==> next.stage is JournalGranted
            &&& run.stage is JournalGranted ==> next.stage is OpenStaged
            &&& run.stage is OpenStaged ==> next.stage is SyncStaged
            &&& run.stage is SyncStaged ==> next.stage is SyncStagedDir
            &&& run.stage is SyncStagedDir ==> next.stage is TrashDir
            &&& run.stage is TrashDir ==> next.stage is Retire
            &&& run.stage is Retire ==> next.stage is JournalRetired
            &&& run.stage is JournalRetired ==> next.stage is Install
            &&& run.stage is Install ==> next.stage is JournalInstalled
            &&& run.stage is JournalInstalled ==> next.stage is SyncInstalled
            &&& run.stage is SyncInstalled ==> next.stage is Measure
            &&& run.stage is Measure ==> next.stage is ClearInstalled
        }),
{
}

/// What recovery concludes and does in each window. A file at the destination
/// is the original where nothing was journalled as moved, and the replacement
/// where something was; it is never renamed over. An empty destination gets the
/// original back from the trash. The staged output goes, unless nothing at all
/// can be found.
pub proof fn law_recovery_resolves_every_window(
    phase: IntentPhase,
    final_exists: bool,
    trash_exists: bool,
)
    ensures
        final_exists && phase is Granted ==> concluded(phase, final_exists, trash_exists)
            is SourceIntact,
        final_exists && !(phase is Granted) ==> concluded(phase, final_exists, trash_exists)
            is Installed,
        !final_exists && trash_exists ==> concluded(phase, final_exists, trash_exists)
            is SourceRestored,
        !final_exists && !trash_exists ==> concluded(phase, final_exists, trash_exists)
            is NeedsOperator,
        recovery_actions(phase, final_exists, trash_exists).contains(
            RecoveryAction::RestoreOriginal,
        ) == (!final_exists && trash_exists),
        recovery_actions(phase, final_exists, trash_exists).contains(
            RecoveryAction::DiscardStaged,
        ) == (final_exists || trash_exists || !(phase is Retired)),
{
    let a = recovery_actions(phase, final_exists, trash_exists);
    if !final_exists && trash_exists {
        if phase is Installed {
            assert(a[0] == RecoveryAction::DiscardStaged && a[1]
                == RecoveryAction::RestoreOriginal);
        } else {
            assert(a[0] == RecoveryAction::RestoreOriginal && a[2]
                == RecoveryAction::DiscardStaged);
        }
    } else if final_exists || !(phase is Retired) {
        assert(a[0] == RecoveryAction::DiscardStaged);
        assert(a.len() == 1);
    } else {
        assert(a.len() == 0);
    }
}

/// A record is dropped exactly where its install is resolved: what an operator
/// must look at keeps its evidence.
pub proof fn law_only_resolved_records_are_dropped(
    v: Seq<(IntentRecord, Resolution)>,
    key: (String, i64),
)
    ensures
        resolved_keys(v).contains(key) <==> exists|i: int|
            0 <= i < v.len() && !((#[trigger] v[i]).1 is NeedsOperator) && v[i].0.job_id == key.0
                && v[i].0.attempt == key.1,
    decreases v.len(),
{
    if v.len() > 0 {
        let d = v.drop_last();
        law_only_resolved_records_are_dropped(d, key);
        let keys = resolved_keys(d);
        let last = v[v.len() - 1];
        if !(last.1 is NeedsOperator) {
            let own = (last.0.job_id, last.0.attempt);
            assert(resolved_keys(v) == keys.push(own));
            assert(keys.push(own)[keys.len() as int] == own);
            if keys.contains(key) {
                let k = choose|k: int| 0 <= k < keys.len() && keys[k] == key;
                assert(keys.push(own)[k] == key);
            }
            if keys.push(own).contains(key) {
                let k = choose|k: int| 0 <= k < keys.push(own).len() && keys.push(own)[k] == key;
                if k < keys.len() {
                    assert(keys[k] == key);
                }
            }
        }
        if resolved_keys(d).contains(key) {
            let i = choose|i: int|
                0 <= i < d.len() && !((#[trigger] d[i]).1 is NeedsOperator) && d[i].0.job_id
                    == key.0 && d[i].0.attempt == key.1;
            assert(v[i] == d[i]);
        }
        if exists|i: int|
            0 <= i < v.len() && !((#[trigger] v[i]).1 is NeedsOperator) && v[i].0.job_id == key.0
                && v[i].0.attempt == key.1 {
            let i = choose|i: int|
                0 <= i < v.len() && !((#[trigger] v[i]).1 is NeedsOperator) && v[i].0.job_id
                    == key.0 && v[i].0.attempt == key.1;
            if i < d.len() {
                assert(d[i] == v[i]);
            }
        }
    } else {
        assert(!resolved_keys(v).contains(key));
    }
}

/// Why nothing was installed, in words: there was no output, the source changed,
/// or it was gone.
pub proof fn law_why_nothing_was_installed(run: CommitRun, o: CommitOutcome, p: CommitProgress)
    requires
        follows(run, o, p),
    ensures
        run.stage is Staged && (o is Failed || o is JournalFailed) ==> (p
            matches CommitProgress::Resolved(Resolution::SourceIntact { reason }) && reason@
            == "no staged output at "@ + run.request.temp_path@),
        run.stage is Source && !(o is Observed) ==> (p matches CommitProgress::Resolved(
            Resolution::SourceIntact { reason },
        ) && reason@ == "source "@ + run.request.final_path@
            + " is no longer there; nothing was installed"@),
        run.stage is ClearUnfinished && !(o is Failed || o is JournalFailed) && run.restored ==> (p
            matches CommitProgress::Resolved(Resolution::SourceRestored { reason }) && reason@
            == "installing the replacement failed ("@ + run.failure@ + "); original restored"@),
        run.stage is ClearUnfinished && !(o is Failed || o is JournalFailed) && !run.restored ==> (p
            matches CommitProgress::Resolved(Resolution::NeedsOperator { detail }) && detail@
            == "install failed ("@ + run.failure@
            + ") and the original could not be restored from "@ + run.request.trash_path@),
{
}

/// A step that fails before anything was moved breaks the run, and is named with
/// the file it failed on and the reason.
pub proof fn law_a_broken_step_is_named(run: CommitRun, why: String, p: CommitProgress)
    requires
        follows(run, CommitOutcome::Failed(why), p),
    ensures
        run.stage is OpenStaged ==> (p matches CommitProgress::Broken(AgentError::Commit {
            step,
            path,
            source,
        }) && step@ == "open staged output"@ && path@ == run.request.temp_path@ && source@
            == why@),
        run.stage is SyncStaged ==> (p matches CommitProgress::Broken(AgentError::Commit {
            step,
            path,
            source,
        }) && step@ == "fsync staged output"@ && path@ == run.request.temp_path@ && source@
            == why@),
        run.stage is Retire ==> (p matches CommitProgress::Broken(AgentError::Commit {
            step,
            path,
            source,
        }) && step@ == "retire original"@ && path@ == run.request.final_path@ && source@ == why@),
        run.stage is TrashDir ==> (p matches CommitProgress::Broken(AgentError::Commit {
            step,
            source,
            ..
        }) && step@ == "create trash directory"@ && source@ == why@),
        run.stage is JournalGranted || run.stage is JournalRetired || run.stage is JournalInstalled
            || run.stage is ClearInstalled || run.stage is ClearUnfinished ==> (p
            matches CommitProgress::Broken(AgentError::Journal { path, source }) && path@
            == run.record_path@ && source@ == why@),
        run.stage is SyncStagedDir ==> (p matches CommitProgress::Continue(next) && next.stage
            is TrashDir),
{
}

} // verus!
