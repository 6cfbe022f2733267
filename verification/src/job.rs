//! Job identity and the state machine.
//!
//! Transitions are checked rather than assumed, so an impossible edge is a
//! rejected write instead of a row that contradicts its own history.
use vstd::prelude::*;

use crate::capability::Requirements;
use crate::facts::SizeBucket;
use crate::text;

verus! {

/// What kind of work a job performs.
#[derive(Debug, Clone, Copy, PartialEq, Eq, Hash, Structural)]
#[non_exhaustive]
pub enum JobClass {
    /// Audio-only remux or re-encode; video is copied.
    Audio,
    /// Video encode on a GPU.
    VideoGpu,
    /// Video encode on CPU.
    VideoCpu,
    /// Probe only.
    Probe,
    /// Verification pass.
    Verify,
}

impl JobClass {
    /// The canonical spelling.
    pub open spec fn spelling(self) -> Seq<char> {
        match self {
            JobClass::Audio => "Audio"@,
            JobClass::VideoGpu => "VideoGpu"@,
            JobClass::VideoCpu => "VideoCpu"@,
            JobClass::Probe => "Probe"@,
            JobClass::Verify => "Verify"@,
        }
    }

    /// What a canonical spelling names.
    pub open spec fn spelled(s: Seq<char>) -> Option<JobClass> {
        if s == "Audio"@ {
            Some(JobClass::Audio)
        } else if s == "VideoGpu"@ {
            Some(JobClass::VideoGpu)
        } else if s == "VideoCpu"@ {
            Some(JobClass::VideoCpu)
        } else if s == "Probe"@ {
            Some(JobClass::Probe)
        } else if s == "Verify"@ {
            Some(JobClass::Verify)
        } else {
            None
        }
    }

    /// The canonical spelling, which is also the value stored.
    pub fn as_str(self) -> (r: &'static str)
        ensures
            r@ == self.spelling(),
            self is Audio ==> r@ == "Audio"@,
            self is VideoGpu ==> r@ == "VideoGpu"@,
            self is VideoCpu ==> r@ == "VideoCpu"@,
            self is Probe ==> r@ == "Probe"@,
            self is Verify ==> r@ == "Verify"@,
    {
        match self {
            JobClass::Audio => "Audio",
            JobClass::VideoGpu => "VideoGpu",
            JobClass::VideoCpu => "VideoCpu",
            JobClass::Probe => "Probe",
            JobClass::Verify => "Verify",
        }
    }

    /// Parse the canonical spelling. `None` for anything else.
    pub fn parse(s: &str) -> (r: Option<JobClass>)
        ensures
            r == JobClass::spelled(s@),
            r == Some(JobClass::Audio) ==> s@ == "Audio"@,
            r == Some(JobClass::VideoGpu) ==> s@ == "VideoGpu"@,
            r == Some(JobClass::VideoCpu) ==> s@ == "VideoCpu"@,
            r == Some(JobClass::Probe) ==> s@ == "Probe"@,
            r == Some(JobClass::Verify) ==> s@ == "Verify"@,
    {
        if text::same(s, "Audio") {
            Some(JobClass::Audio)
        } else if text::same(s, "VideoGpu") {
            Some(JobClass::VideoGpu)
        } else if text::same(s, "VideoCpu") {
            Some(JobClass::VideoCpu)
        } else if text::same(s, "Probe") {
            Some(JobClass::Probe)
        } else if text::same(s, "Verify") {
            Some(JobClass::Verify)
        } else {
            None
        }
    }

    /// Every value survives its spelling, and nothing else is accepted.
    pub proof fn law_round_trip(self, s: Seq<char>)
        ensures
            JobClass::spelled(self.spelling()) == Some(self),
            JobClass::spelled(s) matches Some(v) ==> v.spelling() == s,
    {
        reveal_strlit("Audio");
        reveal_strlit("VideoGpu");
        reveal_strlit("VideoCpu");
        reveal_strlit("Probe");
        reveal_strlit("Verify");
        assert("Audio"@.len() == 5);
        assert("VideoGpu"@.len() == 8);
        assert("VideoCpu"@.len() == 8);
        assert("Probe"@.len() == 5);
        assert("Verify"@.len() == 6);
        assert("VideoGpu"@[5] != "VideoCpu"@[5]);
        assert("Audio"@[0] != "Probe"@[0]);
    }
}

/// Where a job is in its life.
#[derive(Debug, Clone, Copy, PartialEq, Eq, Hash, Structural)]
#[non_exhaustive]
pub enum JobState {
    /// Created, not yet considered.
    Pending,
    /// Considered and currently unroutable: no agent can satisfy it.
    Blocked,
    /// Ready to dispatch.
    Eligible,
    /// Handed to an agent, not yet started.
    Assigned,
    /// ffmpeg is running.
    Running,
    /// Output is being validated.
    Verifying,
    /// The replace ritual is underway.
    Committing,
    /// Failed transiently; will be retried.
    Retrying,
    /// Done.
    Succeeded,
    /// Failed, retries exhausted or permanent.
    Failed,
    /// Cancelled by an operator.
    Cancelled,
    /// Retries exhausted; retained for inspection, never auto-retried.
    DeadLettered,
    /// Ambiguous outcome a human must resolve. Never auto-resolved.
    NeedsOperator,
}

/// The states nothing leaves.
pub open spec fn terminal(s: JobState) -> bool {
    s is Succeeded || s is Failed || s is Cancelled || s is DeadLettered || s is NeedsOperator
}

/// The states that hold a slot on an agent.
pub open spec fn holding(s: JobState) -> bool {
    s is Assigned || s is Running || s is Verifying || s is Committing
}

/// The edges of the state machine.
pub open spec fn legal(from: JobState, to: JobState) -> bool {
    &&& !terminal(from)
    &&& {
        ||| to is Cancelled
        ||| match from {
            JobState::Pending => to is Blocked || to is Eligible,
            JobState::Blocked => to is Eligible,
            JobState::Eligible => to is Blocked || to is Assigned,
            JobState::Assigned => to is Running || to is Retrying || to is Failed,
            JobState::Running => to is Verifying || to is Retrying || to is Failed,
            JobState::Verifying => to is Committing || to is Retrying || to is Failed,
            JobState::Committing => to is Succeeded || to is Retrying || to is Failed
                || to is NeedsOperator,
            JobState::Retrying => to is Eligible || to is Blocked || to is DeadLettered
                || to is Failed,
            _ => false,
        }
    }
}

impl JobState {
    /// Whether this state is terminal.
    pub fn is_terminal(self) -> (r: bool)
        ensures
            r == terminal(self),
    {
        matches!(
            self,
            JobState::Succeeded | JobState::Failed | JobState::Cancelled | JobState::DeadLettered
                | JobState::NeedsOperator
        )
    }

    /// Whether a job in this state holds capacity on an agent.
    ///
    /// Capacity is released when a job leaves this set, not when it terminates.
    pub fn holds_capacity(self) -> (r: bool)
        ensures
            r == holding(self),
    {
        matches!(
            self,
            JobState::Assigned | JobState::Running | JobState::Verifying | JobState::Committing
        )
    }

    /// Whether `from -> to` is a legal transition.
    pub fn can_transition(from: JobState, to: JobState) -> (r: bool)
        ensures
            r == legal(from, to),
    {
        if from.is_terminal() {
            return false;
        }
        match (from, to) {
            // Cancellation can interrupt anything not yet terminal.
            (_, JobState::Cancelled) => true,
            (JobState::Committing, JobState::NeedsOperator) => true,
            (JobState::Pending, JobState::Blocked | JobState::Eligible) => true,
            // Routability is re-evaluated as the fleet changes, both ways.
            (JobState::Blocked, JobState::Eligible) => true,
            (JobState::Eligible, JobState::Blocked) => true,
            (JobState::Eligible, JobState::Assigned) => true,
            (JobState::Assigned, JobState::Running) => true,
            // An agent may reject an assignment it re-validates as unsuitable.
            (JobState::Assigned, JobState::Retrying | JobState::Failed) => true,
            (JobState::Running, JobState::Verifying | JobState::Retrying | JobState::Failed) => true,
            (
                JobState::Verifying,
                JobState::Committing | JobState::Retrying | JobState::Failed,
            ) => true,
            (
                JobState::Committing,
                JobState::Succeeded | JobState::Retrying | JobState::Failed,
            ) => true,
            (
                JobState::Retrying,
                JobState::Eligible | JobState::Blocked | JobState::DeadLettered
                | JobState::Failed,
            ) => true,
            _ => false,
        }
    }
}

/// A unit of work, before it is persisted.
#[derive(Debug, Clone, PartialEq)]
pub struct JobSpec {
    /// What kind of work.
    pub class: JobClass,
    /// Size band, used to partition queues.
    pub size_bucket: SizeBucket,
    /// What an agent must provide to run this.
    pub requirements: Requirements,
    /// Signature of the facts this job was planned from. The agent aborts if
    /// the source no longer matches.
    pub expected_content_sig: String,
}

/// A history in which every step is an edge.
pub open spec fn is_history(h: Seq<JobState>) -> bool {
    forall|i: int| 0 <= i < h.len() - 1 ==> legal(#[trigger] h[i], h[i + 1])
}

/// A terminal state is the end of every history that reaches it.
pub proof fn law_terminal_states_are_immutable(h: Seq<JobState>, i: int)
    requires
        is_history(h),
        0 <= i < h.len(),
        terminal(h[i]),
    ensures
        i == h.len() - 1,
{
}

/// Cancellation interrupts anything that is not terminal.
pub proof fn law_cancellation_is_always_open(s: JobState)
    ensures
        legal(s, JobState::Cancelled) == !terminal(s),
{
}

/// Only a retry leads to the dead letters, only a commit to an operator, and
/// only a commit to success.
pub proof fn law_ends_have_one_way_in(from: JobState)
    ensures
        legal(from, JobState::DeadLettered) == (from is Retrying),
        legal(from, JobState::NeedsOperator) == (from is Committing),
        legal(from, JobState::Succeeded) == (from is Committing),
{
}

/// Nothing gains a slot but by being assigned, and a retry has let go of it.
pub proof fn law_slots_are_taken_by_assignment(from: JobState, to: JobState)
    requires
        legal(from, to),
    ensures
        !holding(from) && holding(to) ==> from is Eligible && to is Assigned,
        !holding(JobState::Retrying),
        terminal(to) ==> !holding(to),
{
}

/// Every edge of the machine. Work goes forward one state at a time, from
/// waiting to committed; what holds a slot may be retried or fail; a retry waits
/// again, fails or is given up; and anything that has not ended may be cancelled.
pub proof fn law_every_edge(from: JobState, to: JobState)
    ensures
        from is Pending ==> (legal(from, to) <==> to is Blocked || to is Eligible || to
            is Cancelled),
        from is Blocked ==> (legal(from, to) <==> to is Eligible || to is Cancelled),
        from is Eligible ==> (legal(from, to) <==> to is Blocked || to is Assigned || to
            is Cancelled),
        from is Assigned ==> (legal(from, to) <==> to is Running || to is Retrying || to is Failed
            || to is Cancelled),
        from is Running ==> (legal(from, to) <==> to is Verifying || to is Retrying || to is Failed
            || to is Cancelled),
        from is Verifying ==> (legal(from, to) <==> to is Committing || to is Retrying || to
            is Failed || to is Cancelled),
        from is Committing ==> (legal(from, to) <==> to is Succeeded || to is NeedsOperator || to
            is Retrying || to is Failed || to is Cancelled),
        from is Retrying ==> (legal(from, to) <==> to is Eligible || to is Blocked || to
            is DeadLettered || to is Failed || to is Cancelled),
        from is Succeeded || from is Failed || from is Cancelled || from is DeadLettered || from
            is NeedsOperator ==> !legal(from, to),
{
}

/// A state is terminal exactly where nothing can follow it, and holds a slot
/// exactly on the way from assignment to commit.
pub proof fn law_what_terminal_and_holding_mean(s: JobState)
    ensures
        terminal(s) <==> forall|to: JobState| !#[trigger] legal(s, to),
        terminal(s) <==> s is Succeeded || s is Failed || s is Cancelled || s is DeadLettered || s
            is NeedsOperator,
        holding(s) <==> s is Assigned || s is Running || s is Verifying || s is Committing,
        holding(s) ==> legal(s, JobState::Retrying) && legal(s, JobState::Failed),
{
    if !terminal(s) {
        assert(legal(s, JobState::Cancelled));
    }
}

} // verus!
