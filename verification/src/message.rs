//! Message payloads shared by both ends.
use vstd::prelude::*;

use crate::error::ProtoError;
use crate::text;

verus! {

/// How far a commit had got when it was reported.
///
/// A wire value, kept apart from the agent's own phase: an unrecognised one
/// must not become a valid domain state by assignment.
#[derive(Debug, Clone, Copy, PartialEq, Eq, Structural)]
#[non_exhaustive]
pub enum CommitPhase {
    /// Permission granted; nothing has moved.
    Granted,
    /// The original has been moved aside.
    Retired,
    /// The replacement is in place.
    Installed,
}

impl CommitPhase {
    /// The wire spelling.
    pub open spec fn spelling(self) -> Seq<char> {
        match self {
            CommitPhase::Granted => "granted"@,
            CommitPhase::Retired => "retired"@,
            CommitPhase::Installed => "installed"@,
        }
    }

    /// What a lowercase spelling names.
    pub open spec fn spelled(s: Seq<char>) -> Option<CommitPhase> {
        if s == "granted"@ {
            Some(CommitPhase::Granted)
        } else if s == "retired"@ {
            Some(CommitPhase::Retired)
        } else if s == "installed"@ {
            Some(CommitPhase::Installed)
        } else {
            None
        }
    }

    /// The wire spelling.
    pub fn as_str(self) -> (r: &'static str)
        ensures
            r@ == self.spelling(),
            self is Granted ==> r@ == "granted"@,
            self is Retired ==> r@ == "retired"@,
            self is Installed ==> r@ == "installed"@,
    {
        match self {
            CommitPhase::Granted => "granted",
            CommitPhase::Retired => "retired",
            CommitPhase::Installed => "installed",
        }
    }

    /// Parse a wire spelling, in either case. Anything else is refused, not
    /// guessed at.
    pub fn parse(s: &str) -> (r: Result<CommitPhase, ProtoError>)
        ensures
            match CommitPhase::spelled(text::ascii_lower(s@)) {
                Some(p) => r == Ok::<CommitPhase, ProtoError>(p),
                None => {
                    &&& r is Err
                    &&& r->Err_0 is Unrecognised
                    &&& r->Err_0->field@ == "phase"@
                    &&& r->Err_0->value@ == text::ascii_lower(s@)
                },
            },
    {
        let lowered = text::to_ascii_lower(s);
        if text::same(lowered.as_str(), "granted") {
            Ok(CommitPhase::Granted)
        } else if text::same(lowered.as_str(), "retired") {
            Ok(CommitPhase::Retired)
        } else if text::same(lowered.as_str(), "installed") {
            Ok(CommitPhase::Installed)
        } else {
            Err(ProtoError::Unrecognised { field: "phase", value: lowered })
        }
    }

    /// Every phase survives its spelling.
    pub proof fn law_round_trip(self)
        ensures
            CommitPhase::spelled(text::ascii_lower(self.spelling())) == Some(self),
    {
        reveal_strlit("granted");
        reveal_strlit("retired");
        reveal_strlit("installed");
        assert("granted"@.len() == 7);
        assert("retired"@.len() == 7);
        assert("installed"@.len() == 9);
        assert("granted"@[0] != "retired"@[0]);
        assert(text::ascii_lower(self.spelling()) =~= self.spelling());
    }
}

/// An install the agent was in the middle of when it last stopped.
///
/// Replayed when the agent registers, before it accepts any work.
#[derive(Debug, Clone, PartialEq, Eq)]
pub struct LiveIntent {
    /// Which job.
    pub job_id: String,
    /// Which attempt.
    pub attempt: i64,
    /// The epoch under which it was granted.
    pub fencing_epoch: i64,
    /// How far it got.
    pub phase: CommitPhase,
    /// Where the staged output is.
    pub temp_path: String,
    /// Where it was going.
    pub final_path: String,
    /// Where the original was moved to.
    pub trash_path: String,
}

/// Nothing is taken for a phase but its own word.
pub proof fn law_only_the_words_are_phases(s: Seq<char>)
    ensures
        CommitPhase::spelled(s) == Some(CommitPhase::Granted) ==> s == "granted"@,
        CommitPhase::spelled(s) == Some(CommitPhase::Retired) ==> s == "retired"@,
        CommitPhase::spelled(s) == Some(CommitPhase::Installed) ==> s == "installed"@,
        s == "granted"@ ==> CommitPhase::spelled(s) == Some(CommitPhase::Granted),
        s != "granted"@ && s != "retired"@ && s != "installed"@ ==> CommitPhase::spelled(s) is None,
{
}

} // verus!
