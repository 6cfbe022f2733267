//! Where a file is in the discover, probe, evaluate, process cycle.
//!
//! Deliberately separate from the state of a job: what is known about a file
//! and what work is in flight for it drift apart the moment a job fails.
use vstd::prelude::*;

use crate::text;

verus! {

/// What is known about a file.
#[derive(Debug, Clone, Copy, PartialEq, Eq, Hash, Structural)]
#[non_exhaustive]
pub enum FileState {
    /// Seen by a scan; nothing read from it yet.
    Discovered,
    /// A probe is in flight.
    Probing,
    /// Probed; facts are stored and current.
    Probed,
    /// The probe failed. Retried, but never silently treated as "no work".
    ProbeFailed,
    /// A policy decision has been recorded against the stored facts.
    Evaluated,
    /// Work completed and installed.
    Processed,
    /// Held back from all work until an operator intervenes.
    Quarantined,
    /// A scan expected it and it was not there.
    Missing,
}

impl FileState {
    /// The canonical spelling.
    pub open spec fn spelling(self) -> Seq<char> {
        match self {
            FileState::Discovered => "Discovered"@,
            FileState::Probing => "Probing"@,
            FileState::Probed => "Probed"@,
            FileState::ProbeFailed => "ProbeFailed"@,
            FileState::Evaluated => "Evaluated"@,
            FileState::Processed => "Processed"@,
            FileState::Quarantined => "Quarantined"@,
            FileState::Missing => "Missing"@,
        }
    }

    /// What a canonical spelling names.
    pub open spec fn spelled(s: Seq<char>) -> Option<FileState> {
        if s == "Discovered"@ {
            Some(FileState::Discovered)
        } else if s == "Probing"@ {
            Some(FileState::Probing)
        } else if s == "Probed"@ {
            Some(FileState::Probed)
        } else if s == "ProbeFailed"@ {
            Some(FileState::ProbeFailed)
        } else if s == "Evaluated"@ {
            Some(FileState::Evaluated)
        } else if s == "Processed"@ {
            Some(FileState::Processed)
        } else if s == "Quarantined"@ {
            Some(FileState::Quarantined)
        } else if s == "Missing"@ {
            Some(FileState::Missing)
        } else {
            None
        }
    }

    /// The canonical spelling, which is also the value stored.
    pub fn as_str(self) -> (r: &'static str)
        ensures
            r@ == self.spelling(),
            self is Discovered ==> r@ == "Discovered"@,
            self is Probing ==> r@ == "Probing"@,
            self is Probed ==> r@ == "Probed"@,
            self is ProbeFailed ==> r@ == "ProbeFailed"@,
            self is Evaluated ==> r@ == "Evaluated"@,
            self is Processed ==> r@ == "Processed"@,
            self is Quarantined ==> r@ == "Quarantined"@,
            self is Missing ==> r@ == "Missing"@,
    {
        match self {
            FileState::Discovered => "Discovered",
            FileState::Probing => "Probing",
            FileState::Probed => "Probed",
            FileState::ProbeFailed => "ProbeFailed",
            FileState::Evaluated => "Evaluated",
            FileState::Processed => "Processed",
            FileState::Quarantined => "Quarantined",
            FileState::Missing => "Missing",
        }
    }

    /// Parse the canonical spelling. `None` for anything else.
    pub fn parse(s: &str) -> (r: Option<FileState>)
        ensures
            r == FileState::spelled(s@),
            r == Some(FileState::Discovered) ==> s@ == "Discovered"@,
            r == Some(FileState::Probing) ==> s@ == "Probing"@,
            r == Some(FileState::Probed) ==> s@ == "Probed"@,
            r == Some(FileState::ProbeFailed) ==> s@ == "ProbeFailed"@,
            r == Some(FileState::Evaluated) ==> s@ == "Evaluated"@,
            r == Some(FileState::Processed) ==> s@ == "Processed"@,
            r == Some(FileState::Quarantined) ==> s@ == "Quarantined"@,
            r == Some(FileState::Missing) ==> s@ == "Missing"@,
    {
        if text::same(s, "Discovered") {
            Some(FileState::Discovered)
        } else if text::same(s, "Probing") {
            Some(FileState::Probing)
        } else if text::same(s, "Probed") {
            Some(FileState::Probed)
        } else if text::same(s, "ProbeFailed") {
            Some(FileState::ProbeFailed)
        } else if text::same(s, "Evaluated") {
            Some(FileState::Evaluated)
        } else if text::same(s, "Processed") {
            Some(FileState::Processed)
        } else if text::same(s, "Quarantined") {
            Some(FileState::Quarantined)
        } else if text::same(s, "Missing") {
            Some(FileState::Missing)
        } else {
            None
        }
    }

    /// Every value survives its spelling, and nothing else is accepted.
    pub proof fn law_round_trip(self, s: Seq<char>)
        ensures
            FileState::spelled(self.spelling()) == Some(self),
            FileState::spelled(s) matches Some(v) ==> v.spelling() == s,
    {
        reveal_strlit("Discovered");
        reveal_strlit("Probing");
        reveal_strlit("Probed");
        reveal_strlit("ProbeFailed");
        reveal_strlit("Evaluated");
        reveal_strlit("Processed");
        reveal_strlit("Quarantined");
        reveal_strlit("Missing");
        assert("Discovered"@.len() == 10);
        assert("Probing"@.len() == 7);
        assert("Probed"@.len() == 6);
        assert("ProbeFailed"@.len() == 11);
        assert("Evaluated"@.len() == 9);
        assert("Processed"@.len() == 9);
        assert("Quarantined"@.len() == 11);
        assert("Missing"@.len() == 7);
        assert("Evaluated"@[0] != "Processed"@[0]);
        assert("ProbeFailed"@[0] != "Quarantined"@[0]);
        assert("Probing"@[0] != "Missing"@[0]);
    }

    /// Whether stored probe facts for this file are usable by the evaluator.
    ///
    /// `Processed` is among them on purpose: after an audio pass the video pass
    /// may still be owed.
    pub fn has_usable_facts(self) -> (r: bool)
        ensures
            r == (self is Probed || self is Evaluated || self is Processed),
    {
        matches!(self, FileState::Probed | FileState::Evaluated | FileState::Processed)
    }
}

} // verus!
