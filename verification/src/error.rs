//! Errors of the domain layer.
use vstd::prelude::*;

use crate::text;

verus! {

/// Inputs that do not make sense. Never an I/O failure: nothing here does I/O.
#[derive(Debug, PartialEq, Eq)]
#[non_exhaustive]
pub enum CoreError {
    /// A preset name was requested that no registry entry matches.
    UnknownPreset {
        /// The name that was requested.
        name: String,
        /// Comma-separated list of names and aliases that would have worked.
        valid: String,
    },
    /// A path could not be interpreted.
    InvalidPath(String),
    /// ffprobe output was not parseable.
    MalformedProbe(String),
}

impl CoreError {
    /// The message shown for this error.
    pub open spec fn spec_message(self) -> Seq<char> {
        match self {
            CoreError::UnknownPreset { name, valid } => "unknown preset '"@ + name@
                + "'; valid presets are: "@ + valid@,
            CoreError::InvalidPath(p) => "invalid path: "@ + p@,
            CoreError::MalformedProbe(e) => "malformed ffprobe output: "@ + e@,
        }
    }

    /// The message shown for this error.
    pub fn message(&self) -> (s: String)
        ensures
            s@ == self.spec_message(),
    {
        match self {
            CoreError::UnknownPreset { name, valid } => {
                let mut s = text::cat3("unknown preset '", name.as_str(), "'; valid presets are: ");
                s.append(valid.as_str());
                s
            },
            CoreError::InvalidPath(p) => text::cat2("invalid path: ", p.as_str()),
            CoreError::MalformedProbe(e) => text::cat2("malformed ffprobe output: ", e.as_str()),
        }
    }
}

/// Anything that can go wrong in an agent. The underlying cause is carried as
/// its message.
#[derive(Debug, Clone, PartialEq, Eq)]
#[non_exhaustive]
pub enum AgentError {
    /// The work area could not be prepared or cleaned.
    WorkArea {
        /// Which path.
        path: String,
        /// Underlying error.
        source: String,
    },
    /// The intent journal could not be read or written. Fatal to an install:
    /// the journal is what makes a crash survivable.
    Journal {
        /// Which path.
        path: String,
        /// Underlying error.
        source: String,
    },
    /// A step of the commit ritual failed against the filesystem.
    Commit {
        /// Which step.
        step: &'static str,
        /// Which path.
        path: String,
        /// Underlying error.
        source: String,
    },
    /// The work area is not on the destination's filesystem, so a rename
    /// between them is not atomic. A hard refusal rather than a fallback.
    CrossDeviceWorkArea {
        /// The staging directory.
        work_area: String,
        /// The destination directory.
        destination: String,
    },
    /// A child process could not be started or waited on.
    Execute {
        /// Which binary.
        program: String,
        /// Underlying error.
        source: String,
    },
    /// An output could not be probed.
    Probe {
        /// Which file.
        path: String,
        /// What went wrong.
        reason: String,
    },
    /// The platform cannot report which device a path is on.
    DeviceUnknowable {
        /// Which path.
        path: String,
    },
}

impl AgentError {
    /// The message shown for this error.
    pub open spec fn spec_message(self) -> Seq<char> {
        match self {
            AgentError::WorkArea { path, source } => "work area "@ + path@ + ": "@ + source@,
            AgentError::Journal { path, source } => "intent journal "@ + path@ + ": "@ + source@,
            AgentError::Commit { step, path, source } => "commit ritual, "@ + step@ + " on "@ + path@
                + ": "@ + source@,
            AgentError::CrossDeviceWorkArea { work_area, destination } => "work area "@ + work_area@
                + " is not on the same filesystem as "@ + destination@
                + "; an atomic install is impossible -- colocate the work area"@,
            AgentError::Execute { program, source } => "running "@ + program@ + ": "@ + source@,
            AgentError::Probe { path, reason } => "probing "@ + path@ + ": "@ + reason@,
            AgentError::DeviceUnknowable { path } => "cannot determine the filesystem of "@ + path@
                + "; this agent must be produce-only"@,
        }
    }

    /// The message shown for this error.
    pub fn message(&self) -> (s: String)
        ensures
            s@ == self.spec_message(),
    {
        match self {
            AgentError::WorkArea { path, source } => {
                let mut s = text::cat3("work area ", path.as_str(), ": ");
                s.append(source.as_str());
                s
            },
            AgentError::Journal { path, source } => {
                let mut s = text::cat3("intent journal ", path.as_str(), ": ");
                s.append(source.as_str());
                s
            },
            AgentError::Commit { step, path, source } => {
                let mut s = text::cat3("commit ritual, ", step, " on ");
                s.append(path.as_str());
                s.append(": ");
                s.append(source.as_str());
                s
            },
            AgentError::CrossDeviceWorkArea { work_area, destination } => {
                let mut s = text::cat3(
                    "work area ",
                    work_area.as_str(),
                    " is not on the same filesystem as ",
                );
                s.append(destination.as_str());
                s.append("; an atomic install is impossible -- colocate the work area");
                s
            },
            AgentError::Execute { program, source } => {
                let mut s = text::cat3("running ", program.as_str(), ": ");
                s.append(source.as_str());
                s
            },
            AgentError::Probe { path, reason } => {
                let mut s = text::cat3("probing ", path.as_str(), ": ");
                s.append(reason.as_str());
                s
            },
            AgentError::DeviceUnknowable { path } => text::cat3(
                "cannot determine the filesystem of ",
                path.as_str(),
                "; this agent must be produce-only",
            ),
        }
    }
}

/// Anything that can go wrong interpreting a peer.
#[derive(Debug, PartialEq, Eq)]
#[non_exhaustive]
pub enum ProtoError {
    /// A field carried a value this build does not understand.
    Unrecognised {
        /// Which field.
        field: &'static str,
        /// What it held.
        value: String,
    },
    /// A required field was absent.
    Missing(&'static str),
}

impl ProtoError {
    /// The message shown for this error.
    pub open spec fn spec_message(self) -> Seq<char> {
        match self {
            ProtoError::Unrecognised { field, value } => field@ + " holds "@ + value@
                + ", which this build does not recognise"@,
            ProtoError::Missing(field) => field@ + " is required but was not set"@,
        }
    }

    /// The message shown for this error.
    pub fn message(&self) -> (s: String)
        ensures
            s@ == self.spec_message(),
    {
        match self {
            ProtoError::Unrecognised { field, value } => {
                let mut s = text::cat3(field, " holds ", value.as_str());
                s.append(", which this build does not recognise");
                s
            },
            ProtoError::Missing(field) => text::cat2(field, " is required but was not set"),
        }
    }
}

/// What each fault of the core says.
pub proof fn law_what_a_core_fault_says(e: CoreError)
    ensures
        e matches CoreError::UnknownPreset { name, valid } ==> e.spec_message()
            == "unknown preset '"@ + name@ + "'; valid presets are: "@ + valid@,
        e matches CoreError::InvalidPath(p) ==> e.spec_message() == "invalid path: "@ + p@,
        e matches CoreError::MalformedProbe(m) ==> e.spec_message()
            == "malformed ffprobe output: "@ + m@,
{
}

/// What each fault of an agent says: what failed, where, and why.
pub proof fn law_what_an_agent_fault_says(e: AgentError)
    ensures
        e matches AgentError::WorkArea { path, source } ==> e.spec_message() == "work area "@
            + path@ + ": "@ + source@,
        e matches AgentError::Journal { path, source } ==> e.spec_message() == "intent journal "@
            + path@ + ": "@ + source@,
        e matches AgentError::Commit { step, path, source } ==> e.spec_message()
            == "commit ritual, "@ + step@ + " on "@ + path@ + ": "@ + source@,
        e matches AgentError::CrossDeviceWorkArea { work_area, destination } ==> e.spec_message()
            == "work area "@ + work_area@ + " is not on the same filesystem as "@ + destination@
            + "; an atomic install is impossible -- colocate the work area"@,
        e matches AgentError::Execute { program, source } ==> e.spec_message() == "running "@
            + program@ + ": "@ + source@,
        e matches AgentError::Probe { path, reason } ==> e.spec_message() == "probing "@ + path@
            + ": "@ + reason@,
        e matches AgentError::DeviceUnknowable { path } ==> e.spec_message()
            == "cannot determine the filesystem of "@ + path@
            + "; this agent must be produce-only"@,
{
}

/// What each fault of the protocol says: the field, and what it holds.
pub proof fn law_what_a_protocol_fault_says(e: ProtoError)
    ensures
        e matches ProtoError::Unrecognised { field, value } ==> e.spec_message() == field@
            + " holds "@ + value@ + ", which this build does not recognise"@,
        e matches ProtoError::Missing(field) ==> e.spec_message() == field@
            + " is required but was not set"@,
{
}

} // verus!
