//! The messages that cross the wire, field by field.
//!
//! A value here may have been set by an older or newer peer, so none of these
//! is a domain type: every one is converted before it is used.
use vstd::prelude::*;

use crate::capability::Cores;
use crate::double::Double;

verus! {

/// Who an agent says it is.
#[derive(Debug, Clone, PartialEq, Eq)]
pub struct AgentIdentity {
    /// Operator-assigned, stable.
    pub agent_id: String,
    /// Per installation.
    pub agent_uid: String,
    /// Per process instance.
    pub boot_id: String,
    /// Version of the agent build.
    pub agent_version: String,
    /// Protocol version this agent speaks.
    pub proto_version: u32,
}

/// A decode path.
#[derive(Debug, Clone, Copy, PartialEq, Eq, Hash, Structural)]
pub enum DecoderKind {
    /// Software decode.
    DkSoftware,
    /// NVIDIA NVDEC.
    DkNvdec,
    /// Intel Quick Sync.
    DkQsv,
    /// VA-API.
    DkVaapi,
    /// Apple VideoToolbox.
    DkVideotoolbox,
}

impl DecoderKind {
    /// The number on the wire.
    pub open spec fn spec_number(self) -> i32 {
        match self {
            DecoderKind::DkSoftware => 0,
            DecoderKind::DkNvdec => 1,
            DecoderKind::DkQsv => 2,
            DecoderKind::DkVaapi => 3,
            DecoderKind::DkVideotoolbox => 4,
        }
    }

    /// The number on the wire.
    pub fn number(self) -> (r: i32)
        ensures
            r == self.spec_number(),
    {
        match self {
            DecoderKind::DkSoftware => 0,
            DecoderKind::DkNvdec => 1,
            DecoderKind::DkQsv => 2,
            DecoderKind::DkVaapi => 3,
            DecoderKind::DkVideotoolbox => 4,
        }
    }

    /// The declared value of a number, where there is one.
    pub fn from_number(v: i32) -> (r: Option<DecoderKind>)
        ensures
            r is Some == (0 <= v <= 4),
            r is Some ==> r->0.spec_number() == v,
    {
        match v {
            0 => Some(DecoderKind::DkSoftware),
            1 => Some(DecoderKind::DkNvdec),
            2 => Some(DecoderKind::DkQsv),
            3 => Some(DecoderKind::DkVaapi),
            4 => Some(DecoderKind::DkVideotoolbox),
            _ => None,
        }
    }
}

/// A trial-decode verdict.
#[derive(Debug, Clone, Copy, PartialEq, Eq, Hash, Structural)]
pub enum DecoderStatus {
    /// Never trialled.
    DsUntested,
    /// Succeeded on the requested path.
    DsVerifiedOk,
    /// Succeeded in software.
    DsVerifiedSoftFallback,
    /// Failed.
    DsVerifiedFail,
}

impl DecoderStatus {
    /// The number on the wire.
    pub open spec fn spec_number(self) -> i32 {
        match self {
            DecoderStatus::DsUntested => 0,
            DecoderStatus::DsVerifiedOk => 1,
            DecoderStatus::DsVerifiedSoftFallback => 2,
            DecoderStatus::DsVerifiedFail => 3,
        }
    }

    /// The number on the wire.
    pub fn number(self) -> (r: i32)
        ensures
            r == self.spec_number(),
    {
        match self {
            DecoderStatus::DsUntested => 0,
            DecoderStatus::DsVerifiedOk => 1,
            DecoderStatus::DsVerifiedSoftFallback => 2,
            DecoderStatus::DsVerifiedFail => 3,
        }
    }

    /// The declared value of a number, where there is one.
    pub fn from_number(v: i32) -> (r: Option<DecoderStatus>)
        ensures
            r is Some == (0 <= v <= 3),
            r is Some ==> r->0.spec_number() == v,
    {
        match v {
            0 => Some(DecoderStatus::DsUntested),
            1 => Some(DecoderStatus::DsVerifiedOk),
            2 => Some(DecoderStatus::DsVerifiedSoftFallback),
            3 => Some(DecoderStatus::DsVerifiedFail),
            _ => None,
        }
    }
}

/// What a rename over an open destination did on a mount.
#[derive(Debug, Clone, Copy, PartialEq, Eq, Hash, Structural)]
pub enum RenameProbeStatus {
    /// Not probed. Grants nothing.
    RpUntested,
    /// The rename is atomic.
    RpAtomicVerified,
    /// It is not.
    RpNotAtomic,
}

impl RenameProbeStatus {
    /// The number on the wire.
    pub open spec fn spec_number(self) -> i32 {
        match self {
            RenameProbeStatus::RpUntested => 0,
            RenameProbeStatus::RpAtomicVerified => 1,
            RenameProbeStatus::RpNotAtomic => 2,
        }
    }

    /// The number on the wire.
    pub fn number(self) -> (r: i32)
        ensures
            r == self.spec_number(),
    {
        match self {
            RenameProbeStatus::RpUntested => 0,
            RenameProbeStatus::RpAtomicVerified => 1,
            RenameProbeStatus::RpNotAtomic => 2,
        }
    }
}

/// A decode triple.
#[derive(Debug, Clone, PartialEq, Eq)]
pub struct DecoderTriple {
    /// Codec name.
    pub codec: String,
    /// Codec profile.
    pub profile: String,
    /// Bits per sample.
    pub bit_depth: u32,
    /// The number of a decode path.
    pub kind: i32,
}

/// A trial-decode result.
#[derive(Debug, Clone, PartialEq, Eq)]
pub struct DecoderCapability {
    /// What was trialled.
    pub triple: Option<DecoderTriple>,
    /// The number of a verdict.
    pub status: i32,
    /// Operator-readable evidence.
    pub evidence: String,
    /// When it was trialled.
    pub probed_at_unix: i64,
}

/// A mount.
#[derive(Debug, Clone, PartialEq, Eq)]
pub struct Mount {
    /// Where the agent sees it.
    pub local_path: String,
    /// What the server calls it.
    pub canonical_prefix: String,
    /// Whether the agent can write there.
    pub writable: bool,
    /// Bytes free on it.
    pub free_bytes: u64,
    /// The number of a rename verdict.
    pub rename_probe: i32,
}

/// A capability document.
#[derive(Debug, Clone, PartialEq, Eq)]
pub struct Capability {
    /// Platform, empty when unknown.
    pub platform: String,
    /// Cores after any quota.
    pub effective_cores: Cores,
    /// Cores the machine has.
    pub physical_cores: u32,
    /// Work classes.
    pub classes: Vec<String>,
    /// Encoders, as ffmpeg names them.
    pub encoders: Vec<String>,
    /// Muxers, as ffmpeg names them.
    pub muxers: Vec<String>,
    /// Trial-decode verdicts.
    pub decoders: Vec<DecoderCapability>,
    /// Mounts.
    pub mounts: Vec<Mount>,
    /// Free bytes in the work area.
    pub workarea_free_bytes: u64,
    /// Hash of the document this came from.
    pub capability_hash: String,
    /// Operator labels.
    pub labels: Vec<(String, String)>,
    /// First line of the ffmpeg version.
    pub ffmpeg_version: String,
    /// First line of the ffprobe version.
    pub ffprobe_version: String,
}

impl Default for Capability {
    /// An agent that says nothing of itself.
    fn default() -> (r: Capability)
        ensures
            r.platform@.len() == 0,
            r.effective_cores.amount.bits == 0,
            r.effective_cores.json@ == "0.0"@,
            r.effective_cores.shown@ == "0"@,
            r.physical_cores == 0,
            r.classes@.len() == 0,
            r.encoders@.len() == 0,
            r.muxers@.len() == 0,
            r.decoders@.len() == 0,
            r.mounts@.len() == 0,
            r.workarea_free_bytes == 0,
            r.capability_hash@.len() == 0,
            r.labels@.len() == 0,
            r.ffmpeg_version@.len() == 0,
            r.ffprobe_version@.len() == 0,
    {
        Capability {
            platform: String::new(),
            effective_cores: Cores {
                amount: Double { bits: 0 },
                json: "0.0".to_owned(),
                shown: "0".to_owned(),
            },
            physical_cores: 0,
            classes: Vec::new(),
            encoders: Vec::new(),
            muxers: Vec::new(),
            decoders: Vec::new(),
            mounts: Vec::new(),
            workarea_free_bytes: 0,
            capability_hash: String::new(),
            labels: Vec::new(),
            ffmpeg_version: String::new(),
            ffprobe_version: String::new(),
        }
    }
}

/// An install the agent was in the middle of.
#[derive(Debug, Clone, PartialEq, Eq)]
pub struct LiveIntent {
    /// Which job.
    pub job_id: String,
    /// Which attempt.
    pub attempt: u32,
    /// The epoch under which it was granted.
    pub fencing_epoch: u64,
    /// How far it got.
    pub phase: String,
    /// Where the staged output is.
    pub temp_path: String,
    /// Where it was going.
    pub final_path: String,
    /// Where the original was moved to.
    pub trash_path: String,
}

impl Default for LiveIntent {
    /// An intent with nothing set.
    fn default() -> (r: LiveIntent)
        ensures
            r.job_id@.len() == 0,
            r.attempt == 0,
            r.fencing_epoch == 0,
            r.phase@.len() == 0,
            r.temp_path@.len() == 0,
            r.final_path@.len() == 0,
            r.trash_path@.len() == 0,
    {
        LiveIntent {
            job_id: String::new(),
            attempt: 0,
            fencing_epoch: 0,
            phase: String::new(),
            temp_path: String::new(),
            final_path: String::new(),
            trash_path: String::new(),
        }
    }
}

/// Work handed to an agent.
#[derive(Debug, Clone, PartialEq, Eq)]
pub struct JobAssignment {
    /// Which job.
    pub job_id: String,
    /// Which attempt.
    pub attempt: u32,
    /// The epoch it was assigned under.
    pub fencing_epoch: u64,
    /// The command, composed by the server and run verbatim.
    pub argv: Vec<String>,
    /// The source.
    pub source_path: String,
    /// Where to stage the output.
    pub temp_path: String,
    /// Where it will be installed.
    pub final_path: String,
    /// The facts signature the job was planned against.
    pub expected_content_sig: String,
    /// What the output is judged against.
    pub validation_spec_json: String,
}

/// How a job went.
#[derive(Debug, Clone, PartialEq, Eq)]
pub struct JobResult {
    /// Which job.
    pub job_id: String,
    /// Which attempt.
    pub attempt: u32,
    /// Exit code of the encoder.
    pub exit_code: i32,
    /// Signal that ended it, or zero.
    pub signal: i32,
    /// The end of its stderr.
    pub stderr_tail: String,
    /// The verdict on the output.
    pub validation_json: String,
    /// Size of the output.
    pub output_bytes: u64,
}

/// An agent asking to join.
#[derive(Debug, Clone, PartialEq, Eq)]
pub struct RegisterRequest {
    /// Who it is.
    pub identity: Option<AgentIdentity>,
    /// What it can do.
    pub capability: Option<Capability>,
    /// The shared secret, empty for none.
    pub auth_token: String,
    /// Installs it was in the middle of.
    pub live_intents: Vec<LiveIntent>,
}

/// The answer to an agent asking to join.
#[derive(Debug, Clone, PartialEq, Eq, Default)]
pub struct RegisterResponse {
    /// Whether it may.
    pub accepted: bool,
    /// Why not.
    pub reject_reason: String,
    /// The protocol the server speaks.
    pub server_proto_version: u32,
    /// The oldest protocol it accepts.
    pub min_supported_proto: u32,
    /// The oldest agent it accepts, empty for any.
    pub min_agent_version: String,
    /// The server's build.
    pub server_version: String,
    /// The epoch the agent must use.
    pub fencing_epoch: u64,
    /// Jobs of replayed intents that the server has no record of.
    pub unknown_job_ids: Vec<String>,
}

/// How far an encode has got.
#[derive(Debug, Clone, PartialEq, Eq)]
pub struct JobProgress {
    /// Which job.
    pub job_id: String,
    /// Output time in microseconds.
    pub out_time_us: u64,
    /// Frames written.
    pub frames: u64,
    /// Encoding speed, empty for unknown.
    pub speed: String,
    /// Bytes written.
    pub total_size: u64,
}

/// An agent asking permission to install.
#[derive(Debug, Clone, PartialEq, Eq)]
pub struct CommitRequest {
    /// Which job.
    pub job_id: String,
    /// Which attempt.
    pub attempt: u32,
    /// The epoch it holds.
    pub fencing_epoch: u64,
}

/// The answer to an agent asking permission to install.
#[derive(Debug, Clone, PartialEq, Eq, Default)]
pub struct CommitGrant {
    /// Which job.
    pub job_id: String,
    /// Whether it may.
    pub granted: bool,
    /// Why not.
    pub reason: String,
    /// Where the original goes.
    pub trash_path: String,
}

/// How an install ended.
#[derive(Debug, Clone, PartialEq, Eq)]
pub struct CommitReport {
    /// Which job.
    pub job_id: String,
    /// Which attempt.
    pub attempt: u32,
    /// The epoch the agent holds.
    pub fencing_epoch: u64,
    /// The resolution, in the ledger's vocabulary.
    pub resolution: String,
    /// The operator-facing half of it.
    pub detail: String,
}

/// The server no longer recognises a job.
#[derive(Debug, Clone, PartialEq, Eq)]
pub struct Revoke {
    /// Which job.
    pub job_id: String,
    /// Why.
    pub reason: String,
}

/// The server wants an agent to take no more work.
#[derive(Debug, Clone, PartialEq, Eq)]
pub struct Drain {
    /// Whether at once.
    pub immediate: bool,
    /// Why.
    pub reason: String,
}

/// What a draining agent is still running.
#[derive(Debug, Clone, PartialEq, Eq)]
pub struct DrainAck {
    /// Which jobs.
    pub still_running: Vec<String>,
}

/// A sign of life.
#[derive(Debug, Clone, PartialEq, Eq)]
pub struct Heartbeat {
    /// When, in milliseconds.
    pub at_unix_ms: u64,
    /// What the agent believes it is running.
    pub running_job_ids: Vec<String>,
    /// The mounts as they are now.
    pub mounts: Vec<Mount>,
    /// The machine's load.
    pub load_average: Double,
}

/// What a message from an agent is about.
#[derive(Debug, Clone, PartialEq, Eq)]
pub enum AgentBody {
    /// A sign of life.
    Heartbeat(Heartbeat),
    /// How far an encode has got.
    Progress(JobProgress),
    /// How an encode ended.
    Result(JobResult),
    /// A request for permission to install.
    CommitRequest(CommitRequest),
    /// How an install ended.
    CommitReport(CommitReport),
    /// What a draining agent is still running.
    DrainAck(DrainAck),
}

/// What a message from the server is about.
#[derive(Debug, Clone, PartialEq, Eq)]
pub enum ServerBody {
    /// Work.
    Assignment(JobAssignment),
    /// The answer to a request for permission to install.
    CommitGrant(CommitGrant),
    /// A job that is no longer recognised.
    Revoke(Revoke),
    /// Take no more work.
    Drain(Drain),
    /// New runtime limits.
    Config,
}

} // verus!
