//! The agent side of the transport: register, connect, stay connected.
//!
//! A reconnect registers under the same identity, so the server resumes the
//! epoch it already issued. The journal goes out with the registration, and
//! what the server cannot account for is resolved before the stream opens, so
//! that no assignment can arrive while an unaccounted-for install is on disk.
//! Permission to replace a file is never inferred from silence.
use vstd::prelude::*;

use crate::double::Double;
use crate::handshake::PROTO_VERSION;
use crate::names::NameSet;
use crate::pb;
use crate::text;

verus! {

/// Metadata key carrying the operator-assigned agent name.
pub const AGENT_ID_KEY: &'static str = "x-agent-id";

/// Metadata key carrying the epoch the stream authenticated under.
pub const AGENT_EPOCH_KEY: &'static str = "x-agent-epoch";

/// How long to wait for a grant, in milliseconds. Expiring is a refusal.
pub const COMMIT_GRANT_TIMEOUT_MS: u64 = 60_000;

/// How long a session must last before its backoff resets, in milliseconds.
/// Without this a server that accepts a stream and closes it at once would turn
/// the backoff into a hot loop.
pub const HEALTHY_SESSION_MS: u64 = 30_000;

// ------------------------------------------------------------------ errors --

/// Anything that can go wrong talking to the server.
#[derive(Debug, Clone, PartialEq, Eq)]
#[non_exhaustive]
pub enum ClientError {
    /// The endpoint could not be dialled.
    Dial {
        /// Which endpoint.
        endpoint: String,
        /// Underlying error.
        source: String,
    },
    /// The server refused this agent, with a reason. The exchange worked, and
    /// the answer was no.
    Rejected {
        /// What the server said.
        reason: String,
    },
    /// A call failed.
    Rpc {
        /// Which call.
        what: &'static str,
        /// Underlying status.
        source: String,
    },
    /// The configured identity cannot be sent as request metadata.
    BadIdentity {
        /// Which field.
        field: &'static str,
        /// What it held.
        value: String,
    },
}

impl ClientError {
    /// The message shown for this error.
    pub open spec fn spec_message(self) -> Seq<char> {
        match self {
            ClientError::Dial { endpoint, source } => "dialling "@ + endpoint@ + ": "@ + source@,
            ClientError::Rejected { reason } => "registration refused: "@ + reason@,
            ClientError::Rpc { what, source } => what@ + ": "@ + source@,
            ClientError::BadIdentity { field, value } => field@
                + " is not valid in request metadata: "@ + value@,
        }
    }

    /// The message shown for this error.
    pub fn message(&self) -> (s: String)
        ensures
            s@ == self.spec_message(),
    {
        match self {
            ClientError::Dial { endpoint, source } => {
                let mut s = text::cat3("dialling ", endpoint.as_str(), ": ");
                s.append(source.as_str());
                s
            },
            ClientError::Rejected { reason } => text::cat2(
                "registration refused: ",
                reason.as_str(),
            ),
            ClientError::Rpc { what, source } => text::cat3(what, ": ", source.as_str()),
            ClientError::BadIdentity { field, value } => text::cat3(
                field,
                " is not valid in request metadata: ",
                value.as_str(),
            ),
        }
    }
}

// ----------------------------------------------------------------- backoff --

/// How long to wait between reconnection attempts, in nanoseconds: exponential,
/// capped, and jittered. A server restart disconnects every agent at once, and
/// without jitter they would all return in the same instant.
#[derive(Debug, Clone, Copy, PartialEq, Eq, Structural)]
pub struct ReconnectPolicy {
    /// The first delay.
    pub initial_ns: u64,
    /// The ceiling.
    pub max_ns: u64,
}

impl Default for ReconnectPolicy {
    /// From one second to half a minute.
    fn default() -> (r: ReconnectPolicy)
        ensures
            r.initial_ns == 1_000_000_000,
            r.max_ns == 30_000_000_000,
    {
        ReconnectPolicy { initial_ns: 1_000_000_000, max_ns: 30_000_000_000 }
    }
}

/// Two to the power of `n`.
pub open spec fn doubled(n: nat) -> nat
    decreases n,
{
    if n == 0 {
        1
    } else {
        2 * doubled((n - 1) as nat)
    }
}

/// The little-endian bytes of an attempt number.
pub open spec fn attempt_bytes(attempt: u32) -> Seq<u8> {
    seq![
        (attempt % 256) as u8,
        (attempt / 256 % 256) as u8,
        (attempt / 65536 % 256) as u8,
        (attempt / 16777216) as u8,
    ]
}

/// A hash that spreads agents apart: FNV-1a.
pub open spec fn spread(bytes: Seq<u8>) -> u64
    decreases bytes.len(),
{
    if bytes.len() == 0 {
        0xcbf2_9ce4_8422_2325
    } else {
        (spread(bytes.drop_last()) ^ (bytes.last() as u64)).wrapping_mul(0x1000_0000_01b3)
    }
}

/// What an agent's attempt is hashed from.
pub open spec fn seed(boot_id: Seq<char>, attempt: u32) -> Seq<u8> {
    vstd::utf8::encode_utf8(boot_id) + attempt_bytes(attempt)
}

proof fn lemma_doubled_grows(a: nat, b: nat)
    requires
        a <= b,
    ensures
        0 < doubled(a) <= doubled(b),
    decreases b,
{
    if a < b {
        lemma_doubled_grows(a, (b - 1) as nat);
    } else if b > 0 {
        lemma_doubled_grows((a - 1) as nat, (b - 1) as nat);
    }
}

fn power(n: u32) -> (r: u64)
    requires
        n <= 16,
    ensures
        r == doubled(n as nat),
        0 < r <= 65536,
{
    let mut r: u64 = 1;
    let mut i: u32 = 0;
    assert(doubled(16) == 65536) by {
        reveal_with_fuel(doubled, 17);
    }
    while i < n
        invariant
            i <= n <= 16,
            r == doubled(i as nat),
            0 < r <= 65536,
            doubled(16) == 65536,
        decreases n - i,
    {
        proof {
            lemma_doubled_grows((i + 1) as nat, 16);
        }
        r = r * 2;
        i += 1;
    }
    r
}

fn hash_of(boot_id: &str, attempt: u32) -> (r: u64)
    ensures
        r == spread(seed(boot_id@, attempt)),
{
    let id = boot_id.as_bytes();
    let mut bytes: Vec<u8> = Vec::new();
    let mut i: usize = 0;
    while i < id.len()
        invariant
            i <= id@.len(),
            bytes@ == id@.take(i as int),
        decreases id.len() - i,
    {
        bytes.push(id[i]);
        i += 1;
        assert(bytes@ =~= id@.take(i as int));
    }
    assert(bytes@ =~= id@);
    bytes.push((attempt % 256) as u8);
    bytes.push((attempt / 256 % 256) as u8);
    bytes.push((attempt / 65536 % 256) as u8);
    bytes.push((attempt / 16777216) as u8);
    assert(bytes@ =~= seed(boot_id@, attempt));
    hash_bytes(&bytes)
}

fn hash_bytes(bytes: &Vec<u8>) -> (r: u64)
    ensures
        r == spread(bytes@),
{
    let mut h: u64 = 0xcbf2_9ce4_8422_2325;
    let mut i: usize = 0;
    assert(bytes@.take(0) =~= Seq::<u8>::empty());
    while i < bytes.len()
        invariant
            i <= bytes@.len(),
            h == spread(bytes@.take(i as int)),
        decreases bytes.len() - i,
    {
        assert(bytes@.take(i + 1).drop_last() =~= bytes@.take(i as int));
        assert(bytes@.take(i + 1).last() == bytes@[i as int]);
        h = (h ^ (bytes[i] as u64)).wrapping_mul(0x1000_0000_01b3);
        i += 1;
    }
    assert(bytes@.take(i as int) =~= bytes@);
    h
}

proof fn lemma_share(half: u64, h: u64)
    ensures
        (half.wrapping_mul(h >> 32) >> 32) <= half,
{
    let f = h >> 32;
    assert(f < 0x1_0000_0000) by (bit_vector)
        requires
            f == h >> 32,
    ;
    let p = half.wrapping_mul(f);
    let q = p >> 32;
    assert(q == p / 0x1_0000_0000 && q < 0x1_0000_0000) by (bit_vector)
        requires
            q == p >> 32,
    ;
    if half < 0x1_0000_0000 {
        assert(half * f < 0x1_0000_0000 * 0x1_0000_0000 && half * f <= half * 0x1_0000_0000)
            by (nonlinear_arith)
            requires
                half < 0x1_0000_0000,
                f < 0x1_0000_0000,
        ;
        assert(p == half * f);
        assert(p / 0x1_0000_0000 <= half) by (nonlinear_arith)
            requires
                p <= half * 0x1_0000_0000,
        ;
    }
}

impl ReconnectPolicy {
    /// The delay before jitter: doubled with each attempt, up to a limit.
    pub open spec fn base(self, attempt: u32) -> nat {
        let n = if attempt < 16 {
            attempt as nat
        } else {
            16
        };
        let grown = self.initial_ns * doubled(n);
        if grown <= self.max_ns {
            grown as nat
        } else {
            self.max_ns as nat
        }
    }

    /// The delay: half the base, and a share of as much again that depends on
    /// the agent and the attempt.
    pub open spec fn jittered(self, attempt: u32, boot_id: Seq<char>) -> nat {
        let half = (self.base(attempt) / 2) as u64;
        let h = spread(seed(boot_id, attempt));
        (half + (half.wrapping_mul(h >> 32) >> 32)) as nat
    }

    /// The delay before an attempt, counting from zero. The jitter comes from
    /// the agent's identity rather than from chance, so it can be reproduced.
    pub fn delay(&self, attempt: u32, boot_id: &str) -> (r: u64)
        ensures
            r == self.jittered(attempt, boot_id@),
            self.base(attempt) / 2 <= r <= self.base(attempt),
            r <= self.max_ns,
    {
        let n: u32 = if attempt < 16 {
            attempt
        } else {
            16
        };
        let factor: u64 = power(n);
        assert(self.initial_ns * factor <= 0xffff_ffff_ffff_ffff * 65536) by (nonlinear_arith)
            requires
                self.initial_ns <= 0xffff_ffff_ffff_ffff,
                factor <= 65536,
        ;
        let grown: u128 = self.initial_ns as u128 * factor as u128;
        let base: u64 = if grown <= self.max_ns as u128 {
            grown as u64
        } else {
            self.max_ns
        };
        assert(base == self.base(attempt));
        let half: u64 = base / 2;
        let h: u64 = hash_of(boot_id, attempt);
        let share: u64 = half.wrapping_mul(h >> 32) >> 32;
        proof {
            lemma_share(half, h);
        }
        half + share
    }
}

/// A delay is never zero, which would busy-loop against a server that is down,
/// and never over the ceiling, however many attempts came before.
pub proof fn law_the_backoff_is_bounded(p: ReconnectPolicy, attempt: u32, boot_id: Seq<char>)
    ensures
        p.jittered(attempt, boot_id) <= p.base(attempt) <= p.max_ns,
        p.initial_ns >= 2 && p.max_ns >= 2 ==> p.jittered(attempt, boot_id) > 0,
{
    let half = (p.base(attempt) / 2) as u64;
    lemma_share(half, spread(seed(boot_id, attempt)));
    let n = if attempt < 16 {
        attempt as nat
    } else {
        16
    };
    lemma_doubled_grows(0, n);
    assert(p.initial_ns * doubled(n) >= p.initial_ns) by (nonlinear_arith)
        requires
            doubled(n) >= 1,
    ;
}

/// Until the ceiling is reached, an attempt waits at least as long as the one
/// before it, whatever the jitter.
pub proof fn law_the_backoff_grows(p: ReconnectPolicy, attempt: u32, boot_id: Seq<char>)
    requires
        attempt < 16,
        p.base((attempt + 1) as u32) < p.max_ns,
    ensures
        p.jittered(attempt, boot_id) <= p.jittered((attempt + 1) as u32, boot_id),
{
    let next = (attempt + 1) as u32;
    law_the_backoff_is_bounded(p, attempt, boot_id);
    lemma_share((p.base(next) / 2) as u64, spread(seed(boot_id, next)));
    let d = doubled(attempt as nat);
    assert(doubled(next as nat) == 2 * d);
    assert(p.initial_ns * (2 * d) == 2 * (p.initial_ns * d)) by (nonlinear_arith);
    assert(p.initial_ns * d >= 0) by (nonlinear_arith)
        requires
            p.initial_ns >= 0,
            d >= 0,
    ;
    assert(p.base(next) == 2 * p.base(attempt));
}

// ---------------------------------------------------------- configuration --

/// Everything the client needs to introduce itself.
#[derive(Debug, Clone)]
pub struct ClientConfig {
    /// Where the server is, as a URI (`http://host:port`).
    pub endpoint: String,
    /// The operator-assigned name this agent answers to.
    pub agent_id: String,
    /// This installation's identifier.
    pub agent_uid: String,
    /// This build's version.
    pub agent_version: String,
    /// The shared secret, when the server requires one.
    pub auth_token: Option<String>,
    /// How often to heartbeat, in milliseconds. The server's lease is three
    /// times the default, so two lost heartbeats are tolerated.
    pub heartbeat_ms: u64,
    /// How long to wait for the connection itself, in milliseconds.
    pub connect_timeout_ms: u64,
    /// How to back off when the connection drops.
    pub reconnect: ReconnectPolicy,
}

impl ClientConfig {
    /// A configuration with the defaults.
    pub fn new(endpoint: String, agent_id: String, agent_uid: String, agent_version: String) -> (r:
        ClientConfig)
        ensures
            r.endpoint == endpoint,
            r.agent_id == agent_id,
            r.agent_uid == agent_uid,
            r.agent_version == agent_version,
            r.auth_token is None,
            r.heartbeat_ms == 15_000,
            r.connect_timeout_ms == 10_000,
            r.reconnect.initial_ns == 1_000_000_000,
            r.reconnect.max_ns == 30_000_000_000,
    {
        ClientConfig {
            endpoint,
            agent_id,
            agent_uid,
            agent_version,
            auth_token: None,
            heartbeat_ms: 15_000,
            connect_timeout_ms: 10_000,
            reconnect: ReconnectPolicy::default(),
        }
    }
}

// ---------------------------------------------------------------- messages --

/// An attempt number as the wire carries it; one that does not fit is zero.
pub open spec fn wire_attempt(attempt: i64) -> u32 {
    if 0 <= attempt <= u32::MAX {
        attempt as u32
    } else {
        0
    }
}

/// An epoch as the wire carries it; one that does not fit is zero.
pub open spec fn wire_epoch(epoch: i64) -> u64 {
    if 0 <= epoch {
        epoch as u64
    } else {
        0
    }
}

/// An attempt number as the wire carries it.
pub fn attempt_on_wire(attempt: i64) -> (r: u32)
    ensures
        r == wire_attempt(attempt),
{
    if 0 <= attempt && attempt <= u32::MAX as i64 {
        attempt as u32
    } else {
        0
    }
}

/// An epoch as the wire carries it.
pub fn epoch_on_wire(epoch: i64) -> (r: u64)
    ensures
        r == wire_epoch(epoch),
{
    if 0 <= epoch {
        epoch as u64
    } else {
        0
    }
}

/// The answer to a request for permission, as far as one came.
#[derive(Debug, Clone, PartialEq, Eq)]
pub enum GrantReply {
    /// The server answered.
    Answered(pb::CommitGrant),
    /// The stream ended first.
    StreamEnded,
    /// Nothing came in time.
    TimedOut,
}

/// The permission a reply gives. Everything but a grant that says so is a
/// refusal, and the caller must leave the source intact.
pub fn permission(reply: GrantReply) -> (r: Option<pb::CommitGrant>)
    ensures
        r == (match reply {
            GrantReply::Answered(g) => if g.granted {
                Some(g)
            } else {
                None
            },
            _ => None,
        }),
{
    match reply {
        GrantReply::Answered(g) => if g.granted {
            Some(g)
        } else {
            None
        },
        GrantReply::StreamEnded => None,
        GrantReply::TimedOut => None,
    }
}

/// Say how a commit ended, under the epoch held now: a report bearing a stale
/// one is rejected, and that is the fence working.
pub fn report_commit(job_id: &str, attempt: i64, epoch: i64, resolution: &str, detail: &str) -> (r:
    pb::CommitReport)
    ensures
        r.job_id@ == job_id@,
        r.attempt == wire_attempt(attempt),
        r.fencing_epoch == wire_epoch(epoch),
        r.resolution@ == resolution@,
        r.detail@ == detail@,
{
    pb::CommitReport {
        job_id: job_id.to_owned(),
        attempt: attempt_on_wire(attempt),
        fencing_epoch: epoch_on_wire(epoch),
        resolution: resolution.to_owned(),
        detail: detail.to_owned(),
    }
}

/// One sign of life. `at_unix_ms` is `None` where the clock is before its
/// epoch. The running set is the load-bearing half: the server revokes anything
/// in it that it does not recognise.
pub fn heartbeat(
    at_unix_ms: Option<u128>,
    running_job_ids: Vec<String>,
    mounts: Vec<pb::Mount>,
    load_average: Double,
) -> (r: pb::Heartbeat)
    ensures
        r.at_unix_ms == (match at_unix_ms {
            Some(t) => if t <= u64::MAX {
                t as int
            } else {
                0
            },
            None => 0,
        }),
        r.running_job_ids == running_job_ids,
        r.mounts == mounts,
        r.load_average == load_average,
{
    pb::Heartbeat {
        at_unix_ms: match at_unix_ms {
            Some(t) => if t <= u64::MAX as u128 {
                t as u64
            } else {
                0
            },
            None => 0,
        },
        running_job_ids,
        mounts,
        load_average,
    }
}

/// Whether a text can stand in request metadata: no control character but the
/// tab.
pub open spec fn fits_metadata(s: Seq<char>) -> bool {
    forall|i: int| 0 <= i < s.len() ==> (' ' <= #[trigger] s[i] && s[i] != '\u{7f}') || s[i] == '\t'
}

/// Wraps parsing a `tonic` ASCII metadata value, `MetadataValue::from_str`: it
/// succeeds unless the text holds a control character other than the tab. What
/// is beyond ASCII is let through.
#[verifier::external_body]
pub(crate) fn metadata_accepts(value: &str) -> (r: bool)
    ensures
        r == fits_metadata(value@),
{
    value.parse::<tonic::metadata::MetadataValue<tonic::metadata::Ascii>>().is_ok()
}

proof fn lemma_numbers_fit(n: nat)
    ensures
        fits_metadata(text::dec(n)),
    decreases n,
{
    if n >= 10 {
        lemma_numbers_fit(n / 10);
    }
}

/// What identifies a stream, as its two metadata values: the agent's name and
/// the epoch it was issued. Messages carry no identity of their own.
pub fn stamp(agent_id: &str, epoch: i64) -> (r: Result<(String, String), ClientError>)
    ensures
        r is Ok == fits_metadata(agent_id@),
        r matches Ok(v) ==> v.0@ == agent_id@ && v.1@ == text::dec_int(epoch as int),
        r matches Err(e) ==> e matches ClientError::BadIdentity { field, value } && field@
            == "x-agent-id"@ && value@ == agent_id@,
{
    if !metadata_accepts(agent_id) {
        return Err(
            ClientError::BadIdentity { field: AGENT_ID_KEY, value: agent_id.to_owned() },
        );
    }
    let epoch_text = text::i64_text(epoch);
    proof {
        lemma_numbers_fit((-epoch) as nat);
        lemma_numbers_fit(epoch as nat);
    }
    if !metadata_accepts(epoch_text.as_str()) {
        return Err(ClientError::BadIdentity { field: AGENT_EPOCH_KEY, value: epoch_text });
    }
    Ok((agent_id.to_owned(), epoch_text))
}

// ------------------------------------------------------------- the session --

/// Where a connection stands.
#[derive(Debug, Clone, Copy, PartialEq, Eq, Structural)]
pub enum SessionStage {
    /// No connection.
    Idle,
    /// Dialling the server.
    Dialling,
    /// Introducing this agent and replaying its journal.
    Registering,
    /// Resolving the installs the server has no record of.
    Resolving,
    /// Resolving whatever else the last process left in flight.
    Recovering,
    /// Opening the stream.
    Opening,
    /// Taking messages off the stream.
    Serving,
}

/// What happened.
#[derive(Debug, Clone, PartialEq, Eq)]
pub enum SessionEvent {
    /// The server was dialled.
    Dialled,
    /// It could not be.
    DialFailed(String),
    /// It answered the registration.
    Registered(pb::RegisterResponse),
    /// The registration failed as a call.
    RegisterFailed(String),
    /// The unknown intents were resolved.
    Resolved,
    /// Startup recovery ran.
    Recovered,
    /// The stream is open.
    Opened,
    /// It could not be opened.
    OpenFailed(String),
    /// A message came; an empty envelope is one from a newer peer.
    Message(Option<pb::ServerBody>),
    /// The stream ended.
    Ended,
    /// It failed.
    StreamFailed(String),
    /// The client was told to stop.
    Stopped,
}

/// What to do next.
#[derive(Debug, Clone, PartialEq, Eq)]
pub enum SessionAction {
    /// Dial the server.
    Dial,
    /// Read the journal, and register with what it holds.
    Register,
    /// Resolve these intents.
    Resolve(Vec<String>),
    /// Run startup recovery.
    Recover,
    /// Open the stream with these metadata values.
    Open {
        /// The agent's name.
        agent_id: String,
        /// The epoch it holds.
        epoch: String,
    },
    /// Wait for a message.
    Listen,
    /// Run an assignment, and go on listening.
    Start(pb::JobAssignment),
    /// Hand a grant to whoever asked for it.
    Deliver(pb::CommitGrant),
    /// Ignore a grant nobody is waiting for: nothing knows what it was for.
    Unmatched(String),
    /// Stop a job.
    Revoke(pb::Revoke),
    /// Take no more work, and acknowledge with what is still running.
    Drain(pb::Drain),
    /// Adopt new runtime limits.
    Configure,
    /// The session is over.
    Close,
}

/// The epoch a response issues; one that does not fit is zero.
pub open spec fn issued(epoch: u64) -> i64 {
    if epoch <= i64::MAX {
        epoch as i64
    } else {
        0
    }
}

/// Registers, connects, and keeps connected.
#[derive(Debug)]
pub struct ConnectClient {
    /// How it introduces itself.
    pub config: ClientConfig,
    /// This process's identifier, the same on every attempt.
    pub boot_id: String,
    /// The epoch held, zero before the first registration.
    pub epoch: i64,
    /// Whether startup recovery has run: once per process.
    pub recovered: bool,
    /// How many sessions in a row were short.
    pub attempt: u32,
    /// Jobs whose grant is awaited.
    pub pending: NameSet,
    /// Where the connection stands.
    pub stage: SessionStage,
}

impl ConnectClient {
    /// While the stream is open or opening, startup recovery has run.
    pub open spec fn wf(self) -> bool {
        &&& self.pending.wf()
        &&& self.stage is Opening || self.stage is Serving || self.stage is Recovering
            ==> self.recovered
    }

    /// Everything but where the connection stands, what is recovered, the epoch
    /// and what is awaited.
    pub open spec fn same_process(self, other: ConnectClient) -> bool {
        &&& self.config == other.config
        &&& self.boot_id == other.boot_id
        &&& self.attempt == other.attempt
    }

    /// Build a client.
    pub fn new(config: ClientConfig, boot_id: String) -> (r: ConnectClient)
        ensures
            r.wf(),
            r.config == config,
            r.boot_id == boot_id,
            r.epoch == 0,
            !r.recovered,
            r.attempt == 0,
            r.pending@ == Set::<Seq<char>>::empty(),
            r.stage is Idle,
    {
        ConnectClient {
            config,
            boot_id,
            epoch: 0,
            recovered: false,
            attempt: 0,
            pending: NameSet::new(),
            stage: SessionStage::Idle,
        }
    }

    /// The epoch currently held, or zero before the first registration. Read
    /// when it is used: a new registration can move it.
    pub fn fencing_epoch(&self) -> (r: i64)
        ensures
            r == self.epoch,
    {
        self.epoch
    }

    /// What this agent introduces itself with.
    pub fn register(&self, capability: pb::Capability, live_intents: Vec<pb::LiveIntent>) -> (r:
        pb::RegisterRequest)
        ensures
            r.identity matches Some(i) && i.agent_id@ == self.config.agent_id@ && i.agent_uid@
                == self.config.agent_uid@ && i.boot_id@ == self.boot_id@ && i.agent_version@
                == self.config.agent_version@ && i.proto_version == PROTO_VERSION,
            r.capability == Some(capability),
            r.auth_token@ == (match self.config.auth_token {
                Some(t) => t@,
                None => Seq::empty(),
            }),
            r.live_intents == live_intents,
    {
        let auth_token = match &self.config.auth_token {
            Some(t) => t.clone(),
            None => String::new(),
        };
        pb::RegisterRequest {
            identity: Some(
                pb::AgentIdentity {
                    agent_id: self.config.agent_id.clone(),
                    agent_uid: self.config.agent_uid.clone(),
                    boot_id: self.boot_id.clone(),
                    agent_version: self.config.agent_version.clone(),
                    proto_version: PROTO_VERSION,
                },
            ),
            capability: Some(capability),
            auth_token,
            live_intents,
        }
    }

    /// Ask permission to install. A second request for one job supersedes the
    /// first.
    pub fn request_commit(&mut self, job_id: &str, attempt: i64) -> (r: pb::CommitRequest)
        requires
            old(self).wf(),
        ensures
            final(self).wf(),
            final(self).same_process(*old(self)),
            final(self).epoch == old(self).epoch,
            final(self).recovered == old(self).recovered,
            final(self).stage == old(self).stage,
            final(self).pending@ == old(self).pending@.insert(job_id@),
            r.job_id@ == job_id@,
            r.attempt == wire_attempt(attempt),
            r.fencing_epoch == wire_epoch(old(self).epoch),
    {
        self.pending.insert(job_id);
        pb::CommitRequest {
            job_id: job_id.to_owned(),
            attempt: attempt_on_wire(attempt),
            fencing_epoch: epoch_on_wire(self.epoch),
        }
    }

    /// Stop waiting for a grant: it could not be asked for, or did not come.
    pub fn forget(&mut self, job_id: &str)
        requires
            old(self).wf(),
        ensures
            final(self).wf(),
            final(self).same_process(*old(self)),
            final(self).epoch == old(self).epoch,
            final(self).recovered == old(self).recovered,
            final(self).stage == old(self).stage,
            final(self).pending@ == old(self).pending@.remove(job_id@),
    {
        let _ = self.pending.remove(job_id);
    }

    /// Begin a session.
    pub fn session(&mut self) -> (r: SessionAction)
        requires
            old(self).wf(),
        ensures
            final(self).wf(),
            final(self).same_process(*old(self)),
            final(self).epoch == old(self).epoch,
            final(self).recovered == old(self).recovered,
            final(self).pending@ == old(self).pending@,
            final(self).stage is Dialling,
            r is Dial,
    {
        self.stage = SessionStage::Dialling;
        SessionAction::Dial
    }

    /// Route one message. The stream must keep being read, so whatever takes
    /// time is for the caller to run beside it.
    pub fn dispatch(&mut self, body: Option<pb::ServerBody>) -> (r: SessionAction)
        requires
            old(self).wf(),
        ensures
            final(self).wf(),
            final(self).same_process(*old(self)),
            final(self).epoch == old(self).epoch,
            final(self).recovered == old(self).recovered,
            final(self).stage == old(self).stage,
            match body {
                None => r is Listen && final(self).pending@ == old(self).pending@,
                Some(pb::ServerBody::Assignment(a)) => r == SessionAction::Start(a)
                    && final(self).pending@ == old(self).pending@,
                Some(pb::ServerBody::CommitGrant(g)) => {
                    &&& final(self).pending@ == old(self).pending@.remove(g.job_id@)
                    &&& old(self).pending@.contains(g.job_id@) ==> r == SessionAction::Deliver(g)
                    &&& !old(self).pending@.contains(g.job_id@) ==> r == SessionAction::Unmatched(
                        g.job_id,
                    )
                },
                Some(pb::ServerBody::Revoke(v)) => r == SessionAction::Revoke(v)
                    && final(self).pending@ == old(self).pending@,
                Some(pb::ServerBody::Drain(d)) => r == SessionAction::Drain(d)
                    && final(self).pending@ == old(self).pending@,
                Some(pb::ServerBody::Config) => r is Configure && final(self).pending@ == old(
                    self,
                ).pending@,
            },
    {
        match body {
            None => SessionAction::Listen,
            Some(pb::ServerBody::Assignment(a)) => SessionAction::Start(a),
            Some(pb::ServerBody::CommitGrant(g)) => {
                if self.pending.remove(g.job_id.as_str()) {
                    SessionAction::Deliver(g)
                } else {
                    SessionAction::Unmatched(g.job_id)
                }
            },
            Some(pb::ServerBody::Revoke(v)) => SessionAction::Revoke(v),
            Some(pb::ServerBody::Drain(d)) => SessionAction::Drain(d),
            Some(pb::ServerBody::Config) => SessionAction::Configure,
        }
    }

    fn open_stream(&mut self) -> (r: Result<SessionAction, ClientError>)
        requires
            old(self).wf(),
            old(self).recovered,
        ensures
            final(self).wf(),
            final(self).same_process(*old(self)),
            final(self).epoch == old(self).epoch,
            final(self).recovered,
            final(self).pending@ == old(self).pending@,
            opens(*old(self), *final(self), r),
    {
        match stamp(self.config.agent_id.as_str(), self.epoch) {
            Ok((agent_id, epoch)) => {
                self.stage = SessionStage::Opening;
                Ok(SessionAction::Open { agent_id, epoch })
            },
            Err(e) => {
                self.stage = SessionStage::Idle;
                Err(e)
            },
        }
    }

    fn fail(&mut self, what: &'static str, source: String) -> (r: Result<SessionAction, ClientError>)
        requires
            old(self).wf(),
        ensures
            final(self).wf(),
            final(self).same_process(*old(self)),
            final(self).epoch == old(self).epoch,
            final(self).recovered == old(self).recovered,
            final(self).pending@ == old(self).pending@,
            final(self).stage is Idle,
            r == Err::<SessionAction, ClientError>(ClientError::Rpc { what, source }),
    {
        self.stage = SessionStage::Idle;
        Err(ClientError::Rpc { what, source })
    }

    fn prepare(&mut self) -> (r: Result<SessionAction, ClientError>)
        requires
            old(self).wf(),
        ensures
            final(self).wf(),
            final(self).same_process(*old(self)),
            final(self).epoch == old(self).epoch,
            final(self).recovered,
            final(self).pending@ == old(self).pending@,
            prepares(*old(self), *final(self), r),
    {
        if !self.recovered {
            self.recovered = true;
            self.stage = SessionStage::Recovering;
            return Ok(SessionAction::Recover);
        }
        self.open_stream()
    }

    /// Take in what happened and say what to do next. An event that does not
    /// belong to the stage ends the session.
    pub fn advance(&mut self, event: SessionEvent) -> (r: Result<SessionAction, ClientError>)
        requires
            old(self).wf(),
        ensures
            final(self).wf(),
            final(self).same_process(*old(self)),
            old(self).recovered ==> final(self).recovered,
            moves(*old(self), event, *final(self), r),
    {
        if matches!(event, SessionEvent::Stopped) {
            self.stage = SessionStage::Idle;
            return Ok(SessionAction::Close);
        }
        match (self.stage, event) {
            (SessionStage::Dialling, SessionEvent::Dialled) => {
                self.stage = SessionStage::Registering;
                Ok(SessionAction::Register)
            },
            (SessionStage::Dialling, SessionEvent::DialFailed(source)) => {
                self.stage = SessionStage::Idle;
                Err(ClientError::Dial { endpoint: self.config.endpoint.clone(), source })
            },
            (SessionStage::Registering, SessionEvent::Registered(response)) => {
                if !response.accepted {
                    self.stage = SessionStage::Idle;
                    return Err(ClientError::Rejected { reason: response.reject_reason });
                }
                self.epoch = if response.fencing_epoch <= i64::MAX as u64 {
                    response.fencing_epoch as i64
                } else {
                    0
                };
                if response.unknown_job_ids.len() > 0 {
                    self.stage = SessionStage::Resolving;
                    return Ok(SessionAction::Resolve(response.unknown_job_ids));
                }
                self.prepare()
            },
            (SessionStage::Registering, SessionEvent::RegisterFailed(source)) => self.fail(
                "register",
                source,
            ),
            (SessionStage::Resolving, SessionEvent::Resolved) => self.prepare(),
            (SessionStage::Recovering, SessionEvent::Recovered) => self.open_stream(),
            (SessionStage::Opening, SessionEvent::Opened) => {
                self.stage = SessionStage::Serving;
                Ok(SessionAction::Listen)
            },
            (SessionStage::Opening, SessionEvent::OpenFailed(source)) => self.fail(
                "connect",
                source,
            ),
            (SessionStage::Serving, SessionEvent::Message(body)) => Ok(self.dispatch(body)),
            (SessionStage::Serving, SessionEvent::StreamFailed(source)) => self.fail(
                "stream",
                source,
            ),
            _ => {
                self.stage = SessionStage::Idle;
                Ok(SessionAction::Close)
            },
        }
    }

    /// After a session: how long to wait before the next one, or `None` where
    /// the client was told to stop. Every failure is retried, a refusal too: an
    /// agent turned away for its version is accepted once it is upgraded.
    pub fn run(&mut self, lasted_ms: u64, stopped: bool) -> (r: Option<u64>)
        requires
            old(self).wf(),
        ensures
            final(self).wf(),
            final(self).config == old(self).config,
            final(self).boot_id == old(self).boot_id,
            final(self).epoch == old(self).epoch,
            final(self).recovered == old(self).recovered,
            final(self).pending@ == old(self).pending@,
            final(self).stage == old(self).stage,
            stopped ==> r is None && final(self).attempt == old(self).attempt,
            !stopped ==> {
                &&& final(self).attempt == next_attempt(old(self).attempt, lasted_ms)
                &&& r matches Some(ns) && ns == old(self).config.reconnect.jittered(
                    final(self).attempt,
                    old(self).boot_id@,
                )
            },
    {
        if stopped {
            return None;
        }
        self.attempt = if lasted_ms >= HEALTHY_SESSION_MS {
            0
        } else if self.attempt < u32::MAX {
            self.attempt + 1
        } else {
            self.attempt
        };
        Some(self.config.reconnect.delay(self.attempt, self.boot_id.as_str()))
    }
}

/// How many short sessions in a row there are after one more session. Only one
/// that lasted counts as healthy.
pub open spec fn next_attempt(attempt: u32, lasted_ms: u64) -> u32 {
    if lasted_ms >= HEALTHY_SESSION_MS {
        0
    } else if attempt < u32::MAX {
        (attempt + 1) as u32
    } else {
        attempt
    }
}

/// A client that goes on to open its stream.
pub open spec fn opens(
    before: ConnectClient,
    after: ConnectClient,
    r: Result<SessionAction, ClientError>,
) -> bool {
    if fits_metadata(before.config.agent_id@) {
        after.stage is Opening && (r matches Ok(SessionAction::Open { agent_id, epoch })
            && agent_id@ == before.config.agent_id@ && epoch@ == text::dec_int(before.epoch as int))
    } else {
        after.stage is Idle && (r matches Err(ClientError::BadIdentity { field, value }) && field@
            == "x-agent-id"@ && value@ == before.config.agent_id@)
    }
}

/// A client whose unknown intents are resolved: startup recovery first, where
/// it has not run yet.
pub open spec fn prepares(
    before: ConnectClient,
    after: ConnectClient,
    r: Result<SessionAction, ClientError>,
) -> bool {
    if !before.recovered {
        after.stage is Recovering && r == Ok::<SessionAction, ClientError>(SessionAction::Recover)
    } else {
        opens(before, after, r)
    }
}

/// The client with the epoch a response issued.
pub open spec fn under(c: ConnectClient, epoch: u64) -> ConnectClient {
    ConnectClient { epoch: issued(epoch), ..c }
}

/// A session that fails in a call.
pub open spec fn rpc_failed(
    before: ConnectClient,
    after: ConnectClient,
    r: Result<SessionAction, ClientError>,
    what: Seq<char>,
    source: String,
) -> bool {
    &&& after.stage is Idle
    &&& after.epoch == before.epoch
    &&& after.recovered == before.recovered
    &&& after.pending@ == before.pending@
    &&& r matches Err(ClientError::Rpc { what: w, source: s }) && w@ == what && s == source
}

/// How an event moves a session.
pub open spec fn moves(
    before: ConnectClient,
    event: SessionEvent,
    after: ConnectClient,
    r: Result<SessionAction, ClientError>,
) -> bool {
    let kept = after.epoch == before.epoch && after.recovered == before.recovered
        && after.pending@ == before.pending@;
    match (before.stage, event) {
        (_, SessionEvent::Stopped) => kept && after.stage is Idle && r == Ok::<
            SessionAction,
            ClientError,
        >(SessionAction::Close),
        (SessionStage::Dialling, SessionEvent::Dialled) => kept && after.stage is Registering && r
            == Ok::<SessionAction, ClientError>(SessionAction::Register),
        (SessionStage::Dialling, SessionEvent::DialFailed(e)) => kept && after.stage is Idle && (
        r matches Err(ClientError::Dial { endpoint, source }) && endpoint@ == before.config.endpoint@
            && source == e),
        (SessionStage::Registering, SessionEvent::Registered(p)) => if !p.accepted {
            kept && after.stage is Idle && (r matches Err(ClientError::Rejected { reason }) && reason
                == p.reject_reason)
        } else {
            &&& after.epoch == issued(p.fencing_epoch)
            &&& after.pending@ == before.pending@
            &&& if p.unknown_job_ids@.len() > 0 {
                after.recovered == before.recovered && after.stage is Resolving && r == Ok::<
                    SessionAction,
                    ClientError,
                >(SessionAction::Resolve(p.unknown_job_ids))
            } else {
                after.recovered && prepares(under(before, p.fencing_epoch), after, r)
            }
        },
        (SessionStage::Registering, SessionEvent::RegisterFailed(e)) => rpc_failed(
            before,
            after,
            r,
            "register"@,
            e,
        ),
        (SessionStage::Resolving, SessionEvent::Resolved) => {
            &&& after.epoch == before.epoch
            &&& after.pending@ == before.pending@
            &&& after.recovered
            &&& prepares(before, after, r)
        },
        (SessionStage::Recovering, SessionEvent::Recovered) => kept && opens(before, after, r),
        (SessionStage::Opening, SessionEvent::Opened) => kept && after.stage is Serving && r == Ok::<
            SessionAction,
            ClientError,
        >(SessionAction::Listen),
        (SessionStage::Opening, SessionEvent::OpenFailed(e)) => rpc_failed(
            before,
            after,
            r,
            "connect"@,
            e,
        ),
        (SessionStage::Serving, SessionEvent::Message(body)) => {
            &&& after.epoch == before.epoch
            &&& after.recovered == before.recovered
            &&& after.stage is Serving
            &&& after.pending@ == (match body {
                Some(pb::ServerBody::CommitGrant(g)) => before.pending@.remove(g.job_id@),
                _ => before.pending@,
            })
            &&& r == Ok::<SessionAction, ClientError>(routed(before.pending@, body))
        },
        (SessionStage::Serving, SessionEvent::StreamFailed(e)) => rpc_failed(
            before,
            after,
            r,
            "stream"@,
            e,
        ),
        _ => kept && after.stage is Idle && r == Ok::<SessionAction, ClientError>(
            SessionAction::Close,
        ),
    }
}

/// Where a message goes.
pub open spec fn routed(pending: Set<Seq<char>>, body: Option<pb::ServerBody>) -> SessionAction {
    match body {
        None => SessionAction::Listen,
        Some(pb::ServerBody::Assignment(a)) => SessionAction::Start(a),
        Some(pb::ServerBody::CommitGrant(g)) => if pending.contains(g.job_id@) {
            SessionAction::Deliver(g)
        } else {
            SessionAction::Unmatched(g.job_id)
        },
        Some(pb::ServerBody::Revoke(v)) => SessionAction::Revoke(v),
        Some(pb::ServerBody::Drain(d)) => SessionAction::Drain(d),
        Some(pb::ServerBody::Config) => SessionAction::Configure,
    }
}

// -------------------------------------------------------------------- laws --

/// No assignment starts before the journal is accounted for: work is only
/// taken off an open stream, the stream only opens once startup recovery has
/// run, and a registration that names unknown intents resolves them first.
pub proof fn law_no_work_before_the_journal_is_accounted_for(
    before: ConnectClient,
    event: SessionEvent,
    after: ConnectClient,
    r: Result<SessionAction, ClientError>,
)
    requires
        before.wf(),
        after.wf(),
        moves(before, event, after, r),
    ensures
        r matches Ok(SessionAction::Start(a)) ==> before.stage is Serving && before.recovered,
        r matches Ok(SessionAction::Open { agent_id, epoch }) ==> {
            ||| before.stage is Resolving && before.recovered
            ||| before.stage is Recovering
            ||| before.stage is Registering && before.recovered && (event matches
                SessionEvent::Registered(p) && p.unknown_job_ids@.len() == 0)
        },
        after.stage is Serving ==> after.recovered,
{
}

/// Startup recovery runs once per process: it is only asked for where it has
/// not run, and having run is never forgotten. A reconnect in the middle of an
/// install must not undo it.
pub proof fn law_recovery_runs_once(
    before: ConnectClient,
    event: SessionEvent,
    after: ConnectClient,
    r: Result<SessionAction, ClientError>,
)
    requires
        before.wf(),
        moves(before, event, after, r),
    ensures
        before.recovered ==> after.recovered,
        r == Ok::<SessionAction, ClientError>(SessionAction::Recover) ==> !before.recovered
            && after.recovered,
{
}

/// A grant nobody is waiting for is not acted on.
pub proof fn law_an_unmatched_grant_is_ignored(pending: Set<Seq<char>>, g: pb::CommitGrant)
    requires
        !pending.contains(g.job_id@),
    ensures
        routed(pending, Some(pb::ServerBody::CommitGrant(g))) is Unmatched,
        pending.remove(g.job_id@) =~= pending,
{
}

/// The epoch is the server's to give: it changes only where a registration is
/// accepted, and then to the one that was issued.
pub proof fn law_the_server_issues_the_epoch(
    before: ConnectClient,
    event: SessionEvent,
    after: ConnectClient,
    r: Result<SessionAction, ClientError>,
)
    requires
        moves(before, event, after, r),
    ensures
        before.stage is Registering ==> (event matches SessionEvent::Registered(p) ==> {
            &&& p.accepted && p.fencing_epoch <= i64::MAX ==> after.epoch == p.fencing_epoch
            &&& !p.accepted ==> after.epoch == before.epoch && after.stage is Idle && (r
                matches Err(ClientError::Rejected { reason }) && reason == p.reject_reason)
        }),
        !(before.stage is Registering) || !(event is Registered) ==> after.epoch == before.epoch,
{
}

/// The way into a session: dial, register, resolve what the server does not
/// know, recover once, open, listen. A failure on the way ends the session with
/// what failed.
pub proof fn law_the_way_into_a_session(
    before: ConnectClient,
    event: SessionEvent,
    after: ConnectClient,
    r: Result<SessionAction, ClientError>,
)
    requires
        moves(before, event, after, r),
    ensures
        event is Stopped ==> after.stage is Idle && r == Ok::<SessionAction, ClientError>(
            SessionAction::Close,
        ),
        before.stage is Dialling && event is Dialled ==> after.stage is Registering && r == Ok::<
            SessionAction,
            ClientError,
        >(SessionAction::Register),
        before.stage is Dialling ==> (event matches SessionEvent::DialFailed(e) ==> (r matches Err(
            ClientError::Dial { endpoint, source },
        ) && endpoint@ == before.config.endpoint@ && source == e)),
        before.stage is Registering ==> (event matches SessionEvent::RegisterFailed(e) ==> (r
            matches Err(ClientError::Rpc { what, source }) && what@ == "register"@ && source == e)),
        before.stage is Registering ==> (event matches SessionEvent::Registered(p) ==> p.accepted
            && p.unknown_job_ids@.len() > 0 ==> after.stage is Resolving && r == Ok::<
            SessionAction,
            ClientError,
        >(SessionAction::Resolve(p.unknown_job_ids))),
        before.stage is Resolving && event is Resolved && !before.recovered ==> after.stage
            is Recovering && r == Ok::<SessionAction, ClientError>(SessionAction::Recover),
        before.stage is Recovering && event is Recovered && fits_metadata(before.config.agent_id@)
            ==> after.stage is Opening && (r matches Ok(SessionAction::Open { agent_id, epoch })
            && agent_id@ == before.config.agent_id@ && epoch@ == text::dec_int(before.epoch as int)),
        before.stage is Opening && event is Opened ==> after.stage is Serving && r == Ok::<
            SessionAction,
            ClientError,
        >(SessionAction::Listen),
        before.stage is Opening ==> (event matches SessionEvent::OpenFailed(e) ==> (r matches Err(
            ClientError::Rpc { what, source },
        ) && what@ == "connect"@ && source == e)),
        before.stage is Serving ==> (event matches SessionEvent::StreamFailed(e) ==> (r
            matches Err(ClientError::Rpc { what, source }) && what@ == "stream"@ && source == e)),
        before.stage is Serving && event is Ended ==> after.stage is Idle && r == Ok::<
            SessionAction,
            ClientError,
        >(SessionAction::Close),
{
}

/// A message in a session does what it says: an assignment starts, a grant that
/// was asked for is delivered once, a revocation and a drain are passed on.
pub proof fn law_what_a_message_does(
    before: ConnectClient,
    after: ConnectClient,
    body: pb::ServerBody,
    r: Result<SessionAction, ClientError>,
)
    requires
        before.stage is Serving,
        moves(before, SessionEvent::Message(Some(body)), after, r),
    ensures
        after.stage is Serving,
        body matches pb::ServerBody::Assignment(a) ==> r == Ok::<SessionAction, ClientError>(
            SessionAction::Start(a),
        ),
        body matches pb::ServerBody::Revoke(v) ==> r == Ok::<SessionAction, ClientError>(
            SessionAction::Revoke(v),
        ),
        body matches pb::ServerBody::Drain(d) ==> r == Ok::<SessionAction, ClientError>(
            SessionAction::Drain(d),
        ),
        body matches pb::ServerBody::CommitGrant(g) ==> {
            &&& before.pending@.contains(g.job_id@) ==> r == Ok::<SessionAction, ClientError>(
                SessionAction::Deliver(g),
            )
            &&& !before.pending@.contains(g.job_id@) ==> r == Ok::<SessionAction, ClientError>(
                SessionAction::Unmatched(g.job_id),
            )
            &&& !after.pending@.contains(g.job_id@)
        },
        !(body is CommitGrant) ==> after.pending@ == before.pending@,
{
}

/// What an identity may hold where it is sent along: printable characters and
/// tabs.
pub proof fn law_what_fits_in_metadata(s: Seq<char>, i: int)
    requires
        0 <= i < s.len(),
    ensures
        s[i] < ' ' && s[i] != '\t' ==> !fits_metadata(s),
        s[i] == '\u{7f}' ==> !fits_metadata(s),
        (forall|j: int| 0 <= j < s.len() ==> ' ' <= #[trigger] s[j] <= '~') ==> fits_metadata(s),
{
}

/// Numbers go on the wire as they are where they fit, and as zero where they do
/// not.
pub proof fn law_numbers_on_the_wire(attempt: i64, epoch: i64, issued_epoch: u64)
    ensures
        0 <= attempt <= u32::MAX ==> wire_attempt(attempt) == attempt,
        attempt < 0 || attempt > u32::MAX ==> wire_attempt(attempt) == 0,
        epoch >= 0 ==> wire_epoch(epoch) == epoch,
        epoch < 0 ==> wire_epoch(epoch) == 0,
        issued_epoch <= i64::MAX ==> issued(issued_epoch) == issued_epoch,
        issued_epoch > i64::MAX ==> issued(issued_epoch) == 0,
        epoch >= 0 ==> issued(wire_epoch(epoch)) == epoch,
{
}

/// A session that lasted thirty seconds was a good one and the next wait is the
/// first again; after a shorter one the wait is the next.
pub proof fn law_when_the_wait_begins_anew(attempt: u32, lasted_ms: u64)
    ensures
        lasted_ms >= 30_000 ==> next_attempt(attempt, lasted_ms) == 0,
        lasted_ms < 30_000 && attempt < u32::MAX ==> next_attempt(attempt, lasted_ms) == attempt
            + 1,
        lasted_ms < 30_000 && attempt == u32::MAX ==> next_attempt(attempt, lasted_ms) == u32::MAX,
{
}

/// The wait doubles with every attempt, sixteen times at the most, up to its
/// bound; the first wait is the initial one.
pub proof fn law_the_wait_doubles(p: ReconnectPolicy, attempt: u32)
    ensures
        p.initial_ns <= p.max_ns ==> p.base(0) == p.initial_ns,
        attempt < 16 && 2 * p.base(attempt) <= p.max_ns && p.base(attempt) < p.max_ns ==> p.base(
            (attempt + 1) as u32,
        ) == 2 * p.base(attempt),
        attempt >= 16 ==> p.base(attempt) == p.base(16),
        p.base(attempt) <= p.max_ns,
{
    assert(doubled(0) == 1);
    assert(p.initial_ns * doubled(0) == p.initial_ns) by (nonlinear_arith)
        requires
            doubled(0) == 1,
    ;
    if attempt < 16 {
        let d = doubled(attempt as nat);
        assert(doubled((attempt + 1) as nat) == 2 * d);
        assert(p.initial_ns * (2 * d) == 2 * (p.initial_ns * d)) by (nonlinear_arith);
    }
}

/// The attempt is spread over four bytes, the lowest first, so no two attempts
/// are spread alike.
pub proof fn law_attempts_are_spread_apart(a: u32, b: u32)
    ensures
        attempt_bytes(a).len() == 4,
        attempt_bytes(a)[0] + 256 * attempt_bytes(a)[1] + 65536 * attempt_bytes(a)[2] + 16777216
            * attempt_bytes(a)[3] == a,
        attempt_bytes(a) == attempt_bytes(b) ==> a == b,
{
    let x = attempt_bytes(a);
    let y = attempt_bytes(b);
    assert(x[0] == a % 256 && x[1] == a / 256 % 256 && x[2] == a / 65536 % 256 && x[3] == a
        / 16777216);
    assert(y[0] == b % 256 && y[1] == b / 256 % 256 && y[2] == b / 65536 % 256 && y[3] == b
        / 16777216);
}

/// What a failed session says.
pub proof fn law_what_a_failed_session_says(e: ClientError)
    ensures
        e matches ClientError::Dial { endpoint, source } ==> e.spec_message() == "dialling "@
            + endpoint@ + ": "@ + source@,
        e matches ClientError::Rejected { reason } ==> e.spec_message()
            == "registration refused: "@ + reason@,
        e matches ClientError::Rpc { what, source } ==> e.spec_message() == what@ + ": "@ + source@,
        e matches ClientError::BadIdentity { field, value } ==> e.spec_message() == field@
            + " is not valid in request metadata: "@ + value@,
{
}

/// Tabs and characters past the ASCII block fit, too.
pub proof fn law_tabs_and_other_scripts_fit(s: Seq<char>)
    requires
        forall|j: int|
            0 <= j < s.len() ==> #[trigger] s[j] == '\t' || s[j] >= '\u{80}' || ' ' <= s[j] <= '~',
    ensures
        fits_metadata(s),
{
}

/// The jitter is the FNV-1a digest of the process and the attempt: its start, its
/// prime, and what it is taken of.
pub proof fn law_what_the_jitter_is_made_of(bytes: Seq<u8>, b: u8, boot_id: Seq<char>, attempt: u32)
    ensures
        spread(Seq::empty()) == 0xcbf2_9ce4_8422_2325,
        spread(bytes.push(b)) == (spread(bytes) ^ (b as u64)).wrapping_mul(0x1000_0000_01b3),
        seed(boot_id, attempt) == vstd::utf8::encode_utf8(boot_id) + attempt_bytes(attempt),
{
    assert(bytes.push(b).drop_last() =~= bytes);
}

/// A wait is half of its base and a share of the other half, as large as the high
/// half of the digest is of all there is.
pub proof fn law_how_large_the_jitter_is(p: ReconnectPolicy, attempt: u32, boot_id: Seq<char>)
    requires
        p.base(attempt) / 2 <= u32::MAX,
    ensures
        ({
            let half = p.base(attempt) / 2;
            let high = (spread(seed(boot_id, attempt)) / 4294967296) as nat;
            p.jittered(attempt, boot_id) == half + half * high / 4294967296
        }),
{
    let half = (p.base(attempt) / 2) as u64;
    let h = spread(seed(boot_id, attempt));
    let high = h / 4294967296;
    assert(h >> 32 == h / 4294967296) by (bit_vector);
    assert(half * high <= 0xffff_ffff * 0xffff_ffff) by (nonlinear_arith)
        requires
            0 <= half <= 0xffff_ffff,
            0 <= high <= 0xffff_ffff,
    ;
    let product = half.wrapping_mul(h >> 32);
    assert(product == half * high);
    assert(product >> 32 == product / 4294967296) by (bit_vector);
    assert(product / 4294967296 <= 0xffff_ffff);
}

} // verus!
