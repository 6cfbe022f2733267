//! Registration: who an agent is, and whether it may join.
//!
//! The version gate is checked at registration, while the agent is still asking
//! permission. The fencing epoch bumps only on a new process instance: bumping
//! on a reconnect would fence off work that is still running.
use vstd::prelude::*;

use crate::text;

verus! {

/// The protocol version this build speaks.
pub const PROTO_VERSION: u32 = 1;

/// The oldest protocol version this build will accept from an agent.
pub const MIN_SUPPORTED_PROTO: u32 = 1;

/// Who an agent is, across three different lifetimes.
#[derive(Debug, Clone, PartialEq, Eq)]
pub struct AgentIdentity {
    /// Operator-assigned, stable.
    pub agent_id: String,
    /// Per installation.
    pub agent_uid: String,
    /// Per process instance: the only thing that bumps the fencing epoch.
    pub boot_id: String,
    /// Semver, checked against `min_agent_version`.
    pub agent_version: String,
    /// Protocol version this agent speaks.
    pub proto_version: u32,
}

/// What the server decided about a registration.
#[derive(Debug, Clone, PartialEq, Eq)]
pub enum RegisterOutcome {
    /// Accepted, with the epoch the agent must use on every commit.
    Accepted {
        /// Authoritative fencing epoch.
        fencing_epoch: i64,
        /// Whether this is a new process instance rather than a reconnect.
        new_instance: bool,
    },
    /// Refused, with a reason an operator can act on.
    Rejected {
        /// Why, in words.
        reason: String,
    },
}

impl RegisterOutcome {
    /// Whether the agent may proceed.
    pub fn accepted(&self) -> (r: bool)
        ensures
            r == (self is Accepted),
    {
        matches!(self, RegisterOutcome::Accepted { .. })
    }
}

/// Decides whether an agent may join, and under which epoch.
#[derive(Debug, Clone, Copy)]
pub struct VersionGate {
    /// Oldest protocol version accepted.
    pub min_supported_proto: u32,
    /// Newest this build speaks.
    pub server_proto: u32,
    /// Oldest agent build accepted, as `major.minor.patch`.
    pub min_agent_version: (u32, u32, u32),
}

impl Default for VersionGate {
    /// What this build accepts.
    fn default() -> (r: VersionGate)
        ensures
            r.min_supported_proto == MIN_SUPPORTED_PROTO,
            r.server_proto == PROTO_VERSION,
            r.min_agent_version == (0u32, 1u32, 0u32),
    {
        VersionGate {
            min_supported_proto: MIN_SUPPORTED_PROTO,
            server_proto: PROTO_VERSION,
            min_agent_version: (0, 1, 0),
        }
    }
}

// ----------------------------------------------------------------- versions --

/// The text before the first `-` or `+`.
pub open spec fn version_core(s: Seq<char>) -> Seq<char>
    decreases s.len(),
{
    if s.len() == 0 || s[0] == '-' || s[0] == '+' {
        Seq::empty()
    } else {
        seq![s[0]] + version_core(s.skip(1))
    }
}

/// The number of one part of a version; an absent part is zero.
pub open spec fn version_part(parts: Seq<Seq<char>>, i: int) -> Option<nat> {
    if i < parts.len() {
        text::parsed_within(parts[i], u32::MAX as nat)
    } else {
        Some(0)
    }
}

/// The three numbers of a version.
pub open spec fn version_of(s: Seq<char>) -> Option<(nat, nat, nat)> {
    let parts = text::split_on(version_core(s), '.');
    match (version_part(parts, 0), version_part(parts, 1), version_part(parts, 2)) {
        (Some(a), Some(b), Some(c)) => if parts.len() <= 3 {
            Some((a, b, c))
        } else {
            None
        },
        _ => None,
    }
}

/// One version comes before another.
pub open spec fn older(a: (nat, nat, nat), b: (nat, nat, nat)) -> bool {
    a.0 < b.0 || (a.0 == b.0 && (a.1 < b.1 || (a.1 == b.1 && a.2 < b.2)))
}

fn core_of(s: &str) -> (r: String)
    ensures
        r@ == version_core(s@),
{
    let v = text::to_chars(s);
    let mut i: usize = 0;
    assert(v@.skip(0) =~= s@);
    assert(v@.take(0) + version_core(s@) =~= version_core(s@));
    while i < v.len() && v[i] != '-' && v[i] != '+'
        invariant
            i <= v@.len(),
            v@ == s@,
            v@.take(i as int) + version_core(v@.skip(i as int)) == version_core(s@),
        decreases v.len() - i,
    {
        let ghost here = v@.skip(i as int);
        assert(here[0] == v@[i as int]);
        assert(here.skip(1) =~= v@.skip(i + 1));
        assert(v@.take(i as int) + version_core(here) =~= v@.take(i + 1) + version_core(
            v@.skip(i + 1),
        ));
        i += 1;
    }
    assert(version_core(v@.skip(i as int)) =~= Seq::<char>::empty()) by {
        if i < v@.len() {
            assert(v@.skip(i as int)[0] == v@[i as int]);
        }
    }
    let r = text::slice_text(&v, 0, i);
    assert(r@ =~= v@.take(i as int));
    assert(v@.take(i as int) + Seq::<char>::empty() =~= v@.take(i as int));
    r
}

fn part_of(parts: &Vec<String>, i: usize) -> (r: Option<u32>)
    ensures
        r is Some == version_part(text::texts(parts@), i as int) is Some,
        r is Some ==> r->0 == version_part(text::texts(parts@), i as int)->0,
{
    if i < parts.len() {
        assert(text::texts(parts@)[i as int] == parts@[i as int]@);
        match text::parse_u64_within(parts[i].as_str(), u32::MAX as u64) {
            Some(n) => Some(n as u32),
            None => None,
        }
    } else {
        Some(0)
    }
}

/// Parse `major.minor.patch`, ignoring any pre-release or build suffix. Absent
/// parts are zero; a fourth part is refused.
fn parse_semver(s: &str) -> (r: Option<(u32, u32, u32)>)
    ensures
        r is Some == version_of(s@) is Some,
        r matches Some(v) ==> version_of(s@) == Some(floor_of(v)),
{
    let core = core_of(s);
    let parts = text::split_char(core.as_str(), '.');
    assert(text::texts(parts@).len() == parts@.len());
    let major: u32 = match part_of(&parts, 0) {
        Some(n) => n,
        None => {
            return None;
        },
    };
    let minor: u32 = match part_of(&parts, 1) {
        Some(n) => n,
        None => {
            return None;
        },
    };
    let patch: u32 = match part_of(&parts, 2) {
        Some(n) => n,
        None => {
            return None;
        },
    };
    if parts.len() > 3 {
        return None;
    }
    Some((major, minor, patch))
}

// ------------------------------------------------------------- registration --

/// The oldest accepted version, as numbers.
pub open spec fn floor_of(v: (u32, u32, u32)) -> (nat, nat, nat) {
    (v.0 as nat, v.1 as nat, v.2 as nat)
}

/// Why a registration is refused, or `None` where it is not.
pub open spec fn refusal(gate: VersionGate, identity: AgentIdentity) -> Option<Seq<char>> {
    if identity.proto_version < gate.min_supported_proto {
        Some(
            "proto_version "@ + text::dec(identity.proto_version as nat) + " < min_supported "@
                + text::dec(gate.min_supported_proto as nat) + "; upgrade the agent"@,
        )
    } else if identity.proto_version > gate.server_proto {
        Some(
            "proto_version "@ + text::dec(identity.proto_version as nat) + " > server "@
                + text::dec(gate.server_proto as nat) + "; upgrade the server"@,
        )
    } else {
        match version_of(identity.agent_version@) {
            None => Some(
                "agent_version '"@ + identity.agent_version@
                    + "' is not a semver; refusing rather than assuming it is new enough"@,
            ),
            Some(v) => if older(v, floor_of(gate.min_agent_version)) {
                Some(
                    "agent_version "@ + identity.agent_version@ + " < min "@ + text::dec(
                        gate.min_agent_version.0 as nat,
                    ) + "."@ + text::dec(gate.min_agent_version.1 as nat) + "."@ + text::dec(
                        gate.min_agent_version.2 as nat,
                    ),
                )
            } else {
                None
            },
        }
    }
}

/// The registration comes from another process than the one last seen.
pub open spec fn is_new_instance(boot_id: Seq<char>, known: Option<Seq<char>>) -> bool {
    known != Some(boot_id)
}

impl VersionGate {
    /// Judge a registration.
    ///
    /// `known_boot_id` is the boot the server last saw for this installation
    /// and `current_epoch` the epoch it holds. A newer agent is refused too: it
    /// may send fields this build cannot interpret.
    pub fn evaluate(
        &self,
        identity: &AgentIdentity,
        known_boot_id: Option<&str>,
        current_epoch: i64,
    ) -> (r: RegisterOutcome)
        requires
            refusal(*self, *identity) is None && is_new_instance(
                identity.boot_id@,
                match known_boot_id {
                    Some(b) => Some(b@),
                    None => None,
                },
            ) ==> current_epoch < i64::MAX,
        ensures
            match refusal(*self, *identity) {
                Some(why) => r is Rejected && r->reason@ == why,
                None => {
                    let new = is_new_instance(
                        identity.boot_id@,
                        match known_boot_id {
                            Some(b) => Some(b@),
                            None => None,
                        },
                    );
                    r == (RegisterOutcome::Accepted {
                        fencing_epoch: if new {
                            (current_epoch + 1) as i64
                        } else {
                            current_epoch
                        },
                        new_instance: new,
                    })
                },
            },
    {
        if identity.proto_version < self.min_supported_proto {
            let mut reason = "proto_version ".to_owned();
            text::push_u64(&mut reason, identity.proto_version as u64);
            reason.append(" < min_supported ");
            text::push_u64(&mut reason, self.min_supported_proto as u64);
            reason.append("; upgrade the agent");
            return RegisterOutcome::Rejected { reason };
        }
        if identity.proto_version > self.server_proto {
            let mut reason = "proto_version ".to_owned();
            text::push_u64(&mut reason, identity.proto_version as u64);
            reason.append(" > server ");
            text::push_u64(&mut reason, self.server_proto as u64);
            reason.append("; upgrade the server");
            return RegisterOutcome::Rejected { reason };
        }
        match parse_semver(identity.agent_version.as_str()) {
            None => {
                let reason = text::cat3(
                    "agent_version '",
                    identity.agent_version.as_str(),
                    "' is not a semver; refusing rather than assuming it is new enough",
                );
                return RegisterOutcome::Rejected { reason };
            },
            Some((a, b, c)) => {
                let (x, y, z) = self.min_agent_version;
                if a < x || (a == x && (b < y || (b == y && c < z))) {
                    let mut reason = text::cat3(
                        "agent_version ",
                        identity.agent_version.as_str(),
                        " < min ",
                    );
                    text::push_u64(&mut reason, x as u64);
                    reason.append(".");
                    text::push_u64(&mut reason, y as u64);
                    reason.append(".");
                    text::push_u64(&mut reason, z as u64);
                    return RegisterOutcome::Rejected { reason };
                }
            },
        }
        let new_instance = match known_boot_id {
            Some(known) => !text::same(known, identity.boot_id.as_str()),
            None => true,
        };
        RegisterOutcome::Accepted {
            fencing_epoch: if new_instance {
                current_epoch + 1
            } else {
                current_epoch
            },
            new_instance,
        }
    }
}

// ------------------------------------------------------------------- laws --

/// The epoch a registration is accepted under.
pub open spec fn epoch_after(boot_id: Seq<char>, known: Option<Seq<char>>, current: int) -> int {
    if is_new_instance(boot_id, known) {
        current + 1
    } else {
        current
    }
}

/// A reconnect resumes the epoch; another process bumps it; it never goes
/// backwards.
pub proof fn law_only_a_new_process_bumps_the_epoch(
    boot_id: Seq<char>,
    known: Option<Seq<char>>,
    current: int,
)
    ensures
        epoch_after(boot_id, Some(boot_id), current) == current,
        known != Some(boot_id) ==> epoch_after(boot_id, known, current) == current + 1,
        epoch_after(boot_id, known, current) >= current,
{
}

/// The epoch after a row of registrations, each compared with the boot of the
/// one before it.
pub open spec fn epoch_through(boots: Seq<Seq<char>>, first: Option<Seq<char>>, start: int) -> int
    decreases boots.len(),
{
    if boots.len() == 0 {
        start
    } else {
        let before = boots.drop_last();
        let known = if before.len() == 0 {
            first
        } else {
            Some(before.last())
        };
        epoch_after(boots.last(), known, epoch_through(before, first, start))
    }
}

/// Over any row of registrations the epoch counts the restarts: it is never
/// lower later than earlier, and each change of process makes it one higher.
pub proof fn law_the_epoch_is_monotonic(
    boots: Seq<Seq<char>>,
    first: Option<Seq<char>>,
    start: int,
    n: int,
)
    requires
        0 <= n <= boots.len(),
    ensures
        start <= epoch_through(boots.take(n), first, start) <= epoch_through(boots, first, start),
        epoch_through(boots, first, start) <= start + boots.len(),
    decreases boots.len(),
{
    if boots.len() > 0 {
        if n < boots.len() {
            law_the_epoch_is_monotonic(boots.drop_last(), first, start, n);
            assert(boots.drop_last().take(n) =~= boots.take(n));
        } else {
            law_the_epoch_is_monotonic(boots.drop_last(), first, start, 0);
            assert(boots.take(n) =~= boots);
        }
    } else {
        assert(boots.take(n) =~= boots);
    }
}

/// An agent is accepted exactly when its protocol is in range and its version
/// parses and is not too old.
pub proof fn law_acceptance(gate: VersionGate, identity: AgentIdentity)
    ensures
        refusal(gate, identity) is None == {
            &&& gate.min_supported_proto <= identity.proto_version <= gate.server_proto
            &&& version_of(identity.agent_version@) matches Some(v) && !older(
                v,
                floor_of(gate.min_agent_version),
            )
        },
{
}

/// A version is older by its first number that differs: the major number before
/// the minor, and the minor before the patch.
pub proof fn law_versions_are_ordered(a: (nat, nat, nat), b: (nat, nat, nat), c: (nat, nat, nat))
    ensures
        a.0 < b.0 ==> older(a, b),
        a.0 == b.0 && a.1 < b.1 ==> older(a, b),
        a.0 == b.0 && a.1 == b.1 && a.2 < b.2 ==> older(a, b),
        !older(a, a),
        older(a, b) ==> !older(b, a),
        older(a, b) && older(b, c) ==> older(a, c),
        a == b || older(a, b) || older(b, a),
{
}

/// Who is let in. An agent that speaks an older protocol than is supported, a
/// newer one than the server, or whose version is older than the floor is turned
/// away, and so is one whose version cannot be read; every other agent is let in.
pub proof fn law_who_is_let_in(gate: VersionGate, identity: AgentIdentity)
    ensures
        identity.proto_version < gate.min_supported_proto ==> refusal(gate, identity) is Some,
        identity.proto_version > gate.server_proto ==> refusal(gate, identity) is Some,
        version_of(identity.agent_version@) is None ==> refusal(gate, identity) is Some,
        version_of(identity.agent_version@) matches Some((a, b, c)) ==> {
            let (x, y, z) = gate.min_agent_version;
            let fresh = a > x || a == x && b > y || a == x && b == y && c >= z;
            &&& !fresh ==> refusal(gate, identity) is Some
            &&& fresh && gate.min_supported_proto <= identity.proto_version
                && identity.proto_version <= gate.server_proto ==> refusal(gate, identity) is None
        },
{
}

/// A refused agent is told which side to upgrade, with both numbers.
pub proof fn law_a_refusal_says_who_must_upgrade(gate: VersionGate, identity: AgentIdentity)
    ensures
        identity.proto_version < gate.min_supported_proto ==> refusal(gate, identity) == Some(
            "proto_version "@ + text::dec(identity.proto_version as nat) + " < min_supported "@
                + text::dec(gate.min_supported_proto as nat) + "; upgrade the agent"@,
        ),
        identity.proto_version >= gate.min_supported_proto && identity.proto_version
            > gate.server_proto ==> refusal(gate, identity) == Some(
            "proto_version "@ + text::dec(identity.proto_version as nat) + " > server "@ + text::dec(
                gate.server_proto as nat,
            ) + "; upgrade the server"@,
        ),
{
}

/// A version is read up to the first `-` or `+`: what follows says nothing of
/// its age.
pub proof fn law_suffixes_are_not_read(core: Seq<char>, mark: char, rest: Seq<char>)
    requires
        mark == '-' || mark == '+',
        forall|i: int| 0 <= i < core.len() ==> #[trigger] core[i] != '-' && core[i] != '+',
    ensures
        version_core(core) == core,
        version_core(core.push(mark) + rest) == core,
        version_of(core.push(mark) + rest) == version_of(core),
    decreases core.len(),
{
    let whole = core.push(mark) + rest;
    if core.len() > 0 {
        let tail = core.skip(1);
        assert forall|i: int| 0 <= i < tail.len() implies #[trigger] tail[i] != '-' && tail[i]
            != '+' by {
            assert(tail[i] == core[i + 1]);
        }
        law_suffixes_are_not_read(tail, mark, rest);
        assert(whole.skip(1) =~= tail.push(mark) + rest);
        assert(seq![core[0]] + tail =~= core);
        assert(whole[0] == core[0]);
        assert(core[0] != '-' && core[0] != '+');
    } else {
        assert(whole[0] == mark);
        assert(version_core(core) =~= core);
    }
}

proof fn lemma_digits_alone(n: nat)
    ensures
        !text::dec(n).contains('.'),
        forall|i: int|
            0 <= i < text::dec(n).len() ==> #[trigger] text::dec(n)[i] != '-' && text::dec(n)[i]
                != '+',
        text::parsed(text::dec(n)) == Some(n),
{
    text::law_decimal_reads_back(n);
    let d = text::dec(n);
    assert forall|i: int| 0 <= i < d.len() implies #[trigger] d[i] != '-' && d[i] != '+' && d[i]
        != '.' by {
        assert(text::is_digit(d[i]));
    }
}

/// A version is read number by number: three, two or one of them, what is left
/// out being zero, and no more than three.
pub proof fn law_a_version_is_three_numbers(a: u32, b: u32, c: u32, d: u32)
    ensures
        ({
            let one = text::dec(a as nat);
            let two = one.push('.') + text::dec(b as nat);
            let three = one.push('.') + (text::dec(b as nat).push('.') + text::dec(c as nat));
            let four = one.push('.') + (text::dec(b as nat).push('.') + (text::dec(c as nat).push(
                '.',
            ) + text::dec(d as nat)));
            &&& version_of(one) == Some((a as nat, 0nat, 0nat))
            &&& version_of(two) == Some((a as nat, b as nat, 0nat))
            &&& version_of(three) == Some((a as nat, b as nat, c as nat))
            &&& version_of(four) is None
        }),
{
    let x = text::dec(a as nat);
    let y = text::dec(b as nat);
    let z = text::dec(c as nat);
    let w = text::dec(d as nat);
    lemma_digits_alone(a as nat);
    lemma_digits_alone(b as nat);
    lemma_digits_alone(c as nat);
    lemma_digits_alone(d as nat);
    let two = x.push('.') + y;
    let three = x.push('.') + (y.push('.') + z);
    let four = x.push('.') + (y.push('.') + (z.push('.') + w));
    law_suffixes_are_not_read(x, '-', Seq::empty());
    law_suffixes_are_not_read(two, '-', Seq::empty());
    law_suffixes_are_not_read(three, '-', Seq::empty());
    law_suffixes_are_not_read(four, '-', Seq::empty());
    text::law_how_splitting_goes_on(x, '.', y);
    text::law_how_splitting_goes_on(x, '.', y.push('.') + z);
    text::law_how_splitting_goes_on(x, '.', y.push('.') + (z.push('.') + w));
    text::law_how_splitting_goes_on(y, '.', z);
    text::law_how_splitting_goes_on(y, '.', z.push('.') + w);
    text::law_how_splitting_goes_on(z, '.', w);
    text::law_how_splitting_goes_on(w, '.', w);
    assert(text::split_on(three, '.') =~= seq![x, y, z]);
    assert(text::split_on(two, '.') =~= seq![x, y]);
    assert(text::split_on(four, '.') =~= seq![x, y, z, w]);
}

} // verus!
