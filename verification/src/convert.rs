//! The boundary between wire messages and domain types.
//!
//! Everything here stops one class of bug: a value this build does not
//! understand becoming a domain fact by default. An unknown number, class,
//! depth, platform or phase is refused; only an unknown encoder is skipped,
//! because an ffmpeg build lists hundreds nobody was going to use.
use vstd::prelude::*;

use crate::capability::{
    AgentClass, Capability, DecoderCapability, DecoderKind, DecoderStatus, DecoderTriple,
    Mount, Platform, TransportMode,
};
use crate::document;
use crate::error::ProtoError;
use crate::handshake::AgentIdentity;
use crate::message::{CommitPhase, LiveIntent};
use crate::pairs;
use crate::pb;
use crate::plan::{BitDepth, EncoderId};
use crate::text;

verus! {

/// A refusal of a value.
pub open spec fn refuses(e: ProtoError, field: Seq<char>, value: Seq<char>) -> bool {
    e is Unrecognised && e->field@ == field && e->value@ == value
}

/// Refuse a wire value this build does not recognise.
fn unrecognised(field: &'static str, value: String) -> (e: ProtoError)
    ensures
        refuses(e, field@, value@),
{
    ProtoError::Unrecognised { field, value }
}

// ---------------------------------------------------------------- identity --

/// The identity a message carries, field by field.
pub open spec fn identity_on_wire(a: AgentIdentity, w: pb::AgentIdentity) -> bool {
    &&& a.agent_id == w.agent_id
    &&& a.agent_uid == w.agent_uid
    &&& a.boot_id == w.boot_id
    &&& a.agent_version == w.agent_version
    &&& a.proto_version == w.proto_version
}

/// The wire form of an identity.
pub fn identity_to_pb(v: AgentIdentity) -> (r: pb::AgentIdentity)
    ensures
        identity_on_wire(v, r),
{
    pb::AgentIdentity {
        agent_id: v.agent_id,
        agent_uid: v.agent_uid,
        boot_id: v.boot_id,
        agent_version: v.agent_version,
        proto_version: v.proto_version,
    }
}

/// An identity off the wire.
///
/// All three identifiers are required. An empty `boot_id` would compare equal
/// to the last empty one, and two processes would look like a reconnect.
pub fn identity_from_pb(v: pb::AgentIdentity) -> (r: Result<AgentIdentity, ProtoError>)
    ensures
        r is Ok == (v.agent_id@.len() > 0 && v.agent_uid@.len() > 0 && v.boot_id@.len() > 0),
        r is Ok ==> identity_on_wire(r->Ok_0, v),
        r is Err ==> r->Err_0 is Missing && r->Err_0->Missing_0@ == (if v.agent_id@.len() == 0 {
            "agent_id"@
        } else if v.agent_uid@.len() == 0 {
            "agent_uid"@
        } else {
            "boot_id"@
        }),
{
    if v.agent_id.as_str().is_empty() {
        return Err(ProtoError::Missing("agent_id"));
    }
    if v.agent_uid.as_str().is_empty() {
        return Err(ProtoError::Missing("agent_uid"));
    }
    if v.boot_id.as_str().is_empty() {
        return Err(ProtoError::Missing("boot_id"));
    }
    Ok(
        AgentIdentity {
            agent_id: v.agent_id,
            agent_uid: v.agent_uid,
            boot_id: v.boot_id,
            agent_version: v.agent_version,
            proto_version: v.proto_version,
        },
    )
}

// ----------------------------------------------------------------- decoder --

/// The wire value of a decode path.
pub open spec fn kind_wire(k: DecoderKind) -> pb::DecoderKind {
    match k {
        DecoderKind::Software => pb::DecoderKind::DkSoftware,
        DecoderKind::Nvdec => pb::DecoderKind::DkNvdec,
        DecoderKind::Qsv => pb::DecoderKind::DkQsv,
        DecoderKind::Vaapi => pb::DecoderKind::DkVaapi,
        DecoderKind::Videotoolbox => pb::DecoderKind::DkVideotoolbox,
    }
}

/// A decode path, refusing anything outside the declared set.
pub fn decoder_kind_from_pb(v: i32) -> (r: Result<DecoderKind, ProtoError>)
    ensures
        r is Ok == (0 <= v <= 4),
        r is Ok ==> kind_wire(r->Ok_0).spec_number() == v,
        r is Err ==> refuses(r->Err_0, "decoder_kind"@, text::dec_int(v as int)),
{
    match pb::DecoderKind::from_number(v) {
        Some(pb::DecoderKind::DkSoftware) => Ok(DecoderKind::Software),
        Some(pb::DecoderKind::DkNvdec) => Ok(DecoderKind::Nvdec),
        Some(pb::DecoderKind::DkQsv) => Ok(DecoderKind::Qsv),
        Some(pb::DecoderKind::DkVaapi) => Ok(DecoderKind::Vaapi),
        Some(pb::DecoderKind::DkVideotoolbox) => Ok(DecoderKind::Videotoolbox),
        None => Err(unrecognised("decoder_kind", text::i64_text(v as i64))),
    }
}

/// The wire form of a decode path.
pub fn decoder_kind_to_pb(v: DecoderKind) -> (r: Result<pb::DecoderKind, ProtoError>)
    ensures
        r == Ok::<pb::DecoderKind, ProtoError>(kind_wire(v)),
{
    Ok(
        match v {
            DecoderKind::Software => pb::DecoderKind::DkSoftware,
            DecoderKind::Nvdec => pb::DecoderKind::DkNvdec,
            DecoderKind::Qsv => pb::DecoderKind::DkQsv,
            DecoderKind::Vaapi => pb::DecoderKind::DkVaapi,
            DecoderKind::Videotoolbox => pb::DecoderKind::DkVideotoolbox,
        },
    )
}

/// The wire value of a verdict.
pub open spec fn status_wire(s: DecoderStatus) -> pb::DecoderStatus {
    match s {
        DecoderStatus::Untested => pb::DecoderStatus::DsUntested,
        DecoderStatus::VerifiedOk => pb::DecoderStatus::DsVerifiedOk,
        DecoderStatus::VerifiedSoftFallback => pb::DecoderStatus::DsVerifiedSoftFallback,
        DecoderStatus::VerifiedFail => pb::DecoderStatus::DsVerifiedFail,
    }
}

/// A trial-decode verdict.
///
/// A soft fallback must survive as a soft fallback: it is a successful decode
/// that did not use the hardware.
pub fn decoder_status_from_pb(v: i32) -> (r: Result<DecoderStatus, ProtoError>)
    ensures
        r is Ok == (0 <= v <= 3),
        r is Ok ==> status_wire(r->Ok_0).spec_number() == v,
        r is Err ==> refuses(r->Err_0, "decoder_status"@, text::dec_int(v as int)),
{
    match pb::DecoderStatus::from_number(v) {
        Some(pb::DecoderStatus::DsUntested) => Ok(DecoderStatus::Untested),
        Some(pb::DecoderStatus::DsVerifiedOk) => Ok(DecoderStatus::VerifiedOk),
        Some(pb::DecoderStatus::DsVerifiedSoftFallback) => Ok(DecoderStatus::VerifiedSoftFallback),
        Some(pb::DecoderStatus::DsVerifiedFail) => Ok(DecoderStatus::VerifiedFail),
        None => Err(unrecognised("decoder_status", text::i64_text(v as i64))),
    }
}

/// The wire form of a trial-decode verdict.
pub fn decoder_status_to_pb(v: DecoderStatus) -> (r: Result<pb::DecoderStatus, ProtoError>)
    ensures
        r == Ok::<pb::DecoderStatus, ProtoError>(status_wire(v)),
{
    Ok(
        match v {
            DecoderStatus::Untested => pb::DecoderStatus::DsUntested,
            DecoderStatus::VerifiedOk => pb::DecoderStatus::DsVerifiedOk,
            DecoderStatus::VerifiedSoftFallback => pb::DecoderStatus::DsVerifiedSoftFallback,
            DecoderStatus::VerifiedFail => pb::DecoderStatus::DsVerifiedFail,
        },
    )
}

/// A triple and the message that carries it.
pub open spec fn triple_on_wire(t: DecoderTriple, w: pb::DecoderTriple) -> bool {
    &&& t.codec == w.codec
    &&& t.profile == w.profile
    &&& t.bit_depth.spec_bits() == w.bit_depth
    &&& kind_wire(t.kind).spec_number() == w.kind
}

/// Why a triple is refused, or `None` where it is not.
pub open spec fn triple_fault(w: pb::DecoderTriple) -> Option<(Seq<char>, Seq<char>)> {
    if w.bit_depth != 8 && w.bit_depth != 10 && w.bit_depth != 12 {
        Some(("bit_depth"@, text::dec(w.bit_depth as nat)))
    } else if w.kind < 0 || w.kind > 4 {
        Some(("decoder_kind"@, text::dec_int(w.kind as int)))
    } else {
        None
    }
}

/// A decode triple off the wire.
pub fn triple_from_pb(v: pb::DecoderTriple) -> (r: Result<DecoderTriple, ProtoError>)
    ensures
        match triple_fault(v) {
            None => r is Ok && triple_on_wire(r->Ok_0, v),
            Some((field, value)) => r is Err && refuses(r->Err_0, field, value),
        },
{
    let bits: u8 = if v.bit_depth <= 255 {
        v.bit_depth as u8
    } else {
        0
    };
    let bit_depth = match BitDepth::from_bits(bits) {
        Some(d) => d,
        None => {
            return Err(unrecognised("bit_depth", text::u64_text(v.bit_depth as u64)));
        },
    };
    match decoder_kind_from_pb(v.kind) {
        Ok(kind) => Ok(DecoderTriple { codec: v.codec, profile: v.profile, bit_depth, kind }),
        Err(e) => Err(e),
    }
}

/// The wire form of a decode triple.
pub fn triple_to_pb(v: DecoderTriple) -> (r: Result<pb::DecoderTriple, ProtoError>)
    ensures
        r is Ok,
        triple_on_wire(v, r->Ok_0),
{
    match decoder_kind_to_pb(v.kind) {
        Ok(kind) => Ok(
            pb::DecoderTriple {
                codec: v.codec,
                profile: v.profile,
                bit_depth: v.bit_depth.bits() as u32,
                kind: kind.number(),
            },
        ),
        Err(e) => Err(e),
    }
}

/// A trial and the message that carries it.
pub open spec fn decoder_on_wire(d: DecoderCapability, w: pb::DecoderCapability) -> bool {
    &&& w.triple is Some
    &&& triple_on_wire(d.triple, w.triple->0)
    &&& status_wire(d.status).spec_number() == w.status
    &&& d.evidence == w.evidence
}

/// The message carries a trial this build understands.
pub open spec fn decoder_valid(w: pb::DecoderCapability) -> bool {
    w.triple is Some && triple_fault(w.triple->0) is None && 0 <= w.status <= 3
}

/// The error a message is refused with.
pub open spec fn decoder_refused(w: pb::DecoderCapability, e: ProtoError) -> bool {
    if w.triple is None {
        e is Missing && e->Missing_0@ == "decoder_capability.triple"@
    } else if let Some((field, value)) = triple_fault(w.triple->0) {
        refuses(e, field, value)
    } else {
        refuses(e, "decoder_status"@, text::dec_int(w.status as int))
    }
}

/// A trial off the wire.
pub fn decoder_from_pb(v: pb::DecoderCapability) -> (r: Result<DecoderCapability, ProtoError>)
    ensures
        r is Ok == decoder_valid(v),
        r is Ok ==> decoder_on_wire(r->Ok_0, v),
        r is Err ==> decoder_refused(v, r->Err_0),
{
    let triple = match v.triple {
        Some(t) => match triple_from_pb(t) {
            Ok(t) => t,
            Err(e) => {
                return Err(e);
            },
        },
        None => {
            return Err(ProtoError::Missing("decoder_capability.triple"));
        },
    };
    match decoder_status_from_pb(v.status) {
        Ok(status) => Ok(DecoderCapability { triple, status, evidence: v.evidence }),
        Err(e) => Err(e),
    }
}

/// The wire form of a trial.
pub fn decoder_to_pb(v: DecoderCapability) -> (r: Result<pb::DecoderCapability, ProtoError>)
    ensures
        r is Ok,
        decoder_on_wire(v, r->Ok_0),
        r->Ok_0.probed_at_unix == 0,
{
    let triple = match triple_to_pb(v.triple) {
        Ok(t) => t,
        Err(e) => {
            return Err(e);
        },
    };
    match decoder_status_to_pb(v.status) {
        Ok(status) => Ok(
            pb::DecoderCapability {
                triple: Some(triple),
                status: status.number(),
                evidence: v.evidence,
                probed_at_unix: 0,
            },
        ),
        Err(e) => Err(e),
    }
}

// ------------------------------------------------------------------ mounts --

/// A mount and the message that carries it. Free space and the rename verdict
/// are the server's concern and not part of it.
pub open spec fn mount_on_wire(m: Mount, w: pb::Mount) -> bool {
    &&& m.canonical_prefix == w.canonical_prefix
    &&& m.local_path == w.local_path
    &&& m.writable == w.writable
}

/// A mount off the wire.
pub fn mount_from_pb(v: pb::Mount) -> (r: Mount)
    ensures
        mount_on_wire(r, v),
{
    Mount { canonical_prefix: v.canonical_prefix, local_path: v.local_path, writable: v.writable }
}

/// The wire form of a mount.
pub fn mount_to_pb(v: Mount) -> (r: pb::Mount)
    ensures
        mount_on_wire(v, r),
        r.free_bytes == 0,
        r.rename_probe == 0,
{
    pb::Mount {
        local_path: v.local_path,
        canonical_prefix: v.canonical_prefix,
        writable: v.writable,
        free_bytes: 0,
        rename_probe: 0,
    }
}

// ------------------------------------------------------------ vocabularies --

/// The wire spelling of a work class.
pub open spec fn class_spelling(c: AgentClass) -> Seq<char> {
    match c {
        AgentClass::Cpu => "cpu"@,
        AgentClass::Gpu => "gpu"@,
        AgentClass::Audio => "audio"@,
    }
}

/// The work class a spelling names.
pub open spec fn class_spelled(s: Seq<char>) -> Option<AgentClass> {
    if s == "cpu"@ {
        Some(AgentClass::Cpu)
    } else if s == "gpu"@ {
        Some(AgentClass::Gpu)
    } else if s == "audio"@ {
        Some(AgentClass::Audio)
    } else {
        None
    }
}

/// Work classes, by their wire spelling.
pub fn agent_class_from_str(s: &str) -> (r: Result<AgentClass, ProtoError>)
    ensures
        match class_spelled(s@) {
            Some(c) => r == Ok::<AgentClass, ProtoError>(c),
            None => r is Err && refuses(r->Err_0, "classes"@, s@),
        },
{
    if text::same(s, "cpu") {
        Ok(AgentClass::Cpu)
    } else if text::same(s, "gpu") {
        Ok(AgentClass::Gpu)
    } else if text::same(s, "audio") {
        Ok(AgentClass::Audio)
    } else {
        Err(unrecognised("classes", s.to_owned()))
    }
}

/// The wire spelling of a work class.
pub fn agent_class_to_str(v: AgentClass) -> (r: Result<&'static str, ProtoError>)
    ensures
        r is Ok,
        r->Ok_0@ == class_spelling(v),
{
    Ok(
        match v {
            AgentClass::Cpu => "cpu",
            AgentClass::Gpu => "gpu",
            AgentClass::Audio => "audio",
        },
    )
}

/// The encoder ffmpeg knows by a name.
pub open spec fn encoder_spelled(s: Seq<char>) -> Option<EncoderId> {
    if s == "hevc_nvenc"@ {
        Some(EncoderId::HevcNvenc)
    } else if s == "libx265"@ {
        Some(EncoderId::Libx265)
    } else if s == "libx264"@ {
        Some(EncoderId::Libx264)
    } else if s == "eac3"@ {
        Some(EncoderId::Eac3)
    } else if s == "ac3"@ {
        Some(EncoderId::Ac3)
    } else if s == "aac"@ {
        Some(EncoderId::Aac)
    } else if s == "copy"@ {
        Some(EncoderId::Copy)
    } else {
        None
    }
}

/// Encoders are named as ffmpeg names them.
pub fn encoder_from_str(s: &str) -> (r: Result<EncoderId, ProtoError>)
    ensures
        match encoder_spelled(s@) {
            Some(e) => r == Ok::<EncoderId, ProtoError>(e),
            None => r is Err && refuses(r->Err_0, "encoders"@, s@),
        },
{
    if text::same(s, "hevc_nvenc") {
        Ok(EncoderId::HevcNvenc)
    } else if text::same(s, "libx265") {
        Ok(EncoderId::Libx265)
    } else if text::same(s, "libx264") {
        Ok(EncoderId::Libx264)
    } else if text::same(s, "eac3") {
        Ok(EncoderId::Eac3)
    } else if text::same(s, "ac3") {
        Ok(EncoderId::Ac3)
    } else if text::same(s, "aac") {
        Ok(EncoderId::Aac)
    } else if text::same(s, "copy") {
        Ok(EncoderId::Copy)
    } else {
        Err(unrecognised("encoders", s.to_owned()))
    }
}

/// The wire spelling of a platform.
pub open spec fn platform_spelling(p: Platform) -> Seq<char> {
    match p {
        Platform::Linux => "linux"@,
        Platform::Windows => "windows"@,
    }
}

/// The platform a spelling names.
pub open spec fn platform_spelled(s: Seq<char>) -> Option<Platform> {
    if s == "linux"@ {
        Some(Platform::Linux)
    } else if s == "windows"@ {
        Some(Platform::Windows)
    } else {
        None
    }
}

/// A platform, by its wire spelling.
pub fn platform_from_str(s: &str) -> (r: Result<Platform, ProtoError>)
    ensures
        match platform_spelled(s@) {
            Some(p) => r == Ok::<Platform, ProtoError>(p),
            None => r is Err && refuses(r->Err_0, "platform"@, s@),
        },
{
    if text::same(s, "linux") {
        Ok(Platform::Linux)
    } else if text::same(s, "windows") {
        Ok(Platform::Windows)
    } else {
        Err(unrecognised("platform", s.to_owned()))
    }
}

/// The wire spelling of a platform.
pub fn platform_to_str(v: Platform) -> (r: Result<&'static str, ProtoError>)
    ensures
        r is Ok,
        r->Ok_0@ == platform_spelling(v),
{
    Ok(
        match v {
            Platform::Linux => "linux",
            Platform::Windows => "windows",
        },
    )
}

// -------------------------------------------------------------- capability --

/// Every class of a list is known.
pub open spec fn classes_known(v: Seq<String>) -> bool {
    forall|i: int| 0 <= i < v.len() ==> class_spelled((#[trigger] v[i])@) is Some
}

/// The encoders of a list that are known, in order.
pub open spec fn known_encoders(v: Seq<String>) -> Seq<EncoderId>
    decreases v.len(),
{
    if v.len() == 0 {
        Seq::empty()
    } else {
        match encoder_spelled(v.last()@) {
            Some(e) => known_encoders(v.drop_last()).push(e),
            None => known_encoders(v.drop_last()),
        }
    }
}

/// Every trial of a list is understood.
pub open spec fn decoders_valid(v: Seq<pb::DecoderCapability>) -> bool {
    forall|i: int| 0 <= i < v.len() ==> decoder_valid(#[trigger] v[i])
}

/// A platform field is empty or known.
pub open spec fn platform_known(s: Seq<char>) -> bool {
    s.len() == 0 || platform_spelled(s) is Some
}

fn classes_from(v: &Vec<String>) -> (r: Result<Vec<AgentClass>, ProtoError>)
    ensures
        r is Ok == classes_known(v@),
        r is Ok ==> r->Ok_0@.len() == v@.len() && forall|i: int|
            0 <= i < v@.len() ==> class_spelled((#[trigger] v@[i])@) == Some(r->Ok_0@[i]),
        r is Err ==> exists|i: int|
            0 <= i < v@.len() && #[trigger] class_spelled(v@[i]@) is None && refuses(
                r->Err_0,
                "classes"@,
                v@[i]@,
            ) && classes_known(v@.take(i)),
{
    let mut r: Vec<AgentClass> = Vec::new();
    let mut i: usize = 0;
    while i < v.len()
        invariant
            i <= v@.len(),
            r@.len() == i,
            forall|j: int| 0 <= j < i ==> class_spelled((#[trigger] v@[j])@) == Some(r@[j]),
        decreases v.len() - i,
    {
        match agent_class_from_str(v[i].as_str()) {
            Ok(c) => {
                r.push(c);
            },
            Err(e) => {
                assert(class_spelled(v@[i as int]@) is None);
                assert(classes_known(v@.take(i as int))) by {
                    assert forall|j: int| 0 <= j < i implies class_spelled(
                        (#[trigger] v@.take(i as int)[j])@,
                    ) is Some by {
                        assert(v@.take(i as int)[j] == v@[j]);
                    }
                }
                return Err(e);
            },
        }
        i += 1;
    }
    Ok(r)
}

fn encoders_from(v: &Vec<String>) -> (r: Vec<EncoderId>)
    ensures
        r@ == known_encoders(v@),
{
    let mut r: Vec<EncoderId> = Vec::new();
    let mut i: usize = 0;
    while i < v.len()
        invariant
            i <= v@.len(),
            r@ == known_encoders(v@.take(i as int)),
        decreases v.len() - i,
    {
        assert(v@.take(i + 1).drop_last() =~= v@.take(i as int));
        match encoder_from_str(v[i].as_str()) {
            Ok(e) => {
                r.push(e);
            },
            Err(_) => {},
        }
        i += 1;
    }
    assert(v@.take(i as int) =~= v@);
    r
}

fn decoders_from(v: Vec<pb::DecoderCapability>) -> (r: Result<Vec<DecoderCapability>, ProtoError>)
    ensures
        r is Ok == decoders_valid(v@),
        r is Ok ==> r->Ok_0@.len() == v@.len() && forall|i: int|
            0 <= i < v@.len() ==> decoder_on_wire(#[trigger] r->Ok_0@[i], v@[i]),
        r is Err ==> exists|i: int|
            0 <= i < v@.len() && !(#[trigger] decoder_valid(v@[i])) && decoder_refused(
                v@[i],
                r->Err_0,
            ) && decoders_valid(v@.take(i)),
{
    let ghost all = v@;
    let mut rest = v;
    let mut r: Vec<DecoderCapability> = Vec::new();
    while rest.len() > 0
        invariant
            all == v@,
            rest@ == all.skip(r@.len() as int),
            r@.len() <= all.len(),
            forall|j: int| 0 <= j < r@.len() ==> decoder_on_wire(#[trigger] r@[j], all[j]),
            forall|j: int| 0 <= j < r@.len() ==> #[trigger] decoder_valid(all[j]),
        decreases rest.len(),
    {
        let ghost k = r@.len() as int;
        assert(rest@[0] == all[k]);
        let next = rest.remove(0);
        assert(rest@ =~= all.skip(k + 1));
        match decoder_from_pb(next) {
            Ok(d) => {
                r.push(d);
            },
            Err(e) => {
                assert(!decoder_valid(all[k]));
                assert(decoders_valid(all.take(k))) by {
                    assert forall|j: int| 0 <= j < k implies decoder_valid(
                        #[trigger] all.take(k)[j],
                    ) by {
                        assert(all.take(k)[j] == all[j]);
                        assert(decoder_valid(all[j]));
                    }
                }
                return Err(e);
            },
        }
    }
    assert(r@.len() == all.len());
    assert(decoders_valid(all)) by {
        assert forall|j: int| 0 <= j < all.len() implies decoder_valid(#[trigger] all[j]) by {}
    }
    Ok(r)
}

fn mounts_from(v: Vec<pb::Mount>) -> (r: Vec<Mount>)
    ensures
        r@.len() == v@.len(),
        forall|i: int| 0 <= i < v@.len() ==> mount_on_wire(#[trigger] r@[i], v@[i]),
{
    let mut r: Vec<Mount> = Vec::new();
    let ghost all = v@;
    for m in it: v
        invariant
            it.seq() == all,
            r@.len() == it.index(),
            forall|j: int| 0 <= j < r@.len() ==> mount_on_wire(#[trigger] r@[j], all[j]),
    {
        r.push(mount_from_pb(m));
    }
    r
}

/// What a capability document holds of the message it came from.
pub open spec fn received(w: pb::Capability, c: Capability) -> bool {
    &&& c.classes@.len() == w.classes@.len()
    &&& forall|i: int|
        0 <= i < w.classes@.len() ==> class_spelled((#[trigger] w.classes@[i])@) == Some(
            c.classes@[i],
        )
    &&& c.encoders@ == known_encoders(w.encoders@)
    &&& c.muxers@.len() == 0
    &&& c.decoders@.len() == w.decoders@.len()
    &&& forall|i: int|
        0 <= i < w.decoders@.len() ==> decoder_on_wire(#[trigger] c.decoders@[i], w.decoders@[i])
    &&& c.effective_cores == w.effective_cores
    &&& c.mounts@.len() == w.mounts@.len()
    &&& forall|i: int|
        0 <= i < w.mounts@.len() ==> mount_on_wire(#[trigger] c.mounts@[i], w.mounts@[i])
    &&& c.platform == (if w.platform@.len() == 0 {
        None
    } else {
        platform_spelled(w.platform@)
    })
    &&& c.workarea_free_bytes == w.workarea_free_bytes
    &&& c.labels@ == pairs::settled(w.labels@)
    &&& c.transport is Mount
    &&& c.workarea_path@.len() == 0
}

/// An agent's advertised capability.
///
/// Classes are judged first, then trials, then the platform; the first value
/// that is not understood is the one refused.
pub fn capability_from_pb(v: pb::Capability) -> (r: Result<Capability, ProtoError>)
    ensures
        r is Ok == (classes_known(v.classes@) && decoders_valid(v.decoders@) && platform_known(
            v.platform@,
        )),
        r is Ok ==> received(v, r->Ok_0),
        r is Err ==> if !classes_known(v.classes@) {
            exists|i: int|
                0 <= i < v.classes@.len() && #[trigger] class_spelled(v.classes@[i]@) is None
                    && refuses(r->Err_0, "classes"@, v.classes@[i]@) && classes_known(
                    v.classes@.take(i),
                )
        } else if !decoders_valid(v.decoders@) {
            exists|i: int|
                0 <= i < v.decoders@.len() && !(#[trigger] decoder_valid(v.decoders@[i]))
                    && decoder_refused(v.decoders@[i], r->Err_0) && decoders_valid(
                    v.decoders@.take(i),
                )
        } else {
            refuses(r->Err_0, "platform"@, v.platform@)
        },
{
    let classes = match classes_from(&v.classes) {
        Ok(c) => c,
        Err(e) => {
            return Err(e);
        },
    };
    let encoders = encoders_from(&v.encoders);
    let decoders = match decoders_from(v.decoders) {
        Ok(d) => d,
        Err(e) => {
            return Err(e);
        },
    };
    let platform = if v.platform.as_str().is_empty() {
        None
    } else {
        match platform_from_str(v.platform.as_str()) {
            Ok(p) => Some(p),
            Err(e) => {
                return Err(e);
            },
        }
    };
    Ok(
        Capability {
            classes,
            encoders,
            muxers: Vec::new(),
            decoders,
            effective_cores: v.effective_cores,
            mounts: mounts_from(v.mounts),
            platform,
            workarea_free_bytes: v.workarea_free_bytes,
            labels: pairs::settle(&v.labels),
            transport: TransportMode::Mount,
            workarea_path: String::new(),
        },
    )
}

/// What a message holds of the capability document it came from.
pub open spec fn sent(c: Capability, w: pb::Capability) -> bool {
    &&& w.platform@ == (match c.platform {
        Some(p) => platform_spelling(p),
        None => Seq::empty(),
    })
    &&& w.effective_cores == c.effective_cores
    &&& text::texts(w.classes@) == c.classes@.map_values(|x: AgentClass| class_spelling(x))
    &&& text::texts(w.encoders@) == c.encoders@.map_values(|x: EncoderId| x.ffmpeg())
    &&& w.decoders@.len() == c.decoders@.len()
    &&& forall|i: int|
        0 <= i < c.decoders@.len() ==> decoder_on_wire(c.decoders@[i], #[trigger] w.decoders@[i])
    &&& w.mounts@.len() == c.mounts@.len()
    &&& forall|i: int|
        0 <= i < c.mounts@.len() ==> mount_on_wire(c.mounts@[i], #[trigger] w.mounts@[i])
    &&& w.workarea_free_bytes == c.workarea_free_bytes
    &&& w.capability_hash@ == document::blake3_hex(c.document())
    &&& w.labels@ == pairs::settled(c.labels@)
}

fn classes_to(v: &Vec<AgentClass>) -> (r: Vec<String>)
    ensures
        text::texts(r@) == v@.map_values(|x: AgentClass| class_spelling(x)),
{
    let ghost all = v@.map_values(|x: AgentClass| class_spelling(x));
    let mut r: Vec<String> = Vec::new();
    let mut i: usize = 0;
    while i < v.len()
        invariant
            i <= v@.len(),
            all == v@.map_values(|x: AgentClass| class_spelling(x)),
            text::texts(r@) == all.take(i as int),
        decreases v.len() - i,
    {
        match agent_class_to_str(v[i]) {
            Ok(s) => text::push_text(&mut r, s),
            Err(_) => {},
        }
        i += 1;
        assert(text::texts(r@) =~= all.take(i as int));
    }
    assert(all.take(i as int) =~= all);
    r
}

fn encoders_to(v: &Vec<EncoderId>) -> (r: Vec<String>)
    ensures
        text::texts(r@) == v@.map_values(|x: EncoderId| x.ffmpeg()),
{
    let ghost all = v@.map_values(|x: EncoderId| x.ffmpeg());
    let mut r: Vec<String> = Vec::new();
    let mut i: usize = 0;
    while i < v.len()
        invariant
            i <= v@.len(),
            all == v@.map_values(|x: EncoderId| x.ffmpeg()),
            text::texts(r@) == all.take(i as int),
        decreases v.len() - i,
    {
        text::push_text(&mut r, v[i].as_ffmpeg());
        i += 1;
        assert(text::texts(r@) =~= all.take(i as int));
    }
    assert(all.take(i as int) =~= all);
    r
}

fn decoders_to(v: Vec<DecoderCapability>) -> (r: Result<Vec<pb::DecoderCapability>, ProtoError>)
    ensures
        r is Ok,
        r->Ok_0@.len() == v@.len(),
        forall|i: int|
            0 <= i < v@.len() ==> decoder_on_wire(v@[i], #[trigger] r->Ok_0@[i])
                && r->Ok_0@[i].probed_at_unix == 0,
{
    let mut r: Vec<pb::DecoderCapability> = Vec::new();
    let ghost all = v@;
    for d in it: v
        invariant
            it.seq() == all,
            r@.len() == it.index(),
            forall|j: int|
                0 <= j < r@.len() ==> decoder_on_wire(all[j], #[trigger] r@[j])
                    && r@[j].probed_at_unix == 0,
    {
        match decoder_to_pb(d) {
            Ok(w) => {
                r.push(w);
            },
            Err(e) => {
                return Err(e);
            },
        }
    }
    Ok(r)
}

fn mounts_to(v: Vec<Mount>) -> (r: Vec<pb::Mount>)
    ensures
        r@.len() == v@.len(),
        forall|i: int|
            0 <= i < v@.len() ==> mount_on_wire(v@[i], #[trigger] r@[i]) && r@[i].free_bytes == 0
                && r@[i].rename_probe == 0,
{
    let mut r: Vec<pb::Mount> = Vec::new();
    let ghost all = v@;
    for m in it: v
        invariant
            it.seq() == all,
            r@.len() == it.index(),
            forall|j: int|
                0 <= j < r@.len() ==> mount_on_wire(all[j], #[trigger] r@[j]) && r@[j].free_bytes
                    == 0 && r@[j].rename_probe == 0,
    {
        r.push(mount_to_pb(m));
    }
    r
}

/// The wire form of a capability document, with the hash of that document.
///
/// The hash is computed rather than carried alongside: one the agent asserted
/// could disagree with what it actually sent. What the document does not hold is
/// left at nothing. Labels travel as a map: of several with one key, the last.
pub fn capability_to_pb(v: Capability) -> (r: Result<pb::Capability, ProtoError>)
    ensures
        r is Ok,
        sent(v, r->Ok_0),
        pairs::distinct(r->Ok_0.labels@),
        pairs::as_map(r->Ok_0.labels@) == pairs::as_map(v.labels@),
        r->Ok_0.physical_cores == 0,
        r->Ok_0.muxers@.len() == 0,
        r->Ok_0.ffmpeg_version@.len() == 0,
        r->Ok_0.ffprobe_version@.len() == 0,
        forall|i: int|
            0 <= i < r->Ok_0.decoders@.len() ==> (#[trigger] r->Ok_0.decoders@[i]).probed_at_unix
                == 0,
        forall|i: int|
            0 <= i < r->Ok_0.mounts@.len() ==> (#[trigger] r->Ok_0.mounts@[i]).free_bytes == 0
                && r->Ok_0.mounts@[i].rename_probe == 0,
{
    let capability_hash = v.hash();
    let platform = match v.platform {
        Some(p) => match platform_to_str(p) {
            Ok(s) => s.to_owned(),
            Err(e) => {
                return Err(e);
            },
        },
        None => String::new(),
    };
    let classes = classes_to(&v.classes);
    let encoders = encoders_to(&v.encoders);
    let decoders = match decoders_to(v.decoders) {
        Ok(d) => d,
        Err(e) => {
            return Err(e);
        },
    };
    let mut w = pb::Capability::default();
    w.platform = platform;
    w.effective_cores = v.effective_cores;
    w.classes = classes;
    w.encoders = encoders;
    w.decoders = decoders;
    w.mounts = mounts_to(v.mounts);
    w.workarea_free_bytes = v.workarea_free_bytes;
    w.capability_hash = capability_hash;
    w.labels = pairs::settle(&v.labels);
    proof {
        pairs::law_settling_keeps_the_map(v.labels@);
    }
    Ok(w)
}

// ------------------------------------------------------------ live intents --

/// An intent and the message that carries it.
pub open spec fn intent_on_wire(i: LiveIntent, w: pb::LiveIntent) -> bool {
    &&& i.job_id == w.job_id
    &&& i.attempt == w.attempt
    &&& i.fencing_epoch == w.fencing_epoch
    &&& CommitPhase::spelled(text::ascii_lower(w.phase@)) == Some(i.phase)
    &&& i.temp_path == w.temp_path
    &&& i.final_path == w.final_path
    &&& i.trash_path == w.trash_path
}

/// An intent off the wire.
pub fn live_intent_from_pb(v: pb::LiveIntent) -> (r: Result<LiveIntent, ProtoError>)
    ensures
        r is Ok == (v.fencing_epoch <= i64::MAX && CommitPhase::spelled(
            text::ascii_lower(v.phase@),
        ) is Some),
        r is Ok ==> intent_on_wire(r->Ok_0, v),
        r is Err ==> if v.fencing_epoch > i64::MAX {
            refuses(r->Err_0, "fencing_epoch"@, text::dec(v.fencing_epoch as nat))
        } else {
            refuses(r->Err_0, "phase"@, text::ascii_lower(v.phase@))
        },
{
    if v.fencing_epoch > i64::MAX as u64 {
        return Err(unrecognised("fencing_epoch", text::u64_text(v.fencing_epoch)));
    }
    match CommitPhase::parse(v.phase.as_str()) {
        Ok(phase) => Ok(
            LiveIntent {
                job_id: v.job_id,
                attempt: v.attempt as i64,
                fencing_epoch: v.fencing_epoch as i64,
                phase,
                temp_path: v.temp_path,
                final_path: v.final_path,
                trash_path: v.trash_path,
            },
        ),
        Err(e) => Err(e),
    }
}

/// The wire form of an intent.
pub fn live_intent_to_pb(v: LiveIntent) -> (r: Result<pb::LiveIntent, ProtoError>)
    ensures
        r is Ok == (0 <= v.attempt <= u32::MAX && v.fencing_epoch >= 0),
        r is Ok ==> intent_on_wire(v, r->Ok_0) && r->Ok_0.phase@ == v.phase.spelling(),
        r is Err ==> if v.attempt < 0 || v.attempt > u32::MAX {
            refuses(r->Err_0, "attempt"@, text::dec_int(v.attempt as int))
        } else {
            refuses(r->Err_0, "fencing_epoch"@, text::dec_int(v.fencing_epoch as int))
        },
{
    if v.attempt < 0 || v.attempt > u32::MAX as i64 {
        return Err(unrecognised("attempt", text::i64_text(v.attempt)));
    }
    if v.fencing_epoch < 0 {
        return Err(unrecognised("fencing_epoch", text::i64_text(v.fencing_epoch)));
    }
    proof {
        v.phase.law_round_trip();
    }
    Ok(
        pb::LiveIntent {
            job_id: v.job_id,
            attempt: v.attempt as u32,
            fencing_epoch: v.fencing_epoch as u64,
            phase: v.phase.as_str().to_owned(),
            temp_path: v.temp_path,
            final_path: v.final_path,
            trash_path: v.trash_path,
        },
    )
}

// ------------------------------------------------------------------- laws --

/// A verdict survives the wire as itself: what is read from a number is what
/// was written as that number, so a soft fallback never becomes a success.
pub proof fn law_verdicts_survive_the_wire(a: DecoderStatus, b: DecoderStatus)
    ensures
        status_wire(a).spec_number() == status_wire(b).spec_number() ==> a == b,
        0 <= status_wire(a).spec_number() <= 3,
{
}

/// A decode path survives the wire as itself.
pub proof fn law_paths_survive_the_wire(a: DecoderKind, b: DecoderKind)
    ensures
        kind_wire(a).spec_number() == kind_wire(b).spec_number() ==> a == b,
        0 <= kind_wire(a).spec_number() <= 4,
{
}

/// A trial that was sent is accepted, and what is received is what was sent.
pub proof fn law_trials_round_trip(
    a: DecoderCapability,
    w: pb::DecoderCapability,
    b: DecoderCapability,
)
    requires
        decoder_on_wire(a, w),
        decoder_on_wire(b, w),
    ensures
        decoder_valid(w),
        a.triple.same_as(b.triple),
        a.status == b.status,
        a.evidence == b.evidence,
{
    law_verdicts_survive_the_wire(a.status, b.status);
    law_paths_survive_the_wire(a.triple.kind, b.triple.kind);
    crate::plan::law_depths_round_trip(a.triple.bit_depth, b.triple.bit_depth);
}

/// An identity that was sent is received unchanged.
pub proof fn law_identities_round_trip(
    a: AgentIdentity,
    w: pb::AgentIdentity,
    b: AgentIdentity,
)
    requires
        identity_on_wire(a, w),
        identity_on_wire(b, w),
    ensures
        a == b,
{
}

/// An intent that was sent is received unchanged.
pub proof fn law_intents_round_trip(a: LiveIntent, w: pb::LiveIntent, b: LiveIntent)
    requires
        intent_on_wire(a, w),
        intent_on_wire(b, w),
    ensures
        a == b,
{
}

proof fn lemma_class_words()
    ensures
        "cpu"@ != "gpu"@,
        "cpu"@ != "audio"@,
        "gpu"@ != "audio"@,
{
    reveal_strlit("cpu");
    reveal_strlit("gpu");
    reveal_strlit("audio");
    assert("cpu"@.len() == 3 && "gpu"@.len() == 3 && "audio"@.len() == 5);
    assert("cpu"@[0] != "gpu"@[0]);
}

/// Every class, platform and encoder is read back from its own spelling.
pub proof fn law_vocabularies_round_trip(c: AgentClass, p: Platform, e: EncoderId)
    ensures
        class_spelled(class_spelling(c)) == Some(c),
        platform_spelled(platform_spelling(p)) == Some(p),
        platform_spelling(p).len() > 0,
        encoder_spelled(e.ffmpeg()) == Some(e),
{
    lemma_class_words();
    reveal_strlit("linux");
    reveal_strlit("windows");
    assert("linux"@.len() == 5 && "windows"@.len() == 7);
    reveal_strlit("hevc_nvenc");
    reveal_strlit("libx265");
    reveal_strlit("libx264");
    reveal_strlit("eac3");
    reveal_strlit("ac3");
    reveal_strlit("aac");
    reveal_strlit("copy");
    assert("hevc_nvenc"@.len() == 10);
    assert("libx265"@.len() == 7 && "libx264"@.len() == 7);
    assert("libx265"@[6] != "libx264"@[6]);
    assert("eac3"@.len() == 4 && "copy"@.len() == 4);
    assert("eac3"@[0] != "copy"@[0]);
    assert("ac3"@.len() == 3 && "aac"@.len() == 3);
    assert("ac3"@[1] != "aac"@[1]);
}

proof fn lemma_encoders_survive(names: Seq<String>, encoders: Seq<EncoderId>)
    requires
        text::texts(names) == encoders.map_values(|x: EncoderId| x.ffmpeg()),
    ensures
        known_encoders(names) == encoders,
    decreases encoders.len(),
{
    let spelled = encoders.map_values(|x: EncoderId| x.ffmpeg());
    assert(text::texts(names).len() == names.len());
    assert(spelled.len() == encoders.len());
    if encoders.len() > 0 {
        let n = encoders.len() - 1;
        assert(text::texts(names)[n] == names[n]@);
        assert(spelled[n] == encoders[n].ffmpeg());
        law_vocabularies_round_trip(AgentClass::Cpu, Platform::Linux, encoders[n]);
        assert(text::texts(names.drop_last()) =~= text::texts(names).drop_last());
        assert(encoders.drop_last().map_values(|x: EncoderId| x.ffmpeg()) =~= spelled.drop_last());
        lemma_encoders_survive(names.drop_last(), encoders.drop_last());
        assert(encoders =~= encoders.drop_last().push(encoders.last()));
    } else {
        assert(encoders =~= Seq::empty());
    }
}

/// A capability that was sent is accepted, and what is received is what was
/// sent, but for what the wire does not carry: the muxers, the transport and
/// the path of the work area. Labels are received as the map they were sent as,
/// and unchanged where no key stood twice.
pub proof fn law_capabilities_round_trip(c: Capability, w: pb::Capability, d: Capability)
    requires
        sent(c, w),
    ensures
        classes_known(w.classes@),
        decoders_valid(w.decoders@),
        platform_known(w.platform@),
        received(w, d) ==> {
            &&& d.classes@ == c.classes@
            &&& d.encoders@ == c.encoders@
            &&& d.decoders@.len() == c.decoders@.len()
            &&& forall|i: int|
                0 <= i < c.decoders@.len() ==> {
                    &&& (#[trigger] d.decoders@[i]).triple.same_as(c.decoders@[i].triple)
                    &&& d.decoders@[i].status == c.decoders@[i].status
                    &&& d.decoders@[i].evidence == c.decoders@[i].evidence
                }
            &&& d.effective_cores == c.effective_cores
            &&& d.mounts@ == c.mounts@
            &&& d.platform == c.platform
            &&& d.workarea_free_bytes == c.workarea_free_bytes
            &&& pairs::distinct(d.labels@)
            &&& pairs::as_map(d.labels@) == pairs::as_map(c.labels@)
            &&& pairs::distinct(c.labels@) ==> d.labels@ == c.labels@
        },
{
    let spelled = c.classes@.map_values(|x: AgentClass| class_spelling(x));
    assert(text::texts(w.classes@).len() == w.classes@.len());
    assert(spelled.len() == c.classes@.len());
    assert forall|i: int| 0 <= i < w.classes@.len() implies class_spelled(
        (#[trigger] w.classes@[i])@,
    ) == Some(c.classes@[i]) by {
        assert(text::texts(w.classes@)[i] == w.classes@[i]@);
        assert(spelled[i] == class_spelling(c.classes@[i]));
        law_vocabularies_round_trip(c.classes@[i], Platform::Linux, EncoderId::Copy);
    }
    assert forall|i: int| 0 <= i < w.decoders@.len() implies decoder_valid(
        #[trigger] w.decoders@[i],
    ) by {
        assert(decoder_on_wire(c.decoders@[i], w.decoders@[i]));
        law_trials_round_trip(c.decoders@[i], w.decoders@[i], c.decoders@[i]);
    }
    if let Some(p) = c.platform {
        law_vocabularies_round_trip(AgentClass::Cpu, p, EncoderId::Copy);
    }
    lemma_encoders_survive(w.encoders@, c.encoders@);
    pairs::law_settling_keeps_the_map(c.labels@);
    pairs::law_settling_keeps_the_map(w.labels@);
    if received(w, d) {
        assert(d.classes@ =~= c.classes@) by {
            assert forall|i: int| 0 <= i < c.classes@.len() implies d.classes@[i]
                == c.classes@[i] by {
                assert(class_spelled(w.classes@[i]@) == Some(d.classes@[i]));
            }
        }
        assert forall|i: int| 0 <= i < c.decoders@.len() implies {
            &&& (#[trigger] d.decoders@[i]).triple.same_as(c.decoders@[i].triple)
            &&& d.decoders@[i].status == c.decoders@[i].status
            &&& d.decoders@[i].evidence == c.decoders@[i].evidence
        } by {
            assert(decoder_on_wire(d.decoders@[i], w.decoders@[i]));
            assert(decoder_on_wire(c.decoders@[i], w.decoders@[i]));
            law_trials_round_trip(d.decoders@[i], w.decoders@[i], c.decoders@[i]);
        }
        assert(d.mounts@ =~= c.mounts@) by {
            assert forall|i: int| 0 <= i < c.mounts@.len() implies d.mounts@[i]
                == c.mounts@[i] by {
                assert(mount_on_wire(d.mounts@[i], w.mounts@[i]));
                assert(mount_on_wire(c.mounts@[i], w.mounts@[i]));
            }
        }
    }
}

/// The numbers of the wire: how each decoder and each verdict is written.
pub proof fn law_the_numbers_of_the_wire(k: DecoderKind, s: DecoderStatus)
    ensures
        k is Software ==> kind_wire(k).spec_number() == 0,
        k is Nvdec ==> kind_wire(k).spec_number() == 1,
        k is Qsv ==> kind_wire(k).spec_number() == 2,
        k is Vaapi ==> kind_wire(k).spec_number() == 3,
        k is Videotoolbox ==> kind_wire(k).spec_number() == 4,
        s is Untested ==> status_wire(s).spec_number() == 0,
        s is VerifiedOk ==> status_wire(s).spec_number() == 1,
        s is VerifiedSoftFallback ==> status_wire(s).spec_number() == 2,
        s is VerifiedFail ==> status_wire(s).spec_number() == 3,
{
}

/// The words of the wire: how each class and each platform is written.
pub proof fn law_the_words_of_the_wire(c: AgentClass, p: Platform)
    ensures
        c is Cpu ==> class_spelling(c) == "cpu"@,
        c is Gpu ==> class_spelling(c) == "gpu"@,
        c is Audio ==> class_spelling(c) == "audio"@,
        p is Linux ==> platform_spelling(p) == "linux"@,
        p is Windows ==> platform_spelling(p) == "windows"@,
{
}

/// Nothing is read from the wire that is not one of its words.
pub proof fn law_only_the_words_of_the_wire_are_read(s: Seq<char>)
    ensures
        class_spelled(s) matches Some(c) ==> class_spelling(c) == s,
        platform_spelled(s) matches Some(p) ==> platform_spelling(p) == s,
        encoder_spelled(s) matches Some(e) ==> e.ffmpeg() == s,
{
}

/// Every encoder that is known is kept, in order, and no other is invented: a
/// name that is not known is passed over.
pub proof fn law_unknown_encoders_are_passed_over(v: Seq<String>, name: String)
    ensures
        encoder_spelled(name@) matches Some(e) ==> known_encoders(v.push(name)) == known_encoders(
            v,
        ).push(e),
        encoder_spelled(name@) is None ==> known_encoders(v.push(name)) == known_encoders(v),
        known_encoders(Seq::empty()).len() == 0,
{
    assert(v.push(name).drop_last() =~= v);
}

/// A decode path is refused for a depth that is not 8, 10 or 12 bits and for a
/// decoder that has no number, and for nothing else.
pub proof fn law_which_paths_are_refused(w: pb::DecoderTriple)
    ensures
        triple_fault(w) is None <==> (w.bit_depth == 8 || w.bit_depth == 10 || w.bit_depth == 12)
            && 0 <= w.kind <= 4,
        triple_fault(w) matches Some((field, value)) ==> {
            let depth = w.bit_depth == 8 || w.bit_depth == 10 || w.bit_depth == 12;
            &&& !depth ==> field == "bit_depth"@ && value == text::dec(w.bit_depth as nat)
            &&& depth ==> field == "decoder_kind"@ && value == text::dec_int(w.kind as int)
        },
{
}

/// What is sent carries the digest of the whole document, so that drift shows:
/// two offers that are sent with different documents are sent with the digests
/// of those.
pub proof fn law_the_hash_is_of_the_document(c: Capability, w: pb::Capability)
    requires
        sent(c, w),
    ensures
        w.capability_hash@ == document::blake3_hex(c.document()),
        w.workarea_free_bytes == c.workarea_free_bytes,
        w.mounts@.len() == c.mounts@.len(),
        forall|i: int|
            0 <= i < c.mounts@.len() ==> (#[trigger] w.mounts@[i]).canonical_prefix
                == c.mounts@[i].canonical_prefix && w.mounts@[i].local_path
                == c.mounts@[i].local_path && w.mounts@[i].writable == c.mounts@[i].writable,
{
    assert forall|i: int| 0 <= i < c.mounts@.len() implies (#[trigger] w.mounts@[i]).canonical_prefix
        == c.mounts@[i].canonical_prefix && w.mounts@[i].local_path == c.mounts@[i].local_path
        && w.mounts@[i].writable == c.mounts@[i].writable by {
        assert(mount_on_wire(c.mounts@[i], w.mounts@[i]));
    }
}

/// Every field of an identity and of an intent crosses the wire under its own
/// name.
pub proof fn law_identities_and_intents_cross_whole(
    a: AgentIdentity,
    w: pb::AgentIdentity,
    i: LiveIntent,
    x: pb::LiveIntent,
)
    requires
        identity_on_wire(a, w),
        intent_on_wire(i, x),
    ensures
        w.agent_id == a.agent_id && w.agent_uid == a.agent_uid && w.boot_id == a.boot_id,
        w.agent_version == a.agent_version && w.proto_version == a.proto_version,
        x.job_id == i.job_id && x.attempt == i.attempt && x.fencing_epoch == i.fencing_epoch,
        x.temp_path == i.temp_path,
        x.final_path == i.final_path,
        x.trash_path == i.trash_path,
        i.phase is Granted ==> text::ascii_lower(x.phase@) == "granted"@,
        i.phase is Retired ==> text::ascii_lower(x.phase@) == "retired"@,
        i.phase is Installed ==> text::ascii_lower(x.phase@) == "installed"@,
{
}

/// Every field of a trial and of a mount crosses the wire under its own name.
pub proof fn law_trials_and_mounts_cross_whole(
    d: DecoderCapability,
    w: pb::DecoderCapability,
    m: Mount,
    x: pb::Mount,
)
    requires
        decoder_on_wire(d, w),
        mount_on_wire(m, x),
    ensures
        w.triple matches Some(t) && t.codec == d.triple.codec && t.profile == d.triple.profile
            && t.bit_depth == d.triple.bit_depth.spec_bits(),
        w.evidence == d.evidence,
        d.triple.bit_depth is Eight ==> w.triple->0.bit_depth == 8,
        d.triple.bit_depth is Ten ==> w.triple->0.bit_depth == 10,
        d.triple.bit_depth is Twelve ==> w.triple->0.bit_depth == 12,
        d.status is VerifiedOk <==> w.status == 1,
        d.triple.kind is Software <==> w.triple->0.kind == 0,
        x.canonical_prefix == m.canonical_prefix && x.local_path == m.local_path && x.writable
            == m.writable,
{
}

/// What the wire does not carry is not made up: a capability that is received has
/// no muxers and no work area, and its transport is the one that needs a mount.
pub proof fn law_what_is_not_sent_is_not_made_up(w: pb::Capability, c: Capability)
    requires
        received(w, c),
    ensures
        c.muxers@.len() == 0,
        c.transport is Mount,
        c.workarea_path@.len() == 0,
        c.workarea_free_bytes == w.workarea_free_bytes,
        c.effective_cores == w.effective_cores,
        w.platform@.len() == 0 ==> c.platform is None,
        w.platform@ == "linux"@ && w.platform@.len() > 0 ==> c.platform == Some(Platform::Linux),
        c.decoders@.len() == w.decoders@.len() && c.mounts@.len() == w.mounts@.len()
            && c.classes@.len() == w.classes@.len(),
{
}

/// A refusal names the field and the value it holds.
pub proof fn law_what_a_refusal_names(e: ProtoError, field: Seq<char>, value: Seq<char>)
    requires
        refuses(e, field, value),
    ensures
        e matches ProtoError::Unrecognised { field: f, value: v } && f@ == field && v@ == value,
{
}

/// Which trials are refused, and for what: one without a path, one whose path is
/// refused, and one whose verdict has no number.
pub proof fn law_which_trials_are_refused(w: pb::DecoderCapability, e: ProtoError)
    ensures
        decoder_valid(w) <==> (w.triple matches Some(t) && (t.bit_depth == 8 || t.bit_depth == 10
            || t.bit_depth == 12) && 0 <= t.kind <= 4) && 0 <= w.status <= 3,
        w.triple is None && decoder_refused(w, e) ==> (e matches ProtoError::Missing(field) && field@
            == "decoder_capability.triple"@),
        w.triple matches Some(t) ==> triple_fault(t) is None && decoder_refused(w, e) ==> (e
            matches ProtoError::Unrecognised { field, value } && field@ == "decoder_status"@
            && value@ == text::dec_int(w.status as int)),
{
}

} // verus!
