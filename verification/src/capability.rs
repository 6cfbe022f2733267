//! What an agent can do, what a job needs, and whether they match.
//!
//! A job that no node can run is rejected once with a reason, never queued and
//! retried forever. Requirements are declared by the plan and matched against
//! capabilities the agent advertises, so unroutable work is visible before it
//! is ever dispatched.
use vstd::prelude::*;

use crate::document;
use crate::double::Double;
use crate::plan::{BitDepth, EncoderId};
use crate::text;

verus! {

/// A class of work an agent advertises.
#[derive(Debug, Clone, Copy, PartialEq, Eq, Hash, Structural)]
#[non_exhaustive]
pub enum AgentClass {
    /// CPU transcode work.
    Cpu,
    /// GPU transcode work.
    Gpu,
    /// Audio-only work.
    Audio,
}

impl AgentClass {
    /// The variant's own name.
    pub open spec fn name(self) -> Seq<char> {
        match self {
            AgentClass::Cpu => "Cpu"@,
            AgentClass::Gpu => "Gpu"@,
            AgentClass::Audio => "Audio"@,
        }
    }

    /// The variant's own name, as documents spell it.
    pub fn variant_name(self) -> (r: &'static str)
        ensures
            r@ == self.name(),
            self is Cpu ==> r@ == "Cpu"@,
            self is Gpu ==> r@ == "Gpu"@,
            self is Audio ==> r@ == "Audio"@,
    {
        match self {
            AgentClass::Cpu => "Cpu",
            AgentClass::Gpu => "Gpu",
            AgentClass::Audio => "Audio",
        }
    }
}

/// Which platform an agent runs on.
#[derive(Debug, Clone, Copy, PartialEq, Eq, Hash, Structural)]
#[non_exhaustive]
pub enum Platform {
    /// Linux.
    Linux,
    /// Windows, including WSL2.
    Windows,
}

impl Platform {
    /// The variant's own name.
    pub open spec fn name(self) -> Seq<char> {
        match self {
            Platform::Linux => "Linux"@,
            Platform::Windows => "Windows"@,
        }
    }

    /// The variant's own name, as documents spell it.
    pub fn variant_name(self) -> (r: &'static str)
        ensures
            r@ == self.name(),
            self is Linux ==> r@ == "Linux"@,
            self is Windows ==> r@ == "Windows"@,
    {
        match self {
            Platform::Linux => "Linux",
            Platform::Windows => "Windows",
        }
    }
}

/// How an agent gets at the media.
#[derive(Debug, Clone, Copy, PartialEq, Eq, Hash, Structural)]
pub enum TransportMode {
    /// It resolves canonical paths through its own mounts.
    Mount,
    /// The server moves the bytes in both directions.
    Stream,
}

impl TransportMode {
    /// The variant's own name.
    pub open spec fn name(self) -> Seq<char> {
        match self {
            TransportMode::Mount => "Mount"@,
            TransportMode::Stream => "Stream"@,
        }
    }

    /// The variant's own name, as documents spell it.
    pub fn variant_name(self) -> (r: &'static str)
        ensures
            r@ == self.name(),
            self is Mount ==> r@ == "Mount"@,
            self is Stream ==> r@ == "Stream"@,
    {
        match self {
            TransportMode::Mount => "Mount",
            TransportMode::Stream => "Stream",
        }
    }
}

/// Container muxers a plan can target.
#[derive(Debug, Clone, Copy, PartialEq, Eq, Hash, Structural)]
#[non_exhaustive]
pub enum ContainerId {
    /// Matroska (`.mkv`).
    Matroska,
    /// MPEG-4 (`.mp4`).
    Mp4,
}

impl ContainerId {
    /// The variant's own name.
    pub open spec fn name(self) -> Seq<char> {
        match self {
            ContainerId::Matroska => "Matroska"@,
            ContainerId::Mp4 => "Mp4"@,
        }
    }

    /// The variant's own name, as documents spell it.
    pub fn variant_name(self) -> (r: &'static str)
        ensures
            r@ == self.name(),
            self is Matroska ==> r@ == "Matroska"@,
            self is Mp4 ==> r@ == "Mp4"@,
    {
        match self {
            ContainerId::Matroska => "Matroska",
            ContainerId::Mp4 => "Mp4",
        }
    }
}

/// A decode path.
#[derive(Debug, Clone, Copy, PartialEq, Eq, Hash, Structural)]
#[non_exhaustive]
pub enum DecoderKind {
    /// Software decode. Always available.
    Software,
    /// NVIDIA NVDEC.
    Nvdec,
    /// Intel Quick Sync.
    Qsv,
    /// VA-API.
    Vaapi,
    /// Apple VideoToolbox.
    Videotoolbox,
}

impl DecoderKind {
    /// The variant's own name.
    pub open spec fn name(self) -> Seq<char> {
        match self {
            DecoderKind::Software => "Software"@,
            DecoderKind::Nvdec => "Nvdec"@,
            DecoderKind::Qsv => "Qsv"@,
            DecoderKind::Vaapi => "Vaapi"@,
            DecoderKind::Videotoolbox => "Videotoolbox"@,
        }
    }

    /// The variant's own name, as documents spell it.
    pub fn variant_name(self) -> (r: &'static str)
        ensures
            r@ == self.name(),
            self is Software ==> r@ == "Software"@,
            self is Nvdec ==> r@ == "Nvdec"@,
            self is Qsv ==> r@ == "Qsv"@,
            self is Vaapi ==> r@ == "Vaapi"@,
            self is Videotoolbox ==> r@ == "Videotoolbox"@,
    {
        match self {
            DecoderKind::Software => "Software",
            DecoderKind::Nvdec => "Nvdec",
            DecoderKind::Qsv => "Qsv",
            DecoderKind::Vaapi => "Vaapi",
            DecoderKind::Videotoolbox => "Videotoolbox",
        }
    }
}

/// The verdict from trial-decoding one codec on one decode path.
#[derive(Debug, Clone, Copy, PartialEq, Eq, Hash, Structural)]
#[non_exhaustive]
pub enum DecoderStatus {
    /// Never trialled. Not proof of anything.
    Untested,
    /// Trial decode succeeded on the requested path.
    VerifiedOk,
    /// Trial decode succeeded, but ffmpeg fell back to software.
    VerifiedSoftFallback,
    /// Trial decode failed outright.
    VerifiedFail,
}

impl DecoderStatus {
    /// The variant's own name.
    pub open spec fn name(self) -> Seq<char> {
        match self {
            DecoderStatus::Untested => "Untested"@,
            DecoderStatus::VerifiedOk => "VerifiedOk"@,
            DecoderStatus::VerifiedSoftFallback => "VerifiedSoftFallback"@,
            DecoderStatus::VerifiedFail => "VerifiedFail"@,
        }
    }

    /// The variant's own name, as documents spell it.
    pub fn variant_name(self) -> (r: &'static str)
        ensures
            r@ == self.name(),
            self is Untested ==> r@ == "Untested"@,
            self is VerifiedOk ==> r@ == "VerifiedOk"@,
            self is VerifiedSoftFallback ==> r@ == "VerifiedSoftFallback"@,
            self is VerifiedFail ==> r@ == "VerifiedFail"@,
    {
        match self {
            DecoderStatus::Untested => "Untested",
            DecoderStatus::VerifiedOk => "VerifiedOk",
            DecoderStatus::VerifiedSoftFallback => "VerifiedSoftFallback",
            DecoderStatus::VerifiedFail => "VerifiedFail",
        }
    }
}

impl DecoderStatus {
    /// Whether this status satisfies a hardware decode requirement.
    ///
    /// Only `VerifiedOk` does. A soft fallback is a successful decode that did
    /// not use the hardware, and absence of a trial is not proof of capability.
    pub fn satisfies_hardware_requirement(self) -> (r: bool)
        ensures
            r == (self is VerifiedOk),
    {
        matches!(self, DecoderStatus::VerifiedOk)
    }
}

/// A number of cores, as it was measured, and its spellings.
#[derive(Debug, Clone, PartialEq, Eq, Hash)]
pub struct Cores {
    /// How many.
    pub amount: Double,
    /// How a JSON document spells the number.
    pub json: String,
    /// How the number is shown to a person.
    pub shown: String,
}

/// Codec, profile, depth and decode path: the key a decode verdict hangs on.
#[derive(Debug, Clone, PartialEq, Eq, Hash)]
pub struct DecoderTriple {
    /// ffmpeg codec name, e.g. `h264`, `av1`.
    pub codec: String,
    /// Codec profile, empty when it does not discriminate.
    pub profile: String,
    /// Source bit depth.
    pub bit_depth: BitDepth,
    /// Decode path being asked about.
    pub kind: DecoderKind,
}

impl DecoderTriple {
    /// All four parts agree.
    pub open spec fn same_as(self, other: DecoderTriple) -> bool {
        &&& self.codec@ == other.codec@
        &&& self.profile@ == other.profile@
        &&& self.bit_depth == other.bit_depth
        &&& self.kind == other.kind
    }

    /// Whether all four parts agree.
    pub fn same(&self, other: &DecoderTriple) -> (r: bool)
        ensures
            r == self.same_as(*other),
    {
        self.codec == other.codec && self.profile == other.profile && self.bit_depth
            == other.bit_depth && self.kind == other.kind
    }

    /// The same triple again.
    pub fn duplicate(&self) -> (r: DecoderTriple)
        ensures
            r == *self,
    {
        DecoderTriple {
            codec: self.codec.clone(),
            profile: self.profile.clone(),
            bit_depth: self.bit_depth,
            kind: self.kind,
        }
    }
}

/// A trial-decode result for one triple.
#[derive(Debug, Clone, PartialEq)]
pub struct DecoderCapability {
    /// What was trialled.
    pub triple: DecoderTriple,
    /// How it went.
    pub status: DecoderStatus,
    /// Operator-readable evidence, e.g. the stderr line that decided it.
    pub evidence: String,
}

/// A mount an agent can see, and the canonical prefix it corresponds to.
#[derive(Debug, Clone, PartialEq, Eq)]
pub struct Mount {
    /// Canonical path prefix as the server names it, e.g. `/mnt/media`.
    pub canonical_prefix: String,
    /// Where this agent sees it.
    pub local_path: String,
    /// Whether the agent can write there.
    pub writable: bool,
}

/// The full capability document an agent advertises.
#[derive(Debug, Clone, PartialEq)]
pub struct Capability {
    /// Work classes this agent accepts.
    pub classes: Vec<AgentClass>,
    /// Encoders available.
    pub encoders: Vec<EncoderId>,
    /// Muxers available.
    pub muxers: Vec<ContainerId>,
    /// Trial-decode verdicts.
    pub decoders: Vec<DecoderCapability>,
    /// Cores after any cgroup quota: what the agent can actually use.
    pub effective_cores: Cores,
    /// Mounts visible to this agent.
    pub mounts: Vec<Mount>,
    /// Platform.
    pub platform: Option<Platform>,
    /// Free bytes in the agent's work area at probe time.
    pub workarea_free_bytes: u64,
    /// Arbitrary operator labels, e.g. `rack=1`.
    pub labels: Vec<(String, String)>,
    /// How the agent gets at the media.
    pub transport: TransportMode,
    /// The agent's work area, in its own namespace.
    pub workarea_path: String,
}

impl Default for Capability {
    /// An agent that offers nothing.
    fn default() -> (r: Capability)
        ensures
            r.classes@.len() == 0,
            r.encoders@.len() == 0,
            r.muxers@.len() == 0,
            r.decoders@.len() == 0,
            r.effective_cores.amount.bits == 0,
            r.effective_cores.json@ == "0.0"@,
            r.effective_cores.shown@ == "0"@,
            r.mounts@.len() == 0,
            r.platform is None,
            r.workarea_free_bytes == 0,
            r.labels@.len() == 0,
            r.transport is Mount,
            r.workarea_path@.len() == 0,
    {
        Capability {
            classes: Vec::new(),
            encoders: Vec::new(),
            muxers: Vec::new(),
            decoders: Vec::new(),
            effective_cores: Cores {
                amount: Double { bits: 0 },
                json: "0.0".to_owned(),
                shown: "0".to_owned(),
            },
            mounts: Vec::new(),
            platform: None,
            workarea_free_bytes: 0,
            labels: Vec::new(),
            transport: TransportMode::Mount,
            workarea_path: String::new(),
        }
    }
}

/// The verdict of the first trial of a triple; `Untested` where there is none.
pub open spec fn verdict(decoders: Seq<DecoderCapability>, triple: DecoderTriple) -> DecoderStatus
    decreases decoders.len(),
{
    if decoders.len() == 0 {
        DecoderStatus::Untested
    } else if decoders[0].triple.same_as(triple) {
        decoders[0].status
    } else {
        verdict(decoders.skip(1), triple)
    }
}

/// One thing a job needs from whatever runs it.
#[derive(Debug, Clone, PartialEq)]
#[non_exhaustive]
pub enum Requirement {
    /// Agent must advertise this work class.
    AgentClass(AgentClass),
    /// Agent must have this encoder.
    Encoder(EncoderId),
    /// Agent must decode this triple, verified on that very path.
    Decoder(DecoderTriple),
    /// Agent must have this muxer.
    Muxer(ContainerId),
    /// Agent must have at least this many effective cores.
    MinEffectiveCores(Double),
    /// Agent's work area must have at least this many free bytes.
    MinFreeBytes(u64),
    /// Agent must see a mount covering this canonical prefix, writably.
    MountCovers(String),
    /// Agent's platform must be one of these.
    PlatformIn(Vec<Platform>),
    /// Agent must carry this label.
    LabelEquals(String, String),
}

/// An ordered, AND-ed list of requirements attached to a job.
#[derive(Debug, Clone, PartialEq)]
pub struct Requirements(pub Vec<Requirement>);

impl Default for Requirements {
    /// Nothing required.
    fn default() -> (r: Requirements)
        ensures
            r.0@.len() == 0,
    {
        Requirements(Vec::new())
    }
}

/// The specific requirement an agent failed, with an operator-readable reason.
#[derive(Debug, Clone, PartialEq)]
pub struct UnmetRequirement {
    /// Which requirement was not met.
    pub requirement: Requirement,
    /// Why, in words.
    pub detail: String,
}

impl Requirement {
    /// The two ask for the same thing.
    pub open spec fn same_as(self, other: Requirement) -> bool {
        match (self, other) {
            (Requirement::AgentClass(a), Requirement::AgentClass(b)) => a == b,
            (Requirement::Encoder(a), Requirement::Encoder(b)) => a == b,
            (Requirement::Decoder(a), Requirement::Decoder(b)) => a.same_as(b),
            (Requirement::Muxer(a), Requirement::Muxer(b)) => a == b,
            (Requirement::MinEffectiveCores(a), Requirement::MinEffectiveCores(b)) => a == b,
            (Requirement::MinFreeBytes(a), Requirement::MinFreeBytes(b)) => a == b,
            (Requirement::MountCovers(a), Requirement::MountCovers(b)) => a@ == b@,
            (Requirement::PlatformIn(a), Requirement::PlatformIn(b)) => a@ == b@,
            (Requirement::LabelEquals(a, b), Requirement::LabelEquals(c, d)) => a@ == c@ && b@
                == d@,
            _ => false,
        }
    }

    /// A requirement that asks for the same thing.
    pub fn duplicate(&self) -> (r: Requirement)
        ensures
            r.same_as(*self),
    {
        match self {
            Requirement::AgentClass(c) => Requirement::AgentClass(*c),
            Requirement::Encoder(e) => Requirement::Encoder(*e),
            Requirement::Decoder(t) => Requirement::Decoder(t.duplicate()),
            Requirement::Muxer(m) => Requirement::Muxer(*m),
            Requirement::MinEffectiveCores(n) => Requirement::MinEffectiveCores(*n),
            Requirement::MinFreeBytes(b) => Requirement::MinFreeBytes(*b),
            Requirement::MountCovers(p) => Requirement::MountCovers(p.clone()),
            Requirement::PlatformIn(allowed) => {
                let mut copy: Vec<Platform> = Vec::new();
                let mut i: usize = 0;
                while i < allowed.len()
                    invariant
                        i <= allowed@.len(),
                        copy@ == allowed@.take(i as int),
                    decreases allowed.len() - i,
                {
                    copy.push(allowed[i]);
                    i += 1;
                    assert(copy@ =~= allowed@.take(i as int));
                }
                assert(allowed@.take(i as int) =~= allowed@);
                Requirement::PlatformIn(copy)
            },
            Requirement::LabelEquals(k, v) => Requirement::LabelEquals(k.clone(), v.clone()),
        }
    }
}

// --------------------------------------------------------------- matching --

/// A writable mount whose prefix begins the path.
pub open spec fn covers(m: Mount, path: Seq<char>) -> bool {
    m.writable && text::occurs_at(path, m.canonical_prefix@, 0)
}

/// The capability provides what the requirement asks for.
pub open spec fn met(cap: Capability, r: Requirement) -> bool {
    match r {
        Requirement::AgentClass(c) => cap.classes@.contains(c),
        Requirement::Encoder(e) => cap.encoders@.contains(e),
        Requirement::Decoder(t) => verdict(cap.decoders@, t) is VerifiedOk,
        Requirement::Muxer(m) => cap.muxers@.contains(m),
        Requirement::MinEffectiveCores(n) => cap.effective_cores.amount.reaches(n),
        Requirement::MinFreeBytes(b) => cap.workarea_free_bytes >= b,
        Requirement::MountCovers(p) => exists|i: int|
            0 <= i < cap.mounts@.len() && covers(#[trigger] cap.mounts@[i], p@),
        Requirement::PlatformIn(allowed) => cap.platform is Some && allowed@.contains(
            cap.platform->0,
        ),
        Requirement::LabelEquals(k, v) => exists|i: int|
            0 <= i < cap.labels@.len() && (#[trigger] cap.labels@[i]).0@ == k@ && cap.labels@[i].1@
                == v@,
    }
}

/// The names of a list of classes.
pub open spec fn class_names(v: Seq<AgentClass>) -> Seq<Seq<char>> {
    v.map_values(|c: AgentClass| c.name())
}

/// The names of a list of platforms.
pub open spec fn platform_names(v: Seq<Platform>) -> Seq<Seq<char>> {
    v.map_values(|p: Platform| p.name())
}

/// The canonical prefixes of a list of mounts, as debug text.
pub open spec fn prefix_names(v: Seq<Mount>) -> Seq<Seq<char>> {
    v.map_values(|m: Mount| document::debug_string(m.canonical_prefix@))
}

/// Why a requirement is not met, in words.
pub open spec fn unmet_detail(cap: Capability, r: Requirement) -> Seq<char> {
    match r {
        Requirement::AgentClass(c) => "agent does not advertise class "@ + c.name() + "; has "@
            + document::debug_list(class_names(cap.classes@)),
        Requirement::Encoder(e) => "agent lacks encoder "@ + e.ffmpeg(),
        Requirement::Decoder(t) => "decode of "@ + t.codec@ + " "@ + t.bit_depth.name() + " on "@
            + t.kind.name() + " is "@ + verdict(cap.decoders@, t).name() + ", not VerifiedOk"@,
        Requirement::Muxer(m) => "agent lacks muxer "@ + m.name(),
        Requirement::MinEffectiveCores(n) => "agent has "@ + cap.effective_cores.amount.tenths()
            + " effective cores, needs "@ + n.tenths(),
        Requirement::MinFreeBytes(b) => "work area has "@ + text::dec(
            cap.workarea_free_bytes as nat,
        ) + " B free, needs "@ + text::dec(b as nat) + " B"@,
        Requirement::MountCovers(p) => "no writable mount covers "@ + p@ + "; agent sees "@
            + document::debug_list(prefix_names(cap.mounts@)),
        Requirement::PlatformIn(allowed) => "agent platform "@ + document::debug_option(
            match cap.platform {
                Some(p) => Some(p.name()),
                None => None,
            },
        ) + " not in "@ + document::debug_list(platform_names(allowed@)),
        Requirement::LabelEquals(k, v) => "agent lacks label "@ + k@ + "="@ + v@,
    }
}

fn class_list_text(v: &Vec<AgentClass>) -> (r: String)
    ensures
        r@ == document::debug_list(class_names(v@)),
{
    let mut parts: Vec<String> = Vec::new();
    let mut i: usize = 0;
    while i < v.len()
        invariant
            i <= v@.len(),
            text::texts(parts@) == class_names(v@.take(i as int)),
        decreases v.len() - i,
    {
        text::push_text(&mut parts, v[i].variant_name());
        i += 1;
        assert(text::texts(parts@) =~= class_names(v@.take(i as int)));
    }
    assert(v@.take(i as int) =~= v@);
    document::debug_list_text(parts.as_slice())
}

fn platform_list_text(v: &Vec<Platform>) -> (r: String)
    ensures
        r@ == document::debug_list(platform_names(v@)),
{
    let mut parts: Vec<String> = Vec::new();
    let mut i: usize = 0;
    while i < v.len()
        invariant
            i <= v@.len(),
            text::texts(parts@) == platform_names(v@.take(i as int)),
        decreases v.len() - i,
    {
        text::push_text(&mut parts, v[i].variant_name());
        i += 1;
        assert(text::texts(parts@) =~= platform_names(v@.take(i as int)));
    }
    assert(v@.take(i as int) =~= v@);
    document::debug_list_text(parts.as_slice())
}

fn prefix_list_text(v: &Vec<Mount>) -> (r: String)
    ensures
        r@ == document::debug_list(prefix_names(v@)),
{
    let mut parts: Vec<String> = Vec::new();
    let mut i: usize = 0;
    while i < v.len()
        invariant
            i <= v@.len(),
            text::texts(parts@) == prefix_names(v@.take(i as int)),
        decreases v.len() - i,
    {
        let t = document::debug_text(v[i].canonical_prefix.as_str());
        text::push_text(&mut parts, t.as_str());
        i += 1;
        assert(text::texts(parts@) =~= prefix_names(v@.take(i as int)));
    }
    assert(v@.take(i as int) =~= v@);
    document::debug_list_text(parts.as_slice())
}

fn has_class(v: &Vec<AgentClass>, c: AgentClass) -> (r: bool)
    ensures
        r == v@.contains(c),
{
    let mut i: usize = 0;
    while i < v.len()
        invariant
            i <= v@.len(),
            forall|j: int| 0 <= j < i ==> v@[j] != c,
        decreases v.len() - i,
    {
        if v[i] == c {
            return true;
        }
        i += 1;
    }
    false
}

fn has_encoder(v: &Vec<EncoderId>, e: EncoderId) -> (r: bool)
    ensures
        r == v@.contains(e),
{
    let mut i: usize = 0;
    while i < v.len()
        invariant
            i <= v@.len(),
            forall|j: int| 0 <= j < i ==> v@[j] != e,
        decreases v.len() - i,
    {
        if v[i] == e {
            return true;
        }
        i += 1;
    }
    false
}

fn has_muxer(v: &Vec<ContainerId>, m: ContainerId) -> (r: bool)
    ensures
        r == v@.contains(m),
{
    let mut i: usize = 0;
    while i < v.len()
        invariant
            i <= v@.len(),
            forall|j: int| 0 <= j < i ==> v@[j] != m,
        decreases v.len() - i,
    {
        if v[i] == m {
            return true;
        }
        i += 1;
    }
    false
}

fn has_platform(v: &Vec<Platform>, p: Platform) -> (r: bool)
    ensures
        r == v@.contains(p),
{
    let mut i: usize = 0;
    while i < v.len()
        invariant
            i <= v@.len(),
            forall|j: int| 0 <= j < i ==> v@[j] != p,
        decreases v.len() - i,
    {
        if v[i] == p {
            return true;
        }
        i += 1;
    }
    false
}

fn any_mount_covers(v: &Vec<Mount>, path: &str) -> (r: bool)
    ensures
        r == exists|i: int| 0 <= i < v@.len() && covers(#[trigger] v@[i], path@),
{
    let mut i: usize = 0;
    while i < v.len()
        invariant
            i <= v@.len(),
            forall|j: int| 0 <= j < i ==> !covers(#[trigger] v@[j], path@),
        decreases v.len() - i,
    {
        if v[i].writable && text::starts_with(path, v[i].canonical_prefix.as_str()) {
            assert(covers(v@[i as int], path@));
            return true;
        }
        i += 1;
    }
    false
}

fn has_label(v: &Vec<(String, String)>, k: &String, val: &String) -> (r: bool)
    ensures
        r == exists|i: int|
            0 <= i < v@.len() && (#[trigger] v@[i]).0@ == k@ && v@[i].1@ == val@,
{
    let mut i: usize = 0;
    while i < v.len()
        invariant
            i <= v@.len(),
            forall|j: int| 0 <= j < i ==> !((#[trigger] v@[j]).0@ == k@ && v@[j].1@ == val@),
        decreases v.len() - i,
    {
        if v[i].0 == *k && v[i].1 == *val {
            return true;
        }
        i += 1;
    }
    false
}

impl Capability {
    /// The recorded verdict for a decode triple.
    pub fn decoder_status(&self, triple: &DecoderTriple) -> (r: DecoderStatus)
        ensures
            r == verdict(self.decoders@, *triple),
    {
        let mut i: usize = 0;
        assert(self.decoders@.skip(0) =~= self.decoders@);
        while i < self.decoders.len()
            invariant
                i <= self.decoders@.len(),
                verdict(self.decoders@.skip(i as int), *triple) == verdict(self.decoders@, *triple),
            decreases self.decoders.len() - i,
        {
            let ghost here = self.decoders@.skip(i as int);
            assert(here[0] == self.decoders@[i as int]);
            assert(here.skip(1) =~= self.decoders@.skip(i + 1));
            if self.decoders[i].triple.same(triple) {
                return self.decoders[i].status;
            }
            i += 1;
        }
        DecoderStatus::Untested
    }

    /// Why one requirement is not met, or `None` where it is.
    fn judge(&self, r: &Requirement) -> (out: Option<String>)
        ensures
            out is None == met(*self, *r),
            out is Some ==> out->0@ == unmet_detail(*self, *r),
    {
        match r {
            Requirement::AgentClass(c) => {
                if has_class(&self.classes, *c) {
                    return None;
                }
                let mut s = text::cat3(
                    "agent does not advertise class ",
                    c.variant_name(),
                    "; has ",
                );
                s.append(class_list_text(&self.classes).as_str());
                Some(s)
            },
            Requirement::Encoder(e) => {
                if has_encoder(&self.encoders, *e) {
                    return None;
                }
                Some(text::cat2("agent lacks encoder ", e.as_ffmpeg()))
            },
            Requirement::Decoder(t) => {
                let status = self.decoder_status(t);
                if status.satisfies_hardware_requirement() {
                    return None;
                }
                let mut s = text::cat3("decode of ", t.codec.as_str(), " ");
                s.append(t.bit_depth.variant_name());
                s.append(" on ");
                s.append(t.kind.variant_name());
                s.append(" is ");
                s.append(status.variant_name());
                s.append(", not VerifiedOk");
                Some(s)
            },
            Requirement::Muxer(m) => {
                if has_muxer(&self.muxers, *m) {
                    return None;
                }
                Some(text::cat2("agent lacks muxer ", m.variant_name()))
            },
            Requirement::MinEffectiveCores(n) => {
                if self.effective_cores.amount.is_at_least(n) {
                    return None;
                }
                let mut s = "agent has ".to_owned();
                self.effective_cores.amount.push_tenths(&mut s);
                s.append(" effective cores, needs ");
                n.push_tenths(&mut s);
                Some(s)
            },
            Requirement::MinFreeBytes(b) => {
                if self.workarea_free_bytes >= *b {
                    return None;
                }
                let mut s = "work area has ".to_owned();
                text::push_u64(&mut s, self.workarea_free_bytes);
                s.append(" B free, needs ");
                text::push_u64(&mut s, *b);
                s.append(" B");
                Some(s)
            },
            Requirement::MountCovers(prefix) => {
                if any_mount_covers(&self.mounts, prefix.as_str()) {
                    return None;
                }
                let mut s = text::cat3(
                    "no writable mount covers ",
                    prefix.as_str(),
                    "; agent sees ",
                );
                s.append(prefix_list_text(&self.mounts).as_str());
                Some(s)
            },
            Requirement::PlatformIn(allowed) => {
                let named: Option<&str> = match self.platform {
                    Some(p) => {
                        if has_platform(allowed, p) {
                            return None;
                        }
                        Some(p.variant_name())
                    },
                    None => None,
                };
                let mut s = text::cat3(
                    "agent platform ",
                    document::debug_option_text(named).as_str(),
                    " not in ",
                );
                s.append(platform_list_text(allowed).as_str());
                Some(s)
            },
            Requirement::LabelEquals(k, v) => {
                if has_label(&self.labels, k, v) {
                    return None;
                }
                let mut s = text::cat3("agent lacks label ", k.as_str(), "=");
                s.append(v.as_str());
                Some(s)
            },
        }
    }
}

/// The position of the first requirement that is not met, or the length.
pub open spec fn first_unmet(cap: Capability, reqs: Seq<Requirement>) -> int
    decreases reqs.len(),
{
    if reqs.len() == 0 {
        0
    } else if !met(cap, reqs[0]) {
        0
    } else {
        1 + first_unmet(cap, reqs.skip(1))
    }
}

/// Check a capability document against a set of requirements.
///
/// Returns the first unmet requirement with the reason.
pub fn satisfies(cap: &Capability, req: &Requirements) -> (r: Result<(), UnmetRequirement>)
    ensures
        r is Ok == (first_unmet(*cap, req.0@) == req.0@.len()),
        r is Err ==> {
            let i = first_unmet(*cap, req.0@);
            &&& 0 <= i < req.0@.len()
            &&& r->Err_0.requirement.same_as(req.0@[i])
            &&& r->Err_0.detail@ == unmet_detail(*cap, req.0@[i])
        },
{
    let mut i: usize = 0;
    assert(req.0@.skip(0) =~= req.0@);
    while i < req.0.len()
        invariant
            i <= req.0@.len(),
            i + first_unmet(*cap, req.0@.skip(i as int)) == first_unmet(*cap, req.0@),
        decreases req.0.len() - i,
    {
        let ghost here = req.0@.skip(i as int);
        assert(here[0] == req.0@[i as int]);
        assert(here.skip(1) =~= req.0@.skip(i + 1));
        match cap.judge(&req.0[i]) {
            Some(detail) => {
                return Err(UnmetRequirement { requirement: req.0[i].duplicate(), detail });
            },
            None => {},
        }
        i += 1;
    }
    Ok(())
}

// --------------------------------------------------------------- document --

/// The names of a list, as JSON strings.
pub open spec fn class_words(v: Seq<AgentClass>) -> Seq<Seq<char>> {
    v.map_values(|x: AgentClass| document::json_word(x.name()))
}

fn classes_json(v: &Vec<AgentClass>) -> (r: String)
    ensures
        r@ == document::json_list(class_words(v@)),
{
    let mut parts: Vec<String> = Vec::new();
    let mut i: usize = 0;
    while i < v.len()
        invariant
            i <= v@.len(),
            text::texts(parts@) == class_words(v@.take(i as int)),
        decreases v.len() - i,
    {
        text::push_owned(&mut parts, document::word_text(v[i].variant_name()));
        i += 1;
        assert(text::texts(parts@) =~= class_words(v@.take(i as int)));
    }
    assert(v@.take(i as int) =~= v@);
    document::list_text(parts.as_slice())
}

/// The names of a list, as JSON strings.
pub open spec fn encoder_words(v: Seq<EncoderId>) -> Seq<Seq<char>> {
    v.map_values(|x: EncoderId| document::json_word(x.name()))
}

fn encoders_json(v: &Vec<EncoderId>) -> (r: String)
    ensures
        r@ == document::json_list(encoder_words(v@)),
{
    let mut parts: Vec<String> = Vec::new();
    let mut i: usize = 0;
    while i < v.len()
        invariant
            i <= v@.len(),
            text::texts(parts@) == encoder_words(v@.take(i as int)),
        decreases v.len() - i,
    {
        text::push_owned(&mut parts, document::word_text(v[i].variant_name()));
        i += 1;
        assert(text::texts(parts@) =~= encoder_words(v@.take(i as int)));
    }
    assert(v@.take(i as int) =~= v@);
    document::list_text(parts.as_slice())
}

/// The names of a list, as JSON strings.
pub open spec fn muxer_words(v: Seq<ContainerId>) -> Seq<Seq<char>> {
    v.map_values(|x: ContainerId| document::json_word(x.name()))
}

fn muxers_json(v: &Vec<ContainerId>) -> (r: String)
    ensures
        r@ == document::json_list(muxer_words(v@)),
{
    let mut parts: Vec<String> = Vec::new();
    let mut i: usize = 0;
    while i < v.len()
        invariant
            i <= v@.len(),
            text::texts(parts@) == muxer_words(v@.take(i as int)),
        decreases v.len() - i,
    {
        text::push_owned(&mut parts, document::word_text(v[i].variant_name()));
        i += 1;
        assert(text::texts(parts@) =~= muxer_words(v@.take(i as int)));
    }
    assert(v@.take(i as int) =~= v@);
    document::list_text(parts.as_slice())
}

impl DecoderTriple {
    /// The triple as a JSON object.
    pub open spec fn json(self) -> Seq<char> {
        "{\"codec\":"@ + document::json_string(self.codec@) + ",\"profile\":"@
            + document::json_string(self.profile@) + ",\"bit_depth\":"@ + document::json_word(
            self.bit_depth.name(),
        ) + ",\"kind\":"@ + document::json_word(self.kind.name()) + "}"@
    }

    fn json_text(&self) -> (r: String)
        ensures
            r@ == self.json(),
    {
        let mut s = "{\"codec\":".to_owned();
        s.append(document::json_text(self.codec.as_str()).as_str());
        s.append(",\"profile\":");
        s.append(document::json_text(self.profile.as_str()).as_str());
        s.append(",\"bit_depth\":");
        s.append(document::word_text(self.bit_depth.variant_name()).as_str());
        s.append(",\"kind\":");
        s.append(document::word_text(self.kind.variant_name()).as_str());
        s.append("}");
        s
    }
}

impl DecoderCapability {
    /// The trial as a JSON object.
    pub open spec fn json(self) -> Seq<char> {
        "{\"triple\":"@ + self.triple.json() + ",\"status\":"@ + document::json_word(
            self.status.name(),
        ) + ",\"evidence\":"@ + document::json_string(self.evidence@) + "}"@
    }

    fn json_text(&self) -> (r: String)
        ensures
            r@ == self.json(),
    {
        let mut s = "{\"triple\":".to_owned();
        s.append(self.triple.json_text().as_str());
        s.append(",\"status\":");
        s.append(document::word_text(self.status.variant_name()).as_str());
        s.append(",\"evidence\":");
        s.append(document::json_text(self.evidence.as_str()).as_str());
        s.append("}");
        s
    }
}

impl Mount {
    /// The mount as a JSON object.
    pub open spec fn json(self) -> Seq<char> {
        "{\"canonical_prefix\":"@ + document::json_string(self.canonical_prefix@)
            + ",\"local_path\":"@ + document::json_string(self.local_path@) + ",\"writable\":"@
            + document::bool_word(self.writable) + "}"@
    }

    fn json_text(&self) -> (r: String)
        ensures
            r@ == self.json(),
    {
        let mut s = "{\"canonical_prefix\":".to_owned();
        s.append(document::json_text(self.canonical_prefix.as_str()).as_str());
        s.append(",\"local_path\":");
        s.append(document::json_text(self.local_path.as_str()).as_str());
        s.append(",\"writable\":");
        s.append(document::bool_text(self.writable));
        s.append("}");
        s
    }
}

/// A label as a JSON pair.
pub open spec fn label_json(l: (String, String)) -> Seq<char> {
    "["@ + document::json_string(l.0@) + ","@ + document::json_string(l.1@) + "]"@
}

fn label_text(l: &(String, String)) -> (r: String)
    ensures
        r@ == label_json(*l),
{
    let mut s = "[".to_owned();
    s.append(document::json_text(l.0.as_str()).as_str());
    s.append(",");
    s.append(document::json_text(l.1.as_str()).as_str());
    s.append("]");
    s
}

/// The entries of a list, as JSON values.
pub open spec fn decoder_objects(v: Seq<DecoderCapability>) -> Seq<Seq<char>> {
    v.map_values(|x: DecoderCapability| x.json())
}

fn decoders_json(v: &Vec<DecoderCapability>) -> (r: String)
    ensures
        r@ == document::json_list(decoder_objects(v@)),
{
    let mut parts: Vec<String> = Vec::new();
    let mut i: usize = 0;
    while i < v.len()
        invariant
            i <= v@.len(),
            text::texts(parts@) == decoder_objects(v@.take(i as int)),
        decreases v.len() - i,
    {
        text::push_owned(&mut parts, v[i].json_text());
        i += 1;
        assert(text::texts(parts@) =~= decoder_objects(v@.take(i as int)));
    }
    assert(v@.take(i as int) =~= v@);
    document::list_text(parts.as_slice())
}

/// The entries of a list, as JSON values.
pub open spec fn mount_objects(v: Seq<Mount>) -> Seq<Seq<char>> {
    v.map_values(|x: Mount| x.json())
}

fn mounts_json(v: &Vec<Mount>) -> (r: String)
    ensures
        r@ == document::json_list(mount_objects(v@)),
{
    let mut parts: Vec<String> = Vec::new();
    let mut i: usize = 0;
    while i < v.len()
        invariant
            i <= v@.len(),
            text::texts(parts@) == mount_objects(v@.take(i as int)),
        decreases v.len() - i,
    {
        text::push_owned(&mut parts, v[i].json_text());
        i += 1;
        assert(text::texts(parts@) =~= mount_objects(v@.take(i as int)));
    }
    assert(v@.take(i as int) =~= v@);
    document::list_text(parts.as_slice())
}

/// The entries of a list, as JSON values.
pub open spec fn label_pairs(v: Seq<(String, String)>) -> Seq<Seq<char>> {
    v.map_values(|x: (String, String)| label_json(x))
}

fn labels_json(v: &Vec<(String, String)>) -> (r: String)
    ensures
        r@ == document::json_list(label_pairs(v@)),
{
    let mut parts: Vec<String> = Vec::new();
    let mut i: usize = 0;
    while i < v.len()
        invariant
            i <= v@.len(),
            text::texts(parts@) == label_pairs(v@.take(i as int)),
        decreases v.len() - i,
    {
        text::push_owned(&mut parts, label_text(&v[i]));
        i += 1;
        assert(text::texts(parts@) =~= label_pairs(v@.take(i as int)));
    }
    assert(v@.take(i as int) =~= v@);
    document::list_text(parts.as_slice())
}

impl Capability {
    /// The canonical JSON document: every field, in declaration order.
    pub open spec fn document(self) -> Seq<char> {
        "{\"classes\":"@ + document::json_list(class_words(self.classes@)) + ",\"encoders\":"@
            + document::json_list(encoder_words(self.encoders@)) + ",\"muxers\":"@
            + document::json_list(muxer_words(self.muxers@)) + ",\"decoders\":"@
            + document::json_list(decoder_objects(self.decoders@)) + ",\"effective_cores\":"@
            + self.effective_cores.json@ + ",\"mounts\":"@ + document::json_list(
            mount_objects(self.mounts@),
        ) + ",\"platform\":"@ + (match self.platform {
            Some(p) => document::json_word(p.name()),
            None => "null"@,
        }) + ",\"workarea_free_bytes\":"@ + text::dec(self.workarea_free_bytes as nat)
            + ",\"labels\":"@ + document::json_list(label_pairs(self.labels@))
            + ",\"transport\":"@ + document::json_word(self.transport.name())
            + ",\"workarea_path\":"@ + document::json_string(self.workarea_path@) + "}"@
    }

    /// The canonical JSON document.
    pub fn canonical_json(&self) -> (r: String)
        ensures
            r@ == self.document(),
    {
        let mut s = "{\"classes\":".to_owned();
        s.append(classes_json(&self.classes).as_str());
        s.append(",\"encoders\":");
        s.append(encoders_json(&self.encoders).as_str());
        s.append(",\"muxers\":");
        s.append(muxers_json(&self.muxers).as_str());
        s.append(",\"decoders\":");
        s.append(decoders_json(&self.decoders).as_str());
        s.append(",\"effective_cores\":");
        s.append(self.effective_cores.json.as_str());
        s.append(",\"mounts\":");
        s.append(mounts_json(&self.mounts).as_str());
        s.append(",\"platform\":");
        match self.platform {
            Some(p) => s.append(document::word_text(p.variant_name()).as_str()),
            None => s.append("null"),
        }
        s.append(",\"workarea_free_bytes\":");
        text::push_u64(&mut s, self.workarea_free_bytes);
        s.append(",\"labels\":");
        s.append(labels_json(&self.labels).as_str());
        s.append(",\"transport\":");
        s.append(document::word_text(self.transport.variant_name()).as_str());
        s.append(",\"workarea_path\":");
        s.append(document::json_text(self.workarea_path.as_str()).as_str());
        s.append("}");
        s
    }

    /// A stable hash of the capability document, for drift detection.
    pub fn hash(&self) -> (r: String)
        ensures
            r@ == document::blake3_hex(self.document()),
            r@.len() == 64,
    {
        document::digest(self.canonical_json().as_str())
    }
}

// ------------------------------------------------------------------- laws --

/// What `first_unmet` says: everything before it is met, and it is not.
pub proof fn law_first_unmet_is_first(cap: Capability, reqs: Seq<Requirement>)
    ensures
        0 <= first_unmet(cap, reqs) <= reqs.len(),
        forall|j: int| 0 <= j < first_unmet(cap, reqs) ==> met(cap, #[trigger] reqs[j]),
        first_unmet(cap, reqs) < reqs.len() ==> !met(cap, reqs[first_unmet(cap, reqs)]),
    decreases reqs.len(),
{
    if reqs.len() > 0 && met(cap, reqs[0]) {
        law_first_unmet_is_first(cap, reqs.skip(1));
        assert forall|j: int| 0 <= j < first_unmet(cap, reqs) implies met(
            cap,
            #[trigger] reqs[j],
        ) by {
            if j > 0 {
                assert(reqs.skip(1)[j - 1] == reqs[j]);
            }
        }
    }
}

/// An empty requirement set is satisfied by anything.
pub proof fn law_nothing_required_is_satisfied(cap: Capability)
    ensures
        first_unmet(cap, Seq::empty()) == 0,
{
}

/// A requirement on a decode path is met only by a verified trial of that
/// path: a soft fallback, a failure and an absent trial do not meet it.
pub proof fn law_only_a_verified_trial_meets_a_decoder_requirement(
    cap: Capability,
    t: DecoderTriple,
)
    ensures
        met(cap, Requirement::Decoder(t)) == (verdict(cap.decoders@, t) is VerifiedOk),
        (forall|i: int|
            0 <= i < cap.decoders@.len() && (#[trigger] cap.decoders@[i]).triple.same_as(t)
                ==> !(cap.decoders@[i].status is VerifiedOk)) ==> !met(cap, Requirement::Decoder(t)),
{
    lemma_verdict_source(cap.decoders@, t);
}

proof fn lemma_verdict_source(decoders: Seq<DecoderCapability>, t: DecoderTriple)
    ensures
        verdict(decoders, t) is Untested || exists|i: int|
            0 <= i < decoders.len() && (#[trigger] decoders[i]).triple.same_as(t)
                && decoders[i].status == verdict(decoders, t),
    decreases decoders.len(),
{
    if decoders.len() > 0 && !decoders[0].triple.same_as(t) {
        let rest = decoders.skip(1);
        lemma_verdict_source(rest, t);
        if !(verdict(rest, t) is Untested) {
            let i = choose|i: int|
                0 <= i < rest.len() && (#[trigger] rest[i]).triple.same_as(t) && rest[i].status
                    == verdict(rest, t);
            assert(decoders[i + 1] == rest[i]);
        }
    }
}

/// What is enough to meet a requirement: one listed class, encoder or muxer, as
/// many bytes, a writable mount whose prefix the path begins with, the platform
/// among those allowed, a label of that name and value.
pub proof fn law_what_meets_a_requirement(cap: Capability, r: Requirement, i: int)
    ensures
        r matches Requirement::AgentClass(c) ==> 0 <= i < cap.classes@.len() && cap.classes@[i] == c
            ==> met(cap, r),
        r matches Requirement::Encoder(e) ==> 0 <= i < cap.encoders@.len() && cap.encoders@[i] == e
            ==> met(cap, r),
        r matches Requirement::Muxer(m) ==> 0 <= i < cap.muxers@.len() && cap.muxers@[i] == m
            ==> met(cap, r),
        r matches Requirement::MinFreeBytes(b) ==> cap.workarea_free_bytes >= b ==> met(cap, r),
        r matches Requirement::MountCovers(p) ==> 0 <= i < cap.mounts@.len()
            && cap.mounts@[i].writable && (cap.mounts@[i].canonical_prefix@.is_prefix_of(p@))
            ==> met(cap, r),
        r matches Requirement::PlatformIn(allowed) ==> 0 <= i < allowed@.len() && cap.platform
            == Some(allowed@[i]) ==> met(cap, r),
        r matches Requirement::LabelEquals(k, v) ==> 0 <= i < cap.labels@.len()
            && cap.labels@[i].0@ == k@ && cap.labels@[i].1@ == v@ ==> met(cap, r),
{
    if let Requirement::MountCovers(p) = r {
        if 0 <= i < cap.mounts@.len() && cap.mounts@[i].writable
            && cap.mounts@[i].canonical_prefix@.is_prefix_of(p@) {
            assert(covers(cap.mounts@[i], p@));
        }
    }
}

/// What a requirement that is met shows of the agent.
pub proof fn law_what_a_met_requirement_shows(cap: Capability, r: Requirement)
    requires
        met(cap, r),
    ensures
        r matches Requirement::AgentClass(c) ==> cap.classes@.contains(c),
        r matches Requirement::Encoder(e) ==> cap.encoders@.contains(e),
        r matches Requirement::Muxer(m) ==> cap.muxers@.contains(m),
        r matches Requirement::MinFreeBytes(b) ==> cap.workarea_free_bytes >= b,
        r matches Requirement::MountCovers(p) ==> exists|i: int|
            0 <= i < cap.mounts@.len() && (#[trigger] cap.mounts@[i]).writable
                && cap.mounts@[i].canonical_prefix@.is_prefix_of(p@),
        r matches Requirement::PlatformIn(allowed) ==> (cap.platform matches Some(p)
            && allowed@.contains(p)),
        r matches Requirement::LabelEquals(k, v) ==> exists|i: int|
            0 <= i < cap.labels@.len() && (#[trigger] cap.labels@[i]).0@ == k@ && cap.labels@[i].1@
                == v@,
        r matches Requirement::Decoder(t) ==> exists|i: int|
            0 <= i < cap.decoders@.len() && (#[trigger] cap.decoders@[i]).status is VerifiedOk
                && cap.decoders@[i].triple.codec@ == t.codec@ && cap.decoders@[i].triple.profile@
                == t.profile@ && cap.decoders@[i].triple.bit_depth == t.bit_depth
                && cap.decoders@[i].triple.kind == t.kind,
        r matches Requirement::MinEffectiveCores(n) ==> cap.effective_cores.amount.reaches(n),
{
    if let Requirement::MountCovers(p) = r {
        let i = choose|i: int|
            0 <= i < cap.mounts@.len() && covers(#[trigger] cap.mounts@[i], p@);
        assert(cap.mounts@[i].writable);
        assert(cap.mounts@[i].canonical_prefix@.is_prefix_of(p@));
    }
    if let Requirement::Decoder(t) = r {
        lemma_verdict_source(cap.decoders@, t);
        let i = choose|i: int|
            0 <= i < cap.decoders@.len() && (#[trigger] cap.decoders@[i]).triple.same_as(t)
                && cap.decoders@[i].status == verdict(cap.decoders@, t);
        assert(cap.decoders@[i].status is VerifiedOk);
    }
}

/// The first trial of a decode path is the one that counts, and a path that was
/// never tried is untested. A path is its codec, profile, depth and decoder.
pub proof fn law_the_first_trial_counts(
    decoders: Seq<DecoderCapability>,
    t: DecoderTriple,
    i: int,
)
    requires
        0 <= i <= decoders.len(),
        forall|j: int|
            0 <= j < i ==> {
                let d = (#[trigger] decoders[j]).triple;
                d.codec@ != t.codec@ || d.profile@ != t.profile@ || d.bit_depth != t.bit_depth
                    || d.kind != t.kind
            },
        i < decoders.len() ==> decoders[i].triple.codec@ == t.codec@
            && decoders[i].triple.profile@ == t.profile@ && decoders[i].triple.bit_depth
            == t.bit_depth && decoders[i].triple.kind == t.kind,
    ensures
        i < decoders.len() ==> verdict(decoders, t) == decoders[i].status,
        i == decoders.len() ==> verdict(decoders, t) is Untested,
    decreases decoders.len(),
{
    if decoders.len() > 0 && i > 0 {
        let rest = decoders.skip(1);
        assert(!decoders[0].triple.same_as(t));
        assert forall|j: int| 0 <= j < i - 1 implies ({
            let d = (#[trigger] rest[j]).triple;
            d.codec@ != t.codec@ || d.profile@ != t.profile@ || d.bit_depth != t.bit_depth || d.kind
                != t.kind
        }) by {
            assert(rest[j] == decoders[j + 1]);
        }
        if i < decoders.len() {
            assert(rest[i - 1] == decoders[i]);
        }
        law_the_first_trial_counts(rest, t, i - 1);
    }
}

proof fn lemma_same_verdict(
    decoders: Seq<DecoderCapability>,
    a: DecoderTriple,
    b: DecoderTriple,
)
    requires
        a.same_as(b),
    ensures
        verdict(decoders, a) == verdict(decoders, b),
    decreases decoders.len(),
{
    if decoders.len() > 0 {
        lemma_same_verdict(decoders.skip(1), a, b);
    }
}

/// Two requirements that are the same are met by the same agents and are
/// refused in the same words, and a requirement is the same as itself.
pub proof fn law_same_requirements_read_alike(cap: Capability, a: Requirement, b: Requirement)
    ensures
        a.same_as(a),
        a.same_as(b) ==> b.same_as(a),
        a.same_as(b) ==> met(cap, a) == met(cap, b),
        a.same_as(b) ==> unmet_detail(cap, a) == unmet_detail(cap, b),
{
    if a.same_as(b) {
        match (a, b) {
            (Requirement::Decoder(x), Requirement::Decoder(y)) => {
                lemma_same_verdict(cap.decoders@, x, y);
            },
            _ => {},
        }
    }
}

/// A refusal names what was asked for and what there was.
pub proof fn law_a_refusal_names_what_is_missing(cap: Capability, r: Requirement)
    ensures
        r matches Requirement::Encoder(e) ==> unmet_detail(cap, r) == "agent lacks encoder "@
            + e.ffmpeg(),
        r matches Requirement::Muxer(m) ==> unmet_detail(cap, r) == "agent lacks muxer "@
            + m.name(),
        r matches Requirement::MinFreeBytes(b) ==> unmet_detail(cap, r) == "work area has "@
            + text::dec(cap.workarea_free_bytes as nat) + " B free, needs "@ + text::dec(b as nat)
            + " B"@,
        r matches Requirement::LabelEquals(k, v) ==> unmet_detail(cap, r) == "agent lacks label "@
            + k@ + "="@ + v@,
        r matches Requirement::MinEffectiveCores(n) ==> unmet_detail(cap, r) == "agent has "@
            + cap.effective_cores.amount.tenths() + " effective cores, needs "@ + n.tenths(),
        r matches Requirement::Decoder(t) ==> unmet_detail(cap, r) == "decode of "@ + t.codec@
            + " "@ + t.bit_depth.name() + " on "@ + t.kind.name() + " is "@ + verdict(
            cap.decoders@,
            t,
        ).name() + ", not VerifiedOk"@,
        r matches Requirement::MountCovers(p) ==> "no writable mount covers "@.is_prefix_of(
            unmet_detail(cap, r),
        ),
        r matches Requirement::AgentClass(c) ==> ("agent does not advertise class "@
            + c.name()).is_prefix_of(unmet_detail(cap, r)),
        r is PlatformIn ==> "agent platform "@.is_prefix_of(unmet_detail(cap, r)),
{
}

/// An agent whose free space changes does not keep its document.
pub proof fn law_the_document_shows_the_free_space(a: Capability, other: u64)
    ensures
        a.document() == (Capability { workarea_free_bytes: other, ..a }).document() ==> other == a.workarea_free_bytes,
{
    let b = Capability { workarea_free_bytes: other, ..a };
    if a.document() == b.document() {
        let front = "{\"classes\":"@ + document::json_list(class_words(a.classes@)) + ",\"encoders\":"@ + document::json_list(encoder_words(a.encoders@)) + ",\"muxers\":"@ + document::json_list(muxer_words(a.muxers@)) + ",\"decoders\":"@ + document::json_list(decoder_objects(a.decoders@)) + ",\"effective_cores\":"@ + a.effective_cores.json@ + ",\"mounts\":"@ + document::json_list(mount_objects(a.mounts@)) + ",\"platform\":"@ + (match a.platform {
            Some(p) => document::json_word(p.name()),
            None => "null"@,
        }) + ",\"workarea_free_bytes\":"@;
        let x0 = text::dec(a.workarea_free_bytes as nat);
        let y0 = text::dec(b.workarea_free_bytes as nat);
        let x = front + x0;
        let y = front + y0;
        let t0 = ",\"labels\":"@;
        let t1 = document::json_list(label_pairs(a.labels@));
        let t2 = ",\"transport\":"@;
        let t3 = document::json_word(a.transport.name());
        let t4 = ",\"workarea_path\":"@;
        let t5 = document::json_string(a.workarea_path@);
        let t6 = "}"@;
        text::lemma_cancel_back(x + t0 + t1 + t2 + t3 + t4 + t5, y + t0 + t1 + t2 + t3 + t4 + t5, t6);
        text::lemma_cancel_back(x + t0 + t1 + t2 + t3 + t4, y + t0 + t1 + t2 + t3 + t4, t5);
        text::lemma_cancel_back(x + t0 + t1 + t2 + t3, y + t0 + t1 + t2 + t3, t4);
        text::lemma_cancel_back(x + t0 + t1 + t2, y + t0 + t1 + t2, t3);
        text::lemma_cancel_back(x + t0 + t1, y + t0 + t1, t2);
        text::lemma_cancel_back(x + t0, y + t0, t1);
        text::lemma_cancel_back(x, y, t0);
        text::lemma_cancel_front(front, x0, y0);
        text::law_decimal_reads_back(a.workarea_free_bytes as nat);
        text::law_decimal_reads_back(b.workarea_free_bytes as nat);
    }
}

/// An agent whose transport changes does not keep its document.
pub proof fn law_the_document_shows_the_transport(a: Capability, other: TransportMode)
    ensures
        a.document() == (Capability { transport: other, ..a }).document() ==> other == a.transport,
{
    let b = Capability { transport: other, ..a };
    if a.document() == b.document() {
        let front = "{\"classes\":"@ + document::json_list(class_words(a.classes@)) + ",\"encoders\":"@ + document::json_list(encoder_words(a.encoders@)) + ",\"muxers\":"@ + document::json_list(muxer_words(a.muxers@)) + ",\"decoders\":"@ + document::json_list(decoder_objects(a.decoders@)) + ",\"effective_cores\":"@ + a.effective_cores.json@ + ",\"mounts\":"@ + document::json_list(mount_objects(a.mounts@)) + ",\"platform\":"@ + (match a.platform {
            Some(p) => document::json_word(p.name()),
            None => "null"@,
        }) + ",\"workarea_free_bytes\":"@ + text::dec(a.workarea_free_bytes as nat) + ",\"labels\":"@ + document::json_list(label_pairs(a.labels@)) + ",\"transport\":"@;
        let x0 = document::json_word(a.transport.name());
        let y0 = document::json_word(b.transport.name());
        let x = front + x0;
        let y = front + y0;
        let t0 = ",\"workarea_path\":"@;
        let t1 = document::json_string(a.workarea_path@);
        let t2 = "}"@;
        text::lemma_cancel_back(x + t0 + t1, y + t0 + t1, t2);
        text::lemma_cancel_back(x + t0, y + t0, t1);
        text::lemma_cancel_back(x, y, t0);
        text::lemma_cancel_front(front, x0, y0);
        reveal_strlit("Mount");
        reveal_strlit("Stream");
        assert(x0.len() == a.transport.name().len() + 2);
        assert(y0.len() == b.transport.name().len() + 2);
    }
}

/// An agent whose platform changes does not keep its document.
pub proof fn law_the_document_shows_the_platform(a: Capability, other: Option<Platform>)
    ensures
        a.document() == (Capability { platform: other, ..a }).document() ==> other == a.platform,
{
    let b = Capability { platform: other, ..a };
    if a.document() == b.document() {
        let front = "{\"classes\":"@ + document::json_list(class_words(a.classes@)) + ",\"encoders\":"@ + document::json_list(encoder_words(a.encoders@)) + ",\"muxers\":"@ + document::json_list(muxer_words(a.muxers@)) + ",\"decoders\":"@ + document::json_list(decoder_objects(a.decoders@)) + ",\"effective_cores\":"@ + a.effective_cores.json@ + ",\"mounts\":"@ + document::json_list(mount_objects(a.mounts@)) + ",\"platform\":"@;
        let x0 = (match a.platform {
            Some(p) => document::json_word(p.name()),
            None => "null"@,
        });
        let y0 = (match b.platform {
            Some(p) => document::json_word(p.name()),
            None => "null"@,
        });
        let x = front + x0;
        let y = front + y0;
        let t0 = ",\"workarea_free_bytes\":"@;
        let t1 = text::dec(a.workarea_free_bytes as nat);
        let t2 = ",\"labels\":"@;
        let t3 = document::json_list(label_pairs(a.labels@));
        let t4 = ",\"transport\":"@;
        let t5 = document::json_word(a.transport.name());
        let t6 = ",\"workarea_path\":"@;
        let t7 = document::json_string(a.workarea_path@);
        let t8 = "}"@;
        text::lemma_cancel_back(x + t0 + t1 + t2 + t3 + t4 + t5 + t6 + t7, y + t0 + t1 + t2 + t3 + t4 + t5 + t6 + t7, t8);
        text::lemma_cancel_back(x + t0 + t1 + t2 + t3 + t4 + t5 + t6, y + t0 + t1 + t2 + t3 + t4 + t5 + t6, t7);
        text::lemma_cancel_back(x + t0 + t1 + t2 + t3 + t4 + t5, y + t0 + t1 + t2 + t3 + t4 + t5, t6);
        text::lemma_cancel_back(x + t0 + t1 + t2 + t3 + t4, y + t0 + t1 + t2 + t3 + t4, t5);
        text::lemma_cancel_back(x + t0 + t1 + t2 + t3, y + t0 + t1 + t2 + t3, t4);
        text::lemma_cancel_back(x + t0 + t1 + t2, y + t0 + t1 + t2, t3);
        text::lemma_cancel_back(x + t0 + t1, y + t0 + t1, t2);
        text::lemma_cancel_back(x + t0, y + t0, t1);
        text::lemma_cancel_back(x, y, t0);
        text::lemma_cancel_front(front, x0, y0);
        reveal_strlit("Linux");
        reveal_strlit("Windows");
        reveal_strlit("null");
        assert("Linux"@.len() == 5 && "Windows"@.len() == 7 && "null"@.len() == 4);
        assert(a.platform matches Some(p) ==> x0.len() == p.name().len() + 2);
        assert(b.platform matches Some(p) ==> y0.len() == p.name().len() + 2);
    }
}

/// An agent whose cores are spelled otherwise does not keep its document.
pub proof fn law_the_document_shows_the_cores(a: Capability, other: Cores)
    ensures
        a.document() == (Capability { effective_cores: other, ..a }).document() ==> other.json@ == a.effective_cores.json@,
{
    let b = Capability { effective_cores: other, ..a };
    if a.document() == b.document() {
        let front = "{\"classes\":"@ + document::json_list(class_words(a.classes@)) + ",\"encoders\":"@ + document::json_list(encoder_words(a.encoders@)) + ",\"muxers\":"@ + document::json_list(muxer_words(a.muxers@)) + ",\"decoders\":"@ + document::json_list(decoder_objects(a.decoders@)) + ",\"effective_cores\":"@;
        let x0 = a.effective_cores.json@;
        let y0 = b.effective_cores.json@;
        let x = front + x0;
        let y = front + y0;
        let t0 = ",\"mounts\":"@;
        let t1 = document::json_list(mount_objects(a.mounts@));
        let t2 = ",\"platform\":"@;
        let t3 = (match a.platform {
            Some(p) => document::json_word(p.name()),
            None => "null"@,
        });
        let t4 = ",\"workarea_free_bytes\":"@;
        let t5 = text::dec(a.workarea_free_bytes as nat);
        let t6 = ",\"labels\":"@;
        let t7 = document::json_list(label_pairs(a.labels@));
        let t8 = ",\"transport\":"@;
        let t9 = document::json_word(a.transport.name());
        let t10 = ",\"workarea_path\":"@;
        let t11 = document::json_string(a.workarea_path@);
        let t12 = "}"@;
        text::lemma_cancel_back(x + t0 + t1 + t2 + t3 + t4 + t5 + t6 + t7 + t8 + t9 + t10 + t11, y + t0 + t1 + t2 + t3 + t4 + t5 + t6 + t7 + t8 + t9 + t10 + t11, t12);
        text::lemma_cancel_back(x + t0 + t1 + t2 + t3 + t4 + t5 + t6 + t7 + t8 + t9 + t10, y + t0 + t1 + t2 + t3 + t4 + t5 + t6 + t7 + t8 + t9 + t10, t11);
        text::lemma_cancel_back(x + t0 + t1 + t2 + t3 + t4 + t5 + t6 + t7 + t8 + t9, y + t0 + t1 + t2 + t3 + t4 + t5 + t6 + t7 + t8 + t9, t10);
        text::lemma_cancel_back(x + t0 + t1 + t2 + t3 + t4 + t5 + t6 + t7 + t8, y + t0 + t1 + t2 + t3 + t4 + t5 + t6 + t7 + t8, t9);
        text::lemma_cancel_back(x + t0 + t1 + t2 + t3 + t4 + t5 + t6 + t7, y + t0 + t1 + t2 + t3 + t4 + t5 + t6 + t7, t8);
        text::lemma_cancel_back(x + t0 + t1 + t2 + t3 + t4 + t5 + t6, y + t0 + t1 + t2 + t3 + t4 + t5 + t6, t7);
        text::lemma_cancel_back(x + t0 + t1 + t2 + t3 + t4 + t5, y + t0 + t1 + t2 + t3 + t4 + t5, t6);
        text::lemma_cancel_back(x + t0 + t1 + t2 + t3 + t4, y + t0 + t1 + t2 + t3 + t4, t5);
        text::lemma_cancel_back(x + t0 + t1 + t2 + t3, y + t0 + t1 + t2 + t3, t4);
        text::lemma_cancel_back(x + t0 + t1 + t2, y + t0 + t1 + t2, t3);
        text::lemma_cancel_back(x + t0 + t1, y + t0 + t1, t2);
        text::lemma_cancel_back(x + t0, y + t0, t1);
        text::lemma_cancel_back(x, y, t0);
        text::lemma_cancel_front(front, x0, y0);
    }
}

} // verus!
