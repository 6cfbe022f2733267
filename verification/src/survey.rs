//! What a machine can actually do, as a capability document.
//!
//! Every value is measured, never assumed. Encoders come from ffmpeg's own
//! listing, cores from the quota that binds, and a mount is only trusted with
//! an install where a rename was seen to be atomic.
use vstd::prelude::*;

use crate::capability::{
    AgentClass, Capability, ContainerId, Cores, Mount, Platform, TransportMode,
};
use crate::convert;
use crate::convert::capability_to_pb;
use crate::double::{Double, Size};
use crate::error::AgentError;
use crate::pairs;
use crate::pb;
use crate::pb::RenameProbeStatus;
use crate::plan::EncoderId;
use crate::preflight::ProbeStatus;
use crate::text;

verus! {

// ---------------------------------------------------------------- listings --

/// Whether a line of a listing names this in its second column.
pub open spec fn line_names(line: Seq<char>, name: Seq<char>) -> bool {
    text::words(line).len() > 1 && text::words(line)[1] == name
}

/// Whether any of the lines names this.
pub open spec fn lines_name(lines: Seq<Seq<char>>, name: Seq<char>) -> bool
    decreases lines.len(),
{
    lines.len() > 0 && (line_names(lines[0], name) || lines_name(lines.skip(1), name))
}

/// Whether an ffmpeg listing names this codec.
pub open spec fn listed(listing: Seq<char>, name: Seq<char>) -> bool {
    lines_name(text::lines(listing), name)
}

/// Whether an ffmpeg listing names this codec, as the whole word after the
/// flags: `aac` is not in a listing because `libfdk_aac` is.
pub fn lists_name(listing: &str, name: &str) -> (r: bool)
    ensures
        r == listed(listing@, name@),
{
    let lines = text::split_lines(listing);
    let ghost all = text::texts(lines@);
    let mut i: usize = 0;
    assert(all.skip(0) =~= all);
    while i < lines.len()
        invariant
            i <= lines@.len(),
            all == text::texts(lines@),
            lines_name(all.skip(i as int), name@) == listed(listing@, name@),
        decreases lines.len() - i,
    {
        assert(all.skip(i as int)[0] == lines@[i as int]@);
        assert(all.skip(i as int).skip(1) =~= all.skip(i + 1));
        let words = text::split_words(lines[i].as_str());
        assert(text::texts(words@).len() == words@.len());
        if words.len() > 1 && text::same(words[1].as_str(), name) {
            return true;
        }
        i += 1;
    }
    false
}

/// Every encoder worth asking for.
pub open spec fn known_encoders() -> Seq<EncoderId> {
    seq![
        EncoderId::HevcNvenc,
        EncoderId::Libx265,
        EncoderId::Libx264,
        EncoderId::Eac3,
        EncoderId::Ac3,
        EncoderId::Aac,
    ]
}

/// The encoders of a list that ffmpeg's listing names, in the order of the list.
pub open spec fn present(known: Seq<EncoderId>, listing: Seq<char>) -> Seq<EncoderId>
    decreases known.len(),
{
    if known.len() == 0 {
        Seq::empty()
    } else {
        let earlier = present(known.drop_last(), listing);
        if listed(listing, known.last().ffmpeg()) {
            earlier.push(known.last())
        } else {
            earlier
        }
    }
}

/// Encoders this ffmpeg actually has. A listing that could not be had names
/// none.
pub fn available_encoders(listing: &str) -> (r: Vec<EncoderId>)
    ensures
        r@ == present(known_encoders(), listing@),
{
    let known: Vec<EncoderId> = vec![
        EncoderId::HevcNvenc,
        EncoderId::Libx265,
        EncoderId::Libx264,
        EncoderId::Eac3,
        EncoderId::Ac3,
        EncoderId::Aac,
    ];
    assert(known@ =~= known_encoders());
    let mut r: Vec<EncoderId> = Vec::new();
    let mut i: usize = 0;
    assert(known@.take(0) =~= Seq::<EncoderId>::empty());
    while i < known.len()
        invariant
            i <= known@.len(),
            r@ == present(known@.take(i as int), listing@),
        decreases known.len() - i,
    {
        assert(known@.take(i + 1).drop_last() =~= known@.take(i as int));
        assert(known@.take(i + 1).last() == known@[i as int]);
        if lists_name(listing, known[i].as_ffmpeg()) {
            r.push(known[i]);
        }
        i += 1;
    }
    assert(known@.take(i as int) =~= known@);
    r
}

/// The containers ffmpeg's listing names.
pub open spec fn present_muxers(listing: Seq<char>) -> Seq<ContainerId> {
    let first = if listed(listing, "matroska"@) {
        seq![ContainerId::Matroska]
    } else {
        Seq::empty()
    };
    if listed(listing, "mp4"@) {
        first.push(ContainerId::Mp4)
    } else {
        first
    }
}

/// Muxers this ffmpeg actually has.
pub fn available_muxers(listing: &str) -> (r: Vec<ContainerId>)
    ensures
        r@ == present_muxers(listing@),
{
    let mut r: Vec<ContainerId> = Vec::new();
    if lists_name(listing, "matroska") {
        r.push(ContainerId::Matroska);
    }
    if lists_name(listing, "mp4") {
        r.push(ContainerId::Mp4);
    }
    assert(r@ =~= present_muxers(listing@));
    r
}

/// A container as ffmpeg names it.
pub open spec fn muxer_name(m: ContainerId) -> Seq<char> {
    match m {
        ContainerId::Matroska => "matroska"@,
        ContainerId::Mp4 => "mp4"@,
    }
}

/// The wire spelling of the muxers, which the document does not carry.
pub fn muxer_names(muxers: &Vec<ContainerId>) -> (r: Vec<String>)
    ensures
        text::texts(r@) == muxers@.map_values(|m: ContainerId| muxer_name(m)),
{
    let ghost all = muxers@.map_values(|m: ContainerId| muxer_name(m));
    let mut r: Vec<String> = Vec::new();
    let mut i: usize = 0;
    while i < muxers.len()
        invariant
            i <= muxers@.len(),
            all == muxers@.map_values(|m: ContainerId| muxer_name(m)),
            text::texts(r@) == all.take(i as int),
        decreases muxers.len() - i,
    {
        match muxers[i] {
            ContainerId::Matroska => text::push_text(&mut r, "matroska"),
            ContainerId::Mp4 => text::push_text(&mut r, "mp4"),
        }
        i += 1;
        assert(text::texts(r@) =~= all.take(i as int));
    }
    assert(all.take(i as int) =~= all);
    r
}

/// The work classes a set of encoders can take. Audio work copies the video, so
/// it is always offered.
pub open spec fn offered(encoders: Seq<EncoderId>) -> Seq<AgentClass> {
    let audio = seq![AgentClass::Audio];
    let cpu = if encoders.contains(EncoderId::Libx265) || encoders.contains(EncoderId::Libx264) {
        audio.push(AgentClass::Cpu)
    } else {
        audio
    };
    if encoders.contains(EncoderId::HevcNvenc) {
        cpu.push(AgentClass::Gpu)
    } else {
        cpu
    }
}

fn has_encoder(encoders: &[EncoderId], e: EncoderId) -> (r: bool)
    ensures
        r == encoders@.contains(e),
{
    let mut i: usize = 0;
    while i < encoders.len()
        invariant
            i <= encoders@.len(),
            forall|j: int| 0 <= j < i ==> encoders@[j] != e,
        decreases encoders.len() - i,
    {
        if encoders[i] == e {
            assert(encoders@[i as int] == e);
            return true;
        }
        i += 1;
    }
    false
}

/// Which work classes this agent will accept.
pub fn classes_for(encoders: &[EncoderId]) -> (r: Vec<AgentClass>)
    ensures
        r@ == offered(encoders@),
{
    let mut r: Vec<AgentClass> = Vec::new();
    r.push(AgentClass::Audio);
    if has_encoder(encoders, EncoderId::Libx265) || has_encoder(encoders, EncoderId::Libx264) {
        r.push(AgentClass::Cpu);
    }
    if has_encoder(encoders, EncoderId::HevcNvenc) {
        r.push(AgentClass::Gpu);
    }
    assert(r@ =~= offered(encoders@));
    r
}

/// The first line of what a tool says of its version, which carries the build
/// identity; empty where it said nothing.
pub open spec fn version_said(output: Option<Seq<char>>) -> Seq<char> {
    match output {
        Some(t) => if text::lines(t).len() > 0 {
            text::lines(t)[0]
        } else {
            Seq::empty()
        },
        None => Seq::empty(),
    }
}

/// The first line of what a tool says of its version.
pub fn tool_version(output: &Option<String>) -> (r: String)
    ensures
        r@ == version_said(text::opt_text(*output)),
{
    match output {
        Some(t) => {
            let lines = text::split_lines(t.as_str());
            assert(text::texts(lines@).len() == lines@.len());
            if lines.len() > 0 {
                lines[0].clone()
            } else {
                String::new()
            }
        },
        None => String::new(),
    }
}

// ------------------------------------------------------------------- cores --

/// A quota file: what it holds, and what its first and second word read as,
/// where they are numbers.
#[derive(Debug, Clone)]
pub struct QuotaFile {
    /// What the file holds.
    pub contents: String,
    /// The number its first word is.
    pub first: Option<Double>,
    /// The number its second word is.
    pub second: Option<Double>,
}

/// The cores that a quota file grants. `max` is the absence of a quota, not a
/// quota of nothing.
pub open spec fn granted(file: QuotaFile) -> Option<Size> {
    let w = text::words(file.contents@);
    if w.len() < 2 || w[0] == "max"@ {
        None
    } else {
        match (file.first, file.second) {
            (Some(quota), Some(period)) => if quota.is_positive() && !period.is_not_positive() {
                Some(quota.size().over(period.size()))
            } else {
                None
            },
            _ => None,
        }
    }
}

/// The quota a `cpu.max` file sets, as a core count.
pub fn cgroup_quota(file: &QuotaFile) -> (r: Option<Double>)
    ensures
        r is Some == granted(*file) is Some,
        r matches Some(c) ==> granted(*file) == Some(c.size()) && !c.negative(),
{
    let w = text::split_words(file.contents.as_str());
    assert(text::texts(w@).len() == w@.len());
    if w.len() < 2 {
        return None;
    }
    assert(text::texts(w@)[0] == w@[0]@);
    if text::same(w[0].as_str(), "max") {
        return None;
    }
    match (&file.first, &file.second) {
        (Some(quota), Some(period)) => {
            if !quota.above_zero() || period.at_most_zero() {
                return None;
            }
            Some(Double::of_size(quota.magnitude().divided(period.magnitude())))
        },
        _ => None,
    }
}

/// The cores that the readings leave.
pub open spec fn cores_left(cpu_max: Option<QuotaFile>, parallelism: Option<u64>) -> Size {
    let quota = match cpu_max {
        Some(f) => granted(f),
        None => None,
    };
    match quota {
        Some(cores) => cores,
        None => match parallelism {
            Some(n) => Size::whole(n as nat),
            None => Size::whole(1),
        },
    }
}

/// Cores after any quota: what the quota grants, or else what the machine has,
/// or else one.
pub fn effective_cores(cpu_max: &Option<QuotaFile>, parallelism: Option<u64>) -> (r: Double)
    ensures
        r.size() == cores_left(*cpu_max, parallelism),
        !r.negative(),
{
    if let Some(f) = cpu_max {
        if let Some(c) = cgroup_quota(f) {
            return c;
        }
    }
    match parallelism {
        Some(n) => Double::of_size(Size::of_whole(n)),
        None => Double::of_size(Size::of_whole(1)),
    }
}

/// How many cores the machine has, quota or no quota; zero where that is not
/// known.
pub fn physical_cores(parallelism: Option<u64>) -> (r: u32)
    ensures
        r == (match parallelism {
            Some(n) => if n <= u32::MAX {
                n as int
            } else {
                0
            },
            None => 0,
        }),
{
    match parallelism {
        Some(n) => if n <= u32::MAX as u64 {
            n as u32
        } else {
            0
        },
        None => 0,
    }
}

// ------------------------------------------------------------------ places --

/// The bytes free that `df -Pk` reports: the fourth column of its second line,
/// in kilobytes. What cannot be read is no room.
pub open spec fn room(output: Seq<char>) -> nat {
    let l = text::lines(output);
    if l.len() < 2 || text::words(l[1]).len() < 4 {
        0
    } else {
        let bytes = text::number_or(text::words(l[1])[3], 0) * 1024;
        if bytes <= u64::MAX {
            bytes
        } else {
            u64::MAX as nat
        }
    }
}

/// The free bytes of an optional reading.
pub open spec fn room_in(df: Option<String>) -> nat {
    match df {
        Some(t) => room(t@),
        None => 0,
    }
}

/// Free bytes on the filesystem of a path, from what `df -Pk` printed for it.
/// `None` is a path that is not there or a tool that could not run.
pub fn free_bytes(df: &Option<String>) -> (r: u64)
    ensures
        r == room_in(*df),
{
    match df {
        Some(t) => {
            let lines = text::split_lines(t.as_str());
            assert(text::texts(lines@).len() == lines@.len());
            if lines.len() < 2 {
                return 0;
            }
            assert(text::texts(lines@)[1] == lines@[1]@);
            let words = text::split_words(lines[1].as_str());
            assert(text::texts(words@).len() == words@.len());
            if words.len() < 4 {
                return 0;
            }
            assert(text::texts(words@)[3] == words@[3]@);
            let kb: u64 = text::parse_or(words[3].as_str(), 0);
            if kb <= u64::MAX / 1024 {
                kb * 1024
            } else {
                u64::MAX
            }
        },
        None => 0,
    }
}

/// What a mount's rename probe grants it. Only an outright pass of a directory
/// that is there verifies it.
pub open spec fn granted_by(is_dir: bool, probed: ProbeStatus) -> RenameProbeStatus {
    if !is_dir {
        RenameProbeStatus::RpUntested
    } else {
        match probed {
            ProbeStatus::Pass => RenameProbeStatus::RpAtomicVerified,
            ProbeStatus::Fail => RenameProbeStatus::RpNotAtomic,
            _ => RenameProbeStatus::RpUntested,
        }
    }
}

/// The wire verdict on a mount. "Not demonstrated" never becomes "verified".
pub fn rename_verdict(is_dir: bool, probed: ProbeStatus) -> (r: RenameProbeStatus)
    ensures
        r == granted_by(is_dir, probed),
{
    if !is_dir {
        return RenameProbeStatus::RpUntested;
    }
    match probed {
        ProbeStatus::Pass => RenameProbeStatus::RpAtomicVerified,
        ProbeStatus::Fail => RenameProbeStatus::RpNotAtomic,
        _ => RenameProbeStatus::RpUntested,
    }
}

/// The platform of an operating system, if it is one the fleet knows.
pub open spec fn platform_of(os: Seq<char>) -> Option<Platform> {
    if os == "linux"@ {
        Some(Platform::Linux)
    } else if os == "windows"@ {
        Some(Platform::Windows)
    } else {
        None
    }
}

/// Which platform this is, if it is one the fleet knows. An unknown one
/// advertises nothing and so satisfies no platform requirement.
pub fn platform(os: &str) -> (r: Option<Platform>)
    ensures
        r == platform_of(os@),
{
    if text::same(os, "linux") {
        Some(Platform::Linux)
    } else if text::same(os, "windows") {
        Some(Platform::Windows)
    } else {
        None
    }
}

// ------------------------------------------------------------------ labels --

/// The labels of `key=value` texts: a later one of a key replaces an earlier
/// one, and what has no key or no `=` is dropped.
pub open spec fn labels_in(raw: Seq<Seq<char>>) -> Map<Seq<char>, Seq<char>>
    decreases raw.len(),
{
    if raw.len() == 0 {
        Map::empty()
    } else {
        let earlier = labels_in(raw.drop_last());
        match text::cut(raw.last(), '=') {
            Some((k, v)) => if k.len() > 0 {
                earlier.insert(k, v)
            } else {
                earlier
            },
            None => earlier,
        }
    }
}

fn put_label(labels: &mut Vec<(String, String)>, key: String, value: String)
    requires
        pairs::ascending(old(labels)@),
    ensures
        pairs::ascending(final(labels)@),
        pairs::as_map(final(labels)@) == pairs::as_map(old(labels)@).insert(key@, value@),
{
    let ghost before = labels@;
    let ghost e = (key, value);
    let mut at: usize = 0;
    proof {
        pairs::lemma_ascending_is_distinct(before);
    }
    while at < labels.len() && text::comes_before(labels[at].0.as_str(), key.as_str())
        invariant
            labels@ == before,
            at <= before.len(),
            forall|i: int| 0 <= i < at ==> text::before((#[trigger] before[i]).0@, key@),
        decreases labels.len() - at,
    {
        at += 1;
    }
    if at < labels.len() && text::same(labels[at].0.as_str(), key.as_str()) {
        labels.set(at, (key, value));
        proof {
            pairs::lemma_updated(before, at as int, e);
            assert(labels@ == before.update(at as int, e));
            assert forall|i: int, j: int| 0 <= i < j < labels@.len() implies text::before(
                (#[trigger] labels@[i]).0@,
                (#[trigger] labels@[j]).0@,
            ) by {
                assert(text::before(before[i].0@, before[j].0@));
            }
        }
    } else {
        labels.insert(at, (key, value));
        proof {
            assert(labels@ == before.insert(at as int, e));
            assert forall|i: int, j: int| 0 <= i < j < labels@.len() implies text::before(
                (#[trigger] labels@[i]).0@,
                (#[trigger] labels@[j]).0@,
            ) by {
                if at < before.len() {
                    text::lemma_before_total(before[at as int].0@, e.0@);
                }
                if i < at && j > at {
                    assert(text::before(before[i].0@, before[j - 1].0@));
                } else if i < at && j < at {
                    assert(text::before(before[i].0@, before[j].0@));
                } else if i > at {
                    assert(text::before(before[i - 1].0@, before[j - 1].0@));
                } else if i == at {
                    if j - 1 > at {
                        assert(text::before(before[at as int].0@, before[j - 1].0@));
                        text::lemma_before_transitive(
                            e.0@,
                            before[at as int].0@,
                            before[j - 1].0@,
                        );
                    }
                }
            }
            pairs::lemma_ascending_is_distinct(labels@);
            pairs::lemma_inserted(before, at as int, e);
        }
    }
}

/// The labels an operator passed as `key=value`, in the order of their keys.
/// Anything else is dropped rather than becoming a label with an empty value,
/// which could satisfy a requirement nobody meant it to.
pub fn parse_labels(raw: &[String]) -> (r: Vec<(String, String)>)
    ensures
        pairs::ascending(r@),
        pairs::as_map(r@) == labels_in(text::texts(raw@)),
{
    let ghost all = text::texts(raw@);
    let mut r: Vec<(String, String)> = Vec::new();
    let mut i: usize = 0;
    assert(all.take(0) =~= Seq::<Seq<char>>::empty());
    assert(pairs::as_map(r@) =~= Map::<Seq<char>, Seq<char>>::empty());
    while i < raw.len()
        invariant
            i <= raw@.len(),
            all == text::texts(raw@),
            pairs::ascending(r@),
            pairs::as_map(r@) == labels_in(all.take(i as int)),
        decreases raw.len() - i,
    {
        assert(all.take(i + 1).drop_last() =~= all.take(i as int));
        assert(all.take(i + 1).last() == raw@[i as int]@);
        if let Some((k, v)) = text::split_once(raw[i].as_str(), '=') {
            if !k.as_str().is_empty() {
                put_label(&mut r, k, v);
            }
        }
        i += 1;
    }
    assert(all.take(i as int) =~= all);
    r
}

/// A label is there only where an operator gave it a key, and the last value
/// given to a key is the one it has.
pub proof fn law_the_last_label_wins(raw: Seq<Seq<char>>, item: Seq<char>)
    ensures
        labels_in(raw.push(item)) == (match text::cut(item, '=') {
            Some((k, v)) => if k.len() > 0 {
                labels_in(raw).insert(k, v)
            } else {
                labels_in(raw)
            },
            None => labels_in(raw),
        }),
        !labels_in(raw).contains_key(Seq::empty()),
    decreases raw.len(),
{
    assert(raw.push(item).drop_last() =~= raw);
    if raw.len() > 0 {
        law_the_last_label_wins(raw.drop_last(), raw.last());
        assert(raw.drop_last().push(raw.last()) =~= raw);
    }
}

// -------------------------------------------------------------- the survey --

/// A mount this agent offers, as the operator described it.
#[derive(Debug, Clone)]
pub struct MountSpec {
    /// What the server calls it.
    pub canonical_prefix: String,
    /// Where this agent sees it.
    pub local_path: String,
}

/// How to survey this machine.
#[derive(Debug, Clone)]
pub struct SurveyConfig {
    /// The ffmpeg binary to interrogate.
    pub ffmpeg: String,
    /// The ffprobe binary to interrogate.
    pub ffprobe: String,
    /// Where this agent stages output.
    pub work_dir: String,
    /// The mounts it offers.
    pub mounts: Vec<MountSpec>,
    /// Operator labels, e.g. `rack=1`.
    pub labels: Vec<(String, String)>,
    /// How this agent gets at the media.
    pub transport: TransportMode,
}

/// What was found at a mount.
#[derive(Debug, Clone)]
pub struct MountReading {
    /// Whether the local path is a directory.
    pub is_dir: bool,
    /// What `df -Pk` printed for it, if it is there.
    pub df: Option<String>,
    /// How its rename probe went.
    pub renames: ProbeStatus,
}

/// What was read off the machine.
#[derive(Debug, Clone)]
pub struct Readings {
    /// ffmpeg's listing of its encoders.
    pub encoders: Option<String>,
    /// ffmpeg's listing of its muxers.
    pub muxers: Option<String>,
    /// What ffmpeg says of its version.
    pub ffmpeg_version: Option<String>,
    /// What ffprobe says of its version.
    pub ffprobe_version: Option<String>,
    /// The quota file of the control group.
    pub cpu_max: Option<QuotaFile>,
    /// How many threads the machine runs at once.
    pub parallelism: Option<u64>,
    /// How a JSON document spells the cores that these two leave.
    pub cores_json: String,
    /// How the cores that these two leave are shown to a person.
    pub cores_shown: String,
    /// The operating system's name.
    pub os: String,
    /// What `df -Pk` printed for the work area, if it is there.
    pub work_df: Option<String>,
    /// What was found at each mount, in the order of the mounts.
    pub mounts: Vec<MountReading>,
}

/// An optional text, empty where there is none.
pub open spec fn or_empty(s: Option<String>) -> Seq<char> {
    match s {
        Some(t) => t@,
        None => Seq::empty(),
    }
}

/// A document says what was configured and read. It leaves free space out: that
/// changes every second, and the document is what is hashed.
pub open spec fn surveyed(d: Capability, c: SurveyConfig, r: Readings) -> bool {
    &&& d.encoders@ == present(known_encoders(), or_empty(r.encoders))
    &&& d.classes@ == offered(d.encoders@)
    &&& d.muxers@ == present_muxers(or_empty(r.muxers))
    &&& d.decoders@.len() == 0
    &&& d.effective_cores.amount.size() == cores_left(r.cpu_max, r.parallelism)
    &&& !d.effective_cores.amount.negative()
    &&& d.effective_cores.json == r.cores_json
    &&& d.effective_cores.shown == r.cores_shown
    &&& d.mounts@.len() == c.mounts@.len()
    &&& forall|i: int|
        0 <= i < c.mounts@.len() ==> {
            &&& (#[trigger] d.mounts@[i]).canonical_prefix == c.mounts@[i].canonical_prefix
            &&& d.mounts@[i].local_path == c.mounts@[i].local_path
            &&& d.mounts@[i].writable == r.mounts@[i].is_dir
        }
    &&& d.platform == platform_of(r.os@)
    &&& d.workarea_free_bytes == 0
    &&& d.labels@.len() == c.labels@.len()
    &&& forall|i: int| 0 <= i < c.labels@.len() ==> #[trigger] d.labels@[i] == c.labels@[i]
    &&& d.transport == c.transport
    &&& d.workarea_path == c.work_dir
}

/// A message carries a document, and what was left out of its hash.
pub open spec fn advertised(d: Capability, w: pb::Capability, r: Readings) -> bool {
    &&& convert::sent(d, (pb::Capability { workarea_free_bytes: d.workarea_free_bytes, ..w }))
    &&& w.workarea_free_bytes == room_in(r.work_df)
    &&& w.ffmpeg_version@ == version_said(text::opt_text(r.ffmpeg_version))
    &&& w.ffprobe_version@ == version_said(text::opt_text(r.ffprobe_version))
    &&& w.physical_cores == (match r.parallelism {
        Some(n) => if n <= u32::MAX {
            n as int
        } else {
            0
        },
        None => 0,
    })
    &&& text::texts(w.muxers@) == d.muxers@.map_values(|m: ContainerId| muxer_name(m))
    &&& forall|i: int|
        0 <= i < w.mounts@.len() ==> {
            &&& (#[trigger] w.mounts@[i]).free_bytes == room_in(r.mounts@[i].df)
            &&& w.mounts@[i].rename_probe == granted_by(
                r.mounts@[i].is_dir,
                r.mounts@[i].renames,
            ).spec_number()
        }
}

fn text_or_empty(s: &Option<String>) -> (r: &str)
    ensures
        r@ == or_empty(*s),
{
    match s {
        Some(t) => t.as_str(),
        None => {
            proof {
                reveal_strlit("");
            }
            assert(""@ =~= Seq::<char>::empty());
            ""
        },
    }
}

fn mounts_of(config: &SurveyConfig, readings: &Readings) -> (r: Vec<Mount>)
    requires
        readings.mounts@.len() == config.mounts@.len(),
    ensures
        r@.len() == config.mounts@.len(),
        forall|i: int|
            0 <= i < config.mounts@.len() ==> {
                &&& (#[trigger] r@[i]).canonical_prefix == config.mounts@[i].canonical_prefix
                &&& r@[i].local_path == config.mounts@[i].local_path
                &&& r@[i].writable == readings.mounts@[i].is_dir
            },
{
    let mut r: Vec<Mount> = Vec::new();
    let mut i: usize = 0;
    while i < config.mounts.len()
        invariant
            i <= config.mounts@.len(),
            readings.mounts@.len() == config.mounts@.len(),
            r@.len() == i,
            forall|k: int|
                0 <= k < i ==> {
                    &&& (#[trigger] r@[k]).canonical_prefix == config.mounts@[k].canonical_prefix
                    &&& r@[k].local_path == config.mounts@[k].local_path
                    &&& r@[k].writable == readings.mounts@[k].is_dir
                },
        decreases config.mounts.len() - i,
    {
        r.push(
            Mount {
                canonical_prefix: config.mounts[i].canonical_prefix.clone(),
                local_path: config.mounts[i].local_path.clone(),
                writable: readings.mounts[i].is_dir,
            },
        );
        i += 1;
    }
    r
}

fn labels_of(labels: &Vec<(String, String)>) -> (r: Vec<(String, String)>)
    ensures
        r@.len() == labels@.len(),
        forall|i: int| 0 <= i < labels@.len() ==> #[trigger] r@[i] == labels@[i],
{
    let mut r: Vec<(String, String)> = Vec::new();
    let mut i: usize = 0;
    while i < labels.len()
        invariant
            i <= labels@.len(),
            r@.len() == i,
            forall|k: int| 0 <= k < i ==> #[trigger] r@[k] == labels@[k],
        decreases labels.len() - i,
    {
        r.push((labels[i].0.clone(), labels[i].1.clone()));
        i += 1;
    }
    r
}

/// The document to register with, from what was configured and read. Every
/// reading stands in the place of an assumption that would otherwise be
/// discovered as a failed job.
pub fn survey(config: &SurveyConfig, readings: &Readings) -> (r: Result<pb::Capability, AgentError>)
    requires
        readings.mounts@.len() == config.mounts@.len(),
    ensures
        r matches Ok(w) && exists|d: Capability|
            #![trigger surveyed(d, *config, *readings)]
            surveyed(d, *config, *readings) && advertised(d, w, *readings),
{
    let encoders = available_encoders(text_or_empty(&readings.encoders));
    let muxers = available_muxers(text_or_empty(&readings.muxers));
    let names = muxer_names(&muxers);
    let document = Capability {
        classes: classes_for(encoders.as_slice()),
        encoders,
        muxers,
        decoders: Vec::new(),
        effective_cores: Cores {
            amount: effective_cores(&readings.cpu_max, readings.parallelism),
            json: readings.cores_json.clone(),
            shown: readings.cores_shown.clone(),
        },
        mounts: mounts_of(config, readings),
        platform: platform(readings.os.as_str()),
        workarea_free_bytes: 0,
        labels: labels_of(&config.labels),
        transport: config.transport,
        workarea_path: config.work_dir.clone(),
    };
    let ghost d = document;
    assert(surveyed(d, *config, *readings));
    let mut w = match capability_to_pb(document) {
        Ok(w) => w,
        Err(e) => {
            return Err(AgentError::Probe { path: "capability".to_owned(), reason: e.message() });
        },
    };
    let ghost w0 = w;
    w.workarea_free_bytes = free_bytes(&readings.work_df);
    w.ffmpeg_version = tool_version(&readings.ffmpeg_version);
    w.ffprobe_version = tool_version(&readings.ffprobe_version);
    w.physical_cores = physical_cores(readings.parallelism);
    w.muxers = names;
    let mut mounts: Vec<pb::Mount> = Vec::new();
    let ghost bare = w.mounts@;
    let sent_mounts = w.mounts;
    for m in it: sent_mounts
        invariant
            it.seq() == bare,
            bare.len() == readings.mounts@.len(),
            mounts@.len() == it.index(),
            forall|i: int|
                0 <= i < mounts@.len() ==> {
                    &&& (#[trigger] mounts@[i]).free_bytes == room_in(readings.mounts@[i].df)
                    &&& mounts@[i].rename_probe == granted_by(
                        readings.mounts@[i].is_dir,
                        readings.mounts@[i].renames,
                    ).spec_number()
                    &&& mounts@[i].local_path == bare[i].local_path
                    &&& mounts@[i].canonical_prefix == bare[i].canonical_prefix
                    &&& mounts@[i].writable == bare[i].writable
                },
    {
        let at: usize = mounts.len();
        let mut m = m;
        m.free_bytes = free_bytes(&readings.mounts[at].df);
        m.rename_probe = rename_verdict(
            readings.mounts[at].is_dir,
            readings.mounts[at].renames,
        ).number();
        mounts.push(m);
    }
    w.mounts = mounts;
    proof {
        let back = pb::Capability { workarea_free_bytes: d.workarea_free_bytes, ..w };
        assert forall|i: int| 0 <= i < d.mounts@.len() implies convert::mount_on_wire(
            d.mounts@[i],
            #[trigger] back.mounts@[i],
        ) by {
            assert(convert::mount_on_wire(d.mounts@[i], w0.mounts@[i]));
        }
        assert forall|i: int| 0 <= i < d.decoders@.len() implies convert::decoder_on_wire(
            d.decoders@[i],
            #[trigger] back.decoders@[i],
        ) by {}
        assert(convert::sent(d, back));
        assert(advertised(d, w, *readings));
    }
    Ok(w)
}

/// Free space is not hashed: two surveys of one machine that differ only in how
/// much room was left, in their rename verdicts and in the versions of the
/// tools make the same document, and so advertise the same hash.
pub proof fn law_free_space_is_not_hashed(
    c: SurveyConfig,
    r: Readings,
    later: Readings,
    d: Capability,
    e: Capability,
)
    requires
        surveyed(d, c, r),
        surveyed(e, c, later),
        later.encoders == r.encoders,
        later.muxers == r.muxers,
        later.cores_json == r.cores_json,
        later.os == r.os,
        forall|i: int|
            0 <= i < c.mounts@.len() ==> (#[trigger] later.mounts@[i]).is_dir == r.mounts@[i].is_dir,
    ensures
        d.document() == e.document(),
{
    assert(d.classes@ == e.classes@ && d.encoders@ == e.encoders@ && d.muxers@ == e.muxers@);
    assert(d.decoders@ =~= e.decoders@);
    assert(crate::capability::mount_objects(d.mounts@) =~= crate::capability::mount_objects(
        e.mounts@,
    )) by {
        assert forall|i: int| 0 <= i < c.mounts@.len() implies (#[trigger] d.mounts@[i]).json()
            == e.mounts@[i].json() by {
            assert(d.mounts@[i].canonical_prefix == e.mounts@[i].canonical_prefix);
            assert(later.mounts@[i].is_dir == r.mounts@[i].is_dir);
        }
    }
    assert(d.labels@ =~= e.labels@);
}

proof fn lemma_lines_name(lines: Seq<Seq<char>>, name: Seq<char>)
    ensures
        lines_name(lines, name) <==> exists|i: int|
            0 <= i < lines.len() && text::words(#[trigger] lines[i]).len() > 1 && text::words(
                lines[i],
            )[1] == name,
    decreases lines.len(),
{
    if lines.len() > 0 {
        let rest = lines.skip(1);
        lemma_lines_name(rest, name);
        if lines_name(rest, name) {
            let i = choose|i: int|
                0 <= i < rest.len() && text::words(#[trigger] rest[i]).len() > 1 && text::words(
                    rest[i],
                )[1] == name;
            assert(lines[i + 1] == rest[i]);
        }
        if exists|i: int|
            0 <= i < lines.len() && text::words(#[trigger] lines[i]).len() > 1 && text::words(
                lines[i],
            )[1] == name {
            let i = choose|i: int|
                0 <= i < lines.len() && text::words(#[trigger] lines[i]).len() > 1 && text::words(
                    lines[i],
                )[1] == name;
            if i > 0 {
                assert(rest[i - 1] == lines[i]);
            }
        }
    }
}

/// A listing names something exactly where the second word of one of its lines
/// is that name: a name that only occurs inside another word, or in a
/// description, is not listed.
pub proof fn law_what_a_listing_names(listing: Seq<char>, name: Seq<char>)
    ensures
        listed(listing, name) <==> exists|i: int|
            0 <= i < text::lines(listing).len() && text::words(#[trigger] text::lines(listing)[i]).len()
                > 1 && text::words(text::lines(listing)[i])[1] == name,
{
    lemma_lines_name(text::lines(listing), name);
}

proof fn lemma_present(known: Seq<EncoderId>, listing: Seq<char>, e: EncoderId)
    ensures
        present(known, listing).contains(e) <==> known.contains(e) && listed(listing, e.ffmpeg()),
    decreases known.len(),
{
    if known.len() > 0 {
        let head = known.drop_last();
        lemma_present(head, listing, e);
        let before = present(head, listing);
        let all = present(known, listing);
        assert(known.contains(e) <==> head.contains(e) || e == known.last()) by {
            if known.contains(e) {
                let i = choose|i: int| 0 <= i < known.len() && known[i] == e;
                if i < head.len() {
                    assert(head[i] == e);
                }
            }
            if head.contains(e) {
                let i = choose|i: int| 0 <= i < head.len() && head[i] == e;
                assert(known[i] == e);
            }
            assert(known[known.len() - 1] == known.last());
        }
        assert(all.contains(e) <==> before.contains(e) || e == known.last() && listed(
            listing,
            known.last().ffmpeg(),
        )) by {
            if before.contains(e) {
                let i = choose|i: int| 0 <= i < before.len() && before[i] == e;
                assert(all[i] == e);
            }
            if all.contains(e) {
                let i = choose|i: int| 0 <= i < all.len() && all[i] == e;
                if i < before.len() {
                    assert(before[i] == e);
                }
            }
            if listed(listing, known.last().ffmpeg()) {
                assert(all[all.len() - 1] == known.last());
            }
        }
    }
}

/// An encoder is offered exactly where ffmpeg lists it under its own name; a
/// stream copy is none.
pub proof fn law_which_encoders_are_offered(listing: Seq<char>, e: EncoderId)
    ensures
        present(known_encoders(), listing).contains(e) <==> !(e is Copy) && listed(
            listing,
            e.ffmpeg(),
        ),
{
    lemma_present(known_encoders(), listing, e);
    let k = known_encoders();
    assert(k[0] is HevcNvenc && k[1] is Libx265 && k[2] is Libx264 && k[3] is Eac3 && k[4] is Ac3
        && k[5] is Aac);
}

/// Matroska and MP4 are offered exactly where they are listed.
pub proof fn law_which_muxers_are_offered(listing: Seq<char>)
    ensures
        present_muxers(listing).contains(ContainerId::Matroska) <==> listed(
            listing,
            "matroska"@,
        ),
        present_muxers(listing).contains(ContainerId::Mp4) <==> listed(listing, "mp4"@),
{
    let m = present_muxers(listing);
    if listed(listing, "matroska"@) {
        assert(m[0] is Matroska);
    }
    if listed(listing, "mp4"@) {
        assert(m[m.len() - 1] is Mp4);
    }
}

/// Every agent converts audio, one with a software video encoder serves as CPU,
/// and one with NVENC as GPU.
pub proof fn law_which_classes_are_offered(encoders: Seq<EncoderId>)
    ensures
        offered(encoders).contains(AgentClass::Audio),
        offered(encoders).contains(AgentClass::Cpu) <==> encoders.contains(EncoderId::Libx265)
            || encoders.contains(EncoderId::Libx264),
        offered(encoders).contains(AgentClass::Gpu) <==> encoders.contains(EncoderId::HevcNvenc),
{
    let o = offered(encoders);
    assert(o[0] is Audio);
    if encoders.contains(EncoderId::Libx265) || encoders.contains(EncoderId::Libx264) {
        assert(o[1] is Cpu);
    }
    if encoders.contains(EncoderId::HevcNvenc) {
        assert(o[o.len() - 1] is Gpu);
    }
}

/// Free space is the fourth word of the second line, in kibibytes, and zero
/// where there is no such word.
pub proof fn law_where_free_space_stands(output: Seq<char>)
    ensures
        ({
            let l = text::lines(output);
            &&& l.len() < 2 ==> room(output) == 0
            &&& l.len() >= 2 && text::words(l[1]).len() < 4 ==> room(output) == 0
            &&& l.len() >= 2 && text::words(l[1]).len() >= 4 ==> match text::parsed_within(
                text::words(l[1])[3],
                u64::MAX as nat,
            ) {
                Some(k) => room(output) == if k * 1024 <= u64::MAX {
                    k * 1024
                } else {
                    u64::MAX as nat
                },
                None => room(output) == 0,
            }
            &&& room(output) <= u64::MAX
        }),
        room_in(None) == 0,
{
}

/// A mount is trusted with renames exactly where it is a directory and the probe
/// passed; where the probe failed it is known not to be.
pub proof fn law_when_renames_are_trusted(is_dir: bool, probed: ProbeStatus)
    ensures
        granted_by(is_dir, probed) is RpAtomicVerified <==> is_dir && probed is Pass,
        granted_by(is_dir, probed) is RpNotAtomic <==> is_dir && probed is Fail,
        !is_dir ==> granted_by(is_dir, probed) is RpUntested,
{
}

/// The two platforms an agent runs on, by the names the toolchain gives them.
pub proof fn law_which_platforms_are_known(os: Seq<char>)
    ensures
        os == "linux"@ ==> platform_of(os) == Some(Platform::Linux),
        platform_of(os) == Some(Platform::Windows) ==> os == "windows"@,
        os != "linux"@ && os == "windows"@ ==> platform_of(os) == Some(Platform::Windows),
        os != "linux"@ && os != "windows"@ ==> platform_of(os) is None,
{
}

/// A tool says its version on its first line.
pub proof fn law_a_version_is_the_first_line(t: Seq<char>)
    ensures
        text::lines(t).len() > 0 ==> version_said(Some(t)) == text::lines(t)[0],
        text::lines(t).len() == 0 ==> version_said(Some(t)).len() == 0,
        version_said(None).len() == 0,
{
}

/// Without a quota an agent has the cores the machine reports, and one where it
/// reports none. A quota file that says `max`, or has fewer than two words,
/// grants none.
pub proof fn law_cores_without_a_quota(file: QuotaFile, parallelism: Option<u64>)
    ensures
        parallelism matches Some(n) ==> cores_left(None, parallelism) == Size::whole(n as nat),
        parallelism is None ==> cores_left(None, parallelism) == Size::whole(1),
        text::words(file.contents@).len() < 2 ==> granted(file) is None,
        text::words(file.contents@).len() >= 1 && text::words(file.contents@)[0] == "max"@
            ==> granted(file) is None,
        file.first is None || file.second is None ==> granted(file) is None,
        granted(file) is None ==> cores_left(Some(file), parallelism) == cores_left(
            None,
            parallelism,
        ),
        granted(file) matches Some(c) ==> cores_left(Some(file), parallelism) == c,
{
}

/// What the survey offers is what was read: every configured mount under its own
/// names, writable exactly where it is a directory, the labels and transport
/// configured, and the classes the listed encoders allow.
pub proof fn law_the_survey_offers_what_was_read(
    d: Capability,
    c: SurveyConfig,
    r: Readings,
    e: EncoderId,
    i: int,
)
    requires
        surveyed(d, c, r),
        r.encoders is Some,
    ensures
        d.encoders@.contains(e) <==> !(e is Copy) && listed(r.encoders->0@, e.ffmpeg()),
        d.classes@.contains(AgentClass::Gpu) <==> listed(r.encoders->0@, "hevc_nvenc"@),
        d.transport == c.transport,
        d.workarea_path == c.work_dir,
        d.workarea_free_bytes == 0,
        d.labels@ == c.labels@,
        d.mounts@.len() == c.mounts@.len(),
        0 <= i < c.mounts@.len() ==> d.mounts@[i].canonical_prefix == c.mounts@[i].canonical_prefix
            && d.mounts@[i].local_path == c.mounts@[i].local_path && d.mounts@[i].writable
            == r.mounts@[i].is_dir,
{
    law_which_encoders_are_offered(r.encoders->0@, e);
    law_which_encoders_are_offered(r.encoders->0@, EncoderId::HevcNvenc);
    law_which_classes_are_offered(d.encoders@);
    assert(d.labels@ =~= c.labels@);
}

/// What is advertised of each mount and of the work area is what was measured.
pub proof fn law_the_advertised_space_is_the_measured(
    d: Capability,
    w: pb::Capability,
    r: Readings,
    i: int,
)
    requires
        advertised(d, w, r),
    ensures
        r.work_df matches Some(t) ==> w.workarea_free_bytes == room(t@),
        r.work_df is None ==> w.workarea_free_bytes == 0,
        0 <= i < w.mounts@.len() ==> {
            &&& r.mounts@[i].df matches Some(t) ==> w.mounts@[i].free_bytes == room(t@)
            &&& r.mounts@[i].df is None ==> w.mounts@[i].free_bytes == 0
        },
        r.parallelism matches Some(n) ==> n <= u32::MAX ==> w.physical_cores == n,
        r.parallelism is None ==> w.physical_cores == 0,
{
}

/// What a quota grants: the quota over its period, where both are known and
/// above zero, and the file does not say `max`.
pub proof fn law_what_a_quota_grants(file: QuotaFile)
    ensures
        granted(file) is Some <==> {
            &&& text::words(file.contents@).len() >= 2
            &&& text::words(file.contents@)[0] != "max"@
            &&& file.first matches Some(q) && q.is_positive()
            &&& file.second matches Some(p) && !p.is_not_positive()
        },
        granted(file) matches Some(c) ==> c == file.first->0.size().over(file.second->0.size()),
{
}

/// What a muxer is called is what it is listed under.
pub proof fn law_what_a_muxer_is_called(m: ContainerId, listing: Seq<char>)
    ensures
        m is Matroska ==> muxer_name(m) == "matroska"@,
        m is Mp4 ==> muxer_name(m) == "mp4"@,
        present_muxers(listing).contains(m) <==> listed(listing, muxer_name(m)),
{
    law_which_muxers_are_offered(listing);
}

/// What is advertised beside the capability: the versions the tools say, the
/// muxers by name, and for every mount what its rename probe showed.
pub proof fn law_what_is_advertised_beside(
    d: Capability,
    w: pb::Capability,
    r: Readings,
    i: int,
)
    requires
        advertised(d, w, r),
        0 <= i < w.mounts@.len(),
    ensures
        r.ffmpeg_version is None ==> w.ffmpeg_version@.len() == 0,
        r.ffmpeg_version matches Some(t) ==> text::lines(t@).len() > 0 ==> w.ffmpeg_version@
            == text::lines(t@)[0],
        r.ffprobe_version matches Some(t) ==> text::lines(t@).len() > 0 ==> w.ffprobe_version@
            == text::lines(t@)[0],
        w.mounts@[i].rename_probe == 1 <==> r.mounts@[i].is_dir && r.mounts@[i].renames is Pass,
        w.mounts@[i].rename_probe == 2 <==> r.mounts@[i].is_dir && r.mounts@[i].renames is Fail,
        w.muxers@.len() == d.muxers@.len(),
        w.capability_hash@ == crate::document::blake3_hex(d.document()),
{
    assert(text::texts(w.muxers@).len() == w.muxers@.len());
    law_when_renames_are_trusted(r.mounts@[i].is_dir, r.mounts@[i].renames);
}

} // verus!
