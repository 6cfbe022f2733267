//! Decision-relevant facts derived from a probe.
//!
//! Policy never sees a probe. It sees a flattened summary of only what a
//! decision can depend on, so a policy change re-runs over stored facts without
//! touching a byte of media.
use vstd::prelude::*;

use crate::document;
use crate::plan::BitDepth;
use crate::probe::{bit_depth_of, MediaProbe, StreamInfo, StreamKind};
use crate::text;

verus! {

/// Coarse size class, used to partition queues.
#[derive(Debug, Clone, Copy, PartialEq, Eq, Hash, Structural)]
#[non_exhaustive]
pub enum SizeBucket {
    /// Small files.
    Small,
    /// Medium files.
    Medium,
    /// Large files, which get their own low concurrency cap.
    Large,
}

impl SizeBucket {
    /// The canonical spelling.
    pub open spec fn spelling(self) -> Seq<char> {
        match self {
            SizeBucket::Small => "Small"@,
            SizeBucket::Medium => "Medium"@,
            SizeBucket::Large => "Large"@,
        }
    }

    /// What a canonical spelling names.
    pub open spec fn spelled(s: Seq<char>) -> Option<SizeBucket> {
        if s == "Small"@ {
            Some(SizeBucket::Small)
        } else if s == "Medium"@ {
            Some(SizeBucket::Medium)
        } else if s == "Large"@ {
            Some(SizeBucket::Large)
        } else {
            None
        }
    }

    /// The canonical spelling, which is also the value stored.
    pub fn as_str(self) -> (r: &'static str)
        ensures
            r@ == self.spelling(),
            self is Small ==> r@ == "Small"@,
            self is Medium ==> r@ == "Medium"@,
            self is Large ==> r@ == "Large"@,
    {
        match self {
            SizeBucket::Small => "Small",
            SizeBucket::Medium => "Medium",
            SizeBucket::Large => "Large",
        }
    }

    /// Parse the canonical spelling. `None` for anything else.
    pub fn parse(s: &str) -> (r: Option<SizeBucket>)
        ensures
            r == SizeBucket::spelled(s@),
            r == Some(SizeBucket::Small) ==> s@ == "Small"@,
            r == Some(SizeBucket::Medium) ==> s@ == "Medium"@,
            r == Some(SizeBucket::Large) ==> s@ == "Large"@,
    {
        if text::same(s, "Small") {
            Some(SizeBucket::Small)
        } else if text::same(s, "Medium") {
            Some(SizeBucket::Medium)
        } else if text::same(s, "Large") {
            Some(SizeBucket::Large)
        } else {
            None
        }
    }

    /// Every value survives its spelling, and nothing else is accepted.
    pub proof fn law_round_trip(self, s: Seq<char>)
        ensures
            SizeBucket::spelled(self.spelling()) == Some(self),
            SizeBucket::spelled(s) matches Some(v) ==> v.spelling() == s,
    {
        reveal_strlit("Small");
        reveal_strlit("Medium");
        reveal_strlit("Large");
        assert("Small"@.len() == 5);
        assert("Medium"@.len() == 6);
        assert("Large"@.len() == 5);
        assert("Small"@[0] != "Large"@[0]);
    }
}

/// Byte boundaries between size buckets.
#[derive(Debug, Clone, Copy, PartialEq, Eq, Structural)]
pub struct SizeThresholds {
    /// Below this is `Small`.
    pub small_max_bytes: u64,
    /// Below this is `Medium`; at or above it is `Large`.
    pub medium_max_bytes: u64,
}

impl Default for SizeThresholds {
    /// Four and twenty gibibytes.
    fn default() -> (r: SizeThresholds)
        ensures
            r.small_max_bytes == 4294967296,
            r.medium_max_bytes == 21474836480,
    {
        SizeThresholds {
            small_max_bytes: 4 * 1024 * 1024 * 1024,
            medium_max_bytes: 20 * 1024 * 1024 * 1024,
        }
    }
}

/// The bucket a size falls into.
pub open spec fn spec_bucket(bytes: u64, t: SizeThresholds) -> SizeBucket {
    if bytes < t.small_max_bytes {
        SizeBucket::Small
    } else if bytes < t.medium_max_bytes {
        SizeBucket::Medium
    } else {
        SizeBucket::Large
    }
}

/// Classify a file size into a bucket.
pub fn size_bucket_for(bytes: u64, t: &SizeThresholds) -> (r: SizeBucket)
    ensures
        r == spec_bucket(bytes, *t),
{
    if bytes < t.small_max_bytes {
        SizeBucket::Small
    } else if bytes < t.medium_max_bytes {
        SizeBucket::Medium
    } else {
        SizeBucket::Large
    }
}

/// Everything a policy decision may depend on, and nothing else.
#[derive(Debug, Clone, PartialEq)]
pub struct FileFacts {
    /// Container format.
    pub container: String,
    /// Duration in microseconds.
    pub duration_us: Option<u64>,
    /// File size in bytes.
    pub size_bytes: u64,
    /// Overall bitrate.
    pub bit_rate_bps: Option<u64>,
    /// Primary video codec, e.g. `hevc`.
    pub video_codec: Option<String>,
    /// Primary video profile, e.g. `Main 10`.
    pub video_profile: Option<String>,
    /// Primary video bit depth.
    pub video_bit_depth: Option<BitDepth>,
    /// Primary video pixel format.
    pub video_pix_fmt: Option<String>,
    /// Width in pixels.
    pub width: Option<u32>,
    /// Height in pixels.
    pub height: Option<u32>,
    /// True when the video carries an HDR transfer function.
    pub is_hdr: bool,
    /// True when Dolby Vision is present.
    pub is_dovi: bool,
    /// Dolby Vision profile, when known. Profile 7 is excluded from all work.
    pub dovi_profile: Option<u8>,
    /// True when an audio track carries object audio (Atmos, DTS:X).
    pub has_object_audio: bool,
    /// Audio codecs present, in container order.
    pub audio_codecs: Vec<String>,
    /// Number of audio tracks.
    pub audio_track_count: usize,
    /// Number of subtitle tracks.
    pub subtitle_track_count: usize,
}

impl Default for FileFacts {
    /// A file nothing is known about.
    fn default() -> (r: FileFacts)
        ensures
            r.container@.len() == 0,
            r.duration_us is None,
            r.size_bytes == 0,
            r.bit_rate_bps is None,
            r.video_codec is None,
            r.video_profile is None,
            r.video_bit_depth is None,
            r.video_pix_fmt is None,
            r.width is None,
            r.height is None,
            !r.is_hdr,
            !r.is_dovi,
            r.dovi_profile is None,
            !r.has_object_audio,
            r.audio_codecs@.len() == 0,
            r.audio_track_count == 0,
            r.subtitle_track_count == 0,
    {
        FileFacts {
            container: String::new(),
            duration_us: None,
            size_bytes: 0,
            bit_rate_bps: None,
            video_codec: None,
            video_profile: None,
            video_bit_depth: None,
            video_pix_fmt: None,
            width: None,
            height: None,
            is_hdr: false,
            is_dovi: false,
            dovi_profile: None,
            has_object_audio: false,
            audio_codecs: Vec::new(),
            audio_track_count: 0,
            subtitle_track_count: 0,
        }
    }
}

// ---------------------------------------------------------------- deriving --

/// A text names a transfer function that means HDR.
pub open spec fn names_hdr(s: Seq<char>) -> bool {
    text::has(s, "smpte2084"@) || text::has(s, "arib-std-b67"@)
}

/// Whether a text names a transfer function that means HDR.
pub fn hdr_named(s: &str) -> (r: bool)
    ensures
        r == names_hdr(s@),
{
    text::contains(s, "smpte2084") || text::contains(s, "arib-std-b67")
}

/// A lowercase profile names Dolby Vision.
pub open spec fn names_dovi(s: Seq<char>) -> bool {
    text::has(s, "dvhe"@) || text::has(s, "dolby vision"@) || text::has(s, "dvh1"@)
}

/// The first word that spells a number up to 255.
pub open spec fn first_byte(words: Seq<Seq<char>>) -> Option<nat>
    decreases words.len(),
{
    if words.len() == 0 {
        None
    } else if text::parsed_within(words[0], 255) is Some {
        text::parsed_within(words[0], 255)
    } else {
        first_byte(words.skip(1))
    }
}

/// The Dolby Vision profile a lowercase profile text names: the first number
/// in it, or zero where it names none. `None` where it is not Dolby Vision.
pub open spec fn spec_dovi_profile(s: Seq<char>) -> Option<nat> {
    if !names_dovi(s) {
        None
    } else {
        match first_byte(text::words(s)) {
            Some(n) => Some(n),
            None => Some(0),
        }
    }
}

/// The Dolby Vision profile a lowercase profile text names.
pub fn dovi_profile_named(s: &str) -> (r: Option<u8>)
    ensures
        r is Some == spec_dovi_profile(s@) is Some,
        r is Some ==> r->0 == spec_dovi_profile(s@)->0,
{
    if !(text::contains(s, "dvhe") || text::contains(s, "dolby vision") || text::contains(
        s,
        "dvh1",
    )) {
        return None;
    }
    let w = text::split_words(s);
    let ghost all = text::words(s@);
    let mut i: usize = 0;
    assert(all.skip(0) =~= all);
    while i < w.len()
        invariant
            i <= w@.len(),
            all == text::words(s@),
            text::texts(w@) == all,
            names_dovi(s@),
            first_byte(all.skip(i as int)) == first_byte(all),
        decreases w.len() - i,
    {
        let ghost here = all.skip(i as int);
        assert(here[0] == w@[i as int]@);
        assert(here.skip(1) =~= all.skip(i + 1));
        match text::parse_u64_within(w[i].as_str(), 255) {
            Some(n) => {
                return Some(n as u8);
            },
            None => {},
        }
        i += 1;
    }
    assert(first_byte(all.skip(i as int)) is None);
    Some(0)
}

/// A lowercase title names object audio.
pub open spec fn names_object_audio(s: Seq<char>) -> bool {
    text::has(s, "atmos"@) || text::has(s, "dts:x"@) || text::has(s, "dts-x"@)
}

/// Whether a lowercase title names object audio.
pub fn object_audio_named(s: &str) -> (r: bool)
    ensures
        r == names_object_audio(s@),
{
    text::contains(s, "atmos") || text::contains(s, "dts:x") || text::contains(s, "dts-x")
}

/// The text of an optional string.
pub open spec fn opt_text(s: Option<String>) -> Option<Seq<char>> {
    match s {
        Some(t) => Some(t@),
        None => None,
    }
}

/// A video stream carries an HDR transfer function.
pub open spec fn stream_is_hdr(v: StreamInfo) -> bool {
    ||| v.profile is Some && names_hdr(text::lowercase(v.profile->0@))
    ||| v.pix_fmt is Some && names_hdr(v.pix_fmt->0@)
}

/// The Dolby Vision profile of a video stream.
pub open spec fn stream_dovi(v: StreamInfo) -> Option<nat> {
    match v.profile {
        Some(p) => spec_dovi_profile(text::lowercase(p@)),
        None => None,
    }
}

/// The title of an audio stream names object audio.
pub open spec fn stream_has_objects(s: StreamInfo) -> bool {
    names_object_audio(
        text::lowercase(
            match s.title {
                Some(t) => t@,
                None => Seq::empty(),
            },
        ),
    )
}

/// The lowercase codec names of a list of streams.
pub open spec fn codec_names(streams: Seq<StreamInfo>) -> Seq<Seq<char>> {
    streams.map_values(|s: StreamInfo| text::lowercase(s.codec@))
}

/// The facts that come from the primary video stream.
pub open spec fn video_facts(video: Option<StreamInfo>, f: FileFacts) -> bool {
    match video {
        None => {
            &&& f.video_codec is None
            &&& f.video_profile is None
            &&& f.video_bit_depth is None
            &&& f.video_pix_fmt is None
            &&& f.width is None
            &&& f.height is None
            &&& !f.is_hdr
            &&& !f.is_dovi
            &&& f.dovi_profile is None
        },
        Some(v) => {
            &&& opt_text(f.video_codec) == Some(text::lowercase(v.codec@))
            &&& opt_text(f.video_profile) == opt_text(v.profile)
            &&& f.video_bit_depth == Some(crate::probe::spec_bit_depth(opt_text(v.pix_fmt), v.bit_depth))
            &&& opt_text(f.video_pix_fmt) == opt_text(v.pix_fmt)
            &&& f.width == v.width
            &&& f.height == v.height
            &&& f.is_hdr == stream_is_hdr(v)
            &&& f.is_dovi == (stream_dovi(v) is Some)
            &&& (f.dovi_profile is Some == stream_dovi(v) is Some)
            &&& (f.dovi_profile is Some ==> f.dovi_profile->0 == stream_dovi(v)->0)
        },
    }
}

/// The facts a probe and a size give.
pub open spec fn facts_of(probe: MediaProbe, size_bytes: u64, f: FileFacts) -> bool {
    let audio = crate::probe::of_kind(probe.streams@, StreamKind::Audio);
    &&& f.container@ == probe.container@
    &&& f.duration_us == probe.duration_us
    &&& f.size_bytes == size_bytes
    &&& f.bit_rate_bps == probe.bit_rate_bps
    &&& video_facts(crate::probe::spec_primary_video(probe.streams@), f)
    &&& (f.has_object_audio == exists|i: int|
        0 <= i < audio.len() && stream_has_objects(#[trigger] audio[i]))
    &&& text::texts(f.audio_codecs@) == codec_names(audio)
    &&& f.audio_track_count == audio.len()
    &&& f.subtitle_track_count == crate::probe::of_kind(probe.streams@, StreamKind::Subtitle).len()
}

fn clone_opt(s: &Option<String>) -> (r: Option<String>)
    ensures
        opt_text(r) == opt_text(*s),
{
    match s {
        Some(t) => Some(t.clone()),
        None => None,
    }
}

fn stream_hdr(v: &StreamInfo) -> (r: bool)
    ensures
        r == stream_is_hdr(*v),
{
    let by_profile = match &v.profile {
        Some(p) => {
            let lowered = text::to_lowercase(p.as_str());
            hdr_named(lowered.as_str())
        },
        None => false,
    };
    let by_format = match &v.pix_fmt {
        Some(p) => hdr_named(p.as_str()),
        None => false,
    };
    by_profile || by_format
}

fn stream_dovi_profile(v: &StreamInfo) -> (r: Option<u8>)
    ensures
        r is Some == stream_dovi(*v) is Some,
        r is Some ==> r->0 == stream_dovi(*v)->0,
{
    match &v.profile {
        Some(p) => {
            let lowered = text::to_lowercase(p.as_str());
            dovi_profile_named(lowered.as_str())
        },
        None => None,
    }
}

fn stream_objects(s: &StreamInfo) -> (r: bool)
    ensures
        r == stream_has_objects(*s),
{
    let title = match &s.title {
        Some(t) => t.as_str(),
        None => "",
    };
    proof {
        reveal_strlit("");
        assert(s.title is None ==> title@ =~= Seq::<char>::empty());
    }
    let lowered = text::to_lowercase(title);
    object_audio_named(lowered.as_str())
}

/// Derive the facts a policy decision may use.
///
/// Atmos rides inside TrueHD and DTS:X inside DTS-HD; both show in the title
/// tag more reliably than anywhere structured.
pub fn derive_facts(probe: &MediaProbe, size_bytes: u64) -> (f: FileFacts)
    ensures
        facts_of(*probe, size_bytes, f),
{
    let audio = probe.streams_of(StreamKind::Audio);
    let ghost tracks = crate::probe::of_kind(probe.streams@, StreamKind::Audio);
    let mut audio_codecs: Vec<String> = Vec::new();
    let mut has_object_audio: bool = false;
    let mut i: usize = 0;
    while i < audio.len()
        invariant
            i <= audio@.len(),
            audio@.len() == tracks.len(),
            forall|j: int| 0 <= j < audio@.len() ==> *(#[trigger] audio@[j]) == tracks[j],
            text::texts(audio_codecs@) == codec_names(tracks.take(i as int)),
            has_object_audio == exists|j: int|
                0 <= j < i && stream_has_objects(#[trigger] tracks[j]),
        decreases audio.len() - i,
    {
        let track = audio[i];
        assert(*track == tracks[i as int]);
        text::push_owned(&mut audio_codecs, text::to_lowercase(track.codec.as_str()));
        if stream_objects(track) {
            assert(stream_has_objects(tracks[i as int]));
            has_object_audio = true;
        }
        i += 1;
        assert(text::texts(audio_codecs@) =~= codec_names(tracks.take(i as int)));
    }
    assert(tracks.take(i as int) =~= tracks);
    let subtitle_track_count: usize = probe.subtitle_count();
    let mut f = FileFacts::default();
    f.container = probe.container.clone();
    f.duration_us = probe.duration_us;
    f.size_bytes = size_bytes;
    f.bit_rate_bps = probe.bit_rate_bps;
    f.has_object_audio = has_object_audio;
    f.audio_codecs = audio_codecs;
    f.audio_track_count = audio.len();
    f.subtitle_track_count = subtitle_track_count;
    match probe.primary_video() {
        Some(v) => {
            f.video_codec = Some(text::to_lowercase(v.codec.as_str()));
            f.video_profile = clone_opt(&v.profile);
            let fmt: Option<&str> = match &v.pix_fmt {
                Some(p) => Some(p.as_str()),
                None => None,
            };
            f.video_bit_depth = Some(bit_depth_of(fmt, v.bit_depth));
            f.video_pix_fmt = clone_opt(&v.pix_fmt);
            f.width = v.width;
            f.height = v.height;
            f.is_hdr = stream_hdr(v);
            f.dovi_profile = stream_dovi_profile(v);
            f.is_dovi = f.dovi_profile.is_some();
        },
        None => {},
    }
    f
}

// --------------------------------------------------------------- signature --

/// A stable signature of the decision-relevant content facts.
///
/// A plan carries the signature of the facts it was built from; the agent
/// aborts if the source no longer matches.
#[derive(Debug, Clone, PartialEq, Eq)]
pub struct ContentSig(pub String);

/// The debug spelling of an optional text.
pub open spec fn debug_opt_text(s: Option<String>) -> Seq<char> {
    document::debug_option(
        match s {
            Some(t) => Some(document::debug_string(t@)),
            None => None,
        },
    )
}

/// The debug spelling of an optional number.
pub open spec fn debug_opt_number(n: Option<nat>) -> Seq<char> {
    document::debug_option(
        match n {
            Some(v) => Some(text::dec(v)),
            None => None,
        },
    )
}

/// An optional 32-bit number.
pub open spec fn opt_u32(n: Option<u32>) -> Option<nat> {
    match n {
        Some(v) => Some(v as nat),
        None => None,
    }
}

/// An optional byte.
pub open spec fn opt_u8(n: Option<u8>) -> Option<nat> {
    match n {
        Some(v) => Some(v as nat),
        None => None,
    }
}

/// What a signature is taken of. The size is not in it: a file whose size
/// changed but whose streams did not is the same decision.
pub open spec fn material(f: FileFacts) -> Seq<char> {
    f.container@ + "|"@ + debug_opt_text(f.video_codec) + "|"@ + debug_opt_text(f.video_profile)
        + "|"@ + document::debug_option(
        match f.video_bit_depth {
            Some(d) => Some(d.name()),
            None => None,
        },
    ) + "|"@ + debug_opt_number(opt_u32(f.width)) + "|"@ + debug_opt_number(opt_u32(f.height)) + "|"@
        + document::bool_word(f.is_hdr) + "|"@ + document::bool_word(f.is_dovi) + "|"@
        + debug_opt_number(opt_u8(f.dovi_profile)) + "|"@ + text::joined(
        text::texts(f.audio_codecs@),
        ","@,
    ) + "|"@ + text::dec(f.subtitle_track_count as nat)
}

fn debug_opt(s: &Option<String>) -> (r: String)
    ensures
        r@ == debug_opt_text(*s),
{
    match s {
        Some(t) => {
            let d = document::debug_text(t.as_str());
            document::debug_option_text(Some(d.as_str()))
        },
        None => document::debug_option_text(None),
    }
}

fn debug_opt_num(n: Option<u64>) -> (r: String)
    ensures
        r@ == debug_opt_number(
            match n {
                Some(v) => Some(v as nat),
                None => None,
            },
        ),
{
    match n {
        Some(v) => {
            let d = text::u64_text(v);
            document::debug_option_text(Some(d.as_str()))
        },
        None => document::debug_option_text(None),
    }
}

fn widen(n: Option<u32>) -> (r: Option<u64>)
    ensures
        r is Some == n is Some,
        r is Some ==> r->0 == n->0,
{
    match n {
        Some(v) => Some(v as u64),
        None => None,
    }
}

/// The text a signature is taken of.
pub fn signed_material(facts: &FileFacts) -> (r: String)
    ensures
        r@ == material(*facts),
{
    let depth: Option<&str> = match facts.video_bit_depth {
        Some(d) => Some(d.variant_name()),
        None => None,
    };
    let dovi: Option<u64> = match facts.dovi_profile {
        Some(p) => Some(p as u64),
        None => None,
    };
    let mut s = facts.container.clone();
    s.append("|");
    s.append(debug_opt(&facts.video_codec).as_str());
    s.append("|");
    s.append(debug_opt(&facts.video_profile).as_str());
    s.append("|");
    s.append(document::debug_option_text(depth).as_str());
    s.append("|");
    s.append(debug_opt_num(widen(facts.width)).as_str());
    s.append("|");
    s.append(debug_opt_num(widen(facts.height)).as_str());
    s.append("|");
    s.append(document::bool_text(facts.is_hdr));
    s.append("|");
    s.append(document::bool_text(facts.is_dovi));
    s.append("|");
    s.append(debug_opt_num(dovi).as_str());
    s.append("|");
    s.append(text::join(facts.audio_codecs.as_slice(), ",").as_str());
    s.append("|");
    text::push_u64(&mut s, facts.subtitle_track_count as u64);
    s
}

/// Compute the content signature for a set of facts.
pub fn content_sig(facts: &FileFacts) -> (r: ContentSig)
    ensures
        r.0@ == document::blake3_hex(material(*facts)),
{
    ContentSig(document::digest(signed_material(facts).as_str()))
}

/// A codec that is lossless, or unwanted, and is re-encoded.
pub open spec fn unwanted_audio(c: Seq<char>) -> bool {
    ||| text::has(c, "truehd"@)
    ||| text::has(c, "dts"@)
    ||| text::has(c, "flac"@)
    ||| text::has(c, "pcm"@)
    ||| text::has(c, "mlp"@)
    ||| text::has(c, "opus"@)
    ||| text::has(c, "pcm_s16le"@)
    ||| text::has(c, "pcm_s24le"@)
}

fn audio_unwanted(c: &str) -> (r: bool)
    ensures
        r == unwanted_audio(c@),
{
    text::contains(c, "truehd") || text::contains(c, "dts") || text::contains(c, "flac")
        || text::contains(c, "pcm") || text::contains(c, "mlp") || text::contains(c, "opus")
        || text::contains(c, "pcm_s16le") || text::contains(c, "pcm_s24le")
}

impl FileFacts {
    /// HDR and Dolby Vision are never re-encoded.
    pub open spec fn encodable(self) -> bool {
        !self.is_hdr && !self.is_dovi
    }

    /// Object audio, Dolby Vision profile 7 and an unknown profile.
    pub open spec fn excluded(self) -> bool {
        self.has_object_audio || self.dovi_profile == Some(7u8) || self.dovi_profile == Some(0u8)
    }

    /// Whether any audio track needs converting to EAC3.
    pub fn needs_audio_conversion(&self) -> (r: bool)
        ensures
            r == exists|i: int|
                0 <= i < self.audio_codecs@.len() && unwanted_audio(
                    (#[trigger] self.audio_codecs@[i])@,
                ),
    {
        let mut i: usize = 0;
        while i < self.audio_codecs.len()
            invariant
                i <= self.audio_codecs@.len(),
                forall|j: int|
                    0 <= j < i ==> !unwanted_audio((#[trigger] self.audio_codecs@[j])@),
            decreases self.audio_codecs.len() - i,
        {
            if audio_unwanted(self.audio_codecs[i].as_str()) {
                return true;
            }
            i += 1;
        }
        false
    }

    /// Whether the video may be re-encoded at all.
    pub fn video_is_encodable(&self) -> (r: bool)
        ensures
            r == self.encodable(),
    {
        !self.is_hdr && !self.is_dovi
    }

    /// Whether this file is excluded from all work.
    ///
    /// Dolby Vision profile 7 cannot be round-tripped and object audio is
    /// destroyed by a channel re-encode. Not knowing the profile is not
    /// permission.
    pub fn is_excluded(&self) -> (r: bool)
        ensures
            r == self.excluded(),
    {
        self.has_object_audio || matches!(self.dovi_profile, Some(7) | Some(0))
    }
}

// ------------------------------------------------------------------- laws --

/// Size buckets partition the sizes at the thresholds, in order.
pub proof fn law_buckets_partition(bytes: u64, t: SizeThresholds)
    requires
        t.small_max_bytes <= t.medium_max_bytes,
    ensures
        spec_bucket(bytes, t) is Small == (bytes < t.small_max_bytes),
        spec_bucket(bytes, t) is Medium == (t.small_max_bytes <= bytes < t.medium_max_bytes),
        spec_bucket(bytes, t) is Large == (t.medium_max_bytes <= bytes),
{
}

/// Facts that differ only in the size, the duration and the bitrate have one
/// signature.
pub proof fn law_signature_ignores_size(a: FileFacts, b: FileFacts)
    requires
        a.container@ == b.container@,
        opt_text(a.video_codec) == opt_text(b.video_codec),
        opt_text(a.video_profile) == opt_text(b.video_profile),
        a.video_bit_depth == b.video_bit_depth,
        a.width == b.width,
        a.height == b.height,
        a.is_hdr == b.is_hdr,
        a.is_dovi == b.is_dovi,
        a.dovi_profile == b.dovi_profile,
        text::texts(a.audio_codecs@) == text::texts(b.audio_codecs@),
        a.subtitle_track_count == b.subtitle_track_count,
    ensures
        material(a) == material(b),
        document::blake3_hex(material(a)) == document::blake3_hex(material(b)),
{
}

/// Dolby Vision is never encodable, and one whose profile is 7 or unknown is
/// excluded from all work.
pub proof fn law_dolby_vision_is_left_alone(probe: MediaProbe, size: u64, f: FileFacts)
    requires
        facts_of(probe, size, f),
        crate::probe::spec_primary_video(probe.streams@) matches Some(v) && stream_dovi(v) is Some,
    ensures
        !f.encodable(),
        ({
            let profile = stream_dovi(crate::probe::spec_primary_video(probe.streams@)->0)->0;
            (profile == 7 || profile == 0) ==> f.excluded()
        }),
{
}


/// Where the lowercase title of an audio stream contains `atmos`, `dts:x` or
/// `dts-x`, the facts say so and the file is excluded.
pub proof fn law_titles_reveal_object_audio(probe: MediaProbe, size: u64, f: FileFacts, i: int)
    requires
        facts_of(probe, size, f),
        0 <= i < probe.streams@.len(),
        probe.streams@[i].kind is Audio,
        probe.streams@[i].title is Some,
        text::has(text::lowercase(probe.streams@[i].title->0@), "atmos"@) || text::has(
            text::lowercase(probe.streams@[i].title->0@),
            "dts:x"@,
        ) || text::has(text::lowercase(probe.streams@[i].title->0@), "dts-x"@),
    ensures
        f.has_object_audio,
        f.excluded(),
{
    let audio = crate::probe::of_kind(probe.streams@, StreamKind::Audio);
    let j = crate::probe::law_no_stream_is_lost(probe.streams@, StreamKind::Audio, i);
    assert(stream_has_objects(audio[j]));
}

/// Nothing else reveals object audio: where no audio stream has a title that
/// contains one of the three names, the facts say there is none.
pub proof fn law_only_titles_reveal_object_audio(probe: MediaProbe, size: u64, f: FileFacts)
    requires
        facts_of(probe, size, f),
        forall|i: int|
            0 <= i < probe.streams@.len() && (#[trigger] probe.streams@[i]).kind is Audio
                && probe.streams@[i].title is Some ==> {
                let t = text::lowercase(probe.streams@[i].title->0@);
                !text::has(t, "atmos"@) && !text::has(t, "dts:x"@) && !text::has(t, "dts-x"@)
            },
        !text::has(text::lowercase(Seq::empty()), "atmos"@),
        !text::has(text::lowercase(Seq::empty()), "dts:x"@),
        !text::has(text::lowercase(Seq::empty()), "dts-x"@),
    ensures
        !f.has_object_audio,
{
    let audio = crate::probe::of_kind(probe.streams@, StreamKind::Audio);
    assert forall|j: int| 0 <= j < audio.len() implies !stream_has_objects(#[trigger] audio[j]) by {
        let i = crate::probe::law_streams_come_from_the_probe(probe.streams@, StreamKind::Audio, j);
        assert(probe.streams@[i].kind is Audio);
    }
}

/// The primary video stream is the first one, and its name, its size and its
/// depth are the facts'. A lowercase profile or a pixel format that contains
/// `smpte2084` or `arib-std-b67` means HDR. A lowercase profile that contains
/// `dvhe`, `dvh1` or `dolby vision` means Dolby Vision. Neither is ever
/// encodable.
pub proof fn law_the_first_video_stream_is_described(
    probe: MediaProbe,
    size: u64,
    f: FileFacts,
    i: int,
)
    requires
        facts_of(probe, size, f),
        0 <= i < probe.streams@.len(),
        probe.streams@[i].kind is Video,
        forall|j: int| 0 <= j < i ==> !((#[trigger] probe.streams@[j]).kind is Video),
    ensures
        ({
            let v = probe.streams@[i];
            let profile = text::lowercase(v.profile->0@);
            &&& f.video_codec matches Some(c) && c@ == text::lowercase(v.codec@)
            &&& f.width == v.width
            &&& f.height == v.height
            &&& f.video_profile is Some == v.profile is Some
            &&& v.profile is Some ==> f.video_profile->0@ == v.profile->0@
            &&& f.video_pix_fmt is Some == v.pix_fmt is Some
            &&& v.pix_fmt is Some ==> f.video_pix_fmt->0@ == v.pix_fmt->0@
            &&& v.pix_fmt is None ==> f.video_bit_depth == Some(
                crate::probe::spec_bit_depth(None, v.bit_depth),
            )
            &&& v.pix_fmt is Some ==> f.video_bit_depth == Some(
                crate::probe::spec_bit_depth(Some(v.pix_fmt->0@), v.bit_depth),
            )
            &&& f.is_hdr <==> {
                ||| v.profile is Some && text::has(profile, "smpte2084"@)
                ||| v.profile is Some && text::has(profile, "arib-std-b67"@)
                ||| v.pix_fmt is Some && text::has(v.pix_fmt->0@, "smpte2084"@)
                ||| v.pix_fmt is Some && text::has(v.pix_fmt->0@, "arib-std-b67"@)
            }
            &&& f.is_dovi <==> v.profile is Some && (text::has(profile, "dvhe"@) || text::has(
                profile,
                "dvh1"@,
            ) || text::has(profile, "dolby vision"@))
            &&& f.is_dovi <==> f.dovi_profile is Some
            &&& f.is_hdr || f.is_dovi ==> !f.encodable()
            &&& !f.is_hdr && !f.is_dovi ==> f.encodable()
        }),
{
    crate::probe::law_the_primary_video_is_the_first(probe.streams@, i);
}

/// A Dolby Vision profile is the first number up to 255 among the words of the
/// profile text, and zero where there is none.
pub proof fn law_the_dolby_vision_profile(s: Seq<char>, k: int)
    requires
        text::has(s, "dvhe"@) || text::has(s, "dvh1"@) || text::has(s, "dolby vision"@),
        0 <= k <= text::words(s).len(),
        forall|j: int|
            0 <= j < k ==> text::parsed_within(#[trigger] text::words(s)[j], 255) is None,
        k < text::words(s).len() ==> text::parsed_within(text::words(s)[k], 255) is Some,
    ensures
        k == text::words(s).len() ==> spec_dovi_profile(s) == Some(0nat),
        k < text::words(s).len() ==> spec_dovi_profile(s) == text::parsed_within(
            text::words(s)[k],
            255,
        ),
{
    lemma_first_byte(text::words(s), k);
}

proof fn lemma_first_byte(words: Seq<Seq<char>>, k: int)
    requires
        0 <= k <= words.len(),
        forall|j: int| 0 <= j < k ==> text::parsed_within(#[trigger] words[j], 255) is None,
        k < words.len() ==> text::parsed_within(words[k], 255) is Some,
    ensures
        k == words.len() ==> first_byte(words) is None,
        k < words.len() ==> first_byte(words) == text::parsed_within(words[k], 255),
    decreases words.len(),
{
    if words.len() > 0 && k > 0 {
        let rest = words.skip(1);
        assert(text::parsed_within(words[0], 255) is None);
        assert forall|j: int| 0 <= j < k - 1 implies text::parsed_within(
            #[trigger] rest[j],
            255,
        ) is None by {
            assert(rest[j] == words[j + 1]);
        }
        if k < words.len() {
            assert(rest[k - 1] == words[k]);
        }
        lemma_first_byte(rest, k - 1);
    }
}

/// The facts take the container, the length, the rate and the size as they are,
/// count every audio and subtitle stream, and name the codec of every audio
/// stream in lowercase, in order.
pub proof fn law_every_track_is_counted(probe: MediaProbe, size: u64, f: FileFacts, i: int)
    requires
        facts_of(probe, size, f),
    ensures
        f.container@ == probe.container@,
        f.duration_us == probe.duration_us,
        f.bit_rate_bps == probe.bit_rate_bps,
        f.size_bytes == size,
        f.audio_track_count == probe.streams@.filter(|s: StreamInfo| s.kind is Audio).len(),
        f.subtitle_track_count == probe.streams@.filter(|s: StreamInfo| s.kind is Subtitle).len(),
        f.audio_codecs@.len() == f.audio_track_count,
        0 <= i < f.audio_codecs@.len() ==> f.audio_codecs@[i]@ == text::lowercase(
            probe.streams@.filter(|s: StreamInfo| s.kind is Audio)[i].codec@,
        ),
{
    crate::probe::law_of_kind_is_a_filter(probe.streams@);
    assert(text::texts(f.audio_codecs@).len() == f.audio_codecs@.len());
    if 0 <= i < f.audio_codecs@.len() {
        assert(text::texts(f.audio_codecs@)[i] == f.audio_codecs@[i]@);
    }
}

/// The three hard exclusions, and no other: object audio, Dolby Vision profile
/// 7, and a Dolby Vision profile that is not known.
pub proof fn law_what_is_excluded(f: FileFacts)
    ensures
        f.has_object_audio ==> f.excluded(),
        f.dovi_profile matches Some(n) ==> (n == 7 || n == 0) ==> f.excluded(),
        !f.has_object_audio && f.dovi_profile is None ==> !f.excluded(),
        !f.has_object_audio ==> (f.dovi_profile matches Some(n) ==> n != 7 && n != 0
            ==> !f.excluded()),
{
}

/// The codecs whose tracks are converted: a name that contains one of the six
/// is unwanted, and no other is.
pub proof fn law_which_audio_is_unwanted(c: Seq<char>)
    ensures
        unwanted_audio(c) <==> text::has(c, "truehd"@) || text::has(c, "dts"@) || text::has(
            c,
            "flac"@,
        ) || text::has(c, "pcm"@) || text::has(c, "mlp"@) || text::has(c, "opus"@),
{
    if text::has(c, "pcm_s16le"@) {
        reveal_strlit("pcm_s16le");
        reveal_strlit("pcm");
        let i = choose|i: int| text::occurs_at(c, "pcm_s16le"@, i);
        assert(c.subrange(i, i + 3) =~= c.subrange(i, i + 9).take(3));
        assert("pcm_s16le"@.take(3) =~= "pcm"@);
        assert(text::occurs_at(c, "pcm"@, i));
    }
    if text::has(c, "pcm_s24le"@) {
        reveal_strlit("pcm_s24le");
        reveal_strlit("pcm");
        let i = choose|i: int| text::occurs_at(c, "pcm_s24le"@, i);
        assert(c.subrange(i, i + 3) =~= c.subrange(i, i + 9).take(3));
        assert("pcm_s24le"@.take(3) =~= "pcm"@);
        assert(text::occurs_at(c, "pcm"@, i));
    }
}

proof fn lemma_debug_number(a: Option<nat>, b: Option<nat>)
    requires
        debug_opt_number(a) == debug_opt_number(b),
    ensures
        a == b,
{
    reveal_strlit("Some(");
    reveal_strlit("None");
    reveal_strlit(")");
    assert("Some("@[0] != "None"@[0]);
    match (a, b) {
        (Some(x), Some(y)) => {
            text::lemma_cancel_back("Some("@ + text::dec(x), "Some("@ + text::dec(y), ")"@);
            text::lemma_cancel_front("Some("@, text::dec(x), text::dec(y));
            text::law_decimal_reads_back(x);
            text::law_decimal_reads_back(y);
        },
        (Some(x), None) => {
            assert(debug_opt_number(a)[0] == "Some("@[0]);
        },
        (None, Some(y)) => {
            assert(debug_opt_number(b)[0] == "Some("@[0]);
        },
        (None, None) => {},
    }
}

proof fn lemma_bool_words(a: bool, b: bool)
    requires
        document::bool_word(a) == document::bool_word(b),
    ensures
        a == b,
{
    reveal_strlit("true");
    reveal_strlit("false");
    assert("true"@.len() != "false"@.len());
}

/// Files that differ in their width are signed for differently.
pub proof fn law_the_signature_sees_the_width(a: FileFacts, other: Option<u32>)
    ensures
        material(a) == material((FileFacts { width: other, ..a })) ==> other == a.width,
{
    let b = FileFacts { width: other, ..a };
    if material(a) == material(b) {
        let front = a.container@ + "|"@ + debug_opt_text(a.video_codec) + "|"@ + debug_opt_text(a.video_profile) + "|"@ + document::debug_option(
            match a.video_bit_depth {
                Some(d) => Some(d.name()),
                None => None,
            },
        ) + "|"@;
        let x0 = debug_opt_number(opt_u32(a.width));
        let y0 = debug_opt_number(opt_u32(b.width));
        let x = front + x0;
        let y = front + y0;
        let t0 = "|"@;
        let t1 = debug_opt_number(opt_u32(a.height));
        let t2 = "|"@;
        let t3 = document::bool_word(a.is_hdr);
        let t4 = "|"@;
        let t5 = document::bool_word(a.is_dovi);
        let t6 = "|"@;
        let t7 = debug_opt_number(opt_u8(a.dovi_profile));
        let t8 = "|"@;
        let t9 = text::joined(text::texts(a.audio_codecs@), ","@);
        let t10 = "|"@;
        let t11 = text::dec(a.subtitle_track_count as nat);
        text::lemma_cancel_back(x + t0 + t1 + t2 + t3 + t4 + t5 + t6 + t7 + t8 + t9 + t10, y + t0 + t1 + t2 + t3 + t4 + t5 + t6 + t7 + t8 + t9 + t10, t11);
        text::lemma_cancel_back(x + t0 + t1 + t2 + t3 + t4 + t5 + t6 + t7 + t8 + t9, y + t0 + t1 + t2 + t3 + t4 + t5 + t6 + t7 + t8 + t9, t10);
        text::lemma_cancel_back(x + t0 + t1 + t2 + t3 + t4 + t5 + t6 + t7 + t8, y + t0 + t1 + t2 + t3 + t4 + t5 + t6 + t7 + t8, t9);
        text::lemma_cancel_back(x + t0 + t1 + t2 + t3 + t4 + t5 + t6 + t7, y + t0 + t1 + t2 + t3 + t4 + t5 + t6 + t7, t8);
        text::lemma_cancel_back(x + t0 + t1 + t2 + t3 + t4 + t5 + t6, y + t0 + t1 + t2 + t3 + t4 + t5 + t6, t7);
        text::lemma_cancel_back(x + t0 + t1 + t2 + t3 + t4 + t5, y + t0 + t1 + t2 + t3 + t4 + t5, t6);
        text::lemma_cancel_back(x + t0 + t1 + t2 + t3 + t4, y + t0 + t1 + t2 + t3 + t4, t5);
        text::lemma_cancel_back(x + t0 + t1 + t2 + t3, y + t0 + t1 + t2 + t3, t4);
        text::lemma_cancel_back(x + t0 + t1 + t2, y + t0 + t1 + t2, t3);
        text::lemma_cancel_back(x + t0 + t1, y + t0 + t1, t2);
        text::lemma_cancel_back(x + t0, y + t0, t1);
        text::lemma_cancel_back(x, y, t0);
        text::lemma_cancel_front(front, x0, y0);
        lemma_debug_number(opt_u32(a.width), opt_u32(b.width));
    }
}

/// Files that differ in their height are signed for differently.
pub proof fn law_the_signature_sees_the_height(a: FileFacts, other: Option<u32>)
    ensures
        material(a) == material((FileFacts { height: other, ..a })) ==> other == a.height,
{
    let b = FileFacts { height: other, ..a };
    if material(a) == material(b) {
        let front = a.container@ + "|"@ + debug_opt_text(a.video_codec) + "|"@ + debug_opt_text(a.video_profile) + "|"@ + document::debug_option(
            match a.video_bit_depth {
                Some(d) => Some(d.name()),
                None => None,
            },
        ) + "|"@ + debug_opt_number(opt_u32(a.width)) + "|"@;
        let x0 = debug_opt_number(opt_u32(a.height));
        let y0 = debug_opt_number(opt_u32(b.height));
        let x = front + x0;
        let y = front + y0;
        let t0 = "|"@;
        let t1 = document::bool_word(a.is_hdr);
        let t2 = "|"@;
        let t3 = document::bool_word(a.is_dovi);
        let t4 = "|"@;
        let t5 = debug_opt_number(opt_u8(a.dovi_profile));
        let t6 = "|"@;
        let t7 = text::joined(text::texts(a.audio_codecs@), ","@);
        let t8 = "|"@;
        let t9 = text::dec(a.subtitle_track_count as nat);
        text::lemma_cancel_back(x + t0 + t1 + t2 + t3 + t4 + t5 + t6 + t7 + t8, y + t0 + t1 + t2 + t3 + t4 + t5 + t6 + t7 + t8, t9);
        text::lemma_cancel_back(x + t0 + t1 + t2 + t3 + t4 + t5 + t6 + t7, y + t0 + t1 + t2 + t3 + t4 + t5 + t6 + t7, t8);
        text::lemma_cancel_back(x + t0 + t1 + t2 + t3 + t4 + t5 + t6, y + t0 + t1 + t2 + t3 + t4 + t5 + t6, t7);
        text::lemma_cancel_back(x + t0 + t1 + t2 + t3 + t4 + t5, y + t0 + t1 + t2 + t3 + t4 + t5, t6);
        text::lemma_cancel_back(x + t0 + t1 + t2 + t3 + t4, y + t0 + t1 + t2 + t3 + t4, t5);
        text::lemma_cancel_back(x + t0 + t1 + t2 + t3, y + t0 + t1 + t2 + t3, t4);
        text::lemma_cancel_back(x + t0 + t1 + t2, y + t0 + t1 + t2, t3);
        text::lemma_cancel_back(x + t0 + t1, y + t0 + t1, t2);
        text::lemma_cancel_back(x + t0, y + t0, t1);
        text::lemma_cancel_back(x, y, t0);
        text::lemma_cancel_front(front, x0, y0);
        lemma_debug_number(opt_u32(a.height), opt_u32(b.height));
    }
}

/// A file that is HDR is not signed for as one that is not.
pub proof fn law_the_signature_sees_hdr(a: FileFacts, other: bool)
    ensures
        material(a) == material((FileFacts { is_hdr: other, ..a })) ==> other == a.is_hdr,
{
    let b = FileFacts { is_hdr: other, ..a };
    if material(a) == material(b) {
        let front = a.container@ + "|"@ + debug_opt_text(a.video_codec) + "|"@ + debug_opt_text(a.video_profile) + "|"@ + document::debug_option(
            match a.video_bit_depth {
                Some(d) => Some(d.name()),
                None => None,
            },
        ) + "|"@ + debug_opt_number(opt_u32(a.width)) + "|"@ + debug_opt_number(opt_u32(a.height)) + "|"@;
        let x0 = document::bool_word(a.is_hdr);
        let y0 = document::bool_word(b.is_hdr);
        let x = front + x0;
        let y = front + y0;
        let t0 = "|"@;
        let t1 = document::bool_word(a.is_dovi);
        let t2 = "|"@;
        let t3 = debug_opt_number(opt_u8(a.dovi_profile));
        let t4 = "|"@;
        let t5 = text::joined(text::texts(a.audio_codecs@), ","@);
        let t6 = "|"@;
        let t7 = text::dec(a.subtitle_track_count as nat);
        text::lemma_cancel_back(x + t0 + t1 + t2 + t3 + t4 + t5 + t6, y + t0 + t1 + t2 + t3 + t4 + t5 + t6, t7);
        text::lemma_cancel_back(x + t0 + t1 + t2 + t3 + t4 + t5, y + t0 + t1 + t2 + t3 + t4 + t5, t6);
        text::lemma_cancel_back(x + t0 + t1 + t2 + t3 + t4, y + t0 + t1 + t2 + t3 + t4, t5);
        text::lemma_cancel_back(x + t0 + t1 + t2 + t3, y + t0 + t1 + t2 + t3, t4);
        text::lemma_cancel_back(x + t0 + t1 + t2, y + t0 + t1 + t2, t3);
        text::lemma_cancel_back(x + t0 + t1, y + t0 + t1, t2);
        text::lemma_cancel_back(x + t0, y + t0, t1);
        text::lemma_cancel_back(x, y, t0);
        text::lemma_cancel_front(front, x0, y0);
        lemma_bool_words(a.is_hdr, b.is_hdr);
    }
}

/// A file with Dolby Vision is not signed for as one without.
pub proof fn law_the_signature_sees_dolby_vision(a: FileFacts, other: bool)
    ensures
        material(a) == material((FileFacts { is_dovi: other, ..a })) ==> other == a.is_dovi,
{
    let b = FileFacts { is_dovi: other, ..a };
    if material(a) == material(b) {
        let front = a.container@ + "|"@ + debug_opt_text(a.video_codec) + "|"@ + debug_opt_text(a.video_profile) + "|"@ + document::debug_option(
            match a.video_bit_depth {
                Some(d) => Some(d.name()),
                None => None,
            },
        ) + "|"@ + debug_opt_number(opt_u32(a.width)) + "|"@ + debug_opt_number(opt_u32(a.height)) + "|"@ + document::bool_word(a.is_hdr) + "|"@;
        let x0 = document::bool_word(a.is_dovi);
        let y0 = document::bool_word(b.is_dovi);
        let x = front + x0;
        let y = front + y0;
        let t0 = "|"@;
        let t1 = debug_opt_number(opt_u8(a.dovi_profile));
        let t2 = "|"@;
        let t3 = text::joined(text::texts(a.audio_codecs@), ","@);
        let t4 = "|"@;
        let t5 = text::dec(a.subtitle_track_count as nat);
        text::lemma_cancel_back(x + t0 + t1 + t2 + t3 + t4, y + t0 + t1 + t2 + t3 + t4, t5);
        text::lemma_cancel_back(x + t0 + t1 + t2 + t3, y + t0 + t1 + t2 + t3, t4);
        text::lemma_cancel_back(x + t0 + t1 + t2, y + t0 + t1 + t2, t3);
        text::lemma_cancel_back(x + t0 + t1, y + t0 + t1, t2);
        text::lemma_cancel_back(x + t0, y + t0, t1);
        text::lemma_cancel_back(x, y, t0);
        text::lemma_cancel_front(front, x0, y0);
        lemma_bool_words(a.is_dovi, b.is_dovi);
    }
}

/// Files that differ in their Dolby Vision profile are signed for differently.
pub proof fn law_the_signature_sees_the_profile(a: FileFacts, other: Option<u8>)
    ensures
        material(a) == material((FileFacts { dovi_profile: other, ..a })) ==> other == a.dovi_profile,
{
    let b = FileFacts { dovi_profile: other, ..a };
    if material(a) == material(b) {
        let front = a.container@ + "|"@ + debug_opt_text(a.video_codec) + "|"@ + debug_opt_text(a.video_profile) + "|"@ + document::debug_option(
            match a.video_bit_depth {
                Some(d) => Some(d.name()),
                None => None,
            },
        ) + "|"@ + debug_opt_number(opt_u32(a.width)) + "|"@ + debug_opt_number(opt_u32(a.height)) + "|"@ + document::bool_word(a.is_hdr) + "|"@ + document::bool_word(a.is_dovi) + "|"@;
        let x0 = debug_opt_number(opt_u8(a.dovi_profile));
        let y0 = debug_opt_number(opt_u8(b.dovi_profile));
        let x = front + x0;
        let y = front + y0;
        let t0 = "|"@;
        let t1 = text::joined(text::texts(a.audio_codecs@), ","@);
        let t2 = "|"@;
        let t3 = text::dec(a.subtitle_track_count as nat);
        text::lemma_cancel_back(x + t0 + t1 + t2, y + t0 + t1 + t2, t3);
        text::lemma_cancel_back(x + t0 + t1, y + t0 + t1, t2);
        text::lemma_cancel_back(x + t0, y + t0, t1);
        text::lemma_cancel_back(x, y, t0);
        text::lemma_cancel_front(front, x0, y0);
        lemma_debug_number(opt_u8(a.dovi_profile), opt_u8(b.dovi_profile));
    }
}

/// Files that differ in their number of subtitles are signed for differently.
pub proof fn law_the_signature_sees_the_subtitles(a: FileFacts, other: usize)
    ensures
        material(a) == material((FileFacts { subtitle_track_count: other, ..a })) ==> other == a.subtitle_track_count,
{
    let b = FileFacts { subtitle_track_count: other, ..a };
    if material(a) == material(b) {
        let front = a.container@ + "|"@ + debug_opt_text(a.video_codec) + "|"@ + debug_opt_text(a.video_profile) + "|"@ + document::debug_option(
            match a.video_bit_depth {
                Some(d) => Some(d.name()),
                None => None,
            },
        ) + "|"@ + debug_opt_number(opt_u32(a.width)) + "|"@ + debug_opt_number(opt_u32(a.height)) + "|"@ + document::bool_word(a.is_hdr) + "|"@ + document::bool_word(a.is_dovi) + "|"@ + debug_opt_number(opt_u8(a.dovi_profile)) + "|"@ + text::joined(text::texts(a.audio_codecs@), ","@) + "|"@;
        let x0 = text::dec(a.subtitle_track_count as nat);
        let y0 = text::dec(b.subtitle_track_count as nat);
        let x = front + x0;
        let y = front + y0;
        text::lemma_cancel_front(front, x0, y0);
        text::law_decimal_reads_back(a.subtitle_track_count as nat);
        text::law_decimal_reads_back(b.subtitle_track_count as nat);
    }
}

/// Files that differ in the codecs of their audio, as they are listed, are signed
/// for differently.
pub proof fn law_the_signature_sees_the_audio(a: FileFacts, other: Vec<String>)
    ensures
        material(a) == material((FileFacts { audio_codecs: other, ..a })) ==> text::joined(text::texts(other@), ","@) == text::joined(
            text::texts(a.audio_codecs@),
            ","@,
        ),
{
    let b = FileFacts { audio_codecs: other, ..a };
    if material(a) == material(b) {
        let front = a.container@ + "|"@ + debug_opt_text(a.video_codec) + "|"@ + debug_opt_text(a.video_profile) + "|"@ + document::debug_option(
            match a.video_bit_depth {
                Some(d) => Some(d.name()),
                None => None,
            },
        ) + "|"@ + debug_opt_number(opt_u32(a.width)) + "|"@ + debug_opt_number(opt_u32(a.height)) + "|"@ + document::bool_word(a.is_hdr) + "|"@ + document::bool_word(a.is_dovi) + "|"@ + debug_opt_number(opt_u8(a.dovi_profile)) + "|"@;
        let x0 = text::joined(text::texts(a.audio_codecs@), ","@);
        let y0 = text::joined(text::texts(b.audio_codecs@), ","@);
        let x = front + x0;
        let y = front + y0;
        let t0 = "|"@;
        let t1 = text::dec(a.subtitle_track_count as nat);
        text::lemma_cancel_back(x + t0, y + t0, t1);
        text::lemma_cancel_back(x, y, t0);
        text::lemma_cancel_front(front, x0, y0);
    }
}

/// Files that differ in their container are signed for differently.
pub proof fn law_the_signature_sees_the_container(a: FileFacts, other: String)
    ensures
        material(a) == material((FileFacts { container: other, ..a })) ==> other@ == a.container@,
{
    let b = FileFacts { container: other, ..a };
    if material(a) == material(b) {
        let x0 = a.container@;
        let y0 = b.container@;
        let x = x0;
        let y = y0;
        let t0 = "|"@;
        let t1 = debug_opt_text(a.video_codec);
        let t2 = "|"@;
        let t3 = debug_opt_text(a.video_profile);
        let t4 = "|"@;
        let t5 = document::debug_option(
            match a.video_bit_depth {
                Some(d) => Some(d.name()),
                None => None,
            },
        );
        let t6 = "|"@;
        let t7 = debug_opt_number(opt_u32(a.width));
        let t8 = "|"@;
        let t9 = debug_opt_number(opt_u32(a.height));
        let t10 = "|"@;
        let t11 = document::bool_word(a.is_hdr);
        let t12 = "|"@;
        let t13 = document::bool_word(a.is_dovi);
        let t14 = "|"@;
        let t15 = debug_opt_number(opt_u8(a.dovi_profile));
        let t16 = "|"@;
        let t17 = text::joined(text::texts(a.audio_codecs@), ","@);
        let t18 = "|"@;
        let t19 = text::dec(a.subtitle_track_count as nat);
        text::lemma_cancel_back(x + t0 + t1 + t2 + t3 + t4 + t5 + t6 + t7 + t8 + t9 + t10 + t11 + t12 + t13 + t14 + t15 + t16 + t17 + t18, y + t0 + t1 + t2 + t3 + t4 + t5 + t6 + t7 + t8 + t9 + t10 + t11 + t12 + t13 + t14 + t15 + t16 + t17 + t18, t19);
        text::lemma_cancel_back(x + t0 + t1 + t2 + t3 + t4 + t5 + t6 + t7 + t8 + t9 + t10 + t11 + t12 + t13 + t14 + t15 + t16 + t17, y + t0 + t1 + t2 + t3 + t4 + t5 + t6 + t7 + t8 + t9 + t10 + t11 + t12 + t13 + t14 + t15 + t16 + t17, t18);
        text::lemma_cancel_back(x + t0 + t1 + t2 + t3 + t4 + t5 + t6 + t7 + t8 + t9 + t10 + t11 + t12 + t13 + t14 + t15 + t16, y + t0 + t1 + t2 + t3 + t4 + t5 + t6 + t7 + t8 + t9 + t10 + t11 + t12 + t13 + t14 + t15 + t16, t17);
        text::lemma_cancel_back(x + t0 + t1 + t2 + t3 + t4 + t5 + t6 + t7 + t8 + t9 + t10 + t11 + t12 + t13 + t14 + t15, y + t0 + t1 + t2 + t3 + t4 + t5 + t6 + t7 + t8 + t9 + t10 + t11 + t12 + t13 + t14 + t15, t16);
        text::lemma_cancel_back(x + t0 + t1 + t2 + t3 + t4 + t5 + t6 + t7 + t8 + t9 + t10 + t11 + t12 + t13 + t14, y + t0 + t1 + t2 + t3 + t4 + t5 + t6 + t7 + t8 + t9 + t10 + t11 + t12 + t13 + t14, t15);
        text::lemma_cancel_back(x + t0 + t1 + t2 + t3 + t4 + t5 + t6 + t7 + t8 + t9 + t10 + t11 + t12 + t13, y + t0 + t1 + t2 + t3 + t4 + t5 + t6 + t7 + t8 + t9 + t10 + t11 + t12 + t13, t14);
        text::lemma_cancel_back(x + t0 + t1 + t2 + t3 + t4 + t5 + t6 + t7 + t8 + t9 + t10 + t11 + t12, y + t0 + t1 + t2 + t3 + t4 + t5 + t6 + t7 + t8 + t9 + t10 + t11 + t12, t13);
        text::lemma_cancel_back(x + t0 + t1 + t2 + t3 + t4 + t5 + t6 + t7 + t8 + t9 + t10 + t11, y + t0 + t1 + t2 + t3 + t4 + t5 + t6 + t7 + t8 + t9 + t10 + t11, t12);
        text::lemma_cancel_back(x + t0 + t1 + t2 + t3 + t4 + t5 + t6 + t7 + t8 + t9 + t10, y + t0 + t1 + t2 + t3 + t4 + t5 + t6 + t7 + t8 + t9 + t10, t11);
        text::lemma_cancel_back(x + t0 + t1 + t2 + t3 + t4 + t5 + t6 + t7 + t8 + t9, y + t0 + t1 + t2 + t3 + t4 + t5 + t6 + t7 + t8 + t9, t10);
        text::lemma_cancel_back(x + t0 + t1 + t2 + t3 + t4 + t5 + t6 + t7 + t8, y + t0 + t1 + t2 + t3 + t4 + t5 + t6 + t7 + t8, t9);
        text::lemma_cancel_back(x + t0 + t1 + t2 + t3 + t4 + t5 + t6 + t7, y + t0 + t1 + t2 + t3 + t4 + t5 + t6 + t7, t8);
        text::lemma_cancel_back(x + t0 + t1 + t2 + t3 + t4 + t5 + t6, y + t0 + t1 + t2 + t3 + t4 + t5 + t6, t7);
        text::lemma_cancel_back(x + t0 + t1 + t2 + t3 + t4 + t5, y + t0 + t1 + t2 + t3 + t4 + t5, t6);
        text::lemma_cancel_back(x + t0 + t1 + t2 + t3 + t4, y + t0 + t1 + t2 + t3 + t4, t5);
        text::lemma_cancel_back(x + t0 + t1 + t2 + t3, y + t0 + t1 + t2 + t3, t4);
        text::lemma_cancel_back(x + t0 + t1 + t2, y + t0 + t1 + t2, t3);
        text::lemma_cancel_back(x + t0 + t1, y + t0 + t1, t2);
        text::lemma_cancel_back(x + t0, y + t0, t1);
        text::lemma_cancel_back(x, y, t0);
    }
}

/// Files that differ in their bit depth are signed for differently.
pub proof fn law_the_signature_sees_the_depth(a: FileFacts, other: Option<crate::plan::BitDepth>)
    ensures
        material(a) == material((FileFacts { video_bit_depth: other, ..a })) ==> other == a.video_bit_depth,
{
    let b = FileFacts { video_bit_depth: other, ..a };
    if material(a) == material(b) {
        let front = a.container@ + "|"@ + debug_opt_text(a.video_codec) + "|"@ + debug_opt_text(a.video_profile) + "|"@;
        let x0 = document::debug_option(
            match a.video_bit_depth {
                Some(d) => Some(d.name()),
                None => None,
            },
        );
        let y0 = document::debug_option(
            match b.video_bit_depth {
                Some(d) => Some(d.name()),
                None => None,
            },
        );
        let x = front + x0;
        let y = front + y0;
        let t0 = "|"@;
        let t1 = debug_opt_number(opt_u32(a.width));
        let t2 = "|"@;
        let t3 = debug_opt_number(opt_u32(a.height));
        let t4 = "|"@;
        let t5 = document::bool_word(a.is_hdr);
        let t6 = "|"@;
        let t7 = document::bool_word(a.is_dovi);
        let t8 = "|"@;
        let t9 = debug_opt_number(opt_u8(a.dovi_profile));
        let t10 = "|"@;
        let t11 = text::joined(text::texts(a.audio_codecs@), ","@);
        let t12 = "|"@;
        let t13 = text::dec(a.subtitle_track_count as nat);
        text::lemma_cancel_back(x + t0 + t1 + t2 + t3 + t4 + t5 + t6 + t7 + t8 + t9 + t10 + t11 + t12, y + t0 + t1 + t2 + t3 + t4 + t5 + t6 + t7 + t8 + t9 + t10 + t11 + t12, t13);
        text::lemma_cancel_back(x + t0 + t1 + t2 + t3 + t4 + t5 + t6 + t7 + t8 + t9 + t10 + t11, y + t0 + t1 + t2 + t3 + t4 + t5 + t6 + t7 + t8 + t9 + t10 + t11, t12);
        text::lemma_cancel_back(x + t0 + t1 + t2 + t3 + t4 + t5 + t6 + t7 + t8 + t9 + t10, y + t0 + t1 + t2 + t3 + t4 + t5 + t6 + t7 + t8 + t9 + t10, t11);
        text::lemma_cancel_back(x + t0 + t1 + t2 + t3 + t4 + t5 + t6 + t7 + t8 + t9, y + t0 + t1 + t2 + t3 + t4 + t5 + t6 + t7 + t8 + t9, t10);
        text::lemma_cancel_back(x + t0 + t1 + t2 + t3 + t4 + t5 + t6 + t7 + t8, y + t0 + t1 + t2 + t3 + t4 + t5 + t6 + t7 + t8, t9);
        text::lemma_cancel_back(x + t0 + t1 + t2 + t3 + t4 + t5 + t6 + t7, y + t0 + t1 + t2 + t3 + t4 + t5 + t6 + t7, t8);
        text::lemma_cancel_back(x + t0 + t1 + t2 + t3 + t4 + t5 + t6, y + t0 + t1 + t2 + t3 + t4 + t5 + t6, t7);
        text::lemma_cancel_back(x + t0 + t1 + t2 + t3 + t4 + t5, y + t0 + t1 + t2 + t3 + t4 + t5, t6);
        text::lemma_cancel_back(x + t0 + t1 + t2 + t3 + t4, y + t0 + t1 + t2 + t3 + t4, t5);
        text::lemma_cancel_back(x + t0 + t1 + t2 + t3, y + t0 + t1 + t2 + t3, t4);
        text::lemma_cancel_back(x + t0 + t1 + t2, y + t0 + t1 + t2, t3);
        text::lemma_cancel_back(x + t0 + t1, y + t0 + t1, t2);
        text::lemma_cancel_back(x + t0, y + t0, t1);
        text::lemma_cancel_back(x, y, t0);
        text::lemma_cancel_front(front, x0, y0);
        reveal_strlit("Some(");
        reveal_strlit("None");
        reveal_strlit("Eight");
        reveal_strlit("Ten");
        reveal_strlit("Twelve");
        reveal_strlit(")");
        assert("Some("@.len() == 5 && "None"@.len() == 4 && ")"@.len() == 1);
        assert("Eight"@.len() == 5 && "Ten"@.len() == 3 && "Twelve"@.len() == 6);
        assert(a.video_bit_depth matches Some(d) ==> x0.len() == 6 + d.name().len());
        assert(b.video_bit_depth matches Some(d) ==> y0.len() == 6 + d.name().len());
    }
}

} // verus!
