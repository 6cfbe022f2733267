//! Parsed ffprobe output.
//!
//! ffprobe is loose: numbers arrive as strings, fields come and go by codec
//! and container. Everything lax becomes a typed value exactly once, here.
use vstd::prelude::*;

use crate::plan::BitDepth;
use crate::text;

verus! {

/// What kind of data a stream carries.
#[derive(Debug, Clone, Copy, PartialEq, Eq, Hash, Structural)]
#[non_exhaustive]
pub enum StreamKind {
    /// Video.
    Video,
    /// Audio.
    Audio,
    /// Subtitles.
    Subtitle,
    /// Attachments, data, anything else. The default: an unrecognised
    /// `codec_type` must never be mistaken for video or audio.
    Other,
}

/// One parsed video, audio, subtitle or data stream.
#[derive(Debug, Clone, PartialEq)]
pub struct StreamInfo {
    /// Position within the container.
    pub index: u32,
    /// Which kind of stream this is.
    pub kind: StreamKind,
    /// ffmpeg codec name, e.g. `hevc`, `eac3`, `subrip`.
    pub codec: String,
    /// Codec profile, e.g. `Main 10`, when reported.
    pub profile: Option<String>,
    /// Pixel format, video only.
    pub pix_fmt: Option<String>,
    /// Width in pixels, video only.
    pub width: Option<u32>,
    /// Height in pixels, video only.
    pub height: Option<u32>,
    /// Bits per raw sample, when reported.
    pub bit_depth: Option<u8>,
    /// Channel count, audio only.
    pub channels: Option<u16>,
    /// Channel layout string, e.g. `5.1(side)`.
    pub channel_layout: Option<String>,
    /// Declared bitrate in bits per second, when reported.
    pub bit_rate_bps: Option<u64>,
    /// ISO language tag.
    pub language: Option<String>,
    /// Human title tag.
    pub title: Option<String>,
    /// Whether the container marks this stream default.
    pub is_default: bool,
    /// Whether the container marks this stream forced.
    pub is_forced: bool,
}

impl Default for StreamInfo {
    /// A stream of no known kind, with nothing reported.
    fn default() -> (r: StreamInfo)
        ensures
            r.index == 0,
            r.kind is Other,
            r.codec@.len() == 0,
            r.profile is None,
            r.pix_fmt is None,
            r.width is None,
            r.height is None,
            r.bit_depth is None,
            r.channels is None,
            r.channel_layout is None,
            r.bit_rate_bps is None,
            r.language is None,
            r.title is None,
            !r.is_default,
            !r.is_forced,
    {
        StreamInfo {
            index: 0,
            kind: StreamKind::Other,
            codec: String::new(),
            profile: None,
            pix_fmt: None,
            width: None,
            height: None,
            bit_depth: None,
            channels: None,
            channel_layout: None,
            bit_rate_bps: None,
            language: None,
            title: None,
            is_default: false,
            is_forced: false,
        }
    }
}

/// Parsed ffprobe output for one media file.
#[derive(Debug, Clone, PartialEq)]
pub struct MediaProbe {
    /// Container format name(s) as ffprobe reports them.
    pub container: String,
    /// Duration in microseconds, when reported.
    pub duration_us: Option<u64>,
    /// Overall bitrate in bits per second, when reported.
    pub bit_rate_bps: Option<u64>,
    /// Container-reported size in bytes, when present.
    pub size_bytes: Option<u64>,
    /// Every stream, in container order.
    pub streams: Vec<StreamInfo>,
}

impl Default for MediaProbe {
    /// A probe that reported nothing.
    fn default() -> (r: MediaProbe)
        ensures
            r.container@.len() == 0,
            r.duration_us is None,
            r.bit_rate_bps is None,
            r.size_bytes is None,
            r.streams@.len() == 0,
    {
        MediaProbe {
            container: String::new(),
            duration_us: None,
            bit_rate_bps: None,
            size_bytes: None,
            streams: Vec::new(),
        }
    }
}

/// The streams of one kind, in container order.
pub open spec fn of_kind(streams: Seq<StreamInfo>, kind: StreamKind) -> Seq<StreamInfo> {
    streams.filter(|s: StreamInfo| s.kind == kind)
}

/// The first video stream.
pub open spec fn spec_primary_video(streams: Seq<StreamInfo>) -> Option<StreamInfo> {
    if of_kind(streams, StreamKind::Video).len() > 0 {
        Some(of_kind(streams, StreamKind::Video)[0])
    } else {
        None
    }
}

/// One more stream at the end.
pub proof fn lemma_of_kind_push(streams: Seq<StreamInfo>, s: StreamInfo, kind: StreamKind)
    ensures
        of_kind(streams.push(s), kind) == (if s.kind == kind {
            of_kind(streams, kind).push(s)
        } else {
            of_kind(streams, kind)
        }),
{
    reveal(Seq::filter);
    assert(streams.push(s).drop_last() =~= streams);
}

impl MediaProbe {
    /// Streams of a given kind, in container order.
    pub fn streams_of(&self, kind: StreamKind) -> (r: Vec<&StreamInfo>)
        ensures
            r@.len() == of_kind(self.streams@, kind).len(),
            forall|i: int| 0 <= i < r@.len() ==> *(#[trigger] r@[i]) == of_kind(self.streams@, kind)[i],
    {
        let mut r: Vec<&StreamInfo> = Vec::new();
        let mut i: usize = 0;
        proof {
            reveal(Seq::filter);
            assert(of_kind(self.streams@.take(0), kind) =~= Seq::empty());
        }
        while i < self.streams.len()
            invariant
                i <= self.streams@.len(),
                r@.len() == of_kind(self.streams@.take(i as int), kind).len(),
                forall|j: int|
                    0 <= j < r@.len() ==> *(#[trigger] r@[j]) == of_kind(
                        self.streams@.take(i as int),
                        kind,
                    )[j],
            decreases self.streams.len() - i,
        {
            proof {
                lemma_of_kind_push(self.streams@.take(i as int), self.streams@[i as int], kind);
                assert(self.streams@.take(i + 1) =~= self.streams@.take(i as int).push(
                    self.streams@[i as int],
                ));
            }
            if self.streams[i].kind == kind {
                r.push(&self.streams[i]);
            }
            i += 1;
        }
        assert(self.streams@.take(i as int) =~= self.streams@);
        r
    }

    /// The first video stream, which is the one policy reasons about.
    pub fn primary_video(&self) -> (r: Option<&StreamInfo>)
        ensures
            r is Some == spec_primary_video(self.streams@) is Some,
            r is Some ==> *r->0 == spec_primary_video(self.streams@)->0,
    {
        let v = self.streams_of(StreamKind::Video);
        if v.len() > 0 {
            Some(v[0])
        } else {
            None
        }
    }

    /// Count of audio streams.
    pub fn audio_count(&self) -> (r: usize)
        ensures
            r == of_kind(self.streams@, StreamKind::Audio).len(),
    {
        self.streams_of(StreamKind::Audio).len()
    }

    /// Count of subtitle streams.
    pub fn subtitle_count(&self) -> (r: usize)
        ensures
            r == of_kind(self.streams@, StreamKind::Subtitle).len(),
    {
        self.streams_of(StreamKind::Subtitle).len()
    }
}

/// The depth a reported sample size or, failing that, a pixel format means.
pub open spec fn spec_bit_depth(pix_fmt: Option<Seq<char>>, bits: Option<u8>) -> BitDepth {
    match bits {
        Some(b) => if b <= 8 {
            BitDepth::Eight
        } else if b <= 10 {
            BitDepth::Ten
        } else {
            BitDepth::Twelve
        },
        None => match pix_fmt {
            Some(p) => if text::has(p, "12"@) {
                BitDepth::Twelve
            } else if text::has(p, "10"@) || text::has(p, "p010"@) {
                BitDepth::Ten
            } else {
                BitDepth::Eight
            },
            None => BitDepth::Eight,
        },
    }
}

/// Interpret a pixel format and reported sample depth as a [`BitDepth`].
///
/// The reported depth wins; the pixel format is the fallback; an unknown format
/// resolves to 8-bit, so that no 8-bit source is ever treated as 10-bit.
pub fn bit_depth_of(pix_fmt: Option<&str>, bits_per_raw_sample: Option<u8>) -> (r: BitDepth)
    ensures
        r == spec_bit_depth(
            match pix_fmt {
                Some(p) => Some(p@),
                None => None,
            },
            bits_per_raw_sample,
        ),
{
    match bits_per_raw_sample {
        Some(b) => {
            if b <= 8 {
                return BitDepth::Eight;
            }
            if b <= 10 {
                return BitDepth::Ten;
            }
            return BitDepth::Twelve;
        },
        None => {},
    }
    match pix_fmt {
        Some(p) => {
            if text::contains(p, "12") {
                BitDepth::Twelve
            } else if text::contains(p, "10") || text::contains(p, "p010") {
                BitDepth::Ten
            } else {
                BitDepth::Eight
            }
        },
        None => BitDepth::Eight,
    }
}

// ----------------------------------------------------- as ffprobe says it --

/// One stream as ffprobe reports it, numbers still in strings.
#[derive(Debug, Clone, PartialEq)]
pub struct RawStream {
    /// Position within the container.
    pub index: u32,
    /// `video`, `audio`, `subtitle` or something else.
    pub codec_type: Option<String>,
    /// Codec name.
    pub codec_name: String,
    /// Codec profile.
    pub profile: Option<String>,
    /// Pixel format.
    pub pix_fmt: Option<String>,
    /// Width in pixels.
    pub width: Option<u32>,
    /// Height in pixels.
    pub height: Option<u32>,
    /// Sample depth, as digits.
    pub bits_per_raw_sample: Option<String>,
    /// Channel count.
    pub channels: Option<u16>,
    /// Channel layout.
    pub channel_layout: Option<String>,
    /// Bitrate, as digits.
    pub bit_rate: Option<String>,
    /// The `language` tag.
    pub language: Option<String>,
    /// The `title` tag.
    pub title: Option<String>,
    /// The `default` disposition flag.
    pub default_flag: u8,
    /// The `forced` disposition flag.
    pub forced_flag: u8,
}

/// A whole report as ffprobe gives it.
#[derive(Debug, Clone, PartialEq)]
pub struct RawProbe {
    /// Container format name(s).
    pub format_name: String,
    /// Duration, already in microseconds.
    pub duration_us: Option<u64>,
    /// Overall bitrate, as digits.
    pub bit_rate: Option<String>,
    /// Size in bytes, as digits.
    pub size: Option<String>,
    /// Every stream, in container order.
    pub streams: Vec<RawStream>,
}

/// The number an optional string spells, where it spells one up to `max`.
pub open spec fn spelled(s: Option<String>, max: nat) -> Option<nat> {
    match s {
        Some(t) => text::parsed_within(t@, max),
        None => None,
    }
}

/// Parse an optional number no larger than `max`.
pub fn parse_num(s: &Option<String>, max: u64) -> (r: Option<u64>)
    ensures
        r is Some == spelled(*s, max as nat) is Some,
        r is Some ==> r->0 == spelled(*s, max as nat)->0,
        r is Some ==> r->0 <= max,
{
    match s {
        Some(t) => text::parse_u64_within(t.as_str(), max),
        None => None,
    }
}

/// The kind a `codec_type` names.
pub open spec fn spec_kind(codec_type: Option<String>) -> StreamKind {
    match codec_type {
        Some(t) => if t@ == "video"@ {
            StreamKind::Video
        } else if t@ == "audio"@ {
            StreamKind::Audio
        } else if t@ == "subtitle"@ {
            StreamKind::Subtitle
        } else {
            StreamKind::Other
        },
        None => StreamKind::Other,
    }
}

fn kind_of(codec_type: &Option<String>) -> (r: StreamKind)
    ensures
        r == spec_kind(*codec_type),
{
    match codec_type {
        Some(t) => if text::same(t.as_str(), "video") {
            StreamKind::Video
        } else if text::same(t.as_str(), "audio") {
            StreamKind::Audio
        } else if text::same(t.as_str(), "subtitle") {
            StreamKind::Subtitle
        } else {
            StreamKind::Other
        },
        None => StreamKind::Other,
    }
}

/// A stream holds what the raw stream said.
pub open spec fn stream_of(raw: RawStream, s: StreamInfo) -> bool {
    &&& s.index == raw.index
    &&& s.kind == spec_kind(raw.codec_type)
    &&& s.codec == raw.codec_name
    &&& s.profile == raw.profile
    &&& s.pix_fmt == raw.pix_fmt
    &&& s.width == raw.width
    &&& s.height == raw.height
    &&& (s.bit_depth is Some == spelled(raw.bits_per_raw_sample, 255) is Some)
    &&& (s.bit_depth is Some ==> s.bit_depth->0 == spelled(raw.bits_per_raw_sample, 255)->0)
    &&& s.channels == raw.channels
    &&& s.channel_layout == raw.channel_layout
    &&& (s.bit_rate_bps is Some == spelled(raw.bit_rate, u64::MAX as nat) is Some)
    &&& (s.bit_rate_bps is Some ==> s.bit_rate_bps->0 == spelled(raw.bit_rate, u64::MAX as nat)->0)
    &&& s.language == raw.language
    &&& s.title == raw.title
    &&& s.is_default == (raw.default_flag == 1)
    &&& s.is_forced == (raw.forced_flag == 1)
}

fn typed_stream(raw: RawStream) -> (s: StreamInfo)
    ensures
        stream_of(raw, s),
{
    let kind = kind_of(&raw.codec_type);
    let bit_depth: Option<u8> = match parse_num(&raw.bits_per_raw_sample, 255) {
        Some(b) => Some(b as u8),
        None => None,
    };
    let bit_rate_bps: Option<u64> = parse_num(&raw.bit_rate, u64::MAX);
    StreamInfo {
        index: raw.index,
        kind,
        codec: raw.codec_name,
        profile: raw.profile,
        pix_fmt: raw.pix_fmt,
        width: raw.width,
        height: raw.height,
        bit_depth,
        channels: raw.channels,
        channel_layout: raw.channel_layout,
        bit_rate_bps,
        language: raw.language,
        title: raw.title,
        is_default: raw.default_flag == 1,
        is_forced: raw.forced_flag == 1,
    }
}

/// Turn a raw report into typed values.
///
/// A missing field is not an error, and neither is a number that does not
/// parse: either way the typed field is absent.
pub fn typed_probe(raw: RawProbe) -> (r: MediaProbe)
    ensures
        r.container == raw.format_name,
        r.duration_us == raw.duration_us,
        r.bit_rate_bps is Some == spelled(raw.bit_rate, u64::MAX as nat) is Some,
        r.bit_rate_bps is Some ==> r.bit_rate_bps->0 == spelled(raw.bit_rate, u64::MAX as nat)->0,
        r.size_bytes is Some == spelled(raw.size, u64::MAX as nat) is Some,
        r.size_bytes is Some ==> r.size_bytes->0 == spelled(raw.size, u64::MAX as nat)->0,
        r.streams@.len() == raw.streams@.len(),
        forall|i: int|
            0 <= i < raw.streams@.len() ==> stream_of(raw.streams@[i], #[trigger] r.streams@[i]),
{
    let bit_rate_bps: Option<u64> = parse_num(&raw.bit_rate, u64::MAX);
    let size_bytes: Option<u64> = parse_num(&raw.size, u64::MAX);
    let mut streams: Vec<StreamInfo> = Vec::new();
    let ghost all = raw.streams@;
    for s in it: raw.streams
        invariant
            it.seq() == all,
            streams@.len() == it.index(),
            forall|i: int| 0 <= i < streams@.len() ==> stream_of(all[i], #[trigger] streams@[i]),
    {
        streams.push(typed_stream(s));
    }
    MediaProbe {
        container: raw.format_name,
        duration_us: raw.duration_us,
        bit_rate_bps,
        size_bytes,
        streams,
    }
}


// ------------------------------------------------------------------- laws --

/// A stream is among the streams of its kind, and no other list loses it.
pub proof fn law_no_stream_is_lost(streams: Seq<StreamInfo>, kind: StreamKind, i: int) -> (j: int)
    requires
        0 <= i < streams.len(),
        streams[i].kind == kind,
    ensures
        0 <= j < of_kind(streams, kind).len(),
        of_kind(streams, kind)[j] == streams[i],
    decreases streams.len(),
{
    let head = streams.drop_last();
    lemma_of_kind_push(head, streams.last(), kind);
    assert(head.push(streams.last()) =~= streams);
    if i < head.len() {
        assert(head[i] == streams[i]);
        law_no_stream_is_lost(head, kind, i)
    } else {
        of_kind(head, kind).len() as int
    }
}

/// Every stream listed under a kind is a stream of the probe, and of that kind.
pub proof fn law_streams_come_from_the_probe(
    streams: Seq<StreamInfo>,
    kind: StreamKind,
    j: int,
) -> (i: int)
    requires
        0 <= j < of_kind(streams, kind).len(),
    ensures
        0 <= i < streams.len(),
        streams[i] == of_kind(streams, kind)[j],
        streams[i].kind == kind,
    decreases streams.len(),
{
    if streams.len() == 0 {
        reveal(Seq::filter);
        0
    } else {
        let head = streams.drop_last();
        lemma_of_kind_push(head, streams.last(), kind);
        assert(head.push(streams.last()) =~= streams);
        if j < of_kind(head, kind).len() {
            let i = law_streams_come_from_the_probe(head, kind, j);
            assert(head[i] == streams[i]);
            i
        } else {
            streams.len() - 1
        }
    }
}

/// The four kinds share the streams out: together they list every stream once.
pub proof fn law_kinds_share_the_streams_out(streams: Seq<StreamInfo>)
    ensures
        of_kind(streams, StreamKind::Video).len() + of_kind(streams, StreamKind::Audio).len()
            + of_kind(streams, StreamKind::Subtitle).len() + of_kind(
            streams,
            StreamKind::Other,
        ).len() == streams.len(),
    decreases streams.len(),
{
    if streams.len() == 0 {
        reveal(Seq::filter);
    } else {
        let head = streams.drop_last();
        let last = streams.last();
        law_kinds_share_the_streams_out(head);
        lemma_of_kind_push(head, last, StreamKind::Video);
        lemma_of_kind_push(head, last, StreamKind::Audio);
        lemma_of_kind_push(head, last, StreamKind::Subtitle);
        lemma_of_kind_push(head, last, StreamKind::Other);
        assert(head.push(last) =~= streams);
    }
}

/// A list of one kind is what is left when the other kinds are taken out.
pub proof fn law_of_kind_is_a_filter(streams: Seq<StreamInfo>)
    ensures
        of_kind(streams, StreamKind::Audio) == streams.filter(|s: StreamInfo| s.kind is Audio),
        of_kind(streams, StreamKind::Subtitle) == streams.filter(
            |s: StreamInfo| s.kind is Subtitle,
        ),
    decreases streams.len(),
{
    reveal(Seq::filter);
    if streams.len() > 0 {
        law_of_kind_is_a_filter(streams.drop_last());
    }
}

/// The primary video stream is the first stream of the probe that is video.
pub proof fn law_the_primary_video_is_the_first(streams: Seq<StreamInfo>, i: int)
    requires
        0 <= i <= streams.len(),
        forall|j: int| 0 <= j < i ==> !((#[trigger] streams[j]).kind is Video),
        i < streams.len() ==> streams[i].kind is Video,
    ensures
        i < streams.len() ==> spec_primary_video(streams) == Some(streams[i]),
        i == streams.len() ==> spec_primary_video(streams) is None,
    decreases streams.len(),
{
    if streams.len() == 0 {
        reveal(Seq::filter);
    } else {
        let head = streams.drop_last();
        lemma_of_kind_push(head, streams.last(), StreamKind::Video);
        assert(head.push(streams.last()) =~= streams);
        assert forall|j: int| 0 <= j < i && j < head.len() implies !((
        #[trigger] head[j]).kind is Video) by {
            assert(head[j] == streams[j]);
        }
        if i < head.len() {
            assert(head[i] == streams[i]);
            law_the_primary_video_is_the_first(head, i);
        } else {
            law_the_primary_video_is_the_first(head, head.len() as int);
            if i == streams.len() {
                assert(!(streams[streams.len() - 1].kind is Video));
            }
        }
    }
}

/// A reported sample size decides the depth whatever the pixel format says: up
/// to eight bits, up to ten, and more.
pub proof fn law_a_reported_size_decides(pix_fmt: Option<Seq<char>>, b: u8)
    ensures
        b <= 8 ==> spec_bit_depth(pix_fmt, Some(b)) is Eight,
        8 < b <= 10 ==> spec_bit_depth(pix_fmt, Some(b)) is Ten,
        b > 10 ==> spec_bit_depth(pix_fmt, Some(b)) is Twelve,
        spec_bit_depth(None, None) is Eight,
{
}

/// Where no sample size is reported, a pixel format that contains `12` means
/// twelve bits, one that contains `10` ten, and any other eight.
pub proof fn law_what_a_pixel_format_means(p: Seq<char>)
    ensures
        text::has(p, "12"@) ==> spec_bit_depth(Some(p), None) is Twelve,
        !text::has(p, "12"@) && text::has(p, "10"@) ==> spec_bit_depth(Some(p), None) is Ten,
        !text::has(p, "12"@) && !text::has(p, "10"@) ==> spec_bit_depth(Some(p), None) is Eight,
{
    if text::has(p, "p010"@) {
        reveal_strlit("p010");
        reveal_strlit("10");
        let i = choose|i: int| text::occurs_at(p, "p010"@, i);
        assert(p.subrange(i + 2, i + 4) =~= p.subrange(i, i + 4).subrange(2, 4));
        assert("p010"@.subrange(2, 4) =~= "10"@);
        assert(text::occurs_at(p, "10"@, i + 2));
    }
}

/// What `codec_type` names a stream's kind, and nothing else is video, audio or
/// a subtitle.
pub proof fn law_the_codec_type_names_the_kind(codec_type: Option<String>)
    ensures
        spec_kind(codec_type) is Video <==> (codec_type matches Some(t) && t@ == "video"@),
        spec_kind(codec_type) is Audio <==> (codec_type matches Some(t) && t@ == "audio"@),
        spec_kind(codec_type) is Subtitle <==> (codec_type matches Some(t) && t@ == "subtitle"@),
{
    reveal_strlit("video");
    reveal_strlit("audio");
    reveal_strlit("subtitle");
    assert("video"@[0] != "audio"@[0]);
    assert("video"@.len() != "subtitle"@.len() && "audio"@.len() != "subtitle"@.len());
}

/// A typed stream keeps every field of the report it was made of: the texts and
/// sizes as they are, a number where the text spells one, and a flag where the
/// number is one.
pub proof fn law_a_stream_is_as_reported(raw: RawStream, s: StreamInfo)
    requires
        stream_of(raw, s),
    ensures
        s.index == raw.index,
        s.codec == raw.codec_name,
        s.profile == raw.profile,
        s.pix_fmt == raw.pix_fmt,
        s.width == raw.width && s.height == raw.height,
        s.channels == raw.channels && s.channel_layout == raw.channel_layout,
        s.language == raw.language && s.title == raw.title,
        s.is_default <==> raw.default_flag == 1,
        s.is_forced <==> raw.forced_flag == 1,
        raw.bits_per_raw_sample is None ==> s.bit_depth is None,
        raw.bits_per_raw_sample matches Some(t) ==> match text::parsed_within(t@, 255) {
            Some(n) => s.bit_depth matches Some(b) && b == n,
            None => s.bit_depth is None,
        },
        raw.bit_rate is None ==> s.bit_rate_bps is None,
        raw.bit_rate matches Some(t) ==> match text::parsed_within(t@, u64::MAX as nat) {
            Some(n) => s.bit_rate_bps matches Some(b) && b == n,
            None => s.bit_rate_bps is None,
        },
{
}

} // verus!
