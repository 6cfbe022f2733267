//! The synthetic clips the trial decodes run against.
//!
//! Each clip is generated on the spot. Profile strings are ffprobe's own text,
//! because a decode triple is matched by exact equality. Encoders are tried in
//! order, because the first choice is often absent, and a generated clip is
//! checked before it is trusted, because not every encoder honours the profile
//! it was asked for.
use vstd::prelude::*;

use crate::capability::{DecoderKind, DecoderTriple};
use crate::pairs;
use crate::paths;
use crate::plan::BitDepth;
use crate::survey;
use crate::survey::lists_name;
use crate::text;

verus! {

/// Frames in each generated clip: enough that a partial decode shows as a short
/// count, and few enough that every trial together takes seconds.
pub const TRIAL_SAMPLE_FRAMES: u64 = 10;

/// Below this, a file in the sample directory is treated as absent: an
/// interrupted encode leaves a header and nothing else.
pub const MIN_SAMPLE_BYTES: u64 = 1024;

// ------------------------------------------------------------------- clips --

/// A clip we want on disk, and the exact stream it must contain.
#[derive(Debug, Clone, Copy, PartialEq, Eq)]
pub struct SampleSpec {
    /// ffmpeg codec name, as ffprobe reports it.
    pub codec: &'static str,
    /// ffprobe's own profile text, exactly.
    pub profile: &'static str,
    /// Bit depth of the coded stream.
    pub bit_depth: BitDepth,
    /// Pixel format to encode into.
    pub pix_fmt: &'static str,
    /// The profile argument, where the encoder needs one to comply.
    pub profile_arg: Option<&'static str>,
}

/// The contents of a [`SampleSpec`].
pub struct Clip {
    /// Codec name.
    pub codec: Seq<char>,
    /// Profile text.
    pub profile: Seq<char>,
    /// Bit depth.
    pub bit_depth: BitDepth,
    /// Pixel format.
    pub pix_fmt: Seq<char>,
    /// Profile argument.
    pub profile_arg: Option<Seq<char>>,
}

impl View for SampleSpec {
    type V = Clip;

    open spec fn view(&self) -> Clip {
        Clip {
            codec: self.codec@,
            profile: self.profile@,
            bit_depth: self.bit_depth,
            pix_fmt: self.pix_fmt@,
            profile_arg: match self.profile_arg {
                Some(a) => Some(a@),
                None => None,
            },
        }
    }
}

/// A profile's character in a file name: letters small, anything else a dash.
pub open spec fn slug_char(c: char) -> char {
    if text::is_alphanumeric(c) {
        text::ascii_lower_char(c)
    } else {
        '-'
    }
}

/// A profile in a file name.
pub open spec fn slugged(profile: Seq<char>) -> Seq<char> {
    profile.map_values(|c: char| slug_char(c))
}

impl Clip {
    /// The name of the clip's file, derived from what it describes.
    pub open spec fn slug(self) -> Seq<char> {
        self.codec + "_"@ + slugged(self.profile) + "_"@ + text::dec(self.bit_depth.spec_bits() as nat)
    }

    /// Whether two clips are trialled in software under one key.
    pub open spec fn shares_key(self, other: Clip) -> bool {
        self.codec == other.codec && self.bit_depth == other.bit_depth
    }
}

fn slug_profile(profile: &str) -> (r: String)
    ensures
        r@ == slugged(profile@),
{
    let v = text::to_chars(profile);
    let mut kept: Vec<char> = Vec::new();
    let mut i: usize = 0;
    while i < v.len()
        invariant
            i <= v.len(),
            v@ == profile@,
            kept@ == slugged(profile@.take(i as int)),
        decreases v.len() - i,
    {
        let c: char = v[i];
        if text::alphanumeric(c) {
            kept.push(text::lower_char(c));
        } else {
            kept.push('-');
        }
        i += 1;
        assert(kept@ =~= slugged(profile@.take(i as int)));
    }
    assert(profile@.take(i as int) =~= profile@);
    text::from_chars(kept.as_slice())
}

impl SampleSpec {
    /// A filesystem-safe name for this clip. `High 4:2:2` becomes `high-4-2-2`.
    pub fn slug(&self) -> (r: String)
        ensures
            r@ == self@.slug(),
    {
        let mut s = text::cat3(self.codec, "_", slug_profile(self.profile).as_str());
        s.append("_");
        text::push_u64(&mut s, self.bit_depth.bits() as u64);
        s
    }

    /// The hardware-decode triple this clip answers for.
    pub fn nvdec_triple(&self) -> (r: DecoderTriple)
        ensures
            is_nvdec(r, self@),
    {
        DecoderTriple {
            codec: self.codec.to_owned(),
            profile: self.profile.to_owned(),
            bit_depth: self.bit_depth,
            kind: DecoderKind::Nvdec,
        }
    }

    /// The software-decode triple this clip answers for. It has no profile:
    /// ffmpeg either has a software decoder or it does not.
    pub fn software_triple(&self) -> (r: DecoderTriple)
        ensures
            is_software(r, self@),
    {
        DecoderTriple {
            codec: self.codec.to_owned(),
            profile: String::new(),
            bit_depth: self.bit_depth,
            kind: DecoderKind::Software,
        }
    }
}

/// The hardware-decode triple of a clip.
pub open spec fn is_nvdec(t: DecoderTriple, c: Clip) -> bool {
    &&& t.codec@ == c.codec
    &&& t.profile@ == c.profile
    &&& t.bit_depth == c.bit_depth
    &&& t.kind is Nvdec
}

/// The software-decode triple of a clip.
pub open spec fn is_software(t: DecoderTriple, c: Clip) -> bool {
    &&& t.codec@ == c.codec
    &&& t.profile@.len() == 0
    &&& t.bit_depth == c.bit_depth
    &&& t.kind is Software
}

/// The clips worth generating, most representative first: the canonical profile
/// of each codec and depth comes before the exotic ones.
pub open spec fn candidates() -> Seq<Clip> {
    seq![
        Clip {
            codec: "h264"@,
            profile: "High"@,
            bit_depth: BitDepth::Eight,
            pix_fmt: "yuv420p"@,
            profile_arg: Some("high"@),
        },
        Clip {
            codec: "h264"@,
            profile: "Main"@,
            bit_depth: BitDepth::Eight,
            pix_fmt: "yuv420p"@,
            profile_arg: Some("main"@),
        },
        Clip {
            codec: "h264"@,
            profile: "Constrained Baseline"@,
            bit_depth: BitDepth::Eight,
            pix_fmt: "yuv420p"@,
            profile_arg: Some("baseline"@),
        },
        Clip {
            codec: "h264"@,
            profile: "High 4:2:2"@,
            bit_depth: BitDepth::Eight,
            pix_fmt: "yuv422p"@,
            profile_arg: Some("high422"@),
        },
        Clip {
            codec: "h264"@,
            profile: "High 10"@,
            bit_depth: BitDepth::Ten,
            pix_fmt: "yuv420p10le"@,
            profile_arg: Some("high10"@),
        },
        Clip {
            codec: "hevc"@,
            profile: "Main"@,
            bit_depth: BitDepth::Eight,
            pix_fmt: "yuv420p"@,
            profile_arg: None,
        },
        Clip {
            codec: "hevc"@,
            profile: "Main 10"@,
            bit_depth: BitDepth::Ten,
            pix_fmt: "yuv420p10le"@,
            profile_arg: None,
        },
        Clip {
            codec: "av1"@,
            profile: "Main"@,
            bit_depth: BitDepth::Eight,
            pix_fmt: "yuv420p"@,
            profile_arg: None,
        },
        Clip {
            codec: "vp9"@,
            profile: "Profile 0"@,
            bit_depth: BitDepth::Eight,
            pix_fmt: "yuv420p"@,
            profile_arg: None,
        },
        Clip {
            codec: "mpeg2video"@,
            profile: "Main"@,
            bit_depth: BitDepth::Eight,
            pix_fmt: "yuv420p"@,
            profile_arg: None,
        },
    ]
}

/// What a list of specs describes.
pub open spec fn clips(v: Seq<SampleSpec>) -> Seq<Clip> {
    v.map_values(|s: SampleSpec| s@)
}

/// The clips worth generating, most representative first.
pub fn candidate_samples() -> (r: Vec<SampleSpec>)
    ensures
        clips(r@) == candidates(),
{
    let r: Vec<SampleSpec> = vec![
        SampleSpec {
            codec: "h264",
            profile: "High",
            bit_depth: BitDepth::Eight,
            pix_fmt: "yuv420p",
            profile_arg: Some("high"),
        },
        SampleSpec {
            codec: "h264",
            profile: "Main",
            bit_depth: BitDepth::Eight,
            pix_fmt: "yuv420p",
            profile_arg: Some("main"),
        },
        SampleSpec {
            codec: "h264",
            profile: "Constrained Baseline",
            bit_depth: BitDepth::Eight,
            pix_fmt: "yuv420p",
            profile_arg: Some("baseline"),
        },
        SampleSpec {
            codec: "h264",
            profile: "High 4:2:2",
            bit_depth: BitDepth::Eight,
            pix_fmt: "yuv422p",
            profile_arg: Some("high422"),
        },
        SampleSpec {
            codec: "h264",
            profile: "High 10",
            bit_depth: BitDepth::Ten,
            pix_fmt: "yuv420p10le",
            profile_arg: Some("high10"),
        },
        SampleSpec {
            codec: "hevc",
            profile: "Main",
            bit_depth: BitDepth::Eight,
            pix_fmt: "yuv420p",
            profile_arg: None,
        },
        SampleSpec {
            codec: "hevc",
            profile: "Main 10",
            bit_depth: BitDepth::Ten,
            pix_fmt: "yuv420p10le",
            profile_arg: None,
        },
        SampleSpec {
            codec: "av1",
            profile: "Main",
            bit_depth: BitDepth::Eight,
            pix_fmt: "yuv420p",
            profile_arg: None,
        },
        SampleSpec {
            codec: "vp9",
            profile: "Profile 0",
            bit_depth: BitDepth::Eight,
            pix_fmt: "yuv420p",
            profile_arg: None,
        },
        SampleSpec {
            codec: "mpeg2video",
            profile: "Main",
            bit_depth: BitDepth::Eight,
            pix_fmt: "yuv420p",
            profile_arg: None,
        },
    ];
    assert(clips(r@) =~= candidates());
    r
}

/// Encoders that can produce a codec, most faithful first.
pub open spec fn encoders(codec: Seq<char>) -> Seq<Seq<char>> {
    if codec == "h264"@ {
        seq!["libx264"@, "h264_nvenc"@, "libopenh264"@]
    } else if codec == "hevc"@ {
        seq!["libx265"@, "hevc_nvenc"@]
    } else if codec == "av1"@ {
        seq!["libsvtav1"@, "libaom-av1"@, "librav1e"@, "av1_nvenc"@]
    } else if codec == "vp9"@ {
        seq!["libvpx-vp9"@]
    } else if codec == "mpeg2video"@ {
        seq!["mpeg2video"@]
    } else {
        Seq::empty()
    }
}

/// What a list of names spells.
pub open spec fn spelled(v: Seq<&'static str>) -> Seq<Seq<char>> {
    v.map_values(|s: &'static str| s@)
}

/// Encoders that can produce this codec, most faithful first: most likely to
/// honour the profile and pixel format they are asked for.
pub fn encoders_for(codec: &str) -> (r: Vec<&'static str>)
    ensures
        spelled(r@) == encoders(codec@),
{
    let r: Vec<&'static str> = if text::same(codec, "h264") {
        vec!["libx264", "h264_nvenc", "libopenh264"]
    } else if text::same(codec, "hevc") {
        vec!["libx265", "hevc_nvenc"]
    } else if text::same(codec, "av1") {
        vec!["libsvtav1", "libaom-av1", "librav1e", "av1_nvenc"]
    } else if text::same(codec, "vp9") {
        vec!["libvpx-vp9"]
    } else if text::same(codec, "mpeg2video") {
        vec!["mpeg2video"]
    } else {
        Vec::new()
    };
    assert(spelled(r@) =~= encoders(codec@));
    r
}

/// The argv that generates a clip.
pub open spec fn sample_argv(c: Clip, encoder: Seq<char>, out: Seq<char>) -> Seq<Seq<char>> {
    seq![
        "-hide_banner"@,
        "-nostdin"@,
        "-y"@,
        "-f"@,
        "lavfi"@,
        "-i"@,
        "testsrc2=size=320x240:rate=10:duration=1"@,
        "-frames:v"@,
        text::dec(TRIAL_SAMPLE_FRAMES as nat),
        "-c:v"@,
        encoder,
    ] + (match c.profile_arg {
        Some(p) => seq!["-profile:v"@, p],
        None => Seq::empty(),
    }) + seq!["-pix_fmt"@, c.pix_fmt, out]
}

/// The argv that generates one clip.
pub fn encode_sample_argv(spec: &SampleSpec, encoder: &str, out: &str) -> (r: Vec<String>)
    ensures
        text::texts(r@) == sample_argv(spec@, encoder@, out@),
{
    let mut r: Vec<String> = Vec::new();
    text::push_text(&mut r, "-hide_banner");
    text::push_text(&mut r, "-nostdin");
    text::push_text(&mut r, "-y");
    text::push_text(&mut r, "-f");
    text::push_text(&mut r, "lavfi");
    text::push_text(&mut r, "-i");
    text::push_text(&mut r, "testsrc2=size=320x240:rate=10:duration=1");
    text::push_text(&mut r, "-frames:v");
    text::push_owned(&mut r, text::u64_text(TRIAL_SAMPLE_FRAMES));
    text::push_text(&mut r, "-c:v");
    text::push_text(&mut r, encoder);
    if let Some(p) = spec.profile_arg {
        text::push_text(&mut r, "-profile:v");
        text::push_text(&mut r, p);
    }
    text::push_text(&mut r, "-pix_fmt");
    text::push_text(&mut r, spec.pix_fmt);
    text::push_text(&mut r, out);
    assert(text::texts(r@) =~= sample_argv(spec@, encoder@, out@));
    r
}

// ---------------------------------------------------------- clips on disk --

/// The clips that exist, by the name of their spec.
#[derive(Debug)]
pub struct SampleSet {
    /// Name and path of each clip.
    pub entries: Vec<(String, String)>,
}

impl View for SampleSet {
    type V = Map<Seq<char>, Seq<char>>;

    open spec fn view(&self) -> Map<Seq<char>, Seq<char>> {
        pairs::as_map(self.entries@)
    }
}

impl SampleSet {
    /// Every clip has one entry.
    pub open spec fn wf(self) -> bool {
        pairs::distinct(self.entries@)
    }

    /// No clip exists yet.
    pub fn new() -> (r: SampleSet)
        ensures
            r.wf(),
            r@ == Map::<Seq<char>, Seq<char>>::empty(),
    {
        let r = SampleSet { entries: Vec::new() };
        assert(r@ =~= Map::<Seq<char>, Seq<char>>::empty());
        r
    }

    fn index_of(&self, slug: &str) -> (r: Option<usize>)
        requires
            self.wf(),
        ensures
            r matches Some(i) ==> i < self.entries@.len() && self.entries@[i as int].0@ == slug@
                && pairs::found(self.entries@, slug@) == Some(self.entries@[i as int].1@),
            r is None ==> pairs::found(self.entries@, slug@) is None,
    {
        let mut i: usize = 0;
        while i < self.entries.len()
            invariant
                self.wf(),
                i <= self.entries@.len(),
                forall|j: int| 0 <= j < i ==> (#[trigger] self.entries@[j]).0@ != slug@,
            decreases self.entries.len() - i,
        {
            if text::same(self.entries[i].0.as_str(), slug) {
                proof {
                    pairs::lemma_found_at(self.entries@, i as int);
                }
                return Some(i);
            }
            i += 1;
        }
        proof {
            pairs::lemma_found_index(self.entries@, slug@);
        }
        None
    }

    /// Record a clip, in place of one of the same name.
    pub fn insert(&mut self, slug: String, path: String)
        requires
            old(self).wf(),
        ensures
            final(self).wf(),
            final(self)@ == old(self)@.insert(slug@, path@),
    {
        let ghost before = self.entries@;
        let ghost e = (slug, path);
        match self.index_of(slug.as_str()) {
            Some(i) => {
                self.entries.set(i, (slug, path));
                proof {
                    assert(self.entries@ == before.update(i as int, e));
                    assert forall|k: Seq<char>|
                        pairs::found(self.entries@, k) == (if k == e.0@ {
                            Some(e.1@)
                        } else {
                            pairs::found(before, k)
                        }) by {
                        pairs::lemma_replaced(before, i as int, e, k);
                    }
                }
            },
            None => {
                self.entries.push((slug, path));
                proof {
                    assert(self.entries@.drop_last() =~= before);
                    assert forall|a: int, b: int| 0 <= a < b < self.entries@.len() implies (
                    #[trigger] self.entries@[a]).0@ != (#[trigger] self.entries@[b]).0@ by {
                        if b == before.len() && before[a].0@ == e.0@ {
                            pairs::lemma_found_index(before, e.0@);
                        }
                    }
                }
            },
        }
        assert(self@ =~= old(self)@.insert(e.0@, e.1@));
    }

    /// The clip for this spec, if one was produced.
    pub fn get(&self, spec: &SampleSpec) -> (r: Option<&str>)
        requires
            self.wf(),
        ensures
            r is Some == self@.contains_key(spec@.slug()),
            r matches Some(p) ==> p@ == self@[spec@.slug()],
    {
        match self.index_of(spec.slug().as_str()) {
            Some(i) => Some(self.entries[i].1.as_str()),
            None => None,
        }
    }

    /// How many clips are available.
    pub fn len(&self) -> (r: usize)
        requires
            self.wf(),
        ensures
            r == self@.dom().len(),
            self@.dom().finite(),
    {
        proof {
            pairs::lemma_set_len(self.entries@);
            assert(self@.dom() =~= Set::new(|k: Seq<char>| pairs::found(self.entries@, k) is Some));
        }
        self.entries.len()
    }

    /// Whether no clip could be produced at all.
    pub fn is_empty(&self) -> (r: bool)
        requires
            self.wf(),
        ensures
            r == (self@ == Map::<Seq<char>, Seq<char>>::empty()),
    {
        if self.entries.len() == 0 {
            assert(self@ =~= Map::<Seq<char>, Seq<char>>::empty());
            true
        } else {
            proof {
                assert(pairs::found(self.entries@, self.entries@.last().0@) is Some);
                assert(self@.contains_key(self.entries@.last().0@));
            }
            false
        }
    }
}

// ----------------------------------------------------------- what it holds --

/// Codec and profile as the lines of ffprobe's report give them so far.
pub open spec fn stream_said(lines: Seq<Seq<char>>) -> (Option<Seq<char>>, Option<Seq<char>>)
    decreases lines.len(),
{
    if lines.len() == 0 {
        (None, None)
    } else {
        let (codec, profile) = stream_said(lines.drop_last());
        match text::cut(lines.last(), '=') {
            Some((k, v)) => if k == "codec_name"@ {
                (Some(text::trimmed(v)), profile)
            } else if k == "profile"@ {
                (codec, Some(text::trimmed(v)))
            } else {
                (codec, profile)
            },
            None => (codec, profile),
        }
    }
}

/// The codec and profile ffprobe reports of a file's first video stream, where
/// it reports both.
pub open spec fn stream_of(report: Seq<char>) -> Option<(Seq<char>, Seq<char>)> {
    match stream_said(text::lines(report)) {
        (Some(c), Some(p)) => Some((c, p)),
        _ => None,
    }
}

/// The codec and profile in ffprobe's report on a file's first video stream.
pub fn probed_stream(report: &str) -> (r: Option<(String, String)>)
    ensures
        r is Some == stream_of(report@) is Some,
        r matches Some(s) ==> stream_of(report@) == Some((s.0@, s.1@)),
{
    let lines = text::split_lines(report);
    let ghost all = text::texts(lines@);
    let mut codec: Option<String> = None;
    let mut profile: Option<String> = None;
    let mut i: usize = 0;
    assert(all.take(0) =~= Seq::<Seq<char>>::empty());
    while i < lines.len()
        invariant
            i <= lines@.len(),
            all == text::texts(lines@),
            all == text::lines(report@),
            stream_said(all.take(i as int)) == (text::opt_text(codec), text::opt_text(profile)),
        decreases lines.len() - i,
    {
        assert(all.take(i + 1).drop_last() =~= all.take(i as int));
        assert(all.take(i + 1).last() == lines@[i as int]@);
        if let Some((k, v)) = text::split_once(lines[i].as_str(), '=') {
            if text::same(k.as_str(), "codec_name") {
                codec = Some(text::trim(v.as_str()));
            } else if text::same(k.as_str(), "profile") {
                profile = Some(text::trim(v.as_str()));
            }
        }
        i += 1;
    }
    assert(all.take(i as int) =~= all);
    match (codec, profile) {
        (Some(c), Some(p)) => Some((c, p)),
        _ => None,
    }
}

/// Whether a file is a real clip carrying exactly the stream its spec names.
/// `size` is `None` where there is no file, `report` where ffprobe failed.
pub open spec fn usable(size: Option<u64>, report: Option<Seq<char>>, c: Clip) -> bool {
    &&& size matches Some(n) && n >= MIN_SAMPLE_BYTES
    &&& report matches Some(r) && stream_of(r) == Some((c.codec, c.profile))
}

/// Whether a file is a real clip carrying exactly the stream `spec` names.
pub fn is_usable(size: Option<u64>, report: Option<&str>, spec: &SampleSpec) -> (r: bool)
    ensures
        report is None ==> !r,
        report matches Some(t) ==> r == usable(size, Some(t@), spec@),
{
    let big = match size {
        Some(n) => n >= MIN_SAMPLE_BYTES,
        None => false,
    };
    match report {
        Some(t) => match probed_stream(t) {
            Some((c, p)) => big && text::same(c.as_str(), spec.codec) && text::same(
                p.as_str(),
                spec.profile,
            ),
            None => false,
        },
        None => false,
    }
}

/// The arguments that make ffprobe report codec and profile of a file.
pub fn stream_args(path: &str) -> (r: Vec<String>)
    ensures
        text::texts(r@) == seq![
            "-v"@,
            "error"@,
            "-select_streams"@,
            "v:0"@,
            "-show_entries"@,
            "stream=codec_name,profile"@,
            "-of"@,
            "default=nw=1:nk=0"@,
            path@,
        ],
{
    let mut r: Vec<String> = Vec::new();
    text::push_text(&mut r, "-v");
    text::push_text(&mut r, "error");
    text::push_text(&mut r, "-select_streams");
    text::push_text(&mut r, "v:0");
    text::push_text(&mut r, "-show_entries");
    text::push_text(&mut r, "stream=codec_name,profile");
    text::push_text(&mut r, "-of");
    text::push_text(&mut r, "default=nw=1:nk=0");
    text::push_text(&mut r, path);
    assert(text::texts(r@) =~= seq![
        "-v"@,
        "error"@,
        "-select_streams"@,
        "v:0"@,
        "-show_entries"@,
        "stream=codec_name,profile"@,
        "-of"@,
        "default=nw=1:nk=0"@,
        path@,
    ]);
    r
}

// ------------------------------------------------------- producing the clips --

/// Where the making of the clips stands.
#[derive(Debug, Clone, Copy, PartialEq, Eq, Structural)]
pub enum SamplePhase {
    /// Finding out whether the clip is there already.
    Existing,
    /// Encoding it into a temporary file.
    Encoding,
    /// Finding out whether the temporary file is what was asked for.
    Checking,
    /// Moving the temporary file into place.
    Installing,
    /// Removing the temporary file of a failed try.
    Discarding,
    /// Every clip has had its turn.
    Done,
}

/// What to do next.
#[derive(Debug, Clone, PartialEq, Eq)]
pub enum SampleStep {
    /// Inspect a file: is it usable as this clip?
    Inspect(String),
    /// Run ffmpeg: did it succeed?
    Encode(Vec<String>),
    /// Rename the first path to the second: did it succeed?
    Rename(String, String),
    /// Remove a file; the answer does not matter.
    Remove(String),
    /// Nothing: the clips are as good as they get.
    Finished,
}

/// The position in the making of the clips, and the clips made so far.
pub struct RunModel {
    /// Which clip.
    pub at: int,
    /// Which of its encoders.
    pub encoder: int,
    /// What is going on with it.
    pub phase: SamplePhase,
    /// The clips made so far.
    pub clips: Map<Seq<char>, Seq<char>>,
}

/// The first encoder from `from` on that ffmpeg lists.
pub open spec fn next_listed(names: Seq<Seq<char>>, listing: Seq<char>, from: int) -> Option<int>
    decreases names.len() - from,
{
    if from < 0 || from >= names.len() {
        None
    } else if survey::listed(listing, names[from]) {
        Some(from)
    } else {
        next_listed(names, listing, from + 1)
    }
}

/// Where a finished clip goes.
pub open spec fn final_path(dir: Seq<char>, c: Clip) -> Seq<char> {
    paths::joined(dir, c.slug() + ".mkv"@)
}

/// Where a clip is written before it is trusted.
pub open spec fn temp_path(dir: Seq<char>, c: Clip) -> Seq<char> {
    paths::joined(dir, c.slug() + ".tmp.mkv"@)
}

/// On to the next clip.
pub open spec fn next_clip(m: RunModel) -> RunModel {
    RunModel {
        at: m.at + 1,
        encoder: 0,
        phase: if m.at + 1 < candidates().len() {
            SamplePhase::Existing
        } else {
            SamplePhase::Done
        },
        clips: m.clips,
    }
}

/// On to the next encoder that is there, or to the next clip.
pub open spec fn next_try(m: RunModel, listing: Seq<char>, from: int) -> RunModel {
    match next_listed(encoders(candidates()[m.at].codec), listing, from) {
        Some(e) => RunModel { encoder: e, phase: SamplePhase::Encoding, ..m },
        None => next_clip(m),
    }
}

/// The clip in hand is in place.
pub open spec fn with_clip(m: RunModel, dir: Seq<char>) -> RunModel {
    let c = candidates()[m.at];
    RunModel { clips: m.clips.insert(c.slug(), final_path(dir, c)), ..m }
}

/// How an answer moves the run.
pub open spec fn answered(m: RunModel, dir: Seq<char>, listing: Seq<char>, yes: bool) -> RunModel {
    match m.phase {
        SamplePhase::Existing => if yes {
            next_clip(with_clip(m, dir))
        } else {
            next_try(m, listing, 0)
        },
        SamplePhase::Encoding => RunModel {
            phase: if yes {
                SamplePhase::Checking
            } else {
                SamplePhase::Discarding
            },
            ..m
        },
        SamplePhase::Checking => RunModel {
            phase: if yes {
                SamplePhase::Installing
            } else {
                SamplePhase::Discarding
            },
            ..m
        },
        SamplePhase::Installing => if yes {
            next_clip(with_clip(m, dir))
        } else {
            RunModel { phase: SamplePhase::Discarding, ..m }
        },
        SamplePhase::Discarding => next_try(m, listing, m.encoder + 1),
        SamplePhase::Done => m,
    }
}

/// Makes the clips this ffmpeg can produce, reusing any already there.
///
/// Strict about what counts as there: a file is reused only if it is large
/// enough to be real and still carries the profile it was made for. A clip that
/// no available encoder can make is absent, never guessed at.
#[derive(Debug)]
pub struct SampleRun {
    /// The sample directory.
    pub dir: String,
    /// ffmpeg's listing of its encoders.
    pub listing: String,
    /// Which clip.
    pub at: usize,
    /// Which of its encoders.
    pub encoder: usize,
    /// What is going on with it.
    pub phase: SamplePhase,
    /// The clips made so far.
    pub set: SampleSet,
}

impl View for SampleRun {
    type V = RunModel;

    open spec fn view(&self) -> RunModel {
        RunModel {
            at: self.at as int,
            encoder: self.encoder as int,
            phase: self.phase,
            clips: self.set@,
        }
    }
}

impl SampleRun {
    /// The run points at a clip, and at one of its encoders while it tries one.
    pub open spec fn wf(self) -> bool {
        &&& self.set.wf()
        &&& !(self.phase is Done) ==> self.at < candidates().len()
        &&& !(self.phase is Done) && !(self.phase is Existing) ==> self.encoder < encoders(
            candidates()[self.at as int].codec,
        ).len()
    }

    /// Begin with the first clip.
    pub fn ensure(dir: &str, encoder_listing: &str) -> (r: SampleRun)
        ensures
            r.wf(),
            r.dir@ == dir@,
            r.listing@ == encoder_listing@,
            r@ == (RunModel {
                at: 0,
                encoder: 0,
                phase: SamplePhase::Existing,
                clips: Map::empty(),
            }),
    {
        SampleRun {
            dir: dir.to_owned(),
            listing: encoder_listing.to_owned(),
            at: 0,
            encoder: 0,
            phase: SamplePhase::Existing,
            set: SampleSet::new(),
        }
    }

    /// What to do next.
    pub fn step(&self) -> (r: SampleStep)
        requires
            self.wf(),
        ensures
            ({
                let c = candidates()[self.at as int];
                match self.phase {
                    SamplePhase::Existing => r matches SampleStep::Inspect(p) && p@ == final_path(
                        self.dir@,
                        c,
                    ),
                    SamplePhase::Encoding => r matches SampleStep::Encode(argv) && text::texts(
                        argv@,
                    ) == sample_argv(
                        c,
                        encoders(c.codec)[self.encoder as int],
                        temp_path(self.dir@, c),
                    ),
                    SamplePhase::Checking => r matches SampleStep::Inspect(p) && p@ == temp_path(
                        self.dir@,
                        c,
                    ),
                    SamplePhase::Installing => r matches SampleStep::Rename(a, b) && a@ == temp_path(
                        self.dir@,
                        c,
                    ) && b@ == final_path(self.dir@, c),
                    SamplePhase::Discarding => r matches SampleStep::Remove(p) && p@ == temp_path(
                        self.dir@,
                        c,
                    ),
                    SamplePhase::Done => r is Finished,
                }
            }),
    {
        if matches!(self.phase, SamplePhase::Done) {
            return SampleStep::Finished;
        }
        let all = candidate_samples();
        let spec = &all[self.at];
        assert(spec@ == candidates()[self.at as int]) by {
            assert(clips(all@)[self.at as int] == spec@);
        }
        let target = paths::join(
            self.dir.as_str(),
            text::cat2(spec.slug().as_str(), ".mkv").as_str(),
        );
        let temp = paths::join(
            self.dir.as_str(),
            text::cat2(spec.slug().as_str(), ".tmp.mkv").as_str(),
        );
        match self.phase {
            SamplePhase::Existing => SampleStep::Inspect(target),
            SamplePhase::Encoding => {
                let names = encoders_for(spec.codec);
                assert(spelled(names@)[self.encoder as int] == names@[self.encoder as int]@);
                SampleStep::Encode(encode_sample_argv(spec, names[self.encoder], temp.as_str()))
            },
            SamplePhase::Checking => SampleStep::Inspect(temp),
            SamplePhase::Installing => SampleStep::Rename(temp, target),
            SamplePhase::Discarding => SampleStep::Remove(temp),
            SamplePhase::Done => SampleStep::Finished,
        }
    }

    /// The clip in hand, while there is one.
    pub fn current(&self) -> (r: Option<SampleSpec>)
        requires
            self.wf(),
        ensures
            r is None == (self.phase is Done),
            r matches Some(s) ==> s@ == candidates()[self.at as int],
    {
        if matches!(self.phase, SamplePhase::Done) {
            return None;
        }
        let all = candidate_samples();
        assert(clips(all@)[self.at as int] == all@[self.at as int]@);
        Some(all[self.at])
    }

    fn go_on(&mut self)
        requires
            old(self).wf(),
            !(old(self).phase is Done),
        ensures
            final(self).wf(),
            final(self).dir == old(self).dir,
            final(self).listing == old(self).listing,
            final(self)@ == next_clip(old(self)@),
    {
        self.at = self.at + 1;
        self.encoder = 0;
        self.phase = if self.at < 10 {
            SamplePhase::Existing
        } else {
            SamplePhase::Done
        };
    }

    fn try_from(&mut self, from: usize)
        requires
            old(self).wf(),
            !(old(self).phase is Done),
            from <= encoders(candidates()[old(self).at as int].codec).len(),
        ensures
            final(self).wf(),
            final(self).dir == old(self).dir,
            final(self).listing == old(self).listing,
            final(self)@ == next_try(old(self)@, old(self).listing@, from as int),
    {
        let all = candidate_samples();
        let spec = all[self.at];
        assert(clips(all@)[self.at as int] == spec@);
        let names = encoders_for(spec.codec);
        let ghost said = spelled(names@);
        let ghost begun = *self;
        let mut e: usize = from;
        while e < names.len()
            invariant
                *self == begun,
                begun == *old(self),
                begun.wf(),
                !(begun.phase is Done),
                from <= e <= names@.len(),
                said == spelled(names@),
                said == encoders(candidates()[begun.at as int].codec),
                next_listed(said, begun.listing@, e as int) == next_listed(
                    said,
                    begun.listing@,
                    from as int,
                ),
            ensures
                *self == begun,
                e == names@.len(),
                next_listed(said, begun.listing@, from as int) is None,
            decreases names.len() - e,
        {
            assert(said[e as int] == names@[e as int]@);
            if lists_name(self.listing.as_str(), names[e]) {
                self.encoder = e;
                self.phase = SamplePhase::Encoding;
                return;
            }
            e += 1;
        }
        self.go_on();
    }

    fn keep(&mut self)
        requires
            old(self).wf(),
            !(old(self).phase is Done),
        ensures
            final(self).wf(),
            final(self).dir == old(self).dir,
            final(self).listing == old(self).listing,
            final(self)@ == next_clip(with_clip(old(self)@, old(self).dir@)),
    {
        let all = candidate_samples();
        let spec = all[self.at];
        assert(clips(all@)[self.at as int] == spec@);
        let slug = spec.slug();
        let target = paths::join(
            self.dir.as_str(),
            text::cat2(slug.as_str(), ".mkv").as_str(),
        );
        self.set.insert(slug, target);
        self.go_on();
    }

    /// Take in the answer to the last step.
    pub fn advance(&mut self, yes: bool)
        requires
            old(self).wf(),
        ensures
            final(self).wf(),
            final(self).dir == old(self).dir,
            final(self).listing == old(self).listing,
            final(self)@ == answered(old(self)@, old(self).dir@, old(self).listing@, yes),
    {
        match self.phase {
            SamplePhase::Existing => {
                if yes {
                    self.keep();
                } else {
                    self.try_from(0);
                }
            },
            SamplePhase::Encoding => {
                self.phase = if yes {
                    SamplePhase::Checking
                } else {
                    SamplePhase::Discarding
                };
            },
            SamplePhase::Checking => {
                self.phase = if yes {
                    SamplePhase::Installing
                } else {
                    SamplePhase::Discarding
                };
            },
            SamplePhase::Installing => {
                if yes {
                    self.keep();
                } else {
                    self.phase = SamplePhase::Discarding;
                }
            },
            SamplePhase::Discarding => {
                let next: usize = self.encoder + 1;
                self.try_from(next);
            },
            SamplePhase::Done => {},
        }
    }
}

/// A clip is only trusted after it was found usable: a run records nothing but
/// the clip in hand, and only where the file in place was usable or a freshly
/// checked one was moved there. A freshly made file is only moved after it was
/// found usable.
pub proof fn law_only_checked_clips_are_trusted(
    m: RunModel,
    dir: Seq<char>,
    listing: Seq<char>,
    yes: bool,
)
    requires
        0 <= m.at < candidates().len(),
    ensures
        answered(m, dir, listing, yes).clips != m.clips ==> {
            &&& yes
            &&& m.phase is Existing || m.phase is Installing
            &&& answered(m, dir, listing, yes).clips == m.clips.insert(
                candidates()[m.at].slug(),
                final_path(dir, candidates()[m.at]),
            )
        },
        answered(m, dir, listing, yes).phase is Installing ==> m.phase is Checking && yes,
        answered(m, dir, listing, yes).phase is Checking ==> m.phase is Encoding && yes,
{
}

// ----------------------------------------------------------------- trials --

/// The clip to trial a key on: the first listed one that exists.
pub open spec fn clip_for(have: Map<Seq<char>, Seq<char>>, all: Seq<Clip>, key: Clip) -> Option<
    Seq<char>,
>
    decreases all.len(),
{
    if all.len() == 0 {
        None
    } else if all[0].shares_key(key) && have.contains_key(all[0].slug()) {
        Some(have[all[0].slug()])
    } else {
        clip_for(have, all.skip(1), key)
    }
}

/// Whether no earlier clip has this one's codec and depth.
pub open spec fn first_of_its_key(all: Seq<Clip>, i: int) -> bool {
    forall|j: int| 0 <= j < i ==> !(#[trigger] all[j]).shares_key(all[i])
}

/// The software trials that the first `n` candidates call for: one per codec
/// and depth that has a clip, in the order of the candidates.
pub open spec fn software_trials(have: Map<Seq<char>, Seq<char>>, all: Seq<Clip>, n: int) -> Seq<
    (Clip, Seq<char>),
>
    decreases n,
{
    if n <= 0 {
        Seq::empty()
    } else {
        let earlier = software_trials(have, all, n - 1);
        match clip_for(have, all, all[n - 1]) {
            Some(p) => if first_of_its_key(all, n - 1) {
                earlier.push((all[n - 1], p))
            } else {
                earlier
            },
            None => earlier,
        }
    }
}

/// The hardware trials that the first `n` candidates call for: every clip.
pub open spec fn nvdec_trials(have: Map<Seq<char>, Seq<char>>, all: Seq<Clip>, n: int) -> Seq<
    (Clip, Seq<char>),
>
    decreases n,
{
    if n <= 0 {
        Seq::empty()
    } else if have.contains_key(all[n - 1].slug()) {
        nvdec_trials(have, all, n - 1).push((all[n - 1], have[all[n - 1].slug()]))
    } else {
        nvdec_trials(have, all, n - 1)
    }
}

fn clip_of_key(samples: &SampleSet, all: &Vec<SampleSpec>, key: &SampleSpec) -> (r: Option<String>)
    requires
        samples.wf(),
    ensures
        text::opt_text(r) == clip_for(samples@, clips(all@), key@),
{
    let ghost listed = clips(all@);
    let mut i: usize = 0;
    assert(listed.skip(0) =~= listed);
    while i < all.len()
        invariant
            samples.wf(),
            i <= all@.len(),
            listed == clips(all@),
            clip_for(samples@, listed.skip(i as int), key@) == clip_for(samples@, clips(all@), key@),
        decreases all.len() - i,
    {
        assert(listed.skip(i as int)[0] == all@[i as int]@);
        assert(listed.skip(i as int).skip(1) =~= listed.skip(i + 1));
        if text::same(all[i].codec, key.codec) && all[i].bit_depth == key.bit_depth {
            if let Some(p) = samples.get(&all[i]) {
                return Some(p.to_owned());
            }
        }
        i += 1;
    }
    None
}

fn is_first(all: &Vec<SampleSpec>, at: usize) -> (r: bool)
    requires
        at < all@.len(),
    ensures
        r == first_of_its_key(clips(all@), at as int),
{
    let ghost listed = clips(all@);
    let mut j: usize = 0;
    while j < at
        invariant
            j <= at < all@.len(),
            listed == clips(all@),
            forall|k: int| 0 <= k < j ==> !(#[trigger] listed[k]).shares_key(listed[at as int]),
        decreases at - j,
    {
        assert(listed[j as int] == all@[j as int]@);
        assert(listed[at as int] == all@[at as int]@);
        if text::same(all[j].codec, all[at].codec) && all[j].bit_depth == all[at].bit_depth {
            assert(listed[j as int].shares_key(listed[at as int]));
            return false;
        }
        j += 1;
    }
    true
}

/// The software-decode triples to trial, each with the clip to trial it on: one
/// per codec and depth, without a profile, on the first listed clip there is.
pub fn software_triples(samples: &SampleSet) -> (r: Vec<(DecoderTriple, String)>)
    requires
        samples.wf(),
    ensures
        ({
            let want = software_trials(samples@, candidates(), candidates().len() as int);
            &&& r@.len() == want.len()
            &&& forall|i: int|
                0 <= i < want.len() ==> is_software((#[trigger] r@[i]).0, want[i].0) && r@[i].1@
                    == want[i].1
        }),
{
    let all = candidate_samples();
    let ghost listed = clips(all@);
    let mut r: Vec<(DecoderTriple, String)> = Vec::new();
    let mut i: usize = 0;
    while i < all.len()
        invariant
            samples.wf(),
            i <= all@.len(),
            listed == clips(all@),
            r@.len() == software_trials(samples@, listed, i as int).len(),
            forall|k: int|
                0 <= k < r@.len() ==> is_software(
                    (#[trigger] r@[k]).0,
                    software_trials(samples@, listed, i as int)[k].0,
                ) && r@[k].1@ == software_trials(samples@, listed, i as int)[k].1,
        decreases all.len() - i,
    {
        assert(listed[i as int] == all@[i as int]@);
        if let Some(p) = clip_of_key(samples, &all, &all[i]) {
            if is_first(&all, i) {
                r.push((all[i].software_triple(), p));
            }
        }
        i += 1;
    }
    r
}

/// Whether a listing of accelerators has `cuda` on a line of its own.
pub open spec fn offers_cuda(lines: Seq<Seq<char>>) -> bool
    decreases lines.len(),
{
    lines.len() > 0 && (text::ascii_lower(text::trimmed(lines[0])) == "cuda"@ || offers_cuda(
        lines.skip(1),
    ))
}

fn has_cuda(listing: &str) -> (r: bool)
    ensures
        r == offers_cuda(text::lines(listing@)),
{
    let lines = text::split_lines(listing);
    let ghost all = text::texts(lines@);
    let mut i: usize = 0;
    assert(all.skip(0) =~= all);
    while i < lines.len()
        invariant
            i <= lines@.len(),
            all == text::texts(lines@),
            offers_cuda(all.skip(i as int)) == offers_cuda(text::lines(listing@)),
        decreases lines.len() - i,
    {
        assert(all.skip(i as int)[0] == lines@[i as int]@);
        assert(all.skip(i as int).skip(1) =~= all.skip(i + 1));
        let t = text::trim(lines[i].as_str());
        if text::same(text::to_ascii_lower(t.as_str()).as_str(), "cuda") {
            return true;
        }
        i += 1;
    }
    false
}

/// The hardware-decode triples to trial, each with the clip to trial it on.
/// None unless this ffmpeg offers `cuda`: without it every trial would decode
/// in software and report a verdict about the CPU.
pub fn nvdec_triples(samples: &SampleSet, hwaccel_listing: &str) -> (r: Vec<
    (DecoderTriple, String),
>)
    requires
        samples.wf(),
    ensures
        !offers_cuda(text::lines(hwaccel_listing@)) ==> r@.len() == 0,
        offers_cuda(text::lines(hwaccel_listing@)) ==> ({
            let want = nvdec_trials(samples@, candidates(), candidates().len() as int);
            &&& r@.len() == want.len()
            &&& forall|i: int|
                0 <= i < want.len() ==> is_nvdec((#[trigger] r@[i]).0, want[i].0) && r@[i].1@
                    == want[i].1
        }),
{
    let mut r: Vec<(DecoderTriple, String)> = Vec::new();
    if !has_cuda(hwaccel_listing) {
        return r;
    }
    let all = candidate_samples();
    let ghost listed = clips(all@);
    let mut i: usize = 0;
    while i < all.len()
        invariant
            samples.wf(),
            i <= all@.len(),
            listed == clips(all@),
            r@.len() == nvdec_trials(samples@, listed, i as int).len(),
            forall|k: int|
                0 <= k < r@.len() ==> is_nvdec(
                    (#[trigger] r@[k]).0,
                    nvdec_trials(samples@, listed, i as int)[k].0,
                ) && r@[k].1@ == nvdec_trials(samples@, listed, i as int)[k].1,
        decreases all.len() - i,
    {
        assert(listed[i as int] == all@[i as int]@);
        if let Some(p) = samples.get(&all[i]) {
            r.push((all[i].nvdec_triple(), p.to_owned()));
        }
        i += 1;
    }
    r
}

proof fn lemma_software_trials_order(
    have: Map<Seq<char>, Seq<char>>,
    all: Seq<Clip>,
    n: int,
    a: int,
    b: int,
)
    requires
        0 <= n <= all.len(),
        0 <= a < b < software_trials(have, all, n).len(),
    ensures
        exists|i: int|
            0 <= i < n && (#[trigger] all[i]) == software_trials(have, all, n)[b].0
                && first_of_its_key(all, i) && exists|j: int|
                0 <= j < i && (#[trigger] all[j]) == software_trials(have, all, n)[a].0,
    decreases n,
{
    let t = software_trials(have, all, n);
    let e = software_trials(have, all, n - 1);
    if b < e.len() {
        lemma_software_trials_order(have, all, n - 1, a, b);
        let i = choose|i: int|
            0 <= i < n - 1 && (#[trigger] all[i]) == e[b].0 && first_of_its_key(all, i)
                && exists|j: int| 0 <= j < i && (#[trigger] all[j]) == e[a].0;
        assert(all[i] == t[b].0);
    } else {
        lemma_software_trial_is_a_candidate(have, all, n - 1, a);
        let j = choose|j: int| 0 <= j < n - 1 && (#[trigger] all[j]) == e[a].0;
        assert(all[n - 1] == t[b].0);
        assert(all[j] == t[a].0);
    }
}

proof fn lemma_software_trial_is_a_candidate(
    have: Map<Seq<char>, Seq<char>>,
    all: Seq<Clip>,
    n: int,
    a: int,
)
    requires
        0 <= n <= all.len(),
        0 <= a < software_trials(have, all, n).len(),
    ensures
        exists|j: int| 0 <= j < n && (#[trigger] all[j]) == software_trials(have, all, n)[a].0,
    decreases n,
{
    let e = software_trials(have, all, n - 1);
    if a < e.len() {
        lemma_software_trial_is_a_candidate(have, all, n - 1, a);
        let j = choose|j: int| 0 <= j < n - 1 && (#[trigger] all[j]) == e[a].0;
        assert(all[j] == software_trials(have, all, n)[a].0);
    } else {
        assert(all[n - 1] == software_trials(have, all, n)[a].0);
    }
}

/// However many clips of a codec and depth exist, they are one software trial.
pub proof fn law_one_software_trial_per_codec_and_depth(
    have: Map<Seq<char>, Seq<char>>,
    a: int,
    b: int,
)
    requires
        0 <= a < b < software_trials(have, candidates(), candidates().len() as int).len(),
    ensures
        ({
            let t = software_trials(have, candidates(), candidates().len() as int);
            !t[a].0.shares_key(t[b].0)
        }),
{
    let all = candidates();
    lemma_software_trials_order(have, all, all.len() as int, a, b);
}

/// A clip is trusted where it is large enough and is what it claims to be: its
/// codec and its profile are the ones that were asked for.
pub proof fn law_which_clips_are_usable(size: Option<u64>, report: Option<Seq<char>>, c: Clip)
    ensures
        usable(size, report, c) ==> {
            &&& size matches Some(n) && n >= MIN_SAMPLE_BYTES
            &&& report matches Some(r) && stream_of(r) == Some((c.codec, c.profile))
        },
        size is None || report is None ==> !usable(size, report, c),
        size matches Some(n) ==> (report matches Some(r) ==> n >= MIN_SAMPLE_BYTES && stream_of(r)
            == Some((c.codec, c.profile)) ==> usable(size, report, c)),
{
}

/// A report says the codec after `codec_name=` and the profile after `profile=`,
/// the last of each; another line says neither.
pub proof fn law_what_a_stream_report_says(
    lines: Seq<Seq<char>>,
    line: Seq<char>,
    k: Seq<char>,
    v: Seq<char>,
)
    requires
        text::cut(line, '=') == Some((k, v)),
    ensures
        k == "codec_name"@ ==> stream_said(lines.push(line)).0 == Some(text::trimmed(v))
            && stream_said(lines.push(line)).1 == stream_said(lines).1,
        k == "profile"@ && k != "codec_name"@ ==> stream_said(lines.push(line)).1 == Some(
            text::trimmed(v),
        ) && stream_said(lines.push(line)).0 == stream_said(lines).0,
        k != "codec_name"@ && k != "profile"@ ==> stream_said(lines.push(line)) == stream_said(
            lines,
        ),
        stream_said(Seq::empty()) == (None::<Seq<char>>, None::<Seq<char>>),
{
    assert(lines.push(line).drop_last() =~= lines);
}

/// A clip is made by the encoder that is asked for, in its own pixel format, ten
/// frames of it, into the file that is named last.
pub proof fn law_how_a_clip_is_made(c: Clip, encoder: Seq<char>, out: Seq<char>)
    ensures
        ({
            let argv = sample_argv(c, encoder, out);
            let n = argv.len() as int;
            &&& argv[5] == "-i"@
            &&& argv[6] == "testsrc2=size=320x240:rate=10:duration=1"@
            &&& argv[7] == "-frames:v"@
            &&& argv[8] == text::dec(10)
            &&& argv[9] == "-c:v"@
            &&& argv[10] == encoder
            &&& c.profile_arg matches Some(p) ==> argv[11] == "-profile:v"@ && argv[12] == p && n
                == 16
            &&& c.profile_arg is None ==> n == 14
            &&& argv[n - 3] == "-pix_fmt"@
            &&& argv[n - 2] == c.pix_fmt
            &&& argv[n - 1] == out
        }),
{
}

/// A trial of NVDEC is of the clip's own path; one in software asks for no
/// profile.
pub proof fn law_what_a_trial_is_of(t: DecoderTriple, c: Clip)
    ensures
        is_nvdec(t, c) ==> t.codec@ == c.codec && t.profile@ == c.profile && t.bit_depth
            == c.bit_depth && t.kind is Nvdec,
        is_software(t, c) ==> t.codec@ == c.codec && t.profile@.len() == 0 && t.bit_depth
            == c.bit_depth && t.kind is Software,
{
}

/// NVDEC is tried where ffmpeg lists CUDA on a line of its own, in any case.
pub proof fn law_when_nvdec_is_tried(lines: Seq<Seq<char>>)
    ensures
        offers_cuda(lines) <==> exists|i: int|
            0 <= i < lines.len() && text::ascii_lower(text::trimmed(#[trigger] lines[i]))
                == "cuda"@,
    decreases lines.len(),
{
    if lines.len() > 0 {
        let rest = lines.skip(1);
        law_when_nvdec_is_tried(rest);
        if offers_cuda(rest) {
            let i = choose|i: int|
                0 <= i < rest.len() && text::ascii_lower(text::trimmed(#[trigger] rest[i]))
                    == "cuda"@;
            assert(lines[i + 1] == rest[i]);
        }
        if exists|i: int|
            0 <= i < lines.len() && text::ascii_lower(text::trimmed(#[trigger] lines[i]))
                == "cuda"@ {
            let i = choose|i: int|
                0 <= i < lines.len() && text::ascii_lower(text::trimmed(#[trigger] lines[i]))
                    == "cuda"@;
            if i > 0 {
                assert(rest[i - 1] == lines[i]);
            }
        }
    }
}

/// The encoder that is tried next is the first one listed from there on.
pub proof fn law_the_next_listed_encoder(names: Seq<Seq<char>>, listing: Seq<char>, from: int)
    requires
        0 <= from,
    ensures
        next_listed(names, listing, from) matches Some(e) ==> from <= e < names.len()
            && survey::listed(listing, names[e]) && forall|j: int|
            from <= j < e ==> !survey::listed(listing, #[trigger] names[j]),
        next_listed(names, listing, from) is None ==> forall|j: int|
            from <= j < names.len() ==> !survey::listed(listing, #[trigger] names[j]),
    decreases names.len() - from,
{
    if from < names.len() && !survey::listed(listing, names[from]) {
        law_the_next_listed_encoder(names, listing, from + 1);
    }
}

/// Every clip there is gets its NVDEC trial, of its own file, in order.
pub proof fn law_every_clip_gets_its_trial(
    have: Map<Seq<char>, Seq<char>>,
    all: Seq<Clip>,
    n: int,
)
    requires
        0 <= n < all.len(),
    ensures
        have.contains_key(all[n].slug()) ==> nvdec_trials(have, all, n + 1) == nvdec_trials(
            have,
            all,
            n,
        ).push((all[n], have[all[n].slug()])),
        !have.contains_key(all[n].slug()) ==> nvdec_trials(have, all, n + 1) == nvdec_trials(
            have,
            all,
            n,
        ),
        nvdec_trials(have, all, 0).len() == 0,
{
}

/// A software trial decodes a clip of its own codec and depth, the first there
/// is.
pub proof fn law_which_clip_a_software_trial_decodes(
    have: Map<Seq<char>, Seq<char>>,
    all: Seq<Clip>,
    key: Clip,
    i: int,
)
    requires
        0 <= i <= all.len(),
        forall|j: int|
            0 <= j < i ==> !((#[trigger] all[j]).codec == key.codec && all[j].bit_depth
                == key.bit_depth && have.contains_key(all[j].slug())),
        i < all.len() ==> all[i].codec == key.codec && all[i].bit_depth == key.bit_depth
            && have.contains_key(all[i].slug()),
    ensures
        i < all.len() ==> clip_for(have, all, key) == Some(have[all[i].slug()]),
        i == all.len() ==> clip_for(have, all, key) is None,
    decreases all.len(),
{
    if all.len() > 0 && i > 0 {
        let rest = all.skip(1);
        assert(!(all[0].codec == key.codec && all[0].bit_depth == key.bit_depth
            && have.contains_key(all[0].slug())));
        assert forall|j: int| 0 <= j < i - 1 implies !((#[trigger] rest[j]).codec == key.codec
            && rest[j].bit_depth == key.bit_depth && have.contains_key(rest[j].slug())) by {
            assert(rest[j] == all[j + 1]);
        }
        if i < all.len() {
            assert(rest[i - 1] == all[i]);
        }
        law_which_clip_a_software_trial_decodes(have, rest, key, i - 1);
    }
}

/// What each answer leads to. An encode that failed, a clip that is not what it
/// should be and a rename that failed are discarded, and the next encoder is
/// tried; a clip that was there or was installed is kept, and the next clip is
/// looked for.
pub proof fn law_what_each_answer_leads_to(
    m: RunModel,
    dir: Seq<char>,
    listing: Seq<char>,
    yes: bool,
)
    requires
        0 <= m.at < candidates().len(),
    ensures
        ({
            let a = answered(m, dir, listing, yes);
            let c = candidates()[m.at];
            &&& m.phase is Encoding ==> a.at == m.at && a.encoder == m.encoder && a.clips == m.clips
                && (yes <==> a.phase is Checking) && (!yes <==> a.phase is Discarding)
            &&& m.phase is Checking ==> a.at == m.at && a.encoder == m.encoder && a.clips == m.clips
                && (yes <==> a.phase is Installing) && (!yes <==> a.phase is Discarding)
            &&& m.phase is Installing && !yes ==> a.at == m.at && a.phase is Discarding
            &&& (m.phase is Installing || m.phase is Existing) && yes ==> a.at == m.at + 1
                && a.clips == m.clips.insert(c.slug(), final_path(dir, c))
            &&& m.phase is Existing && !yes || m.phase is Discarding ==> {
                let from: int = if m.phase is Existing {
                    0
                } else {
                    m.encoder + 1
                };
                match next_listed(encoders(c.codec), listing, from) {
                    Some(e) => a.at == m.at && a.encoder == e && a.phase is Encoding && a.clips
                        == m.clips,
                    None => a.at == m.at + 1 && a.clips == m.clips,
                }
            }
            &&& m.phase is Done ==> a == m
        }),
{
}

/// Which encoders can make a clip of a codec, the preferred one first.
pub proof fn law_which_encoders_make_a_clip(codec: Seq<char>)
    ensures
        codec == "h264"@ ==> encoders(codec) == seq!["libx264"@, "h264_nvenc"@, "libopenh264"@],
        codec == "hevc"@ && codec != "h264"@ ==> encoders(codec) == seq![
            "libx265"@,
            "hevc_nvenc"@,
        ],
        codec != "h264"@ && codec != "hevc"@ && codec != "av1"@ && codec != "vp9"@ && codec
            != "mpeg2video"@ ==> encoders(codec).len() == 0,
{
}

/// A clip's file is named after its codec, its profile and its depth, and a clip
/// that is being made never has the name of one that is done.
pub proof fn law_how_a_clip_is_named(dir: Seq<char>, c: Clip)
    ensures
        final_path(dir, c) == paths::joined(
            dir,
            c.codec + "_"@ + slugged(c.profile) + "_"@ + text::dec(
                c.bit_depth.spec_bits() as nat,
            ) + ".mkv"@,
        ),
        temp_path(dir, c) == paths::joined(
            dir,
            c.codec + "_"@ + slugged(c.profile) + "_"@ + text::dec(
                c.bit_depth.spec_bits() as nat,
            ) + ".tmp.mkv"@,
        ),
        forall|i: int|
            0 <= i < c.profile.len() ==> {
                let p = c.profile[i];
                let s = #[trigger] slugged(c.profile)[i];
                &&& text::is_alphanumeric(p) ==> s == text::ascii_lower_char(p)
                &&& !text::is_alphanumeric(p) ==> s == '-'
            },
{
}

/// A clip that is asked for has the depth its pixel format holds.
pub proof fn law_clips_have_the_depth_they_claim(i: int)
    requires
        0 <= i < candidates().len(),
    ensures
        candidates()[i].bit_depth is Eight ==> candidates()[i].pix_fmt == "yuv420p"@
            || candidates()[i].pix_fmt == "yuv422p"@,
        candidates()[i].bit_depth is Ten ==> candidates()[i].pix_fmt == "yuv420p10le"@,
        !(candidates()[i].bit_depth is Twelve),
        encoders(candidates()[i].codec).len() > 0,
{
    let c = candidates();
    assert(i == 0 || i == 1 || i == 2 || i == 3 || i == 4 || i == 5 || i == 6 || i == 7 || i == 8
        || i == 9);
    reveal_strlit("h264");
    reveal_strlit("hevc");
    reveal_strlit("av1");
    reveal_strlit("vp9");
    reveal_strlit("mpeg2video");
}

/// What is tried: H.264 in five profiles, HEVC in two depths, and AV1, VP9 and
/// MPEG-2 once each.
pub proof fn law_which_clips_are_tried()
    ensures
        candidates().len() == 10,
        forall|i: int| 0 <= i < 5 ==> (#[trigger] candidates()[i]).codec == "h264"@,
        candidates()[0].profile == "High"@ && candidates()[0].profile_arg == Some("high"@),
        candidates()[1].profile == "Main"@ && candidates()[1].profile_arg == Some("main"@),
        candidates()[2].profile == "Constrained Baseline"@ && candidates()[2].profile_arg == Some(
            "baseline"@,
        ),
        candidates()[3].profile == "High 4:2:2"@ && candidates()[3].profile_arg == Some(
            "high422"@,
        ),
        candidates()[4].profile == "High 10"@ && candidates()[4].profile_arg == Some("high10"@),
        candidates()[5].codec == "hevc"@ && candidates()[5].profile == "Main"@
            && candidates()[5].bit_depth is Eight,
        candidates()[6].codec == "hevc"@ && candidates()[6].profile == "Main 10"@
            && candidates()[6].bit_depth is Ten,
        candidates()[7].codec == "av1"@ && candidates()[7].profile == "Main"@,
        candidates()[8].codec == "vp9"@ && candidates()[8].profile == "Profile 0"@,
        candidates()[9].codec == "mpeg2video"@ && candidates()[9].profile == "Main"@,
{
}

} // verus!
