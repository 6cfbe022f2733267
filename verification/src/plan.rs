//! Encoder identities, pixel formats, and ffmpeg argv construction.
//!
//! `build_ffmpeg_argv_raw` is the single source of the command line: a preview
//! and the real execution both come from it.
use vstd::prelude::*;

use crate::capability::{Platform, TransportMode};
use crate::paths;
use crate::text;

verus! {

/// An encoder that can be planned for.
#[derive(Debug, Clone, Copy, PartialEq, Eq, Hash, Structural)]
#[non_exhaustive]
pub enum EncoderId {
    /// NVENC HEVC, hardware.
    HevcNvenc,
    /// x265, software HEVC.
    Libx265,
    /// x264, software AVC.
    Libx264,
    /// Dolby Digital Plus.
    Eac3,
    /// Dolby Digital.
    Ac3,
    /// Advanced Audio Coding.
    Aac,
    /// Stream copy: remux without re-encoding.
    Copy,
}

impl EncoderId {
    /// The ffmpeg codec name.
    pub open spec fn ffmpeg(self) -> Seq<char> {
        match self {
            EncoderId::HevcNvenc => "hevc_nvenc"@,
            EncoderId::Libx265 => "libx265"@,
            EncoderId::Libx264 => "libx264"@,
            EncoderId::Eac3 => "eac3"@,
            EncoderId::Ac3 => "ac3"@,
            EncoderId::Aac => "aac"@,
            EncoderId::Copy => "copy"@,
        }
    }

    /// The ffmpeg codec name this encoder is invoked as.
    pub fn as_ffmpeg(self) -> (r: &'static str)
        ensures
            r@ == self.ffmpeg(),
            self is HevcNvenc ==> r@ == "hevc_nvenc"@,
            self is Libx265 ==> r@ == "libx265"@,
            self is Libx264 ==> r@ == "libx264"@,
            self is Eac3 ==> r@ == "eac3"@,
            self is Ac3 ==> r@ == "ac3"@,
            self is Aac ==> r@ == "aac"@,
            self is Copy ==> r@ == "copy"@,
    {
        match self {
            EncoderId::HevcNvenc => "hevc_nvenc",
            EncoderId::Libx265 => "libx265",
            EncoderId::Libx264 => "libx264",
            EncoderId::Eac3 => "eac3",
            EncoderId::Ac3 => "ac3",
            EncoderId::Aac => "aac",
            EncoderId::Copy => "copy",
        }
    }

    /// The variant's own name.
    pub open spec fn name(self) -> Seq<char> {
        match self {
            EncoderId::HevcNvenc => "HevcNvenc"@,
            EncoderId::Libx265 => "Libx265"@,
            EncoderId::Libx264 => "Libx264"@,
            EncoderId::Eac3 => "Eac3"@,
            EncoderId::Ac3 => "Ac3"@,
            EncoderId::Aac => "Aac"@,
            EncoderId::Copy => "Copy"@,
        }
    }

    /// The variant's own name, as documents spell it.
    pub fn variant_name(self) -> (r: &'static str)
        ensures
            r@ == self.name(),
            self is HevcNvenc ==> r@ == "HevcNvenc"@,
            self is Libx265 ==> r@ == "Libx265"@,
            self is Libx264 ==> r@ == "Libx264"@,
            self is Eac3 ==> r@ == "Eac3"@,
            self is Ac3 ==> r@ == "Ac3"@,
            self is Aac ==> r@ == "Aac"@,
            self is Copy ==> r@ == "Copy"@,
    {
        match self {
            EncoderId::HevcNvenc => "HevcNvenc",
            EncoderId::Libx265 => "Libx265",
            EncoderId::Libx264 => "Libx264",
            EncoderId::Eac3 => "Eac3",
            EncoderId::Ac3 => "Ac3",
            EncoderId::Aac => "Aac",
            EncoderId::Copy => "Copy",
        }
    }

    /// The encoders that produce a video stream.
    pub open spec fn makes_video(self) -> bool {
        self is HevcNvenc || self is Libx265 || self is Libx264
    }

    /// Whether this encoder produces a video stream. Audio encoders and `Copy`
    /// have no pixel format.
    pub fn is_video(self) -> (r: bool)
        ensures
            r == self.makes_video(),
    {
        matches!(self, EncoderId::HevcNvenc | EncoderId::Libx265 | EncoderId::Libx264)
    }
}

/// Source or target bit depth.
#[derive(Debug, Clone, Copy, PartialEq, Eq, Hash, Structural)]
#[non_exhaustive]
pub enum BitDepth {
    /// 8-bit.
    Eight,
    /// 10-bit.
    Ten,
    /// 12-bit.
    Twelve,
}

impl BitDepth {
    /// Bits per sample.
    pub open spec fn spec_bits(self) -> u8 {
        match self {
            BitDepth::Eight => 8,
            BitDepth::Ten => 10,
            BitDepth::Twelve => 12,
        }
    }

    /// Bits per sample, which is how the depth is stored.
    pub fn bits(self) -> (r: u8)
        ensures
            r == self.spec_bits(),
    {
        match self {
            BitDepth::Eight => 8,
            BitDepth::Ten => 10,
            BitDepth::Twelve => 12,
        }
    }

    /// Recover a depth from bits per sample. `None` for anything else.
    pub fn from_bits(bits: u8) -> (r: Option<Self>)
        ensures
            r is Some == (bits == 8 || bits == 10 || bits == 12),
            r is Some ==> r->0.spec_bits() == bits,
    {
        match bits {
            8 => Some(BitDepth::Eight),
            10 => Some(BitDepth::Ten),
            12 => Some(BitDepth::Twelve),
            _ => None,
        }
    }

    /// The variant's own name.
    pub open spec fn name(self) -> Seq<char> {
        match self {
            BitDepth::Eight => "Eight"@,
            BitDepth::Ten => "Ten"@,
            BitDepth::Twelve => "Twelve"@,
        }
    }

    /// The variant's own name, as documents spell it.
    pub fn variant_name(self) -> (r: &'static str)
        ensures
            r@ == self.name(),
            self is Eight ==> r@ == "Eight"@,
            self is Ten ==> r@ == "Ten"@,
            self is Twelve ==> r@ == "Twelve"@,
    {
        match self {
            BitDepth::Eight => "Eight",
            BitDepth::Ten => "Ten",
            BitDepth::Twelve => "Twelve",
        }
    }
}

/// Encoder-specific pixel format.
#[derive(Debug, Clone, Copy, PartialEq, Eq, Hash, Structural)]
#[non_exhaustive]
pub enum PixFmt {
    /// 8-bit planar 4:2:0.
    Yuv420p,
    /// 10-bit planar 4:2:0, little-endian: what libx265 wants.
    Yuv420p10le,
    /// 10-bit semi-planar 4:2:0: what NVENC wants.
    P010le,
}

impl PixFmt {
    /// The `-pix_fmt` value.
    pub open spec fn ffmpeg(self) -> Seq<char> {
        match self {
            PixFmt::Yuv420p => "yuv420p"@,
            PixFmt::Yuv420p10le => "yuv420p10le"@,
            PixFmt::P010le => "p010le"@,
        }
    }

    /// The `-pix_fmt` value passed to ffmpeg.
    pub fn as_ffmpeg(self) -> (r: &'static str)
        ensures
            r@ == self.ffmpeg(),
            self is Yuv420p ==> r@ == "yuv420p"@,
            self is Yuv420p10le ==> r@ == "yuv420p10le"@,
            self is P010le ==> r@ == "p010le"@,
    {
        match self {
            PixFmt::Yuv420p => "yuv420p",
            PixFmt::Yuv420p10le => "yuv420p10le",
            PixFmt::P010le => "p010le",
        }
    }

    /// The depth a pixel format holds.
    pub open spec fn depth(self) -> BitDepth {
        match self {
            PixFmt::Yuv420p => BitDepth::Eight,
            PixFmt::Yuv420p10le => BitDepth::Ten,
            PixFmt::P010le => BitDepth::Ten,
        }
    }
}

/// The pixel format an encoder needs for a source depth.
pub open spec fn spec_pix_fmt_for(enc: EncoderId, depth: BitDepth) -> Option<PixFmt> {
    if !enc.makes_video() {
        None
    } else {
        match depth {
            BitDepth::Eight => Some(PixFmt::Yuv420p),
            BitDepth::Ten => if enc is HevcNvenc {
                Some(PixFmt::P010le)
            } else {
                Some(PixFmt::Yuv420p10le)
            },
            BitDepth::Twelve => None,
        }
    }
}

/// Select the pixel format an encoder needs for a given source bit depth.
///
/// `None` when none applies (audio encoders and `Copy`) or none is supported
/// (12-bit, which is declined rather than reduced).
pub fn pix_fmt_for(enc: EncoderId, depth: BitDepth) -> (r: Option<PixFmt>)
    ensures
        r == spec_pix_fmt_for(enc, depth),
{
    match (enc, depth) {
        (EncoderId::Libx265, BitDepth::Eight) => Some(PixFmt::Yuv420p),
        (EncoderId::Libx265, BitDepth::Ten) => Some(PixFmt::Yuv420p10le),
        (EncoderId::Libx265, BitDepth::Twelve) => None,
        (EncoderId::Libx264, BitDepth::Eight) => Some(PixFmt::Yuv420p),
        (EncoderId::Libx264, BitDepth::Ten) => Some(PixFmt::Yuv420p10le),
        (EncoderId::Libx264, BitDepth::Twelve) => None,
        (EncoderId::HevcNvenc, BitDepth::Eight) => Some(PixFmt::Yuv420p),
        (EncoderId::HevcNvenc, BitDepth::Ten) => Some(PixFmt::P010le),
        (EncoderId::HevcNvenc, BitDepth::Twelve) => None,
        (EncoderId::Eac3, _) => None,
        (EncoderId::Ac3, _) => None,
        (EncoderId::Aac, _) => None,
        (EncoderId::Copy, _) => None,
    }
}

/// Input and output locations for one job, as the executing machine sees them.
#[derive(Debug, Clone, PartialEq, Eq)]
pub struct JobPaths {
    /// Source file to read.
    pub input: String,
    /// Destination file to write.
    pub output: String,
}

/// What the server knows about where one agent can reach files.
#[derive(Debug, Clone, Copy)]
pub struct AgentView<'a> {
    /// How this agent gets at the media.
    pub transport: TransportMode,
    /// Which separator its paths use. `None` is treated as the server's own.
    pub platform: Option<Platform>,
    /// Absolute path to the agent's work area, in the agent's namespace.
    pub workarea_path: &'a str,
}

/// The separator of the machine the server runs on.
pub const SERVER_SEPARATOR: char = '/';

/// The text without trailing separators of either kind.
pub open spec fn trim_separators(s: Seq<char>) -> Seq<char>
    decreases s.len(),
{
    if s.len() > 0 && (s.last() == '/' || s.last() == '\\') {
        trim_separators(s.drop_last())
    } else {
        s
    }
}

/// The separator a platform's paths use.
pub open spec fn separator_of(platform: Option<Platform>) -> char {
    match platform {
        Some(Platform::Windows) => '\\',
        Some(Platform::Linux) => '/',
        None => SERVER_SEPARATOR,
    }
}

/// A file name under an agent's work area.
pub open spec fn joined_for(view: AgentView<'_>, name: Seq<char>) -> Seq<char> {
    trim_separators(view.workarea_path@).push(separator_of(view.platform)) + name
}

/// Join a file name onto the agent's work area using that agent's separator.
fn join_for(view: &AgentView<'_>, name: &str) -> (r: String)
    ensures
        r@ == joined_for(*view, name@),
{
    let v = text::to_chars(view.workarea_path);
    let mut e: usize = v.len();
    assert(v@.take(e as int) =~= v@);
    while e > 0 && (v[e - 1] == '/' || v[e - 1] == '\\')
        invariant
            e <= v@.len(),
            trim_separators(v@.take(e as int)) == trim_separators(v@),
        decreases e,
    {
        assert(v@.take(e as int).drop_last() =~= v@.take(e - 1));
        e -= 1;
    }
    let mut r = text::slice_text(&v, 0, e);
    assert(r@ =~= v@.take(e as int));
    let sep = match view.platform {
        Some(Platform::Windows) => '\\',
        Some(Platform::Linux) => '/',
        None => SERVER_SEPARATOR,
    };
    r.push(sep);
    r.append(name);
    r
}

/// A character every filesystem here accepts in a name.
pub open spec fn is_name_char(c: char) -> bool {
    text::is_alphanumeric(c) || c == '-' || c == '_'
}

/// An identifier with every other character made `_`.
pub open spec fn sanitised(s: Seq<char>) -> Seq<char> {
    s.map_values(
        |c: char|
            if is_name_char(c) {
                c
            } else {
                '_'
            },
    )
}

/// Reduce an identifier to characters every filesystem here accepts.
pub fn sanitise_component(s: &str) -> (r: String)
    ensures
        r@ == sanitised(s@),
{
    let v = text::to_chars(s);
    let mut r = String::new();
    let mut i: usize = 0;
    while i < v.len()
        invariant
            i <= v@.len(),
            v@ == s@,
            r@ == sanitised(s@.take(i as int)),
        decreases v.len() - i,
    {
        let c = v[i];
        if text::alphanumeric(c) || c == '-' || c == '_' {
            r.push(c);
        } else {
            r.push('_');
        }
        i += 1;
        assert(r@ =~= sanitised(s@.take(i as int)));
    }
    assert(s@.take(i as int) =~= s@);
    r
}

/// The name of a staged file: the job, the attempt, what it is, and the
/// container of the source.
pub open spec fn staged_name(job_id: Seq<char>, attempt: int, role: Seq<char>, source: Seq<char>) -> Seq<
    char,
> {
    sanitised(job_id) + "."@ + text::dec_int(attempt) + role + (match paths::extension(source) {
        Some(e) => e,
        None => "mkv"@,
    })
}

/// Translate one job's locations into the paths a given agent will see.
///
/// A mount agent resolves the canonical path itself. A streaming agent cannot
/// open the library at all, so both ends are named inside its own work area.
pub fn agent_job_paths(
    view: &AgentView<'_>,
    job_id: &str,
    attempt: i64,
    canonical_source: &str,
    server_temp: &str,
) -> (r: JobPaths)
    ensures
        view.transport is Mount ==> r.input@ == canonical_source@ && r.output@ == server_temp@,
        view.transport is Stream ==> {
            &&& r.input@ == joined_for(
                *view,
                staged_name(job_id@, attempt as int, ".src."@, canonical_source@),
            )
            &&& r.output@ == joined_for(
                *view,
                staged_name(job_id@, attempt as int, ".partial."@, canonical_source@),
            )
        },
{
    if view.transport != TransportMode::Stream {
        return JobPaths { input: canonical_source.to_owned(), output: server_temp.to_owned() };
    }
    let ext = match paths::extension_of(canonical_source) {
        Some(e) => e,
        None => "mkv".to_owned(),
    };
    let mut stem = sanitise_component(job_id);
    stem.append(".");
    text::push_i64(&mut stem, attempt);
    let source = text::cat3(stem.as_str(), ".src.", ext.as_str());
    let partial = text::cat3(stem.as_str(), ".partial.", ext.as_str());
    JobPaths { input: join_for(view, source.as_str()), output: join_for(view, partial.as_str()) }
}

/// A fully-decided encode, ready to be turned into an ffmpeg command line.
#[derive(Debug, Clone, PartialEq, Eq)]
pub struct EncodePlan {
    /// Video codec, or `Copy` to remux the video stream untouched.
    pub video_codec: EncoderId,
    /// Audio codec, or `Copy` to remux audio untouched.
    pub audio_codec: EncoderId,
    /// Pixel format, when the video encoder needs one pinned.
    pub pix_fmt: Option<PixFmt>,
    /// Extra arguments appended after the standard set, so they win.
    pub extra_args: Vec<String>,
}

/// The arguments every encode begins with.
pub open spec fn standard_args(vcodec: Seq<char>, acodec: Seq<char>, input: Seq<char>) -> Seq<
    Seq<char>,
> {
    seq![
        "-hide_banner"@,
        "-y"@,
        "-i"@,
        input,
        "-map_metadata"@,
        "0"@,
        "-movflags"@,
        "use_metadata_tags"@,
        "-c:v"@,
        vcodec,
        "-c:a"@,
        acodec,
        "-c:s"@,
        "copy"@,
    ]
}

/// The argument that pins a pixel format.
pub open spec fn pix_fmt_args(pix_fmt: Option<PixFmt>) -> Seq<Seq<char>> {
    match pix_fmt {
        Some(pf) => seq!["-pix_fmt"@, pf.ffmpeg()],
        None => Seq::empty(),
    }
}

/// The whole argument vector.
pub open spec fn ffmpeg_argv(
    vcodec: Seq<char>,
    acodec: Seq<char>,
    pix_fmt: Option<PixFmt>,
    extra: Seq<Seq<char>>,
    input: Seq<char>,
    output: Seq<char>,
) -> Seq<Seq<char>> {
    (standard_args(vcodec, acodec, input) + pix_fmt_args(pix_fmt) + extra).push(output)
}

/// Build the ffmpeg argument vector for a plan.
pub fn build_ffmpeg_argv(plan: &EncodePlan, paths: &JobPaths) -> (r: Vec<String>)
    ensures
        text::texts(r@) == ffmpeg_argv(
            plan.video_codec.ffmpeg(),
            plan.audio_codec.ffmpeg(),
            plan.pix_fmt,
            text::texts(plan.extra_args@),
            paths.input@,
            paths.output@,
        ),
{
    build_ffmpeg_argv_raw(
        plan.video_codec.as_ffmpeg(),
        plan.audio_codec.as_ffmpeg(),
        plan.pix_fmt,
        plan.extra_args.as_slice(),
        paths,
    )
}

/// Assemble an ffmpeg argv from codec names given as plain strings.
///
/// The standard set preserves metadata and subtitle streams. `extra` comes
/// after it so a user override wins, and the output path always comes last.
pub fn build_ffmpeg_argv_raw(
    vcodec: &str,
    acodec: &str,
    pix_fmt: Option<PixFmt>,
    extra: &[String],
    paths: &JobPaths,
) -> (r: Vec<String>)
    ensures
        text::texts(r@) == ffmpeg_argv(
            vcodec@,
            acodec@,
            pix_fmt,
            text::texts(extra@),
            paths.input@,
            paths.output@,
        ),
        r@.len() == 15 + extra@.len() + (if pix_fmt is Some {
            2int
        } else {
            0int
        }),
        r@[2]@ == "-i"@ && r@[3]@ == paths.input@,
        r@[8]@ == "-c:v"@ && r@[9]@ == vcodec@,
        r@[10]@ == "-c:a"@ && r@[11]@ == acodec@,
        r@[r@.len() - 1]@ == paths.output@,
{
    let mut args: Vec<String> = Vec::new();
    text::push_text(&mut args, "-hide_banner");
    text::push_text(&mut args, "-y");
    text::push_text(&mut args, "-i");
    text::push_text(&mut args, paths.input.as_str());
    text::push_text(&mut args, "-map_metadata");
    text::push_text(&mut args, "0");
    text::push_text(&mut args, "-movflags");
    text::push_text(&mut args, "use_metadata_tags");
    text::push_text(&mut args, "-c:v");
    text::push_text(&mut args, vcodec);
    text::push_text(&mut args, "-c:a");
    text::push_text(&mut args, acodec);
    text::push_text(&mut args, "-c:s");
    text::push_text(&mut args, "copy");
    assert(text::texts(args@) =~= standard_args(vcodec@, acodec@, paths.input@));
    match pix_fmt {
        Some(pf) => {
            text::push_text(&mut args, "-pix_fmt");
            text::push_text(&mut args, pf.as_ffmpeg());
        },
        None => {},
    }
    assert(text::texts(args@) =~= standard_args(vcodec@, acodec@, paths.input@) + pix_fmt_args(
        pix_fmt,
    ));
    text::push_texts(&mut args, extra);
    text::push_text(&mut args, paths.output.as_str());
    proof {
        let all = text::texts(args@);
        assert(all.len() == args@.len());
        assert(all[2] == args@[2]@ && all[3] == args@[3]@ && all[8] == args@[8]@ && all[9]
            == args@[9]@ && all[10] == args@[10]@ && all[11] == args@[11]@);
        assert(all[all.len() - 1] == args@[args@.len() - 1]@);
    }
    args
}

/// A character a shell would not take literally in a bare word.
pub open spec fn needs_quoting(c: char) -> bool {
    text::is_space(c) || c == '\'' || c == '"' || c == '\\' || c == '$' || c == '`'
}

/// An argument that cannot stand bare.
pub open spec fn must_quote(arg: Seq<char>) -> bool {
    arg.len() == 0 || exists|i: int| 0 <= i < arg.len() && needs_quoting(#[trigger] arg[i])
}

/// The characters of an argument inside single quotes.
pub open spec fn quoted_chars(arg: Seq<char>) -> Seq<char>
    decreases arg.len(),
{
    if arg.len() == 0 {
        Seq::empty()
    } else if arg.last() == '\'' {
        quoted_chars(arg.drop_last()) + seq!['\'', '\\', '\'', '\'']
    } else {
        quoted_chars(arg.drop_last()).push(arg.last())
    }
}

/// An argument as it is pasted into a shell.
pub open spec fn shell_word(arg: Seq<char>) -> Seq<char> {
    if must_quote(arg) {
        seq!['\''] + quoted_chars(arg) + seq!['\'']
    } else {
        arg
    }
}

/// A command and its arguments as one line.
pub open spec fn shell_line(program: Seq<char>, args: Seq<Seq<char>>) -> Seq<char>
    decreases args.len(),
{
    if args.len() == 0 {
        program
    } else {
        shell_line(program, args.drop_last()).push(' ') + shell_word(args.last())
    }
}

fn push_shell_word(out: &mut String, arg: &str)
    ensures
        final(out)@ == old(out)@ + shell_word(arg@),
{
    let v = text::to_chars(arg);
    let mut quote: bool = v.len() == 0;
    let mut i: usize = 0;
    while i < v.len()
        invariant
            i <= v@.len(),
            v@ == arg@,
            quote == (v@.len() == 0 || exists|j: int| 0 <= j < i && needs_quoting(#[trigger] v@[j])),
        decreases v.len() - i,
    {
        let c = v[i];
        if text::space(c) || c == '\'' || c == '"' || c == '\\' || c == '$' || c == '`' {
            assert(needs_quoting(v@[i as int]));
            quote = true;
        }
        i += 1;
    }
    if !quote {
        out.append(arg);
        return ;
    }
    let ghost before = out@;
    out.push('\'');
    let mut k: usize = 0;
    while k < v.len()
        invariant
            k <= v@.len(),
            v@ == arg@,
            out@ == before.push('\'') + quoted_chars(arg@.take(k as int)),
        decreases v.len() - k,
    {
        let c = v[k];
        assert(arg@.take(k + 1).drop_last() =~= arg@.take(k as int));
        if c == '\'' {
            out.push('\'');
            out.push('\\');
            out.push('\'');
            out.push('\'');
        } else {
            out.push(c);
        }
        k += 1;
        assert(out@ =~= before.push('\'') + quoted_chars(arg@.take(k as int)));
    }
    assert(arg@.take(k as int) =~= arg@);
    out.push('\'');
    assert(out@ =~= before + shell_word(arg@));
}

/// Render an argv as a copy-pasteable shell command, quoting only what needs it.
pub fn format_command(program: &str, args: &[String]) -> (r: String)
    ensures
        r@ == shell_line(program@, text::texts(args@)),
{
    let mut out = program.to_owned();
    let mut i: usize = 0;
    while i < args.len()
        invariant
            i <= args@.len(),
            out@ == shell_line(program@, text::texts(args@.take(i as int))),
        decreases args.len() - i,
    {
        let ghost next = text::texts(args@.take(i + 1));
        assert(next.drop_last() =~= text::texts(args@.take(i as int)));
        assert(next.last() == args@[i as int]@);
        out.push(' ');
        push_shell_word(&mut out, args[i].as_str());
        i += 1;
    }
    assert(args@.take(i as int) =~= args@);
    out
}

// ------------------------------------------------------------------- laws --

/// A depth survives being stored as bits.
pub proof fn law_depths_round_trip(a: BitDepth, b: BitDepth)
    ensures
        a.spec_bits() == b.spec_bits() ==> a == b,
        a.spec_bits() == 8 || a.spec_bits() == 10 || a.spec_bits() == 12,
{
}

/// A chosen pixel format holds exactly the source's depth: it never raises it
/// and never lowers it.
pub proof fn law_depth_is_preserved(enc: EncoderId, depth: BitDepth)
    ensures
        spec_pix_fmt_for(enc, depth) matches Some(pf) ==> pf.depth() == depth,
        spec_pix_fmt_for(enc, depth) is Some ==> enc.makes_video(),
{
}

/// The output is the last argument, and every extra argument stands after the
/// whole standard set.
pub proof fn law_argv_order(
    vcodec: Seq<char>,
    acodec: Seq<char>,
    pix_fmt: Option<PixFmt>,
    extra: Seq<Seq<char>>,
    input: Seq<char>,
    output: Seq<char>,
)
    ensures
        ffmpeg_argv(vcodec, acodec, pix_fmt, extra, input, output).last() == output,
        ({
            let argv = ffmpeg_argv(vcodec, acodec, pix_fmt, extra, input, output);
            let n = argv.len() - 1 - extra.len();
            &&& n >= 14
            &&& argv.take(14) == standard_args(vcodec, acodec, input)
            &&& argv.subrange(n, argv.len() - 1) == extra
        }),
{
    let argv = ffmpeg_argv(vcodec, acodec, pix_fmt, extra, input, output);
    let n = argv.len() - 1 - extra.len();
    assert(argv.take(14) =~= standard_args(vcodec, acodec, input));
    assert(argv.subrange(n, argv.len() - 1) =~= extra);
}

/// Two attempts of one job are staged under different names.
pub proof fn law_attempts_are_staged_apart(
    job_id: Seq<char>,
    a: int,
    b: int,
    role: Seq<char>,
    source: Seq<char>,
)
    requires
        a != b,
        role.len() > 0,
        role[0] == '.',
    ensures
        staged_name(job_id, a, role, source) != staged_name(job_id, b, role, source),
{
    let p = sanitised(job_id) + "."@;
    let na = staged_name(job_id, a, role, source);
    let nb = staged_name(job_id, b, role, source);
    let da = text::dec_int(a);
    let db = text::dec_int(b);
    text::lemma_dec_int_shape(a);
    text::lemma_dec_int_shape(b);
    if na == nb {
        if da.len() < db.len() {
            assert(na[p.len() + da.len() as int] == '.');
            assert(nb[p.len() + da.len() as int] == db[da.len() as int]);
        } else if db.len() < da.len() {
            assert(nb[p.len() + db.len() as int] == '.');
            assert(na[p.len() + db.len() as int] == da[db.len() as int]);
        } else {
            assert(na.subrange(p.len() as int, (p.len() + da.len()) as int) =~= da);
            assert(nb.subrange(p.len() as int, (p.len() + db.len()) as int) =~= db);
            text::law_signed_spelling_is_unique(a, b);
        }
    }
}

proof fn lemma_sanitised_chars(s: Seq<char>)
    ensures
        sanitised(s).len() == s.len(),
        forall|i: int| 0 <= i < s.len() ==> is_name_char(#[trigger] sanitised(s)[i]),
{
}

/// Whatever the job is called, a staged file is one entry directly below the
/// work area of an agent that separates with `/`.
pub proof fn law_staged_files_stay_in_the_work_area(
    view: AgentView<'_>,
    job_id: Seq<char>,
    attempt: int,
    role: Seq<char>,
    source: Seq<char>,
)
    requires
        separator_of(view.platform) == '/',
        role == ".src."@ || role == ".partial."@,
    ensures
        paths::is_normal(staged_name(job_id, attempt, role, source)),
        paths::body(joined_for(view, staged_name(job_id, attempt, role, source))) == paths::body(
            trim_separators(view.workarea_path@),
        ).push(staged_name(job_id, attempt, role, source)),
{
    reveal_strlit(".");
    reveal_strlit(".src.");
    reveal_strlit(".partial.");
    reveal_strlit("mkv");
    let name = staged_name(job_id, attempt, role, source);
    let clean = sanitised(job_id);
    let digits = text::dec_int(attempt);
    let ext = match paths::extension(source) {
        Some(e) => e,
        None => "mkv"@,
    };
    lemma_sanitised_chars(job_id);
    text::lemma_dec_int_shape(attempt);
    assert(!ext.contains('/')) by {
        paths::lemma_extension_has_no_separator(source);
    }
    assert(!name.contains('/')) by {
        if name.contains('/') {
            let j = choose|j: int| 0 <= j < name.len() && name[j] == '/';
            let n1 = clean.len() + 1;
            let n2 = n1 + digits.len();
            let n3 = n2 + role.len();
            if j < clean.len() {
                assert(is_name_char(clean[j]));
            } else if j < n1 {
            } else if j < n2 {
                assert(name[j] == digits[j - n1]);
            } else if j < n3 {
                assert(name[j] == role[j - n2]);
            } else {
                assert(name[j] == ext[j - n3]);
                assert(ext.contains('/'));
            }
        }
    }
    assert(name.len() > 4);
    paths::lemma_body_single(name);
    paths::lemma_body_concat(trim_separators(view.workarea_path@), name);
    let whole = paths::body(joined_for(view, name));
    assert(whole =~= paths::body(trim_separators(view.workarea_path@)).push(name));
}

/// How a shell reads a character: literally outside quotes, literally inside
/// them, or literally once.
pub enum Quoting {
    /// Outside quotes.
    Bare,
    /// Between single quotes.
    Quoted,
    /// After a backslash.
    Escaped,
}

/// A command line as far as it has been read.
pub struct Reading {
    /// The words that are complete.
    pub words: Seq<Seq<char>>,
    /// The word being read, where one has begun.
    pub word: Option<Seq<char>>,
    /// How the next character is read.
    pub quoting: Quoting,
}

impl Reading {
    /// The characters of the word being read.
    pub open spec fn begun(self) -> Seq<char> {
        match self.word {
            Some(w) => w,
            None => Seq::empty(),
        }
    }

    /// One character further. A blank outside quotes ends a word, a single
    /// quote begins and ends a quotation, and a backslash outside one takes
    /// the next character literally.
    pub open spec fn reads(self, c: char) -> Reading {
        match self.quoting {
            Quoting::Quoted => if c == '\'' {
                Reading { quoting: Quoting::Bare, ..self }
            } else {
                Reading { word: Some(self.begun().push(c)), ..self }
            },
            Quoting::Escaped => Reading {
                word: Some(self.begun().push(c)),
                quoting: Quoting::Bare,
                ..self
            },
            Quoting::Bare => if text::is_space(c) {
                match self.word {
                    Some(w) => Reading { words: self.words.push(w), word: None, ..self },
                    None => self,
                }
            } else if c == '\'' {
                Reading { word: Some(self.begun()), quoting: Quoting::Quoted, ..self }
            } else if c == '\\' {
                Reading { word: Some(self.begun()), quoting: Quoting::Escaped, ..self }
            } else {
                Reading { word: Some(self.begun().push(c)), ..self }
            },
        }
    }

    /// A text further.
    pub open spec fn reads_all(self, s: Seq<char>) -> Reading
        decreases s.len(),
    {
        if s.len() == 0 {
            self
        } else {
            self.reads_all(s.drop_last()).reads(s.last())
        }
    }
}

/// The words of a command line.
pub open spec fn shell_words(line: Seq<char>) -> Seq<Seq<char>> {
    let r = (Reading { words: Seq::empty(), word: None, quoting: Quoting::Bare }).reads_all(line);
    match r.word {
        Some(w) => r.words.push(w),
        None => r.words,
    }
}

proof fn lemma_reads_on(r: Reading, a: Seq<char>, b: Seq<char>)
    ensures
        r.reads_all(a + b) == r.reads_all(a).reads_all(b),
    decreases b.len(),
{
    if b.len() == 0 {
        assert(a + b =~= a);
    } else {
        assert((a + b).drop_last() =~= a + b.drop_last());
        lemma_reads_on(r, a, b.drop_last());
    }
}

proof fn lemma_reads_one(r: Reading, c: char)
    ensures
        r.reads_all(seq![c]) == r.reads(c),
{
    assert(seq![c].drop_last() =~= Seq::<char>::empty());
    assert(r.reads_all(seq![c].drop_last()) == r);
}

proof fn lemma_reads_quoted(r: Reading, arg: Seq<char>)
    requires
        r.quoting is Quoted,
        r.word is Some,
    ensures
        r.reads_all(quoted_chars(arg)) == (Reading { word: Some(r.begun() + arg), ..r }),
    decreases arg.len(),
{
    if arg.len() == 0 {
        assert(r.begun() + arg =~= r.begun());
    } else {
        let head = quoted_chars(arg.drop_last());
        lemma_reads_quoted(r, arg.drop_last());
        let m = r.reads_all(head);
        assert(m.begun().push(arg.last()) =~= r.begun() + arg);
        if arg.last() == '\'' {
            let q = seq!['\'', '\\', '\'', '\''];
            lemma_reads_on(r, head, q);
            assert(q.drop_last() =~= seq!['\'', '\\', '\'']);
            assert(q.drop_last().drop_last() =~= seq!['\'', '\\']);
            assert(q.drop_last().drop_last().drop_last() =~= seq!['\'']);
            lemma_reads_one(m, '\'');
            assert(m.reads_all(q.drop_last().drop_last()) == m.reads('\'').reads('\\'));
            assert(m.reads_all(q.drop_last()) == m.reads('\'').reads('\\').reads('\''));
            assert(m.reads_all(q) == m.reads('\'').reads('\\').reads('\'').reads('\''));
        } else {
            assert(quoted_chars(arg).drop_last() =~= head);
        }
    }
}

proof fn lemma_reads_bare(r: Reading, arg: Seq<char>)
    requires
        r.quoting is Bare,
        forall|i: int| 0 <= i < arg.len() ==> !needs_quoting(#[trigger] arg[i]),
    ensures
        r.reads_all(arg) == (if arg.len() == 0 {
            r
        } else {
            Reading { word: Some(r.begun() + arg), ..r }
        }),
    decreases arg.len(),
{
    if arg.len() > 0 {
        let head = arg.drop_last();
        assert forall|i: int| 0 <= i < head.len() implies !needs_quoting(#[trigger] head[i]) by {
            assert(head[i] == arg[i]);
        }
        lemma_reads_bare(r, head);
        assert(!needs_quoting(arg[arg.len() - 1]));
        assert((r.begun() + head).push(arg.last()) =~= r.begun() + arg);
        assert(r.begun().push(arg.last()) =~= r.begun() + seq![arg.last()]);
        if head.len() == 0 {
            assert(arg =~= seq![arg.last()]);
        }
    }
}

proof fn lemma_reads_word(r: Reading, arg: Seq<char>)
    requires
        r.quoting is Bare,
        r.word is None,
    ensures
        r.reads_all(shell_word(arg)) == (Reading { word: Some(arg), ..r }),
{
    assert(r.begun() + arg =~= arg);
    if must_quote(arg) {
        let open = seq!['\''];
        let m = r.reads('\'');
        lemma_reads_one(r, '\'');
        lemma_reads_on(r, open, quoted_chars(arg));
        lemma_reads_quoted(m, arg);
        assert(m.begun() + arg =~= arg);
        lemma_reads_on(r, open + quoted_chars(arg), open);
        lemma_reads_one(m.reads_all(quoted_chars(arg)), '\'');
    } else {
        assert forall|i: int| 0 <= i < arg.len() implies !needs_quoting(#[trigger] arg[i]) by {}
        lemma_reads_bare(r, arg);
    }
}

proof fn lemma_reads_line(program: Seq<char>, args: Seq<Seq<char>>)
    requires
        !must_quote(program),
    ensures
        ({
            let all = seq![program] + args;
            let r = (Reading {
                words: Seq::empty(),
                word: None,
                quoting: Quoting::Bare,
            }).reads_all(shell_line(program, args));
            &&& r.words == all.drop_last()
            &&& r.word == Some(all.last())
            &&& r.quoting is Bare
        }),
    decreases args.len(),
{
    let start = Reading { words: Seq::empty(), word: None, quoting: Quoting::Bare };
    let all = seq![program] + args;
    if args.len() == 0 {
        lemma_reads_word(start, program);
        assert(all.drop_last() =~= Seq::<Seq<char>>::empty());
    } else {
        let before = args.drop_last();
        let head = shell_line(program, before);
        lemma_reads_line(program, before);
        let m = start.reads_all(head);
        let so_far = seq![program] + before;
        assert(all.drop_last() =~= so_far);
        assert(so_far.drop_last().push(so_far.last()) =~= so_far);
        assert(head.push(' ') =~= head + seq![' ']);
        lemma_reads_on(start, head, seq![' ']);
        lemma_reads_one(m, ' ');
        let n = m.reads(' ');
        lemma_reads_on(start, head.push(' '), shell_word(args.last()));
        lemma_reads_word(n, args.last());
    }
}

/// A rendered command can be pasted: read the way a shell reads quotes,
/// backslashes and blanks, it is the program and its arguments again, whatever
/// quotes and blanks they hold. The program itself is written bare, so it must
/// be able to stand so. What else a shell gives a meaning to, such as `;` or
/// `*`, is not quoted, and is not read here.
pub proof fn law_a_command_reads_back(program: Seq<char>, args: Seq<Seq<char>>)
    requires
        !must_quote(program),
    ensures
        shell_words(shell_line(program, args)) == seq![program] + args,
{
    lemma_reads_line(program, args);
    let all = seq![program] + args;
    assert(all.drop_last().push(all.last()) =~= all);
}


/// What stands where in the argument vector: the input right after `-i`, the
/// video codec right after `-c:v`, the audio codec right after `-c:a`, the pixel
/// format right after `-pix_fmt` where one is pinned, then what the caller adds,
/// and the output at the end. Metadata and subtitles are copied.
pub proof fn law_every_argument_follows_its_flag(
    vcodec: Seq<char>,
    acodec: Seq<char>,
    pix_fmt: Option<PixFmt>,
    extra: Seq<Seq<char>>,
    input: Seq<char>,
    output: Seq<char>,
    k: int,
)
    ensures
        ({
            let argv = ffmpeg_argv(vcodec, acodec, pix_fmt, extra, input, output);
            let n: int = if pix_fmt is Some {
                16
            } else {
                14
            };
            &&& argv[0] == "-hide_banner"@
            &&& argv[1] == "-y"@
            &&& argv[2] == "-i"@
            &&& argv[3] == input
            &&& argv[4] == "-map_metadata"@
            &&& argv[5] == "0"@
            &&& argv[6] == "-movflags"@
            &&& argv[7] == "use_metadata_tags"@
            &&& argv[8] == "-c:v"@
            &&& argv[9] == vcodec
            &&& argv[10] == "-c:a"@
            &&& argv[11] == acodec
            &&& argv[12] == "-c:s"@
            &&& argv[13] == "copy"@
            &&& pix_fmt is Some ==> argv[14] == "-pix_fmt"@
            &&& pix_fmt == Some(PixFmt::Yuv420p) ==> argv[15] == "yuv420p"@
            &&& pix_fmt == Some(PixFmt::Yuv420p10le) ==> argv[15] == "yuv420p10le"@
            &&& pix_fmt == Some(PixFmt::P010le) ==> argv[15] == "p010le"@
            &&& argv.len() == n + extra.len() + 1
            &&& 0 <= k < extra.len() ==> argv[n + k] == extra[k]
            &&& argv[argv.len() - 1] == output
        }),
{
}

/// An encoder is called by the name ffmpeg knows it by.
pub proof fn law_encoders_are_called_by_name(e: EncoderId)
    ensures
        e is HevcNvenc ==> e.ffmpeg() == "hevc_nvenc"@ && e.name() == "HevcNvenc"@,
        e is Libx265 ==> e.ffmpeg() == "libx265"@ && e.name() == "Libx265"@,
        e is Libx264 ==> e.ffmpeg() == "libx264"@ && e.name() == "Libx264"@,
        e is Eac3 ==> e.ffmpeg() == "eac3"@ && e.name() == "Eac3"@,
        e is Ac3 ==> e.ffmpeg() == "ac3"@ && e.name() == "Ac3"@,
        e is Aac ==> e.ffmpeg() == "aac"@ && e.name() == "Aac"@,
        e is Copy ==> e.ffmpeg() == "copy"@ && e.name() == "Copy"@,
        e.makes_video() <==> !(e is Eac3 || e is Ac3 || e is Aac || e is Copy),
{
}

/// Every video encoder has a format for eight bits and for ten, NVENC its own
/// for ten; nothing has one for twelve, and what makes no video has none.
pub proof fn law_which_format_is_chosen(e: EncoderId, depth: BitDepth)
    ensures
        ({
            let video = e is HevcNvenc || e is Libx265 || e is Libx264;
            let chosen = spec_pix_fmt_for(e, depth);
            &&& video && depth is Eight ==> chosen == Some(PixFmt::Yuv420p)
            &&& depth is Ten && e is HevcNvenc ==> chosen == Some(PixFmt::P010le)
            &&& depth is Ten && (e is Libx265 || e is Libx264) ==> chosen == Some(
                PixFmt::Yuv420p10le,
            )
            &&& depth is Twelve || !video ==> chosen is None
        }),
{
}

/// The format that is chosen reads back as the depth it was chosen for: probed
/// again by its name, it means the same number of bits.
pub proof fn law_the_format_reads_back_as_its_depth(e: EncoderId, depth: BitDepth)
    ensures
        spec_pix_fmt_for(e, depth) matches Some(pf) ==> crate::probe::spec_bit_depth(
            Some(pf.ffmpeg()),
            None,
        ) == depth,
{
    reveal_strlit("yuv420p");
    reveal_strlit("yuv420p10le");
    reveal_strlit("p010le");
    reveal_strlit("12");
    reveal_strlit("10");
    crate::probe::law_what_a_pixel_format_means("yuv420p"@);
    crate::probe::law_what_a_pixel_format_means("yuv420p10le"@);
    crate::probe::law_what_a_pixel_format_means("p010le"@);
    assert forall|p: Seq<char>, q: Seq<char>, i: int| #[trigger]
        text::occurs_at(p, q, i) && q.len() == 2 implies p[i] == q[0] && p[i + 1] == q[1] && 0 <= i
        && i + 2 <= p.len() by {
        assert(p.subrange(i, i + 2)[0] == p[i]);
        assert(p.subrange(i, i + 2)[1] == p[i + 1]);
    }
    assert("yuv420p10le"@.subrange(7, 9) =~= "10"@);
    assert(text::occurs_at("yuv420p10le"@, "10"@, 7));
    assert("p010le"@.subrange(2, 4) =~= "10"@);
    assert(text::occurs_at("p010le"@, "10"@, 2));
    assert(!text::has("yuv420p"@, "12"@));
    assert(!text::has("yuv420p"@, "10"@));
    assert(!text::has("yuv420p10le"@, "12"@));
    assert(!text::has("p010le"@, "12"@));
}

/// What an agent reads and what it writes are staged under different names, and
/// both keep the container of the source, or are Matroska where it names none.
pub proof fn law_source_and_output_are_staged_apart(
    job_id: Seq<char>,
    attempt: int,
    source: Seq<char>,
)
    ensures
        staged_name(job_id, attempt, ".src."@, source) != staged_name(
            job_id,
            attempt,
            ".partial."@,
            source,
        ),
        ({
            let input = staged_name(job_id, attempt, ".src."@, source);
            let output = staged_name(job_id, attempt, ".partial."@, source);
            let ext = match paths::extension(source) {
                Some(e) => e,
                None => "mkv"@,
            };
            &&& input == sanitised(job_id) + "."@ + text::dec_int(attempt) + ".src."@ + ext
            &&& output == sanitised(job_id) + "."@ + text::dec_int(attempt) + ".partial."@ + ext
        }),
{
    reveal_strlit(".src.");
    reveal_strlit(".partial.");
    assert(".src."@.len() != ".partial."@.len());
    assert(staged_name(job_id, attempt, ".src."@, source).len() != staged_name(
        job_id,
        attempt,
        ".partial."@,
        source,
    ).len());
}

/// A name that is made safe keeps its letters, its digits, its dashes and its
/// underscores, and has an underscore for anything else.
pub proof fn law_what_makes_a_name_safe(s: Seq<char>, i: int)
    requires
        0 <= i < s.len(),
    ensures
        sanitised(s).len() == s.len(),
        'a' <= s[i] <= 'z' || 'A' <= s[i] <= 'Z' || '0' <= s[i] <= '9' || s[i] == '-' || s[i] == '_'
            ==> sanitised(s)[i] == s[i],
        !('a' <= s[i] <= 'z' || 'A' <= s[i] <= 'Z' || '0' <= s[i] <= '9' || s[i] == '-' || s[i]
            == '_') ==> sanitised(s)[i] == '_',
{
}

/// A staged file stands in the work area, after one separator of the agent's own
/// platform, however many the configured path ends in.
pub proof fn law_one_separator_is_enough(view: AgentView<'_>, name: Seq<char>)
    ensures
        view.platform == Some(Platform::Windows) ==> separator_of(view.platform) == '\\',
        view.platform == Some(Platform::Linux) ==> separator_of(view.platform) == '/',
        ({
            let dir = trim_separators(view.workarea_path@);
            &&& joined_for(view, name) == dir.push(separator_of(view.platform)) + name
            &&& dir.is_prefix_of(view.workarea_path@)
            &&& dir.len() > 0 ==> dir.last() != '/' && dir.last() != '\\'
        }),
{
    lemma_trim_separators(view.workarea_path@);
}

proof fn lemma_trim_separators(s: Seq<char>)
    ensures
        trim_separators(s).is_prefix_of(s),
        trim_separators(s).len() > 0 ==> trim_separators(s).last() != '/' && trim_separators(
            s,
        ).last() != '\\',
    decreases s.len(),
{
    if s.len() > 0 && (s.last() == '/' || s.last() == '\\') {
        lemma_trim_separators(s.drop_last());
    }
}

} // verus!
