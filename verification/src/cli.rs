//! What the command line decides: which command an argv means, which codecs and
//! paths a transcode uses, and what is printed.
use vstd::prelude::*;

use crate::double::Size;
use crate::error::CoreError;
use crate::job;
use crate::job::{JobClass, JobState};
use crate::paths;
use crate::pb;
use crate::pb::RenameProbeStatus;
use crate::plan;
use crate::plan::{EncoderId, JobPaths, build_ffmpeg_argv_raw, format_command};
use crate::preflight;
use crate::preflight::{PreflightReport, ProbeStatus};
use crate::preset;
use crate::survey;
use crate::survey::{MountSpec, SurveyConfig};
use crate::capability::TransportMode;
use crate::text;

verus! {

// ------------------------------------------------------------------- verbs --

/// Whether a word is a verb that may stand at the top level.
pub open spec fn is_legacy_verb(s: Seq<char>) -> bool {
    s == "info"@ || s == "transcode"@ || s == "batch"@
}

/// Rewrite `transcodarr <verb> ...` into `transcodarr local <verb> ...`. These
/// verbs are in muscle memory and in scripts.
pub fn rewrite_legacy_verbs(args: Vec<String>) -> (r: Vec<String>)
    ensures
        args@.len() > 1 && is_legacy_verb(args@[1]@) ==> text::texts(r@) == text::texts(
            args@,
        ).insert(1, "local"@),
        !(args@.len() > 1 && is_legacy_verb(args@[1]@)) ==> r == args,
{
    let mut args = args;
    if args.len() > 1 {
        let legacy = {
            let verb = args[1].as_str();
            text::same(verb, "info") || text::same(verb, "transcode") || text::same(verb, "batch")
        };
        if legacy {
            let ghost before = args@;
            args.insert(1, "local".to_owned());
            assert(text::texts(args@) =~= text::texts(before).insert(1, "local"@));
        }
    }
    args
}

/// The canonical spelling of a job class someone typed, as far as it is one.
pub open spec fn class_typed(raw: Seq<char>) -> Seq<char> {
    let s = text::ascii_lower(raw);
    if s == "audio"@ {
        "Audio"@
    } else if s == "videocpu"@ || s == "video-cpu"@ || s == "cpu"@ {
        "VideoCpu"@
    } else if s == "videogpu"@ || s == "video-gpu"@ || s == "gpu"@ {
        "VideoGpu"@
    } else if s == "probe"@ {
        "Probe"@
    } else if s == "verify"@ {
        "Verify"@
    } else {
        s
    }
}

/// Accept `audio`, `videocpu`, `VideoGpu` and so on: the canonical spellings
/// are not what anyone types at a shell.
pub fn normalise_class(raw: &str) -> (r: String)
    ensures
        r@ == class_typed(raw@),
{
    let s = text::to_ascii_lower(raw);
    let t = s.as_str();
    if text::same(t, "audio") {
        "Audio".to_owned()
    } else if text::same(t, "videocpu") || text::same(t, "video-cpu") || text::same(t, "cpu") {
        "VideoCpu".to_owned()
    } else if text::same(t, "videogpu") || text::same(t, "video-gpu") || text::same(t, "gpu") {
        "VideoGpu".to_owned()
    } else if text::same(t, "probe") {
        "Probe".to_owned()
    } else if text::same(t, "verify") {
        "Verify".to_owned()
    } else {
        s
    }
}

/// The job class asked for, if one was.
pub fn only_class(class: Option<&str>) -> (r: Result<Option<JobClass>, String>)
    ensures
        class is None ==> r == Ok::<Option<JobClass>, String>(None),
        class matches Some(raw) ==> match JobClass::spelled(class_typed(raw@)) {
            Some(c) => r == Ok::<Option<JobClass>, String>(Some(c)),
            None => r matches Err(e) && e@ == "unknown job class '"@ + raw@ + "'"@,
        },
{
    match class {
        None => Ok(None),
        Some(raw) => match JobClass::parse(normalise_class(raw).as_str()) {
            Some(c) => Ok(Some(c)),
            None => Err(text::cat3("unknown job class '", raw, "'")),
        },
    }
}

/// An explicitly empty token is a misconfiguration, not a decision to
/// authenticate with nothing.
pub fn check_token(token: &Option<String>, purpose: &str) -> (r: Result<(), String>)
    ensures
        r is Err == (token matches Some(t) && t@.len() == 0),
        r matches Err(e) ==> e@
            == "--token was set to an empty string; omit it entirely to "@ + purpose@
            + " without a token"@,
{
    if let Some(t) = token {
        if t.as_str().is_empty() {
            return Err(
                text::cat3(
                    "--token was set to an empty string; omit it entirely to ",
                    purpose,
                    " without a token",
                ),
            );
        }
    }
    Ok(())
}

// ------------------------------------------------------------------- local --

/// The codec used: the one named, or else the one of the plan.
pub open spec fn codec_name(explicit: Option<Seq<char>>, planned: EncoderId) -> Seq<char> {
    match explicit {
        Some(c) => c,
        None => planned.ffmpeg(),
    }
}

/// The preset a name stands for, if one was named.
pub open spec fn named_preset(preset_name: Option<Seq<char>>) -> Option<preset::PresetModel> {
    match preset_name {
        Some(n) => preset::found_in(preset::builtin_models(), n),
        None => None,
    }
}

/// An optional text.
pub open spec fn opt_str(s: Option<&str>) -> Option<Seq<char>> {
    match s {
        Some(t) => Some(t@),
        None => None,
    }
}

/// The video codec used.
pub open spec fn video_used(preset_name: Option<Seq<char>>, vcodec: Option<Seq<char>>, default: EncoderId) -> Seq<
    char,
> {
    codec_name(
        vcodec,
        match named_preset(preset_name) {
            Some(p) => p.video,
            None => default,
        },
    )
}

/// The audio codec used.
pub open spec fn audio_used(preset_name: Option<Seq<char>>, acodec: Option<Seq<char>>, default: EncoderId) -> Seq<
    char,
> {
    codec_name(
        acodec,
        match named_preset(preset_name) {
            Some(p) => p.audio,
            None => default,
        },
    )
}

/// The extra arguments used: those of the preset, and then the caller's.
pub open spec fn extra_used(preset_name: Option<Seq<char>>, extra: Seq<Seq<char>>) -> Seq<Seq<char>> {
    (match named_preset(preset_name) {
        Some(p) => p.args,
        None => Seq::empty(),
    }) + extra
}

/// Whether a preset was named that does not exist.
pub open spec fn preset_unknown(preset_name: Option<Seq<char>>) -> bool {
    preset_name is Some && named_preset(preset_name) is None
}

/// The error of a preset that does not exist.
pub open spec fn refuses_preset(e: CoreError, preset_name: Option<Seq<char>>) -> bool {
    e matches CoreError::UnknownPreset { name, valid } && Some(name@) == preset_name && valid@
        == preset::all_names()
}

/// Resolve codec choices, honouring preset and then explicit override. Codecs
/// are plain names, because any ffmpeg codec name is accepted here.
pub fn resolve_codecs(
    preset_name: Option<&str>,
    vcodec: Option<&str>,
    acodec: Option<&str>,
    extra: &[String],
    default_video: EncoderId,
    default_audio: EncoderId,
) -> (r: Result<(String, String, Vec<String>), CoreError>)
    ensures
        r is Err == preset_unknown(opt_str(preset_name)),
        r matches Err(e) ==> refuses_preset(e, opt_str(preset_name)),
        r matches Ok(c) ==> {
            &&& c.0@ == video_used(opt_str(preset_name), opt_str(vcodec), default_video)
            &&& c.1@ == audio_used(opt_str(preset_name), opt_str(acodec), default_audio)
            &&& text::texts(c.2@) == extra_used(opt_str(preset_name), text::texts(extra@))
        },
{
    let plan = match preset::apply(preset_name, None, None, extra, default_video, default_audio) {
        Ok(p) => p,
        Err(e) => {
            return Err(e);
        },
    };
    let v = match vcodec {
        Some(c) => c.to_owned(),
        None => plan.video_codec.as_ffmpeg().to_owned(),
    };
    let a = match acodec {
        Some(c) => c.to_owned(),
        None => plan.audio_codec.as_ffmpeg().to_owned(),
    };
    Ok((v, a, plan.extra_args))
}

/// The arguments that make ffprobe describe a file.
pub open spec fn info_argv(input: Seq<char>, json: bool) -> Seq<Seq<char>> {
    if json {
        seq![
            "-v"@,
            "error"@,
            "-print_format"@,
            "json"@,
            "-show_format"@,
            "-show_streams"@,
            input,
        ]
    } else {
        seq!["-hide_banner"@, "-i"@, input]
    }
}

/// The arguments that make ffprobe describe a file, as JSON or for a person.
pub fn info(input: &str, json: bool) -> (r: Vec<String>)
    ensures
        text::texts(r@) == info_argv(input@, json),
{
    let mut r: Vec<String> = Vec::new();
    if json {
        text::push_text(&mut r, "-v");
        text::push_text(&mut r, "error");
        text::push_text(&mut r, "-print_format");
        text::push_text(&mut r, "json");
        text::push_text(&mut r, "-show_format");
        text::push_text(&mut r, "-show_streams");
    } else {
        text::push_text(&mut r, "-hide_banner");
        text::push_text(&mut r, "-i");
    }
    text::push_text(&mut r, input);
    assert(text::texts(r@) =~= info_argv(input@, json));
    r
}

/// One encode: where it reads, where it writes, and the argv that does it.
#[derive(Debug, Clone, PartialEq, Eq)]
pub struct LocalJob {
    /// Where it reads and writes.
    pub job: JobPaths,
    /// The argv.
    pub argv: Vec<String>,
}

/// Where a transcode writes.
pub open spec fn transcode_output(input: Seq<char>, output: Option<Seq<char>>, base: Seq<char>) -> Seq<char> {
    match output {
        None => paths::suffixed(input, "mkv"@),
        Some(out) => if paths::equivalent(input, paths::joined(base, out)) {
            paths::suffixed(input, "mkv"@)
        } else {
            paths::joined(base, out)
        },
    }
}

/// Plan the transcode of one file. The paths are already resolved. The input is
/// judged before the preset.
pub fn transcode_one(
    input: &str,
    output: Option<&str>,
    base: &str,
    preset_name: Option<&str>,
    vcodec: Option<&str>,
    acodec: Option<&str>,
    extra: &[String],
) -> (r: Result<LocalJob, CoreError>)
    ensures
        r is Err == (paths::file_name(input@) is None || preset_unknown(opt_str(preset_name))),
        paths::file_name(input@) is None ==> (r matches Err(CoreError::InvalidPath(p)) && p@
            == input@),
        paths::file_name(input@) is Some && r is Err ==> refuses_preset(
            r->Err_0,
            opt_str(preset_name),
        ),
        r matches Ok(j) ==> {
            &&& j.job.input@ == input@
            &&& j.job.output@ == transcode_output(input@, opt_str(output), base@)
            &&& text::texts(j.argv@) == plan::ffmpeg_argv(
                video_used(opt_str(preset_name), opt_str(vcodec), EncoderId::Libx264),
                audio_used(opt_str(preset_name), opt_str(acodec), EncoderId::Aac),
                None,
                extra_used(opt_str(preset_name), text::texts(extra@)),
                input@,
                j.job.output@,
            )
        },
{
    let out = match paths::resolve_output_path(input, output, "mkv", base) {
        Ok(p) => p,
        Err(e) => {
            return Err(e);
        },
    };
    let (v, a, args) = match resolve_codecs(
        preset_name,
        vcodec,
        acodec,
        extra,
        EncoderId::Libx264,
        EncoderId::Aac,
    ) {
        Ok(c) => c,
        Err(e) => {
            return Err(e);
        },
    };
    let job = JobPaths { input: input.to_owned(), output: out };
    let argv = build_ffmpeg_argv_raw(v.as_str(), a.as_str(), None, args.as_slice(), &job);
    Ok(LocalJob { job, argv })
}

/// What a dry run of one transcode prints.
pub fn dry_run_text(j: &LocalJob) -> (r: String)
    ensures
        r@ == "[DRY RUN] "@ + j.job.input@ + " -> "@ + j.job.output@ + "\n  "@ + plan::shell_line(
            "ffmpeg"@,
            text::texts(j.argv@),
        ) + "\n"@,
{
    let mut s = text::cat3("[DRY RUN] ", j.job.input.as_str(), " -> ");
    s.append(j.job.output.as_str());
    s.append("\n  ");
    s.append(format_command("ffmpeg", j.argv.as_slice()).as_str());
    s.append("\n");
    s
}

// ------------------------------------------------------------------- batch --

/// The extensions of a comma-separated list.
pub open spec fn extensions(list: Seq<char>) -> Seq<Seq<char>> {
    text::split_on(list, ',').map_values(|s: Seq<char>| text::trimmed(s))
}

/// The extensions of a comma-separated list.
pub fn input_extensions(list: &str) -> (r: Vec<String>)
    ensures
        text::texts(r@) == extensions(list@),
{
    let parts = text::split_char(list, ',');
    let ghost all = extensions(list@);
    let mut r: Vec<String> = Vec::new();
    let mut i: usize = 0;
    assert(text::texts(parts@).len() == parts@.len());
    while i < parts.len()
        invariant
            i <= parts@.len(),
            all.len() == parts@.len(),
            forall|k: int| 0 <= k < parts@.len() ==> #[trigger] all[k] == text::trimmed(parts@[k]@),
            text::texts(r@) == all.take(i as int),
        decreases parts.len() - i,
    {
        text::push_owned(&mut r, text::trim(parts[i].as_str()));
        i += 1;
        assert(text::texts(r@) =~= all.take(i as int));
    }
    assert(all.take(i as int) =~= all);
    r
}

/// Whether a path has one of the extensions, whatever its capitalisation.
pub open spec fn has_extension(path: Seq<char>, exts: Seq<Seq<char>>) -> bool {
    paths::extension(path) matches Some(got) && exists|i: int|
        0 <= i < exts.len() && text::lowercase(#[trigger] exts[i]) == text::lowercase(got)
}

/// Whether a path has one of the extensions.
pub fn is_media_file(path: &str, exts: &Vec<String>) -> (r: bool)
    ensures
        r == has_extension(path@, text::texts(exts@)),
{
    let got = match paths::extension_of(path) {
        Some(e) => text::to_lowercase(e.as_str()),
        None => {
            return false;
        },
    };
    let ghost all = text::texts(exts@);
    let mut i: usize = 0;
    while i < exts.len()
        invariant
            i <= exts@.len(),
            all == text::texts(exts@),
            paths::extension(path@) is Some,
            got@ == text::lowercase(paths::extension(path@)->0),
            forall|k: int| 0 <= k < i ==> text::lowercase(#[trigger] all[k]) != got@,
        decreases exts.len() - i,
    {
        assert(all[i as int] == exts@[i as int]@);
        if text::same(text::to_lowercase(exts[i].as_str()).as_str(), got.as_str()) {
            return true;
        }
        i += 1;
    }
    false
}

/// The paths with one of the extensions, in their order.
pub open spec fn media_in(found: Seq<Seq<char>>, exts: Seq<Seq<char>>) -> Seq<Seq<char>>
    decreases found.len(),
{
    if found.len() == 0 {
        Seq::empty()
    } else if has_extension(found.last(), exts) {
        media_in(found.drop_last(), exts).push(found.last())
    } else {
        media_in(found.drop_last(), exts)
    }
}

/// The files of a walk that have one of the extensions, in its order.
pub fn collect_media_files(found: Vec<String>, exts: &Vec<String>) -> (r: Vec<String>)
    ensures
        text::texts(r@) == media_in(text::texts(found@), text::texts(exts@)),
{
    let ghost all = text::texts(found@);
    let mut r: Vec<String> = Vec::new();
    let mut i: usize = 0;
    assert(all.take(0) =~= Seq::<Seq<char>>::empty());
    while i < found.len()
        invariant
            i <= found@.len(),
            all == text::texts(found@),
            text::texts(r@) == media_in(all.take(i as int), text::texts(exts@)),
        decreases found.len() - i,
    {
        assert(all.take(i + 1).drop_last() =~= all.take(i as int));
        assert(all.take(i + 1).last() == found@[i as int]@);
        if is_media_file(found[i].as_str(), exts) {
            text::push_text(&mut r, found[i].as_str());
        }
        i += 1;
    }
    assert(all.take(i as int) =~= all);
    r
}

/// What a batch announces.
pub open spec fn batch_heading(
    files: nat,
    in_place: bool,
    vcodec: Seq<char>,
    acodec: Seq<char>,
    ext: Seq<char>,
) -> Seq<char> {
    "Found "@ + text::dec(files) + " files to transcode"@ + (if in_place {
        " IN-PLACE - output will use '_transcoded' suffix"@
    } else {
        Seq::empty()
    }) + " (vcodec="@ + vcodec + ", acodec="@ + acodec + ", ext="@ + ext + ")\n"@
}

/// A batch that has been decided on.
#[derive(Debug, Clone)]
pub struct Batch {
    /// What is announced.
    pub heading: String,
    /// The video codec.
    pub vcodec: String,
    /// The audio codec.
    pub acodec: String,
    /// The extra arguments.
    pub extra: Vec<String>,
}

/// Decide on a batch: `None` where there is nothing to do. The codecs are only
/// judged where there is something to do.
pub fn batch(
    files: u64,
    in_root: &str,
    out_root: &str,
    preset_name: Option<&str>,
    vcodec: Option<&str>,
    acodec: Option<&str>,
    ext: &str,
    extra: &[String],
) -> (r: Result<Option<Batch>, CoreError>)
    ensures
        files == 0 ==> r == Ok::<Option<Batch>, CoreError>(None),
        files > 0 ==> {
            &&& r is Err == preset_unknown(opt_str(preset_name))
            &&& r matches Err(e) ==> refuses_preset(e, opt_str(preset_name))
            &&& r matches Ok(b) ==> b matches Some(b) && {
                &&& b.vcodec@ == video_used(
                    opt_str(preset_name),
                    opt_str(vcodec),
                    EncoderId::Libx265,
                )
                &&& b.acodec@ == audio_used(opt_str(preset_name), opt_str(acodec), EncoderId::Aac)
                &&& text::texts(b.extra@) == extra_used(opt_str(preset_name), text::texts(extra@))
                &&& b.heading@ == batch_heading(
                    files as nat,
                    paths::equivalent(in_root@, out_root@),
                    b.vcodec@,
                    b.acodec@,
                    ext@,
                )
            }
        },
{
    if files == 0 {
        return Ok(None);
    }
    let (v, a, args) = match resolve_codecs(
        preset_name,
        vcodec,
        acodec,
        extra,
        EncoderId::Libx265,
        EncoderId::Aac,
    ) {
        Ok(c) => c,
        Err(e) => {
            return Err(e);
        },
    };
    let mut s = "Found ".to_owned();
    text::push_u64(&mut s, files);
    s.append(" files to transcode");
    if paths::paths_equivalent(in_root, out_root) {
        s.append(" IN-PLACE - output will use '_transcoded' suffix");
    }
    s.append(" (vcodec=");
    s.append(v.as_str());
    s.append(", acodec=");
    s.append(a.as_str());
    s.append(", ext=");
    s.append(ext);
    s.append(")\n");
    assert(s@ =~= batch_heading(
        files as nat,
        paths::equivalent(in_root@, out_root@),
        v@,
        a@,
        ext@,
    ));
    Ok(Some(Batch { heading: s, vcodec: v, acodec: a, extra: args }))
}

impl Batch {
    /// Plan one file of the batch. A file outside the input directory is an
    /// error.
    pub fn item(&self, input: &str, in_root: &str, out_root: &str, ext: &str) -> (r: Result<
        LocalJob,
        CoreError,
    >)
        requires
            !paths::equivalent(in_root@, out_root@) && paths::under(input@, in_root@)
                ==> !ext@.contains('/'),
        ensures
            r is Err == (!paths::equivalent(in_root@, out_root@) && !paths::under(
                input@,
                in_root@,
            )),
            r matches Err(e) ==> e matches CoreError::InvalidPath(p) && p@ == input@
                + " is not under "@ + in_root@,
            r matches Ok(j) ==> {
                &&& j.job.input@ == input@
                &&& j.job.output@ == (if paths::equivalent(in_root@, out_root@) {
                    paths::suffixed(input@, ext@)
                } else {
                    paths::mirrored(input@, in_root@, out_root@, ext@)
                })
                &&& text::texts(j.argv@) == plan::ffmpeg_argv(
                    self.vcodec@,
                    self.acodec@,
                    None,
                    text::texts(self.extra@),
                    input@,
                    j.job.output@,
                )
            },
    {
        let output = match paths::plan_output_path(input, in_root, out_root, ext) {
            Ok(o) => o,
            Err(e) => {
                return Err(e);
            },
        };
        let job = JobPaths { input: input.to_owned(), output };
        let argv = build_ffmpeg_argv_raw(
            self.vcodec.as_str(),
            self.acodec.as_str(),
            None,
            self.extra.as_slice(),
            &job,
        );
        Ok(LocalJob { job, argv })
    }
}

/// What is printed before the file at `at`, counting from zero, of `total`.
pub fn batch_line(at: u64, total: u64, j: &LocalJob) -> (r: String)
    requires
        at < u64::MAX,
    ensures
        r@ == "\n["@ + text::dec((at + 1) as nat) + "/"@ + text::dec(total as nat) + "] "@
            + j.job.input@ + " -> "@ + j.job.output@ + "\n"@,
{
    let mut s = "\n[".to_owned();
    text::push_u64(&mut s, at + 1);
    s.append("/");
    text::push_u64(&mut s, total);
    s.append("] ");
    s.append(j.job.input.as_str());
    s.append(" -> ");
    s.append(j.job.output.as_str());
    s.append("\n");
    s
}

/// What a dry run of one file of a batch prints.
pub fn batch_dry_run(j: &LocalJob) -> (r: String)
    ensures
        r@ == "  [DRY RUN] "@ + plan::shell_line("ffmpeg"@, text::texts(j.argv@)) + "\n"@,
{
    text::cat3("  [DRY RUN] ", format_command("ffmpeg", j.argv.as_slice()).as_str(), "\n")
}

// ------------------------------------------------------------------ survey --

/// The mount a `PREFIX=PATH` text describes, or what is wrong with it. An agent
/// on its own words an empty half its own way.
pub open spec fn mount_of(raw: Seq<char>, alone: bool) -> Result<
    (Seq<char>, Seq<char>),
    Seq<char>,
> {
    match text::cut(raw, '=') {
        None => Err("--mount "@ + raw + " is not PREFIX=PATH"@),
        Some((prefix, local)) => if prefix.len() == 0 || local.len() == 0 {
            Err(
                "--mount "@ + raw + (if alone {
                    " has an empty side"@
                } else {
                    " has an empty prefix or path"@
                }),
            )
        } else {
            Ok((prefix, local))
        },
    }
}

/// What is wrong with the first malformed of some mounts.
pub open spec fn first_fault(raw: Seq<Seq<char>>, alone: bool) -> Option<Seq<char>>
    decreases raw.len(),
{
    if raw.len() == 0 {
        None
    } else {
        match mount_of(raw[0], alone) {
            Err(e) => Some(e),
            Ok(_) => first_fault(raw.skip(1), alone),
        }
    }
}

fn read_mount(raw: &str, alone: bool) -> (r: Result<MountSpec, String>)
    ensures
        match mount_of(raw@, alone) {
            Ok(m) => r matches Ok(s) && s.canonical_prefix@ == m.0 && s.local_path@ == m.1,
            Err(why) => r matches Err(e) && e@ == why,
        },
{
    match text::split_once(raw, '=') {
        None => Err(text::cat3("--mount ", raw, " is not PREFIX=PATH")),
        Some((prefix, local)) => {
            if prefix.as_str().is_empty() || local.as_str().is_empty() {
                Err(
                    text::cat3(
                        "--mount ",
                        raw,
                        if alone {
                            " has an empty side"
                        } else {
                            " has an empty prefix or path"
                        },
                    ),
                )
            } else {
                Ok(MountSpec { canonical_prefix: prefix, local_path: local })
            }
        },
    }
}

proof fn lemma_first_fault(raw: Seq<Seq<char>>, alone: bool, i: int)
    requires
        0 <= i < raw.len(),
        forall|k: int| 0 <= k < i ==> mount_of(#[trigger] raw[k], alone) is Ok,
        mount_of(raw[i], alone) is Err,
    ensures
        first_fault(raw, alone) == Some(mount_of(raw[i], alone)->Err_0),
    decreases raw.len(),
{
    if i > 0 {
        assert(mount_of(raw[0], alone) is Ok);
        let rest = raw.skip(1);
        assert forall|k: int| 0 <= k < i - 1 implies mount_of(#[trigger] rest[k], alone) is Ok by {
            assert(rest[k] == raw[k + 1]);
        }
        assert(rest[i - 1] == raw[i]);
        lemma_first_fault(rest, alone, i - 1);
    }
}

proof fn lemma_no_fault(raw: Seq<Seq<char>>, alone: bool)
    requires
        forall|k: int| 0 <= k < raw.len() ==> mount_of(#[trigger] raw[k], alone) is Ok,
    ensures
        first_fault(raw, alone) is None,
    decreases raw.len(),
{
    if raw.len() > 0 {
        assert(mount_of(raw[0], alone) is Ok);
        let rest = raw.skip(1);
        assert forall|k: int| 0 <= k < rest.len() implies mount_of(#[trigger] rest[k], alone) is Ok by {
            assert(rest[k] == raw[k + 1]);
        }
        lemma_no_fault(rest, alone);
    }
}

/// Build the survey configuration, refusing anything malformed. A mount that
/// silently did not register would make an agent ineligible for exactly the
/// work it was deployed for. `alone` says that the agent is its own program.
pub fn survey_config(
    ffmpeg: &str,
    ffprobe: &str,
    work_dir: &str,
    mounts: &[String],
    labels: &[String],
    transport: TransportMode,
    alone: bool,
) -> (r: Result<SurveyConfig, String>)
    ensures
        match first_fault(text::texts(mounts@), alone) {
            Some(why) => r matches Err(e) && e@ == why,
            None => r matches Ok(c) && {
                &&& c.ffmpeg@ == ffmpeg@
                &&& c.ffprobe@ == ffprobe@
                &&& c.work_dir@ == work_dir@
                &&& c.transport == transport
                &&& crate::pairs::ascending(c.labels@)
                &&& crate::pairs::as_map(c.labels@) == survey::labels_in(text::texts(labels@))
                &&& c.mounts@.len() == mounts@.len()
                &&& forall|i: int|
                    0 <= i < mounts@.len() ==> mount_of(mounts@[i]@, alone) == Ok::<
                        (Seq<char>, Seq<char>),
                        Seq<char>,
                    >(((#[trigger] c.mounts@[i]).canonical_prefix@, c.mounts@[i].local_path@))
            },
        },
{
    let ghost all = text::texts(mounts@);
    let mut list: Vec<MountSpec> = Vec::new();
    let mut i: usize = 0;
    while i < mounts.len()
        invariant
            i <= mounts@.len(),
            all == text::texts(mounts@),
            list@.len() == i,
            forall|k: int| 0 <= k < i ==> mount_of(#[trigger] all[k], alone) is Ok,
            forall|k: int|
                0 <= k < i ==> mount_of(all[k], alone) == Ok::<(Seq<char>, Seq<char>), Seq<char>>(
                    ((#[trigger] list@[k]).canonical_prefix@, list@[k].local_path@),
                ),
        decreases mounts.len() - i,
    {
        assert(all[i as int] == mounts@[i as int]@);
        match read_mount(mounts[i].as_str(), alone) {
            Ok(m) => {
                list.push(m);
            },
            Err(e) => {
                proof {
                    lemma_first_fault(all, alone, i as int);
                }
                return Err(e);
            },
        }
        i += 1;
    }
    proof {
        lemma_no_fault(all, alone);
    }
    let r = SurveyConfig {
        ffmpeg: ffmpeg.to_owned(),
        ffprobe: ffprobe.to_owned(),
        work_dir: work_dir.to_owned(),
        mounts: list,
        labels: survey::parse_labels(labels),
        transport,
    };
    assert forall|k: int| 0 <= k < mounts@.len() implies mount_of(mounts@[k]@, alone) == Ok::<
        (Seq<char>, Seq<char>),
        Seq<char>,
    >(((#[trigger] r.mounts@[k]).canonical_prefix@, r.mounts@[k].local_path@)) by {
        assert(all[k] == mounts@[k]@);
        assert(mount_of(all[k], alone) is Ok);
    }
    Ok(r)
}

/// A rename verdict off the wire, spelled for an operator.
pub open spec fn probe_spelled(value: i32) -> Seq<char> {
    if value == RenameProbeStatus::RpAtomicVerified.spec_number() {
        "ATOMIC_VERIFIED"@
    } else if value == RenameProbeStatus::RpNotAtomic.spec_number() {
        "NOT_ATOMIC"@
    } else {
        "UNTESTED"@
    }
}

/// A rename verdict off the wire, spelled for an operator. What is not known
/// is untested.
pub fn probe_label(value: i32) -> (r: &'static str)
    ensures
        r@ == probe_spelled(value),
{
    if value == RenameProbeStatus::RpAtomicVerified.number() {
        "ATOMIC_VERIFIED"
    } else if value == RenameProbeStatus::RpNotAtomic.number() {
        "NOT_ATOMIC"
    } else {
        "UNTESTED"
    }
}

/// A text padded with spaces on the left to `w` characters.
pub open spec fn left_padded(s: Seq<char>, w: nat) -> Seq<char> {
    if s.len() >= w {
        s
    } else {
        text::repeated(' ', (w - s.len()) as nat) + s
    }
}

/// One mount of a survey, as printed.
pub open spec fn mount_line(m: pb::Mount) -> Seq<char> {
    "  "@ + text::padded(m.canonical_prefix@, 24) + " "@ + text::padded(m.local_path@, 28) + " "@
        + left_padded(text::dec(m.free_bytes as nat), 12) + " bytes free"@ + "  rename_probe="@
        + probe_spelled(m.rename_probe) + "\n"@
}

/// The mounts of a survey, as printed.
pub open spec fn mount_lines(v: Seq<pb::Mount>) -> Seq<char>
    decreases v.len(),
{
    if v.len() == 0 {
        Seq::empty()
    } else {
        mount_lines(v.drop_last()) + mount_line(v.last())
    }
}

/// Whether every mount's rename was seen to be atomic.
pub open spec fn all_verified(v: Seq<pb::Mount>) -> bool {
    forall|i: int|
        0 <= i < v.len() ==> (#[trigger] v[i]).rename_probe
            == RenameProbeStatus::RpAtomicVerified.spec_number()
}

/// What is printed of a survey's mounts.
pub open spec fn mounts_report(v: Seq<pb::Mount>) -> Seq<char> {
    if v.len() == 0 {
        "\nmounts            none\n\nThis agent offers no mounts, so it can be given no work: every job requires a mount covering its library.\n"@
    } else {
        "\nmounts\n"@ + mount_lines(v) + (if all_verified(v) {
            Seq::empty()
        } else {
            "\nNot commit-eligible: every mount must pass the rename probe. This agent can produce output but may not install it.\n"@
        })
    }
}

fn push_plain_mount(s: &mut String, m: &pb::Mount)
    ensures
        final(s)@ == old(s)@ + "  "@ + text::padded(m.canonical_prefix@, 24) + " "@ + text::padded(
            m.local_path@,
            28,
        ) + " "@ + left_padded(text::dec(m.free_bytes as nat), 12) + " bytes free"@,
{
    s.append("  ");
    text::push_padded(s, m.canonical_prefix.as_str(), 24);
    s.append(" ");
    text::push_padded(s, m.local_path.as_str(), 28);
    s.append(" ");
    let free = text::u64_text(m.free_bytes);
    let n: usize = free.as_str().unicode_len();
    let ghost before = s@;
    if n < 12 {
        text::push_repeated(s, ' ', 12 - n as u128);
    }
    s.append(free.as_str());
    assert(s@ =~= before + left_padded(text::dec(m.free_bytes as nat), 12));
    s.append(" bytes free");
}

fn push_mount(s: &mut String, m: &pb::Mount)
    ensures
        final(s)@ == old(s)@ + mount_line(*m),
{
    push_plain_mount(s, m);
    s.append("  rename_probe=");
    s.append(probe_label(m.rename_probe));
    s.append("\n");
    assert(s@ =~= old(s)@ + mount_line(*m));
}

/// What is printed of a survey's mounts. The verdict decides whether the agent
/// may install, so it is printed mount by mount.
pub fn survey_mounts(mounts: &Vec<pb::Mount>) -> (r: String)
    ensures
        r@ == mounts_report(mounts@),
{
    if mounts.len() == 0 {
        return
            "\nmounts            none\n\nThis agent offers no mounts, so it can be given no work: every job requires a mount covering its library.\n".to_owned();
    }
    let mut s = "\nmounts\n".to_owned();
    let ghost head = s@;
    let mut verified = true;
    let mut i: usize = 0;
    assert(mounts@.take(0) =~= Seq::<pb::Mount>::empty());
    assert(s@ =~= head + mount_lines(mounts@.take(0)));
    while i < mounts.len()
        invariant
            i <= mounts@.len(),
            s@ == head + mount_lines(mounts@.take(i as int)),
            verified == all_verified(mounts@.take(i as int)),
        decreases mounts.len() - i,
    {
        let ghost t = mounts@.take(i + 1);
        assert(t.drop_last() =~= mounts@.take(i as int));
        assert(t.last() == mounts@[i as int]);
        push_mount(&mut s, &mounts[i]);
        let ok = mounts[i].rename_probe == RenameProbeStatus::RpAtomicVerified.number();
        proof {
            assert(all_verified(t) == (verified && ok)) by {
                if verified && ok {
                    assert forall|k: int| 0 <= k < t.len() implies (#[trigger] t[k]).rename_probe
                        == RenameProbeStatus::RpAtomicVerified.spec_number() by {
                        if k < i {
                            assert(mounts@.take(i as int)[k] == t[k]);
                        }
                    }
                }
                if all_verified(t) {
                    assert(t[i as int].rename_probe
                        == RenameProbeStatus::RpAtomicVerified.spec_number());
                    assert forall|k: int| 0 <= k < i implies (#[trigger] mounts@.take(
                        i as int,
                    )[k]).rename_probe == RenameProbeStatus::RpAtomicVerified.spec_number() by {
                        assert(t[k] == mounts@.take(i as int)[k]);
                    }
                }
            }
        }
        verified = verified && ok;
        i += 1;
        assert(s@ =~= head + mount_lines(mounts@.take(i as int)));
    }
    assert(mounts@.take(i as int) =~= mounts@);
    if !verified {
        s.append(
            "\nNot commit-eligible: every mount must pass the rename probe. This agent can produce output but may not install it.\n",
        );
    }
    assert(s@ =~= mounts_report(mounts@));
    s
}

/// What a survey prints of the machine itself.
pub open spec fn machine_report(c: pb::Capability) -> Seq<char> {
    "platform          "@ + c.platform@ + "\neffective cores   "@ + c.effective_cores.shown@ + "\nphysical cores    "@ + text::dec(c.physical_cores as nat) + "\nclasses           "@
        + text::joined(text::texts(c.classes@), ", "@) + "\nencoders          "@ + text::joined(
        text::texts(c.encoders@),
        ", "@,
    ) + "\nmuxers            "@ + text::joined(text::texts(c.muxers@), ", "@)
        + "\nwork area free    "@ + text::dec(c.workarea_free_bytes as nat)
        + " bytes\nffmpeg            "@ + c.ffmpeg_version@ + "\nffprobe           "@
        + c.ffprobe_version@ + "\ncapability hash   "@ + c.capability_hash@ + "\n"@
}

/// What an agent on its own says of having no mounts.
pub open spec fn no_mounts_said(streaming: bool) -> Seq<char> {
    if streaming {
        "\nThis agent streams: the server sends it the source bytes and installs the result, so it needs no mounts and offers none.\n"@
    } else {
        "\nThis agent offers no mounts, so it can be given no work: every job requires a mount covering its library. Either pass --mount, or run it with --transport stream.\n"@
    }
}

/// One mount, as an agent on its own prints it.
pub open spec fn plain_mount_line(m: pb::Mount) -> Seq<char> {
    "  "@ + text::padded(m.canonical_prefix@, 24) + " "@ + text::padded(m.local_path@, 28) + " "@
        + left_padded(text::dec(m.free_bytes as nat), 12) + " bytes free"@ + "\n"@
}

/// The mounts, as an agent on its own prints them.
pub open spec fn plain_mount_lines(v: Seq<pb::Mount>) -> Seq<char>
    decreases v.len(),
{
    if v.len() == 0 {
        Seq::empty()
    } else {
        plain_mount_lines(v.drop_last()) + plain_mount_line(v.last())
    }
}

/// What an agent on its own prints of the machine and of its mounts.
pub open spec fn agent_report(c: pb::Capability, streaming: bool) -> Seq<char> {
    "platform          "@ + c.platform@ + "\neffective cores   "@ + c.effective_cores.shown@ + "\nclasses           "@ + text::joined(text::texts(c.classes@), ", "@)
        + "\nencoders          "@ + text::joined(text::texts(c.encoders@), ", "@)
        + "\nmuxers            "@ + text::joined(text::texts(c.muxers@), ", "@)
        + "\nffmpeg            "@ + c.ffmpeg_version@ + "\ncapability hash   "@ + c.capability_hash@
        + "\ntransport         "@ + (if streaming {
        "stream"@
    } else {
        "mount"@
    }) + (if c.mounts@.len() == 0 {
        "\n\nmounts            none\n"@ + no_mounts_said(streaming)
    } else {
        "\n\nmounts\n"@ + plain_mount_lines(c.mounts@)
    })
}

/// What an agent on its own prints of a survey. One that streams needs no
/// mounts.
pub fn agent_survey(c: &pb::Capability, streaming: bool) -> (r: String)
    ensures
        r@ == agent_report(*c, streaming),
{
    let mut s = text::cat3("platform          ", c.platform.as_str(), "\neffective cores   ");
    s.append(c.effective_cores.shown.as_str());
    s.append("\nclasses           ");
    s.append(text::join(c.classes.as_slice(), ", ").as_str());
    s.append("\nencoders          ");
    s.append(text::join(c.encoders.as_slice(), ", ").as_str());
    s.append("\nmuxers            ");
    s.append(text::join(c.muxers.as_slice(), ", ").as_str());
    s.append("\nffmpeg            ");
    s.append(c.ffmpeg_version.as_str());
    s.append("\ncapability hash   ");
    s.append(c.capability_hash.as_str());
    s.append("\ntransport         ");
    if streaming {
        s.append("stream");
    } else {
        s.append("mount");
    }
    if c.mounts.len() == 0 {
        s.append("\n\nmounts            none\n");
        if streaming {
            s.append(
                "\nThis agent streams: the server sends it the source bytes and installs the result, so it needs no mounts and offers none.\n",
            );
        } else {
            s.append(
                "\nThis agent offers no mounts, so it can be given no work: every job requires a mount covering its library. Either pass --mount, or run it with --transport stream.\n",
            );
        }
        assert(s@ =~= agent_report(*c, streaming));
        return s;
    }
    s.append("\n\nmounts\n");
    let ghost head = s@;
    let mut i: usize = 0;
    assert(c.mounts@.take(0) =~= Seq::<pb::Mount>::empty());
    assert(s@ =~= head + plain_mount_lines(c.mounts@.take(0)));
    while i < c.mounts.len()
        invariant
            i <= c.mounts@.len(),
            s@ == head + plain_mount_lines(c.mounts@.take(i as int)),
        decreases c.mounts.len() - i,
    {
        assert(c.mounts@.take(i + 1).drop_last() =~= c.mounts@.take(i as int));
        assert(c.mounts@.take(i + 1).last() == c.mounts@[i as int]);
        let ghost before = s@;
        push_plain_mount(&mut s, &c.mounts[i]);
        s.append("\n");
        assert(s@ =~= before + plain_mount_line(c.mounts@[i as int]));
        i += 1;
        assert(s@ =~= head + plain_mount_lines(c.mounts@.take(i as int)));
    }
    assert(c.mounts@.take(i as int) =~= c.mounts@);
    assert(s@ =~= agent_report(*c, streaming));
    s
}

/// What a survey prints: what this machine would advertise.
pub fn survey_only(c: &pb::Capability) -> (r: String)
    ensures
        r@ == machine_report(*c) + mounts_report(c.mounts@),
{
    let mut s = text::cat3("platform          ", c.platform.as_str(), "\neffective cores   ");
    s.append(c.effective_cores.shown.as_str());
    s.append("\nphysical cores    ");
    text::push_u64(&mut s, c.physical_cores as u64);
    s.append("\nclasses           ");
    s.append(text::join(c.classes.as_slice(), ", ").as_str());
    s.append("\nencoders          ");
    s.append(text::join(c.encoders.as_slice(), ", ").as_str());
    s.append("\nmuxers            ");
    s.append(text::join(c.muxers.as_slice(), ", ").as_str());
    s.append("\nwork area free    ");
    text::push_u64(&mut s, c.workarea_free_bytes);
    s.append(" bytes\nffmpeg            ");
    s.append(c.ffmpeg_version.as_str());
    s.append("\nffprobe           ");
    s.append(c.ffprobe_version.as_str());
    s.append("\ncapability hash   ");
    s.append(c.capability_hash.as_str());
    s.append("\n");
    assert(s@ =~= machine_report(*c));
    s.append(survey_mounts(&c.mounts).as_str());
    s
}

// ------------------------------------------------------------------- admin --

/// What diagnosing a machine comes to.
#[derive(Debug, Clone)]
pub struct Diagnosis {
    /// What is printed for a person.
    pub table: String,
    /// Why the command fails, if it does: a gate that always passes gates
    /// nothing.
    pub failure: Option<&'static str>,
}

/// Whether any probe of a report failed.
pub open spec fn failed_outright(r: PreflightReport) -> bool {
    exists|i: int|
        0 <= i < r.probes@.len() && (#[trigger] r.probes@[i]).status == ProbeStatus::Fail
}

/// What diagnosing a machine comes to.
pub fn diagnose(report: &PreflightReport) -> (r: Diagnosis)
    ensures
        r.table@ == preflight::table(report.probes@) + "\ncommit eligible: "@ + (
        if preflight::status_of(report.probes@, "RenameProbe"@) == Some(ProbeStatus::Pass) {
            "yes"@
        } else {
            "NO - this machine may produce output but must not install it"@
        }) + "\n"@,
        r.failure is Some == failed_outright(*report),
        r.failure matches Some(f) ==> f@ == "preflight failed; see the table above"@,
{
    let mut table = report.render();
    table.append("\ncommit eligible: ");
    if report.commit_eligible() {
        table.append("yes");
    } else {
        table.append("NO - this machine may produce output but must not install it");
    }
    table.append("\n");
    let failure = if report.any_failed() {
        Some("preflight failed; see the table above")
    } else {
        None
    };
    Diagnosis { table, failure }
}

/// The size of a change, in words. An audio pass legitimately grows a file, so
/// it is never left to a sign.
pub open spec fn size_said(delta: i64) -> Seq<char> {
    if delta >= 0 {
        "saved "@ + Size::ratio(delta as nat, 1_048_576).hundredths() + " MiB"@
    } else {
        "grew "@ + Size::ratio((-delta) as nat, 1_048_576).hundredths() + " MiB"@
    }
}

/// What is printed of a job that was attempted: its resolution and by how much
/// the file shrank, or why it was skipped. A job with neither prints nothing.
pub open spec fn attempt_said(
    path: Seq<char>,
    resolution: Option<Seq<char>>,
    rejected: Option<Seq<char>>,
    delta: i64,
) -> Seq<char> {
    match (resolution, rejected) {
        (Some(label), _) => "  "@ + text::padded(label, 12) + " "@ + path + "  ("@ + size_said(delta)
            + ")\n"@,
        (None, Some(why)) => "  "@ + text::padded("skipped"@, 12) + " "@ + path
            + "\n               "@ + why + "\n"@,
        (None, None) => Seq::empty(),
    }
}

fn push_size(s: &mut String, delta: i64)
    ensures
        final(s)@ == old(s)@ + size_said(delta),
{
    let size: u64 = if delta >= 0 {
        s.append("saved ");
        delta as u64
    } else {
        s.append("grew ");
        (-(delta as i128)) as u64
    };
    Size::of_ratio(size, 1_048_576).push_hundredths(s);
    s.append(" MiB");
    assert(s@ =~= old(s)@ + size_said(delta));
}

/// What is printed of a job that was attempted.
pub fn attempt_line(path: &str, resolution: Option<&str>, rejected: Option<&str>, delta: i64) -> (r:
    String)
    ensures
        r@ == attempt_said(path@, opt_str(resolution), opt_str(rejected), delta),
{
    let mut s = String::new();
    if let Some(label) = resolution {
        s.append("  ");
        text::push_padded(&mut s, label, 12);
        s.append(" ");
        s.append(path);
        s.append("  (");
        push_size(&mut s, delta);
        s.append(")\n");
    } else if let Some(why) = rejected {
        s.append("  ");
        text::push_padded(&mut s, "skipped", 12);
        s.append(" ");
        s.append(path);
        s.append("\n               ");
        s.append(why);
        s.append("\n");
    }
    assert(s@ =~= attempt_said(path@, opt_str(resolution), opt_str(rejected), delta));
    s
}

/// What a walk of a library found.
#[derive(Debug, Clone, Copy, PartialEq, Eq, Structural)]
pub struct Discovered {
    /// Files seen.
    pub seen: u64,
    /// Files not known before.
    pub new: u64,
    /// Files that changed.
    pub changed: u64,
    /// Files that are gone.
    pub missing: u64,
    /// Files modified too recently to touch.
    pub too_recent: u64,
    /// How long it took, in milliseconds.
    pub duration_ms: u64,
}

/// What probing and evaluating a library came to.
#[derive(Debug, Clone, Copy, PartialEq, Eq, Structural)]
pub struct Evaluated {
    /// Files probed.
    pub probed: u64,
    /// Files that could not be.
    pub failed: u64,
    /// Files evaluated.
    pub evaluated: u64,
    /// Jobs created.
    pub jobs_created: u64,
    /// Files that are owed nothing.
    pub no_work: u64,
    /// Files quarantined.
    pub quarantined: u64,
}

/// The steps of a scan: whether to discover, and whether to probe and evaluate.
pub fn scan_steps(discover_only: bool, no_discover: bool) -> (r: (bool, bool))
    ensures
        r == (!no_discover, !discover_only),
{
    (!no_discover, !discover_only)
}

/// What is printed of a walk.
pub open spec fn discovered_said(id: Seq<char>, d: Discovered) -> Seq<char> {
    id + ": "@ + text::dec(d.seen as nat) + " seen, "@ + text::dec(d.new as nat) + " new, "@
        + text::dec(d.changed as nat) + " changed, "@ + text::dec(d.missing as nat) + " missing, "@
        + text::dec(d.too_recent as nat) + " too recent ("@ + text::dec(d.duration_ms as nat)
        + " ms)\n"@
}

/// What is printed of probing and evaluating.
pub open spec fn evaluated_said(id: Seq<char>, e: Evaluated) -> Seq<char> {
    id + ": probed "@ + text::dec(e.probed as nat) + ", failed "@ + text::dec(e.failed as nat)
        + "\n"@ + id + ": evaluated "@ + text::dec(e.evaluated as nat) + ", "@ + text::dec(
        e.jobs_created as nat,
    ) + " jobs created, "@ + text::dec(e.no_work as nat) + " nothing owed, "@ + text::dec(
        e.quarantined as nat,
    ) + " quarantined\n"@
}

/// What a scan of one library prints, of the steps that ran.
pub fn scan(id: &str, discovered: Option<Discovered>, evaluated: Option<Evaluated>) -> (r: String)
    ensures
        r@ == (match discovered {
            Some(d) => discovered_said(id@, d),
            None => Seq::empty(),
        }) + (match evaluated {
            Some(e) => evaluated_said(id@, e),
            None => Seq::empty(),
        }),
{
    let mut s = String::new();
    if let Some(d) = discovered {
        s.append(id);
        s.append(": ");
        text::push_u64(&mut s, d.seen);
        s.append(" seen, ");
        text::push_u64(&mut s, d.new);
        s.append(" new, ");
        text::push_u64(&mut s, d.changed);
        s.append(" changed, ");
        text::push_u64(&mut s, d.missing);
        s.append(" missing, ");
        text::push_u64(&mut s, d.too_recent);
        s.append(" too recent (");
        text::push_u64(&mut s, d.duration_ms);
        s.append(" ms)\n");
        assert(s@ =~= discovered_said(id@, d));
    }
    let ghost head = s@;
    if let Some(e) = evaluated {
        s.append(id);
        s.append(": probed ");
        text::push_u64(&mut s, e.probed);
        s.append(", failed ");
        text::push_u64(&mut s, e.failed);
        s.append("\n");
        s.append(id);
        s.append(": evaluated ");
        text::push_u64(&mut s, e.evaluated);
        s.append(", ");
        text::push_u64(&mut s, e.jobs_created);
        s.append(" jobs created, ");
        text::push_u64(&mut s, e.no_work);
        s.append(" nothing owed, ");
        text::push_u64(&mut s, e.quarantined);
        s.append(" quarantined\n");
        assert(s@ =~= head + evaluated_said(id@, e));
    }
    s
}

/// One registered library.
#[derive(Debug, Clone, PartialEq, Eq)]
pub struct Library {
    /// Its identifier.
    pub id: String,
    /// Where it is rooted.
    pub root_path: String,
    /// How long a file must have been left alone, in seconds.
    pub min_mtime_age_s: i64,
}

/// Whether there is any library to work on.
pub fn selected(found: u64) -> (r: Result<(), &'static str>)
    ensures
        r is Err == (found == 0),
        r matches Err(e) ==> e@ == "no enabled libraries; add one with `admin add-library`"@,
{
    if found == 0 {
        Err("no enabled libraries; add one with `admin add-library`")
    } else {
        Ok(())
    }
}

/// Decide on registering a library: the name it goes by, and what is printed
/// once it is registered. A root that is no directory is refused while the
/// operator is still looking at the command.
pub fn add_library(id: &str, name: Option<String>, root: &str, root_is_dir: bool) -> (r: Result<
    (String, String),
    String,
>)
    ensures
        r is Err == !root_is_dir,
        r matches Err(e) ==> e@ == root@ + " is not a directory"@,
        r matches Ok(v) ==> {
            &&& v.0@ == (match name {
                Some(n) => n@,
                None => id@,
            })
            &&& v.1@ == "library "@ + id@ + " registered at "@ + root@ + "\n"@
        },
{
    if !root_is_dir {
        return Err(text::cat2(root, " is not a directory"));
    }
    let known = match name {
        Some(n) => n,
        None => id.to_owned(),
    };
    let mut s = text::cat3("library ", id, " registered at ");
    s.append(root);
    s.append("\n");
    Ok((known, s))
}

/// One library of a listing, as printed.
pub open spec fn library_line(l: Library) -> Seq<char> {
    text::padded(l.id@, 12) + " "@ + text::padded(l.root_path@, 40) + " min_mtime_age="@
        + text::dec_int(l.min_mtime_age_s as int) + "s\n"@
}

/// The libraries of a listing, as printed.
pub open spec fn library_lines(v: Seq<Library>) -> Seq<char>
    decreases v.len(),
{
    if v.len() == 0 {
        Seq::empty()
    } else {
        library_lines(v.drop_last()) + library_line(v.last())
    }
}

/// What a listing of the libraries prints.
pub fn list_libraries(libraries: &Vec<Library>) -> (r: String)
    ensures
        r@ == (if libraries@.len() == 0 {
            "no libraries registered\n"@
        } else {
            library_lines(libraries@)
        }),
{
    if libraries.len() == 0 {
        return "no libraries registered\n".to_owned();
    }
    let mut s = String::new();
    let mut i: usize = 0;
    assert(libraries@.take(0) =~= Seq::<Library>::empty());
    while i < libraries.len()
        invariant
            i <= libraries@.len(),
            s@ == library_lines(libraries@.take(i as int)),
        decreases libraries.len() - i,
    {
        let l = &libraries[i];
        assert(libraries@.take(i + 1).drop_last() =~= libraries@.take(i as int));
        assert(libraries@.take(i + 1).last() == *l);
        let ghost before = s@;
        text::push_padded(&mut s, l.id.as_str(), 12);
        s.append(" ");
        text::push_padded(&mut s, l.root_path.as_str(), 40);
        s.append(" min_mtime_age=");
        s.append(text::i64_text(l.min_mtime_age_s).as_str());
        s.append("s\n");
        assert(s@ =~= before + library_line(*l));
        i += 1;
    }
    assert(libraries@.take(i as int) =~= libraries@);
    s
}

/// What evaluating a library again came to.
#[derive(Debug, Clone, Copy, PartialEq, Eq, Structural)]
pub struct Reevaluated {
    /// Files evaluated.
    pub evaluated: u64,
    /// How long it took, in milliseconds.
    pub elapsed_ms: u128,
    /// Jobs created.
    pub jobs_created: u64,
    /// Files that are owed nothing.
    pub no_work: u64,
    /// Files quarantined.
    pub quarantined: u64,
    /// Files with a job already under way.
    pub already_busy: u64,
}

/// What is printed of evaluating a library again.
pub fn evaluate(id: &str, e: &Reevaluated) -> (r: String)
    ensures
        r@ == id@ + ": evaluated "@ + text::dec(e.evaluated as nat) + " in "@ + text::dec(
            e.elapsed_ms as nat,
        ) + " ms, "@ + text::dec(e.jobs_created as nat) + " jobs created, "@ + text::dec(
            e.no_work as nat,
        ) + " nothing owed, "@ + text::dec(e.quarantined as nat) + " quarantined, "@ + text::dec(
            e.already_busy as nat,
        ) + " already busy\n"@,
{
    let mut s = text::cat2(id, ": evaluated ");
    text::push_u64(&mut s, e.evaluated);
    s.append(" in ");
    text::push_u128(&mut s, e.elapsed_ms);
    s.append(" ms, ");
    text::push_u64(&mut s, e.jobs_created);
    s.append(" jobs created, ");
    text::push_u64(&mut s, e.no_work);
    s.append(" nothing owed, ");
    text::push_u64(&mut s, e.quarantined);
    s.append(" quarantined, ");
    text::push_u64(&mut s, e.already_busy);
    s.append(" already busy\n");
    s
}

/// What running a library's jobs came to.
#[derive(Debug, Clone, Copy, PartialEq, Eq, Structural)]
pub struct Ran {
    /// Jobs attempted.
    pub attempted: u64,
    /// Outputs installed.
    pub installed: u64,
    /// Outputs rejected.
    pub rejected: u64,
    /// Jobs that failed.
    pub failed: u64,
}

/// What is printed of running a library's jobs, before the jobs themselves.
pub fn run_jobs(id: &str, out: &Ran) -> (r: String)
    ensures
        r@ == id@ + ": "@ + text::dec(out.attempted as nat) + " attempted, "@ + text::dec(
            out.installed as nat,
        ) + " installed, "@ + text::dec(out.rejected as nat) + " rejected, "@ + text::dec(
            out.failed as nat,
        ) + " failed\n"@,
{
    let mut s = text::cat2(id, ": ");
    text::push_u64(&mut s, out.attempted);
    s.append(" attempted, ");
    text::push_u64(&mut s, out.installed);
    s.append(" installed, ");
    text::push_u64(&mut s, out.rejected);
    s.append(" rejected, ");
    text::push_u64(&mut s, out.failed);
    s.append(" failed\n");
    s
}

/// What is printed of a job that was cancelled, from the state it was in and
/// as that state is spelled. Where an agent was holding it, that is said: the
/// cancel takes effect there later.
pub fn cancel_job(id: &str, spelled: &str, from: JobState) -> (r: String)
    ensures
        r@ == "cancelled "@ + id@ + " (was "@ + spelled@ + ")\n"@ + (
        if job::holding(from) {
            "  an agent was holding it; the server revokes the assignment on that agent's next heartbeat\n"@
        } else {
            Seq::empty()
        }),
{
    let mut s = text::cat3("cancelled ", id, " (was ");
    s.append(spelled);
    s.append(")\n");
    if from.holds_capacity() {
        s.append(
            "  an agent was holding it; the server revokes the assignment on that agent's next heartbeat\n",
        );
    }
    assert(s@ =~= "cancelled "@ + id@ + " (was "@ + spelled@ + ")\n"@ + (
    if job::holding(from) {
        "  an agent was holding it; the server revokes the assignment on that agent's next heartbeat\n"@
    } else {
        Seq::empty()
    }));
    s
}

/// The seconds between dispatch passes: at least one.
pub fn tick_seconds(asked: u64) -> (r: u64)
    ensures
        r == (if asked == 0 {
            1
        } else {
            asked
        }),
{
    if asked == 0 {
        1
    } else {
        asked
    }
}

// ------------------------------------------------------------------- laws --

/// The three verbs of the local tool, and no other word, are taken for old ones.
pub proof fn law_which_verbs_are_old(s: Seq<char>)
    ensures
        is_legacy_verb(s) <==> s == "info"@ || s == "transcode"@ || s == "batch"@,
{
}

/// What a typed class means, in any case: its name, with or without a dash, or
/// the short form of a video class. Another word is left as it is, lowered.
pub proof fn law_what_a_typed_class_means(raw: Seq<char>)
    ensures
        ({
            let s = text::ascii_lower(raw);
            let cpu = s == "videocpu"@ || s == "video-cpu"@ || s == "cpu"@;
            let gpu = s == "videogpu"@ || s == "video-gpu"@ || s == "gpu"@;
            &&& s == "audio"@ ==> class_typed(raw) == "Audio"@
            &&& cpu && s != "audio"@ ==> class_typed(raw) == "VideoCpu"@
            &&& gpu && !cpu && s != "audio"@ ==> class_typed(raw) == "VideoGpu"@
            &&& s == "probe"@ && !gpu && !cpu && s != "audio"@ ==> class_typed(raw) == "Probe"@
            &&& s == "verify"@ && s != "probe"@ && !gpu && !cpu && s != "audio"@ ==> class_typed(raw)
                == "Verify"@
            &&& s != "audio"@ && !cpu && !gpu && s != "probe"@ && s != "verify"@ ==> class_typed(raw)
                == s
        }),
{
}

/// Which codec is used: the one that is asked for, or the preset's, or the one
/// the command falls back to. What is added by hand comes after what the preset
/// adds.
pub proof fn law_which_codec_is_used(
    preset_name: Option<Seq<char>>,
    vcodec: Option<Seq<char>>,
    acodec: Option<Seq<char>>,
    extra: Seq<Seq<char>>,
    video: EncoderId,
    audio: EncoderId,
)
    ensures
        vcodec matches Some(c) ==> video_used(preset_name, vcodec, video) == c,
        acodec matches Some(c) ==> audio_used(preset_name, acodec, audio) == c,
        vcodec is None && preset_name is None ==> video_used(preset_name, vcodec, video)
            == video.ffmpeg(),
        acodec is None && preset_name is None ==> audio_used(preset_name, acodec, audio)
            == audio.ffmpeg(),
        preset_name is None ==> extra_used(preset_name, extra) == extra,
        preset_name matches Some(n) ==> (preset::found_in(preset::builtin_models(), n) matches Some(
            p,
        ) ==> {
            &&& vcodec is None ==> video_used(preset_name, vcodec, video) == p.video.ffmpeg()
            &&& acodec is None ==> audio_used(preset_name, acodec, audio) == p.audio.ffmpeg()
            &&& extra_used(preset_name, extra) == p.args + extra
            &&& !preset_unknown(preset_name)
        }),
        preset_name matches Some(n) ==> (preset::found_in(preset::builtin_models(), n) is None
            <==> preset_unknown(preset_name)),
{
    assert(preset_name is None ==> extra_used(preset_name, extra) =~= extra);
}

/// An input is shown, never written: it is the last argument of either tool.
pub proof fn law_info_only_reads(input: Seq<char>)
    ensures
        info_argv(input, true) == seq![
            "-v"@,
            "error"@,
            "-print_format"@,
            "json"@,
            "-show_format"@,
            "-show_streams"@,
            input,
        ],
        info_argv(input, false) == seq!["-hide_banner"@, "-i"@, input],
{
}

/// A transcode is written where it is asked to be, and beside its input where it
/// is asked for no place, or for the input's own.
pub proof fn law_where_a_transcode_goes(input: Seq<char>, out: Seq<char>, base: Seq<char>)
    ensures
        transcode_output(input, None, base) == paths::suffixed(input, "mkv"@),
        !paths::equivalent(input, paths::joined(base, out)) ==> transcode_output(
            input,
            Some(out),
            base,
        ) == paths::joined(base, out),
        paths::equivalent(input, paths::joined(base, out)) ==> transcode_output(
            input,
            Some(out),
            base,
        ) == paths::suffixed(input, "mkv"@),
{
}

/// A file is media where its extension is one of the list, in any case, and a
/// file without one is not.
pub proof fn law_which_files_are_media(path: Seq<char>, exts: Seq<Seq<char>>, i: int)
    ensures
        paths::extension(path) is None ==> !has_extension(path, exts),
        paths::extension(path) matches Some(got) ==> {
            &&& 0 <= i < exts.len() && text::lowercase(exts[i]) == text::lowercase(got)
                ==> has_extension(path, exts)
            &&& (forall|j: int|
                0 <= j < exts.len() ==> text::lowercase(#[trigger] exts[j]) != text::lowercase(got))
                ==> !has_extension(path, exts)
        },
{
}

/// Every media file that is found is taken, in order, and no other.
pub proof fn law_every_media_file_is_taken(
    found: Seq<Seq<char>>,
    path: Seq<char>,
    exts: Seq<Seq<char>>,
)
    ensures
        has_extension(path, exts) ==> media_in(found.push(path), exts) == media_in(
            found,
            exts,
        ).push(path),
        !has_extension(path, exts) ==> media_in(found.push(path), exts) == media_in(found, exts),
        media_in(Seq::empty(), exts).len() == 0,
{
    assert(found.push(path).drop_last() =~= found);
}

/// A list of extensions is parted at its commas, and the blanks round each go.
pub proof fn law_how_extensions_are_listed(list: Seq<char>, i: int)
    ensures
        extensions(list).len() == text::split_on(list, ',').len(),
        0 <= i < extensions(list).len() ==> extensions(list)[i] == text::trimmed(
            text::split_on(list, ',')[i],
        ),
{
}

/// A mount is given as its prefix, an `=`, and its path, neither of them empty.
pub proof fn law_how_a_mount_is_given(raw: Seq<char>, alone: bool)
    ensures
        !raw.contains('=') <==> mount_of(raw, alone) == Err::<(Seq<char>, Seq<char>), Seq<char>>(
            "--mount "@ + raw + " is not PREFIX=PATH"@,
        ) && text::cut(raw, '=') is None,
        mount_of(raw, alone) matches Ok((prefix, local)) ==> raw == prefix.push('=') + local
            && !prefix.contains('=') && prefix.len() > 0 && local.len() > 0,
        text::cut(raw, '=') matches Some((prefix, local)) ==> (prefix.len() > 0 && local.len() > 0
            <==> mount_of(raw, alone) is Ok),
{
    text::law_a_cut_is_at_the_first(raw, '=');
}

/// The first mount that is wrong is the one that is told.
pub proof fn law_the_first_wrong_mount_is_told(raw: Seq<Seq<char>>, alone: bool, i: int)
    requires
        0 <= i <= raw.len(),
        forall|j: int| 0 <= j < i ==> mount_of(#[trigger] raw[j], alone) is Ok,
        i < raw.len() ==> mount_of(raw[i], alone) is Err,
    ensures
        i == raw.len() ==> first_fault(raw, alone) is None,
        i < raw.len() ==> first_fault(raw, alone) == Some(mount_of(raw[i], alone)->Err_0),
    decreases raw.len(),
{
    if raw.len() > 0 && i > 0 {
        let rest = raw.skip(1);
        assert(mount_of(raw[0], alone) is Ok);
        assert forall|j: int| 0 <= j < i - 1 implies mount_of(#[trigger] rest[j], alone) is Ok by {
            assert(rest[j] == raw[j + 1]);
        }
        if i < raw.len() {
            assert(rest[i - 1] == raw[i]);
        }
        law_the_first_wrong_mount_is_told(rest, alone, i - 1);
    }
}

/// A mount is shown verified only where its number says so; an unknown number is
/// no verdict.
pub proof fn law_how_a_rename_probe_is_shown(value: i32)
    ensures
        value == 1 ==> probe_spelled(value) == "ATOMIC_VERIFIED"@,
        value == 2 ==> probe_spelled(value) == "NOT_ATOMIC"@,
        value != 1 && value != 2 ==> probe_spelled(value) == "UNTESTED"@,
{
}

/// Every mount has its line, in order, and an agent is told it may not install
/// where one of them has not passed the rename probe.
pub proof fn law_every_mount_is_shown(v: Seq<pb::Mount>, m: pb::Mount)
    ensures
        mount_lines(v.push(m)) == mount_lines(v) + ("  "@ + text::padded(m.canonical_prefix@, 24)
            + " "@ + text::padded(m.local_path@, 28) + " "@ + left_padded(
            text::dec(m.free_bytes as nat),
            12,
        ) + " bytes free"@ + "  rename_probe="@ + probe_spelled(m.rename_probe) + "\n"@),
        plain_mount_lines(v.push(m)) == plain_mount_lines(v) + ("  "@ + text::padded(
            m.canonical_prefix@,
            24,
        ) + " "@ + text::padded(m.local_path@, 28) + " "@ + left_padded(
            text::dec(m.free_bytes as nat),
            12,
        ) + " bytes free"@ + "\n"@),
        all_verified(v) <==> forall|i: int|
            0 <= i < v.len() ==> (#[trigger] v[i]).rename_probe == 1,
        v.len() > 0 && all_verified(v) ==> mounts_report(v) == "\nmounts\n"@ + mount_lines(v),
        v.len() > 0 && !all_verified(v) ==> mounts_report(v) == "\nmounts\n"@ + mount_lines(v)
            + "\nNot commit-eligible: every mount must pass the rename probe. This agent can produce output but may not install it.\n"@,
{
    assert(v.push(m).drop_last() =~= v);
    assert(v.push(m).last() == m);
    if v.len() > 0 && all_verified(v) {
        assert(mounts_report(v) =~= "\nmounts\n"@ + mount_lines(v));
    }
}

/// A number is moved to the right: blanks, then the number, so wide and no less.
pub proof fn law_what_left_padding_adds(s: Seq<char>, w: nat, i: int)
    ensures
        s.len() >= w ==> left_padded(s, w) == s,
        s.len() < w ==> left_padded(s, w).len() == w && left_padded(s, w).skip(w - s.len()) == s,
        0 <= i < w - s.len() ==> left_padded(s, w)[i] == ' ',
{
    if s.len() < w {
        assert(left_padded(s, w).skip(w - s.len()) =~= s);
    }
}

/// A run is told by what it did to the file: `saved` or `grew`, by how many
/// mebibytes. A skipped file has its reason on the next line.
pub proof fn law_how_an_attempt_is_told(
    path: Seq<char>,
    label: Seq<char>,
    why: Seq<char>,
    rejected: Option<Seq<char>>,
    delta: i64,
)
    ensures
        delta >= 0 ==> size_said(delta) == "saved "@ + Size::ratio(
            delta as nat,
            1_048_576,
        ).hundredths() + " MiB"@,
        delta < 0 ==> size_said(delta) == "grew "@ + Size::ratio(
            (-delta) as nat,
            1_048_576,
        ).hundredths() + " MiB"@,
        attempt_said(path, Some(label), rejected, delta) == "  "@ + text::padded(label, 12) + " "@
            + path + "  ("@ + size_said(delta) + ")\n"@,
        attempt_said(path, None, Some(why), delta) == "  "@ + text::padded("skipped"@, 12) + " "@
            + path + "\n               "@ + why + "\n"@,
        attempt_said(path, None, None, delta).len() == 0,
{
}

/// Preflight fails exactly where one of its probes did.
pub proof fn law_when_preflight_fails(r: PreflightReport)
    ensures
        failed_outright(r) <==> !(forall|i: int|
            0 <= i < r.probes@.len() ==> (#[trigger] r.probes@[i]).status != ProbeStatus::Fail),
{
}

/// Every library has its line, in order.
pub proof fn law_every_library_is_listed(v: Seq<Library>, l: Library)
    ensures
        library_lines(v.push(l)) == library_lines(v) + (text::padded(l.id@, 12) + " "@
            + text::padded(l.root_path@, 40) + " min_mtime_age="@ + text::dec_int(
            l.min_mtime_age_s as int,
        ) + "s\n"@),
        library_lines(Seq::empty()).len() == 0,
{
    assert(v.push(l).drop_last() =~= v);
    assert(v.push(l).last() == l);
}

/// A scan is told in its own numbers, each under its own word.
pub proof fn law_how_a_scan_is_told(id: Seq<char>, d: Discovered, e: Evaluated)
    ensures
        discovered_said(id, d) == id + ": "@ + text::dec(d.seen as nat) + " seen, "@ + text::dec(
            d.new as nat,
        ) + " new, "@ + text::dec(d.changed as nat) + " changed, "@ + text::dec(d.missing as nat)
            + " missing, "@ + text::dec(d.too_recent as nat) + " too recent ("@ + text::dec(
            d.duration_ms as nat,
        ) + " ms)\n"@,
        evaluated_said(id, e) == id + ": probed "@ + text::dec(e.probed as nat) + ", failed "@
            + text::dec(e.failed as nat) + "\n"@ + id + ": evaluated "@ + text::dec(
            e.evaluated as nat,
        ) + ", "@ + text::dec(e.jobs_created as nat) + " jobs created, "@ + text::dec(
            e.no_work as nat,
        ) + " nothing owed, "@ + text::dec(e.quarantined as nat) + " quarantined\n"@,
{
}

/// A batch says how many files it found, with which codecs, and that it works in
/// place where it does.
pub proof fn law_how_a_batch_is_told(
    files: nat,
    vcodec: Seq<char>,
    acodec: Seq<char>,
    ext: Seq<char>,
)
    ensures
        batch_heading(files, false, vcodec, acodec, ext) == "Found "@ + text::dec(files)
            + " files to transcode"@ + " (vcodec="@ + vcodec + ", acodec="@ + acodec + ", ext="@
            + ext + ")\n"@,
        batch_heading(files, true, vcodec, acodec, ext) == "Found "@ + text::dec(files)
            + " files to transcode"@ + " IN-PLACE - output will use '_transcoded' suffix"@
            + " (vcodec="@ + vcodec + ", acodec="@ + acodec + ", ext="@ + ext + ")\n"@,
{
    assert("Found "@ + text::dec(files) + " files to transcode"@ + Seq::<char>::empty() =~= "Found "@
        + text::dec(files) + " files to transcode"@);
}

/// What a survey shows of the machine: each fact under its own heading.
pub proof fn law_what_a_survey_shows(c: pb::Capability, streaming: bool)
    ensures
        machine_report(c) == "platform          "@ + c.platform@ + "\neffective cores   "@
            + c.effective_cores.shown@ + "\nphysical cores    "@ + text::dec(
            c.physical_cores as nat,
        ) + "\nclasses           "@ + text::joined(text::texts(c.classes@), ", "@)
            + "\nencoders          "@ + text::joined(text::texts(c.encoders@), ", "@)
            + "\nmuxers            "@ + text::joined(text::texts(c.muxers@), ", "@)
            + "\nwork area free    "@ + text::dec(c.workarea_free_bytes as nat)
            + " bytes\nffmpeg            "@ + c.ffmpeg_version@ + "\nffprobe           "@
            + c.ffprobe_version@ + "\ncapability hash   "@ + c.capability_hash@ + "\n"@,
        mounts_report(Seq::empty())
            == "\nmounts            none\n\nThis agent offers no mounts, so it can be given no work: every job requires a mount covering its library.\n"@,
        streaming ==> no_mounts_said(streaming)
            == "\nThis agent streams: the server sends it the source bytes and installs the result, so it needs no mounts and offers none.\n"@,
        !streaming ==> no_mounts_said(streaming)
            == "\nThis agent offers no mounts, so it can be given no work: every job requires a mount covering its library. Either pass --mount, or run it with --transport stream.\n"@,
{
}

/// An unknown preset is refused by the name that was typed, with the names there
/// are.
pub proof fn law_how_an_unknown_preset_is_refused(e: CoreError, name: Seq<char>)
    requires
        refuses_preset(e, Some(name)),
    ensures
        e matches CoreError::UnknownPreset { name: n, valid } && n@ == name && valid@
            == preset::all_names(),
{
}

} // verus!
