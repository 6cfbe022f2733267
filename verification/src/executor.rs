//! Running ffmpeg, watching it, and judging what it produced.
//!
//! Three decisions are load-bearing. Arguments go to the process as a vector,
//! never through a shell, so a filename is inert whatever it holds. Progress
//! comes through a file, so a slow reader cannot block the encoder. The
//! duration of an output is that of its last packet, never what its container
//! header claims, because a truncated file often keeps the source's header.
use vstd::prelude::*;

use crate::document;
use crate::error::AgentError;
use crate::plan;
use crate::plan::{EncodePlan, JobPaths, build_ffmpeg_argv};
use crate::probe::MediaProbe;
use crate::text;
use crate::validate;
use crate::validate::{ValidationReport, ValidationSpec, validate_output};

verus! {

/// How often the progress file is read again, in milliseconds.
pub const PROGRESS_POLL_MS: u64 = 500;

/// How many bytes of an encoder's stderr are kept.
pub const STDERR_TAIL: u64 = 4000;

/// How many bytes of a prober's stderr are kept.
pub const PROBE_TAIL: u64 = 300;

// ---------------------------------------------------------------- settings --

/// Which binaries to run and how patient to be.
#[derive(Debug, Clone)]
pub struct ExecutorConfig {
    /// The ffmpeg binary.
    pub ffmpeg: String,
    /// The ffprobe binary.
    pub ffprobe: String,
    /// Abandon an encode that runs longer than this many milliseconds. `None`
    /// for no limit.
    pub timeout_ms: Option<u64>,
}

impl Default for ExecutorConfig {
    /// The binaries on the search path and no limit: a long encode is not a
    /// hung one, and a limit low enough to catch a hang would kill real work.
    fn default() -> (r: ExecutorConfig)
        ensures
            r.ffmpeg@ == "ffmpeg"@,
            r.ffprobe@ == "ffprobe"@,
            r.timeout_ms is None,
    {
        ExecutorConfig {
            ffmpeg: "ffmpeg".to_owned(),
            ffprobe: "ffprobe".to_owned(),
            timeout_ms: None,
        }
    }
}

// ---------------------------------------------------------------- progress --

/// What ffmpeg last reported about itself.
#[derive(Debug, Clone, PartialEq, Eq)]
pub struct Progress {
    /// Output time in microseconds.
    pub out_time_us: u64,
    /// Frames written so far.
    pub frames: u64,
    /// Encoding speed, as ffmpeg reports it (e.g. `2.5x`).
    pub speed: Option<String>,
    /// Total bytes written so far.
    pub total_size: u64,
    /// Whether ffmpeg has reported itself finished.
    pub done: bool,
}

/// The contents of a [`Progress`].
pub struct ProgressModel {
    /// Output time in microseconds.
    pub out_time_us: nat,
    /// Frames written so far.
    pub frames: nat,
    /// Encoding speed.
    pub speed: Option<Seq<char>>,
    /// Total bytes written so far.
    pub total_size: nat,
    /// Whether ffmpeg has reported itself finished.
    pub done: bool,
}

impl View for Progress {
    type V = ProgressModel;

    open spec fn view(&self) -> ProgressModel {
        ProgressModel {
            out_time_us: self.out_time_us as nat,
            frames: self.frames as nat,
            speed: match self.speed {
                Some(s) => Some(s@),
                None => None,
            },
            total_size: self.total_size as nat,
            done: self.done,
        }
    }
}

/// Nothing reported yet.
pub open spec fn nothing_reported() -> ProgressModel {
    ProgressModel { out_time_us: 0, frames: 0, speed: None, total_size: 0, done: false }
}

impl Default for Progress {
    /// Nothing reported yet.
    fn default() -> (r: Progress)
        ensures
            r@ == nothing_reported(),
    {
        Progress { out_time_us: 0, frames: 0, speed: None, total_size: 0, done: false }
    }
}

impl Progress {
    /// Whether two reports say the same.
    pub fn same(&self, other: &Progress) -> (r: bool)
        ensures
            r == (self@ == other@),
    {
        let speeds = match (&self.speed, &other.speed) {
            (Some(a), Some(b)) => text::same(a.as_str(), b.as_str()),
            (None, None) => true,
            _ => false,
        };
        speeds && self.out_time_us == other.out_time_us && self.frames == other.frames
            && self.total_size == other.total_size && self.done == other.done
    }

    /// The same report again.
    pub fn duplicate(&self) -> (r: Progress)
        ensures
            r@ == self@,
    {
        let speed = match &self.speed {
            Some(s) => Some(s.clone()),
            None => None,
        };
        Progress {
            out_time_us: self.out_time_us,
            frames: self.frames,
            speed,
            total_size: self.total_size,
            done: self.done,
        }
    }
}

/// A report after one more line. ffmpeg's `out_time_ms` carries microseconds
/// despite its name. A line that is not a known `key=value` changes nothing.
pub open spec fn with_line(p: ProgressModel, line: Seq<char>) -> ProgressModel {
    match text::cut(line, '=') {
        None => p,
        Some((k, v)) => {
            let key = text::trimmed(k);
            let value = text::trimmed(v);
            if key == "out_time_us"@ || key == "out_time_ms"@ {
                ProgressModel { out_time_us: text::number_or(value, p.out_time_us), ..p }
            } else if key == "frame"@ {
                ProgressModel { frames: text::number_or(value, p.frames), ..p }
            } else if key == "total_size"@ {
                ProgressModel { total_size: text::number_or(value, p.total_size), ..p }
            } else if key == "speed"@ {
                ProgressModel { speed: Some(value), ..p }
            } else if key == "progress"@ {
                ProgressModel { done: value == "end"@, ..p }
            } else {
                p
            }
        },
    }
}

/// A report after its lines, so the last value of each key stands.
pub open spec fn reported(lines: Seq<Seq<char>>) -> ProgressModel
    decreases lines.len(),
{
    if lines.len() == 0 {
        nothing_reported()
    } else {
        with_line(reported(lines.drop_last()), lines.last())
    }
}

fn read_line(p: Progress, line: &str) -> (r: Progress)
    ensures
        r@ == with_line(p@, line@),
{
    let (key, value) = match text::split_once(line, '=') {
        None => {
            return p;
        },
        Some((k, v)) => (text::trim(k.as_str()), text::trim(v.as_str())),
    };
    let mut p = p;
    let k = key.as_str();
    let v = value.as_str();
    if text::same(k, "out_time_us") || text::same(k, "out_time_ms") {
        p.out_time_us = text::parse_or(v, p.out_time_us);
    } else if text::same(k, "frame") {
        p.frames = text::parse_or(v, p.frames);
    } else if text::same(k, "total_size") {
        p.total_size = text::parse_or(v, p.total_size);
    } else if text::same(k, "speed") {
        p.speed = Some(value);
    } else if text::same(k, "progress") {
        p.done = text::same(v, "end");
    }
    p
}

/// Reads ffmpeg's progress file.
#[derive(Debug, Clone)]
pub struct ProgressTailer {
    /// Where ffmpeg writes.
    pub file: String,
}

impl ProgressTailer {
    /// Watch the given progress file.
    pub fn new(path: String) -> (r: ProgressTailer)
        ensures
            r.file == path,
    {
        ProgressTailer { file: path }
    }

    /// Where ffmpeg writes.
    pub fn path(&self) -> (r: &str)
        ensures
            r@ == self.file@,
    {
        self.file.as_str()
    }

    /// The most recent report, of what reading the file gave. A file that could
    /// not be read has reported nothing.
    pub fn read(found: Option<&str>) -> (r: Progress)
        ensures
            found is None ==> r@ == nothing_reported(),
            found matches Some(t) ==> r@ == reported(text::lines(t@)),
    {
        match found {
            Some(t) => ProgressTailer::parse(t),
            None => Progress::default(),
        }
    }

    /// Parse the contents of a progress file.
    pub fn parse(text: &str) -> (r: Progress)
        ensures
            r@ == reported(text::lines(text@)),
    {
        let lines = text::split_lines(text);
        let ghost all = text::texts(lines@);
        let mut p = Progress::default();
        let mut i: usize = 0;
        assert(all.take(0) =~= Seq::<Seq<char>>::empty());
        while i < lines.len()
            invariant
                i <= lines@.len(),
                all == text::texts(lines@),
                p@ == reported(all.take(i as int)),
            decreases lines.len() - i,
        {
            assert(all.take(i + 1).drop_last() =~= all.take(i as int));
            assert(all.take(i + 1).last() == lines@[i as int]@);
            p = read_line(p, lines[i].as_str());
            i += 1;
        }
        assert(all.take(i as int) =~= all);
        p
    }
}

/// The newest value of a key stands, whatever was reported before it, and a
/// value of one key leaves the others alone.
pub proof fn law_the_latest_block_wins(
    before: Seq<Seq<char>>,
    line: Seq<char>,
    key: Seq<char>,
    value: Seq<char>,
)
    requires
        text::cut(line, '=') == Some((key, value)),
    ensures
        text::trimmed(key) == "progress"@ ==> reported(before.push(line)) == (ProgressModel {
            done: text::trimmed(value) == "end"@,
            ..reported(before)
        }),
        text::trimmed(key) == "speed"@ ==> reported(before.push(line)) == (ProgressModel {
            speed: Some(text::trimmed(value)),
            ..reported(before)
        }),
        text::parsed_within(text::trimmed(value), u64::MAX as nat) matches Some(n) ==> {
            &&& text::trimmed(key) == "frame"@ ==> reported(before.push(line)) == (ProgressModel {
                frames: n,
                ..reported(before)
            })
            &&& text::trimmed(key) == "total_size"@ ==> reported(before.push(line))
                == (ProgressModel { total_size: n, ..reported(before) })
            &&& text::trimmed(key) == "out_time_us"@ || text::trimmed(key) == "out_time_ms"@
                ==> reported(before.push(line)) == (ProgressModel {
                out_time_us: n,
                ..reported(before)
            })
        },
{
    lemma_keys_differ();
    assert(before.push(line).drop_last() =~= before);
}

/// What a line says of a key, where it is a `key=value` of that key.
pub open spec fn said_of(line: Seq<char>, key: Seq<char>) -> Option<Seq<char>> {
    match text::cut(line, '=') {
        Some((k, v)) => if text::trimmed(k) == key {
            Some(text::trimmed(v))
        } else {
            None
        },
        None => None,
    }
}

/// The last value that lines give a key.
pub open spec fn last_said_of(lines: Seq<Seq<char>>, key: Seq<char>) -> Option<Seq<char>>
    decreases lines.len(),
{
    if lines.len() == 0 {
        None
    } else {
        match said_of(lines.last(), key) {
            Some(v) => Some(v),
            None => last_said_of(lines.drop_last(), key),
        }
    }
}

/// The number a line gives one of two keys. A value that is no number says
/// nothing.
pub open spec fn number_of(line: Seq<char>, key: Seq<char>, other: Seq<char>) -> Option<nat> {
    match (said_of(line, key), said_of(line, other)) {
        (Some(v), _) => text::parsed_within(v, u64::MAX as nat),
        (None, Some(v)) => text::parsed_within(v, u64::MAX as nat),
        (None, None) => None,
    }
}

/// The last number that lines give one of two keys.
pub open spec fn last_number_of(lines: Seq<Seq<char>>, key: Seq<char>, other: Seq<char>) -> Option<
    nat,
>
    decreases lines.len(),
{
    if lines.len() == 0 {
        None
    } else {
        match number_of(lines.last(), key, other) {
            Some(n) => Some(n),
            None => last_number_of(lines.drop_last(), key, other),
        }
    }
}

/// A report with what later lines set in place of what it says.
pub open spec fn overlaid(p: ProgressModel, later: Seq<Seq<char>>) -> ProgressModel {
    ProgressModel {
        out_time_us: match last_number_of(later, "out_time_us"@, "out_time_ms"@) {
            Some(n) => n,
            None => p.out_time_us,
        },
        frames: match last_number_of(later, "frame"@, "frame"@) {
            Some(n) => n,
            None => p.frames,
        },
        speed: match last_said_of(later, "speed"@) {
            Some(v) => Some(v),
            None => p.speed,
        },
        total_size: match last_number_of(later, "total_size"@, "total_size"@) {
            Some(n) => n,
            None => p.total_size,
        },
        done: match last_said_of(later, "progress"@) {
            Some(v) => v == "end"@,
            None => p.done,
        },
    }
}

proof fn lemma_keys_differ()
    ensures
        "out_time_us"@ != "frame"@ && "out_time_us"@ != "total_size"@ && "out_time_us"@ != "speed"@
            && "out_time_us"@ != "progress"@,
        "out_time_ms"@ != "frame"@ && "out_time_ms"@ != "total_size"@ && "out_time_ms"@ != "speed"@
            && "out_time_ms"@ != "progress"@,
        "frame"@ != "total_size"@ && "frame"@ != "speed"@ && "frame"@ != "progress"@,
        "total_size"@ != "speed"@ && "total_size"@ != "progress"@ && "speed"@ != "progress"@,
{
    reveal_strlit("out_time_us");
    reveal_strlit("out_time_ms");
    reveal_strlit("frame");
    reveal_strlit("total_size");
    reveal_strlit("speed");
    reveal_strlit("progress");
    assert("progress"@.len() == 8 && "out_time_us"@.len() == 11 && "out_time_ms"@.len() == 11);
    assert("frame"@.len() == 5 && "total_size"@.len() == 10 && "speed"@.len() == 5);
    assert("frame"@[0] == 'f' && "speed"@[0] == 's');
}

proof fn lemma_reports_add_up(a: Seq<Seq<char>>, b: Seq<Seq<char>>)
    ensures
        reported(a + b) == overlaid(reported(a), b),
    decreases b.len(),
{
    if b.len() == 0 {
        assert(a + b =~= a);
    } else {
        assert((a + b).drop_last() =~= a + b.drop_last());
        assert((a + b).last() == b.last());
        lemma_reports_add_up(a, b.drop_last());
        lemma_keys_differ();
    }
}

/// What is reported later wins, key by key: of two texts, one after the other,
/// each field is the later one's where that sets it, and else the earlier
/// one's. A text that says nothing reports nothing.
pub proof fn law_later_reports_win(a: Seq<char>, b: Seq<char>)
    requires
        a.len() == 0 || a.last() == '\n',
    ensures
        reported(text::lines(a + b)) == overlaid(reported(text::lines(a)), text::lines(b)),
        a.len() == 0 ==> reported(text::lines(a)) == nothing_reported(),
{
    text::law_lines_add_up(a, b);
    lemma_reports_add_up(text::lines(a), text::lines(b));
}

// ------------------------------------------------------------------ a run --

/// What one ffmpeg run produced.
#[derive(Debug, Clone)]
pub struct Execution {
    /// The exact argv, for reproducing the run by hand.
    pub argv: Vec<String>,
    /// Process exit code, or -1 if it was signalled.
    pub exit_code: i32,
    /// Signal that killed it, if any.
    pub signal: Option<i32>,
    /// The tail of stderr, for the operator.
    pub stderr_tail: String,
    /// Bytes written.
    pub output_bytes: u64,
    /// How long it ran, in milliseconds.
    pub elapsed_ms: u64,
    /// The final progress report.
    pub progress: Progress,
}

/// What watching a running encode asks for next.
#[derive(Debug, Clone)]
pub enum Watch {
    /// The process has ended: collect what it left.
    Finish,
    /// It ran past its limit: kill it, wait for it, collect what it left.
    Abandon,
    /// It reported something new: pass that on, then look again later.
    Report(Progress),
    /// Nothing new: look again later.
    Wait,
}

/// An encode being watched: the last report that was passed on.
#[derive(Debug, Clone)]
pub struct Watcher {
    /// The last report that was passed on.
    pub last: Progress,
}

impl Watcher {
    /// Nothing has been passed on yet.
    pub fn new() -> (r: Watcher)
        ensures
            r.last@ == nothing_reported(),
    {
        Watcher { last: Progress::default() }
    }

    /// What to do after one look at the process: whether it has ended, for how
    /// long it has been running, and what its progress file says.
    pub fn look(&mut self, ended: bool, elapsed_ms: u64, limit_ms: Option<u64>, seen: Progress) -> (r:
        Watch)
        ensures
            ended ==> r is Finish && final(self).last@ == old(self).last@,
            !ended && past_limit(elapsed_ms, limit_ms) ==> r is Abandon && final(self).last@ == old(
                self,
            ).last@,
            !ended && !past_limit(elapsed_ms, limit_ms) ==> final(self).last@ == seen@ && (
            if seen@ == old(self).last@ {
                r is Wait
            } else {
                r matches Watch::Report(p) && p@ == seen@
            }),
    {
        if ended {
            return Watch::Finish;
        }
        if let Some(limit) = limit_ms {
            if elapsed_ms >= limit {
                return Watch::Abandon;
            }
        }
        if seen.same(&self.last) {
            return Watch::Wait;
        }
        self.last = seen.duplicate();
        Watch::Report(seen)
    }
}

/// Whether a run has reached its limit.
pub open spec fn past_limit(elapsed_ms: u64, limit_ms: Option<u64>) -> bool {
    limit_ms matches Some(limit) && elapsed_ms >= limit
}

/// The arguments ffmpeg is launched with: it must not read the parent's
/// standard input, and it reports to a file.
pub open spec fn launched(progress_path: Seq<char>, argv: Seq<Seq<char>>) -> Seq<Seq<char>> {
    seq!["-nostdin"@, "-progress"@, progress_path] + argv
}

/// The error of an ffprobe that exited with `code` and wrote `stderr`.
pub open spec fn probe_reason(code: Option<i32>, stderr: Seq<char>) -> Seq<char> {
    "ffprobe exited "@ + text::dec_int(
        match code {
            Some(c) => c as int,
            None => -1,
        },
    ) + ": "@ + text::tail_of(stderr, PROBE_TAIL as nat)
}

/// A probe with its duration measured from the last packet.
pub open spec fn measured(parsed: MediaProbe, last_packet_us: Option<u64>) -> MediaProbe {
    MediaProbe { duration_us: last_packet_us, ..parsed }
}

/// The largest of the packet times, if there is any.
pub open spec fn latest(times_us: Seq<u64>) -> Option<u64>
    decreases times_us.len(),
{
    if times_us.len() == 0 {
        None
    } else {
        match latest(times_us.drop_last()) {
            Some(t) => if t >= times_us.last() {
                Some(t)
            } else {
                Some(times_us.last())
            },
            None => Some(times_us.last()),
        }
    }
}

/// Runs encodes and validates their output.
#[derive(Debug, Clone)]
pub struct Executor {
    /// Which binaries to run and how patient to be.
    pub config: ExecutorConfig,
}

impl Executor {
    /// Build an executor.
    pub fn new(config: ExecutorConfig) -> (r: Executor)
        ensures
            r.config == config,
    {
        Executor { config }
    }

    /// The argv that would be run, without running it.
    pub fn argv_for(&self, plan: &EncodePlan, paths: &JobPaths) -> (r: Vec<String>)
        ensures
            text::texts(r@) == plan::ffmpeg_argv(
                plan.video_codec.ffmpeg(),
                plan.audio_codec.ffmpeg(),
                plan.pix_fmt,
                text::texts(plan.extra_args@),
                paths.input@,
                paths.output@,
            ),
    {
        build_ffmpeg_argv(plan, paths)
    }

    /// What one encode is launched with, from a plan.
    pub fn run(&self, plan: &EncodePlan, paths: &JobPaths, progress_path: &str) -> (r: Vec<String>)
        ensures
            text::texts(r@) == launched(
                progress_path@,
                plan::ffmpeg_argv(
                    plan.video_codec.ffmpeg(),
                    plan.audio_codec.ffmpeg(),
                    plan.pix_fmt,
                    text::texts(plan.extra_args@),
                    paths.input@,
                    paths.output@,
                ),
            ),
    {
        let argv = self.argv_for(plan, paths);
        self.run_argv(argv.as_slice(), progress_path)
    }

    /// What one encode is launched with, from an argv composed elsewhere. A
    /// dispatched argv is run as it stands.
    pub fn run_argv(&self, argv: &[String], progress_path: &str) -> (r: Vec<String>)
        ensures
            text::texts(r@) == launched(progress_path@, text::texts(argv@)),
    {
        let mut r: Vec<String> = Vec::new();
        text::push_text(&mut r, "-nostdin");
        text::push_text(&mut r, "-progress");
        text::push_text(&mut r, progress_path);
        assert(text::texts(r@) =~= seq!["-nostdin"@, "-progress"@, progress_path@]);
        text::push_texts(&mut r, argv);
        r
    }

    /// The error of a program that could not be started or waited on.
    pub fn launch_error(program: &str, why: &str) -> (r: AgentError)
        ensures
            r matches AgentError::Execute { program: p, source } && p@ == program@ && source@ == why@,
    {
        AgentError::Execute { program: program.to_owned(), source: why.to_owned() }
    }

    /// What a finished run amounts to. `code` is the exit code where the
    /// process exited by itself.
    pub fn finished(
        argv: Vec<String>,
        code: Option<i32>,
        signal: Option<i32>,
        stderr: &str,
        output_bytes: Option<u64>,
        elapsed_ms: u64,
        progress: Progress,
    ) -> (r: Execution)
        ensures
            r.argv == argv,
            r.exit_code == (match code {
                Some(c) => c,
                None => -1i32,
            }),
            r.signal == signal,
            r.stderr_tail@ == text::tail_of(stderr@, STDERR_TAIL as nat),
            r.output_bytes == (match output_bytes {
                Some(n) => n,
                None => 0,
            }),
            r.elapsed_ms == elapsed_ms,
            r.progress == progress,
    {
        Execution {
            argv,
            exit_code: match code {
                Some(c) => c,
                None => -1,
            },
            signal,
            stderr_tail: text::tail(stderr, STDERR_TAIL),
            output_bytes: match output_bytes {
                Some(n) => n,
                None => 0,
            },
            elapsed_ms,
            progress,
        }
    }

    /// The arguments that make ffprobe describe a file.
    pub fn probe_args(path: &str) -> (r: Vec<String>)
        ensures
            text::texts(r@) == seq![
                "-v"@,
                "error"@,
                "-print_format"@,
                "json"@,
                "-show_format"@,
                "-show_streams"@,
                path@,
            ],
    {
        let mut r: Vec<String> = Vec::new();
        text::push_text(&mut r, "-v");
        text::push_text(&mut r, "error");
        text::push_text(&mut r, "-print_format");
        text::push_text(&mut r, "json");
        text::push_text(&mut r, "-show_format");
        text::push_text(&mut r, "-show_streams");
        text::push_text(&mut r, path);
        assert(text::texts(r@) =~= seq![
            "-v"@,
            "error"@,
            "-print_format"@,
            "json"@,
            "-show_format"@,
            "-show_streams"@,
            path@,
        ]);
        r
    }

    /// The arguments that make ffprobe list the packet times of the first video
    /// stream over an interval.
    pub fn packet_args(interval: &str, path: &str) -> (r: Vec<String>)
        ensures
            text::texts(r@) == seq![
                "-v"@,
                "error"@,
                "-select_streams"@,
                "v:0"@,
                "-show_entries"@,
                "packet=pts_time"@,
                "-of"@,
                "csv=p=0"@,
                "-read_intervals"@,
                interval@,
                path@,
            ],
    {
        let mut r: Vec<String> = Vec::new();
        text::push_text(&mut r, "-v");
        text::push_text(&mut r, "error");
        text::push_text(&mut r, "-select_streams");
        text::push_text(&mut r, "v:0");
        text::push_text(&mut r, "-show_entries");
        text::push_text(&mut r, "packet=pts_time");
        text::push_text(&mut r, "-of");
        text::push_text(&mut r, "csv=p=0");
        text::push_text(&mut r, "-read_intervals");
        text::push_text(&mut r, interval);
        text::push_text(&mut r, path);
        assert(text::texts(r@) =~= seq![
            "-v"@,
            "error"@,
            "-select_streams"@,
            "v:0"@,
            "-show_entries"@,
            "packet=pts_time"@,
            "-of"@,
            "csv=p=0"@,
            "-read_intervals"@,
            interval@,
            path@,
        ]);
        r
    }

    /// The arguments that make ffprobe print the header's duration. Used only
    /// to decide where to seek.
    pub fn header_args(path: &str) -> (r: Vec<String>)
        ensures
            text::texts(r@) == seq![
                "-v"@,
                "error"@,
                "-show_entries"@,
                "format=duration"@,
                "-of"@,
                "csv=p=0"@,
                path@,
            ],
    {
        let mut r: Vec<String> = Vec::new();
        text::push_text(&mut r, "-v");
        text::push_text(&mut r, "error");
        text::push_text(&mut r, "-show_entries");
        text::push_text(&mut r, "format=duration");
        text::push_text(&mut r, "-of");
        text::push_text(&mut r, "csv=p=0");
        text::push_text(&mut r, path);
        assert(text::texts(r@) =~= seq![
            "-v"@,
            "error"@,
            "-show_entries"@,
            "format=duration"@,
            "-of"@,
            "csv=p=0"@,
            path@,
        ]);
        r
    }

    /// The error of an ffprobe that did not succeed.
    pub fn probe_error(path: &str, code: Option<i32>, stderr: &str) -> (r: AgentError)
        ensures
            r matches AgentError::Probe { path: p, reason } && p@ == path@ && reason@ == probe_reason(
                code,
                stderr@,
            ),
    {
        let mut reason = "ffprobe exited ".to_owned();
        match code {
            Some(c) => text::push_i64(&mut reason, c as i64),
            None => text::push_i64(&mut reason, -1),
        }
        reason.append(": ");
        reason.append(text::tail(stderr, PROBE_TAIL).as_str());
        AgentError::Probe { path: path.to_owned(), reason }
    }

    /// The presentation time of the last packet: the largest of those read, since
    /// packets need not come in presentation order.
    pub fn last_packet_pts_us(times_us: &[u64]) -> (r: Option<u64>)
        ensures
            r == latest(times_us@),
    {
        let mut r: Option<u64> = None;
        let mut i: usize = 0;
        assert(times_us@.take(0) =~= Seq::<u64>::empty());
        while i < times_us.len()
            invariant
                i <= times_us@.len(),
                r == latest(times_us@.take(i as int)),
            decreases times_us.len() - i,
        {
            assert(times_us@.take(i + 1).drop_last() =~= times_us@.take(i as int));
            let t: u64 = times_us[i];
            r = match r {
                Some(b) => if b >= t {
                    Some(b)
                } else {
                    Some(t)
                },
                None => Some(t),
            };
            i += 1;
        }
        assert(times_us@.take(i as int) =~= times_us@);
        r
    }

    /// An output's probe for validation: its duration is the presentation time
    /// of its last packet, whatever the container header claims. Where no
    /// packet could be read there is no duration, and the output does not pass
    /// as media.
    pub fn probe_output(parsed: MediaProbe, last_packet_us: Option<u64>) -> (r: MediaProbe)
        ensures
            r == measured(parsed, last_packet_us),
    {
        let mut r = parsed;
        r.duration_us = last_packet_us;
        r
    }

    /// Judge an output against the ordered gates. An output that could not be
    /// probed is a failed validation, not an error to be retried past.
    pub fn validate(
        &self,
        spec: &ValidationSpec,
        probed: Option<MediaProbe>,
        exit_code: i32,
        output_bytes: Option<u64>,
    ) -> (r: ValidationReport)
        ensures
            probed matches Some(p) ==> validate::reports(
                r,
                validate::judged(
                    *spec,
                    p,
                    exit_code,
                    match output_bytes {
                        Some(n) => n,
                        None => 0,
                    },
                ),
            ),
            probed is None ==> !r.passed,
            probed is None && exit_code == 0 ==> {
                &&& r.failed_gate == Some(validate::ValidationGate::Probe)
                &&& r.detail@ == "output has no readable duration"@
                &&& r.gates_run@ == validate::ValidationGate::spec_order().take(2)
            },
            probed is None && exit_code != 0 ==> {
                &&& r.failed_gate == Some(validate::ValidationGate::ExitCode)
                &&& r.detail@ == "ffmpeg exited "@ + text::dec_int(exit_code as int)
                &&& r.gates_run@ == validate::ValidationGate::spec_order().take(1)
            },
    {
        let bytes: u64 = match output_bytes {
            Some(n) => n,
            None => 0,
        };
        match probed {
            Some(p) => validate_output(spec, &p, exit_code, bytes),
            None => validate_output(spec, &MediaProbe::default(), exit_code, bytes),
        }
    }
}

// ------------------------------------------------------------- reproduction --

/// A list of texts as indented JSON.
pub open spec fn pretty_list(parts: Seq<Seq<char>>) -> Seq<char> {
    if parts.len() == 0 {
        "[]"@
    } else {
        "[\n  "@ + text::joined(parts.map_values(|p: Seq<char>| document::json_string(p)), ",\n  "@)
            + "\n]"@
    }
}

/// Wraps `serde_json::to_string_pretty` on a list of strings, which always
/// succeeds: `[]` for an empty list, and otherwise each string as JSON on a
/// line of its own, two spaces deep, between brackets.
#[verifier::external_body]
pub(crate) fn pretty_texts(list: &[String]) -> (r: String)
    ensures
        r@ == pretty_list(text::texts(list@)),
{
    serde_json::to_string_pretty(list).unwrap_or_default()
}

/// What is written to a file before an argv is run, so that a failure can be
/// reproduced even when the process dies before reporting anything.
pub fn persist_argv(argv: &[String]) -> (r: String)
    ensures
        r@ == pretty_list(text::texts(argv@)),
{
    pretty_texts(argv)
}

/// The container header has no say: two probes that differ only in what their
/// headers claim are judged alike. An output without a readable packet does not
/// pass, and neither does one whose last packet comes too early.
pub proof fn law_the_header_is_never_the_answer(
    spec: ValidationSpec,
    parsed: MediaProbe,
    other: MediaProbe,
    last_packet_us: Option<u64>,
    exit_code: i32,
    out_bytes: u64,
)
    requires
        parsed == (MediaProbe { duration_us: parsed.duration_us, ..other }),
    ensures
        validate::judged(spec, measured(parsed, last_packet_us), exit_code, out_bytes)
            == validate::judged(spec, measured(other, last_packet_us), exit_code, out_bytes),
        last_packet_us is None ==> validate::judged(
            spec,
            measured(parsed, last_packet_us),
            exit_code,
            out_bytes,
        ) is Some,
        last_packet_us matches Some(t) && t + spec.max_shorter_us < spec.source_duration_us
            ==> validate::judged(
            spec,
            measured(parsed, last_packet_us),
            exit_code,
            out_bytes,
        ) is Some,
{
}

/// The time limit is kept to the millisecond: a run is past it exactly from the
/// moment it is reached, and a run without a limit never is.
pub proof fn law_when_a_run_is_past_its_limit(elapsed_ms: u64, limit: u64)
    ensures
        past_limit(elapsed_ms, Some(limit)) <==> elapsed_ms >= limit,
        !past_limit(elapsed_ms, None),
{
}

/// What is started is the encode as planned, told first to read no input and to
/// report its progress to the file that is watched.
pub proof fn law_the_plan_is_started_as_it_is(
    progress_path: Seq<char>,
    argv: Seq<Seq<char>>,
    k: int,
)
    ensures
        launched(progress_path, argv).len() == argv.len() + 3,
        launched(progress_path, argv)[0] == "-nostdin"@,
        launched(progress_path, argv)[1] == "-progress"@,
        launched(progress_path, argv)[2] == progress_path,
        0 <= k < argv.len() ==> launched(progress_path, argv)[k + 3] == argv[k],
{
}

/// The last packet is the latest one, wherever it stands: no packet is later, and
/// it is one of them.
pub proof fn law_the_last_packet_is_the_latest(times_us: Seq<u64>, k: int)
    ensures
        latest(times_us) is None <==> times_us.len() == 0,
        latest(times_us) matches Some(t) ==> times_us.contains(t),
        0 <= k < times_us.len() ==> times_us[k] <= latest(times_us)->0,
    decreases times_us.len(),
{
    if times_us.len() > 0 {
        let head = times_us.drop_last();
        law_the_last_packet_is_the_latest(head, k);
        assert(times_us[times_us.len() - 1] == times_us.last());
        if let Some(t) = latest(head) {
            let i = choose|i: int| 0 <= i < head.len() && head[i] == t;
            assert(times_us[i] == t);
        }
        if 0 <= k < head.len() {
            assert(head[k] == times_us[k]);
        }
    }
}

/// A measured output keeps everything that was probed but the length, which is
/// the time of the last packet.
pub proof fn law_only_the_length_is_measured(parsed: MediaProbe, last_packet_us: Option<u64>)
    ensures
        measured(parsed, last_packet_us).duration_us == last_packet_us,
        measured(parsed, last_packet_us).streams == parsed.streams,
        measured(parsed, last_packet_us).container == parsed.container,
        measured(parsed, last_packet_us).bit_rate_bps == parsed.bit_rate_bps,
{
}

/// A line says something of a key where the text before its first `=` is that
/// key, blanks aside; a line that says nothing of the five keys changes nothing.
pub proof fn law_other_lines_change_nothing(p: ProgressModel, line: Seq<char>)
    requires
        text::cut(line, '=') matches Some((k, _)) ==> {
            let key = text::trimmed(k);
            key != "out_time_us"@ && key != "out_time_ms"@ && key != "frame"@ && key
                != "total_size"@ && key != "speed"@ && key != "progress"@
        },
    ensures
        with_line(p, line) == p,
{
}

/// A failed probe is told with its exit code, or -1 where it has none, and the
/// end of what it printed.
pub proof fn law_a_failed_probe_is_told(code: Option<i32>, stderr: Seq<char>)
    ensures
        code matches Some(c) ==> probe_reason(code, stderr) == "ffprobe exited "@ + text::dec_int(
            c as int,
        ) + ": "@ + text::tail_of(stderr, PROBE_TAIL as nat),
        code is None ==> probe_reason(code, stderr) == "ffprobe exited "@ + text::dec_int(-1)
            + ": "@ + text::tail_of(stderr, PROBE_TAIL as nat),
{
}

/// What is kept of a run's log and of a failed probe's is the end of it: four
/// thousand bytes of the one and three hundred of the other.
pub proof fn law_how_much_of_a_log_is_kept(stderr: Seq<char>)
    ensures
        text::byte_len(stderr) <= 4000 ==> text::tail_of(stderr, STDERR_TAIL as nat) == stderr,
        text::byte_len(stderr) <= 300 ==> text::tail_of(stderr, PROBE_TAIL as nat) == stderr,
        text::fitting(stderr, 4000) is Some ==> text::byte_len(
            text::tail_of(stderr, STDERR_TAIL as nat),
        ) <= 4000,
        text::fitting(stderr, 300) is Some ==> text::byte_len(
            text::tail_of(stderr, PROBE_TAIL as nat),
        ) <= 300,
{
    let i = text::law_a_tail_is_the_end(stderr, 4000);
    let j = text::law_a_tail_is_the_end(stderr, 300);
}

/// A command is kept as a list of its arguments, one on a line.
pub proof fn law_how_a_command_is_kept(parts: Seq<Seq<char>>)
    ensures
        parts.len() == 0 ==> pretty_list(parts) == "[]"@,
        parts.len() == 1 ==> pretty_list(parts) == "[\n  "@ + document::json_string(parts[0])
            + "\n]"@,
        parts.len() > 0 ==> "[\n  "@.is_prefix_of(pretty_list(parts)),
{
}

} // verus!
