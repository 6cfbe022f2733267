//! Trial decoding: finding out what the hardware actually does.
//!
//! An encoder list is a claim, not a capability. A decoder can fail hard, with
//! an exit code, and it can fail soft: ffmpeg exits 0 and reports every frame,
//! having silently decoded on the CPU. The soft case is the dangerous one, and
//! it has a verdict of its own.
use vstd::prelude::*;

use crate::capability::{DecoderCapability, DecoderKind, DecoderStatus, DecoderTriple};
use crate::probe_samples::TRIAL_SAMPLE_FRAMES;
use crate::text;

verus! {

/// What one trial decode produced.
#[derive(Debug, Clone, PartialEq, Eq)]
pub struct TrialOutcome {
    /// Process exit code, or `None` if it did not exit normally.
    pub exit_code: Option<i32>,
    /// Signal that killed it, where the platform reports one.
    pub signal: Option<i32>,
    /// ffmpeg's progress output, which carries the frame count.
    pub stdout: String,
    /// ffmpeg's stderr, which is where the fallback admits itself.
    pub stderr: String,
    /// Frames the sample contains, and so the number a full decode reports.
    pub expected_frames: u64,
}

/// Phrases ffmpeg emits when a hardware decoder declines and software takes
/// over. Nothing else tells a soft fallback from a hardware decode.
pub open spec fn fallback_markers() -> Seq<Seq<char>> {
    seq![
        "no decoder surfaces left"@,
        "hwaccel initialisation returned error"@,
        "hwaccel initialization returned error"@,
        "failed setup for format cuda"@,
        "hardware is lacking required capabilities"@,
        "using auto hwaccel type none"@,
        "cannot load nvcuvid"@,
        "decoder does not support"@,
        "falling back to software decoding"@,
    ]
}

fn marker_list() -> (r: Vec<String>)
    ensures
        text::texts(r@) == fallback_markers(),
{
    let mut r: Vec<String> = Vec::new();
    text::push_text(&mut r, "no decoder surfaces left");
    text::push_text(&mut r, "hwaccel initialisation returned error");
    text::push_text(&mut r, "hwaccel initialization returned error");
    text::push_text(&mut r, "failed setup for format cuda");
    text::push_text(&mut r, "hardware is lacking required capabilities");
    text::push_text(&mut r, "using auto hwaccel type none");
    text::push_text(&mut r, "cannot load nvcuvid");
    text::push_text(&mut r, "decoder does not support");
    text::push_text(&mut r, "falling back to software decoding");
    assert(text::texts(r@) =~= fallback_markers());
    r
}

/// The first of the markers that a text contains.
pub open spec fn first_marker(hay: Seq<char>, markers: Seq<Seq<char>>) -> Option<Seq<char>>
    decreases markers.len(),
{
    if markers.len() == 0 {
        None
    } else if text::has(hay, markers[0]) {
        Some(markers[0])
    } else {
        first_marker(hay, markers.skip(1))
    }
}

/// Where stderr admits that the CPU did the work, whatever its capitalisation.
pub open spec fn fallback_admitted(stderr: Seq<char>) -> Option<Seq<char>> {
    first_marker(text::ascii_lower(stderr), fallback_markers())
}

fn admitted(stderr: &str) -> (r: Option<String>)
    ensures
        r is Some == fallback_admitted(stderr@) is Some,
        r matches Some(m) ==> fallback_admitted(stderr@) == Some(m@),
{
    let hay = text::to_ascii_lower(stderr);
    let markers = marker_list();
    let ghost all = text::texts(markers@);
    let mut i: usize = 0;
    assert(all.skip(0) =~= all);
    while i < markers.len()
        invariant
            i <= markers@.len(),
            all == text::texts(markers@),
            first_marker(hay@, all.skip(i as int)) == fallback_admitted(stderr@),
        decreases markers.len() - i,
    {
        assert(all.skip(i as int)[0] == markers@[i as int]@);
        assert(all.skip(i as int).skip(1) =~= all.skip(i + 1));
        if text::contains(hay.as_str(), markers[i].as_str()) {
            return Some(markers[i].clone());
        }
        i += 1;
    }
    None
}

/// The frame count a line of progress output gives.
pub open spec fn frame_count(line: Seq<char>) -> Option<nat> {
    match text::after_prefix(text::trimmed(line), "frame="@) {
        Some(v) => text::parsed_within(text::trimmed(v), u64::MAX as nat),
        None => None,
    }
}

/// The last frame count that lines of progress output give.
pub open spec fn last_frame_count(lines: Seq<Seq<char>>) -> Option<nat>
    decreases lines.len(),
{
    if lines.len() == 0 {
        None
    } else {
        match frame_count(lines.last()) {
            Some(n) => Some(n),
            None => last_frame_count(lines.drop_last()),
        }
    }
}

fn count_on(line: &str) -> (r: Option<u64>)
    ensures
        r is Some == frame_count(line@) is Some,
        r matches Some(n) ==> frame_count(line@) == Some(n as nat),
{
    let t = text::trim(line);
    match text::strip_prefix(t.as_str(), "frame=") {
        Some(v) => text::parse_u64(text::trim(v.as_str()).as_str()),
        None => None,
    }
}

/// The frame count ffmpeg reported. Progress output repeats its keys, so the
/// last count is the final one; none at all means nothing was decoded.
pub fn parse_frames_decoded(progress_stdout: &str) -> (r: Option<u64>)
    ensures
        r is Some == last_frame_count(text::lines(progress_stdout@)) is Some,
        r matches Some(n) ==> last_frame_count(text::lines(progress_stdout@)) == Some(n as nat),
{
    let lines = text::split_lines(progress_stdout);
    let ghost all = text::texts(lines@);
    let mut i: usize = lines.len();
    assert(all.take(i as int) =~= all);
    while i > 0
        invariant
            i <= lines@.len(),
            all == text::texts(lines@),
            last_frame_count(all.take(i as int)) == last_frame_count(
                text::lines(progress_stdout@),
            ),
        decreases i,
    {
        assert(all.take(i as int).last() == lines@[i - 1]@);
        assert(all.take(i as int).drop_last() =~= all.take(i - 1));
        if let Some(n) = count_on(lines[i - 1].as_str()) {
            return Some(n);
        }
        i -= 1;
    }
    None
}

/// The last line that is not blank.
pub open spec fn last_said(lines: Seq<Seq<char>>) -> Seq<char>
    decreases lines.len(),
{
    if lines.len() == 0 {
        "no stderr"@
    } else if text::trimmed(lines.last()).len() > 0 {
        lines.last()
    } else {
        last_said(lines.drop_last())
    }
}

fn last_words(stderr: &str) -> (r: String)
    ensures
        r@ == last_said(text::lines(stderr@)),
{
    let lines = text::split_lines(stderr);
    let ghost all = text::texts(lines@);
    let mut i: usize = lines.len();
    assert(all.take(i as int) =~= all);
    while i > 0
        invariant
            i <= lines@.len(),
            all == text::texts(lines@),
            last_said(all.take(i as int)) == last_said(text::lines(stderr@)),
        decreases i,
    {
        assert(all.take(i as int).last() == lines@[i - 1]@);
        assert(all.take(i as int).drop_last() =~= all.take(i - 1));
        if !text::trim(lines[i - 1].as_str()).as_str().is_empty() {
            return lines[i - 1].clone();
        }
        i -= 1;
    }
    "no stderr".to_owned()
}

/// The verdict on a trial decode, with its evidence. The fallback comes before
/// the frames, because a soft fallback decodes every one of them.
pub open spec fn verdict(o: TrialOutcome) -> (DecoderStatus, Seq<char>) {
    if let Some(sig) = o.signal {
        (DecoderStatus::VerifiedFail, "killed by signal "@ + text::dec_int(sig as int))
    } else if o.exit_code != Some(0i32) {
        let last = last_said(text::lines(o.stderr@));
        (
            DecoderStatus::VerifiedFail,
            match o.exit_code {
                Some(c) => "exit "@ + text::dec_int(c as int) + ": "@ + last,
                None => "did not exit normally: "@ + last,
            },
        )
    } else if let Some(m) = fallback_admitted(o.stderr@) {
        (DecoderStatus::VerifiedSoftFallback, "decoded on the CPU: stderr contains '"@ + m + "'"@)
    } else {
        match last_frame_count(text::lines(o.stdout@)) {
            Some(n) => if n >= o.expected_frames {
                (DecoderStatus::VerifiedOk, "decoded all "@ + text::dec(n) + " frames"@)
            } else {
                (
                    DecoderStatus::VerifiedFail,
                    "decoded "@ + text::dec(n) + " of "@ + text::dec(o.expected_frames as nat)
                        + " frames"@,
                )
            },
            None => (
                DecoderStatus::VerifiedFail,
                "exited 0 but reported no frames; nothing was decoded"@,
            ),
        }
    }
}

/// Judge a trial decode.
pub fn classify(outcome: &TrialOutcome) -> (r: (DecoderStatus, String))
    ensures
        r.0 == verdict(*outcome).0,
        r.1@ == verdict(*outcome).1,
{
    if let Some(sig) = outcome.signal {
        let mut s = "killed by signal ".to_owned();
        text::push_i64(&mut s, sig as i64);
        return (DecoderStatus::VerifiedFail, s);
    }
    let clean = match outcome.exit_code {
        Some(c) => c == 0,
        None => false,
    };
    if !clean {
        let last = last_words(outcome.stderr.as_str());
        let mut s = match outcome.exit_code {
            Some(c) => {
                let mut s = "exit ".to_owned();
                text::push_i64(&mut s, c as i64);
                s.append(": ");
                s
            },
            None => "did not exit normally: ".to_owned(),
        };
        s.append(last.as_str());
        return (DecoderStatus::VerifiedFail, s);
    }
    if let Some(m) = admitted(outcome.stderr.as_str()) {
        let s = text::cat3("decoded on the CPU: stderr contains '", m.as_str(), "'");
        return (DecoderStatus::VerifiedSoftFallback, s);
    }
    match parse_frames_decoded(outcome.stdout.as_str()) {
        Some(n) => {
            if n >= outcome.expected_frames {
                let mut s = "decoded all ".to_owned();
                text::push_u64(&mut s, n);
                s.append(" frames");
                (DecoderStatus::VerifiedOk, s)
            } else {
                let mut s = "decoded ".to_owned();
                text::push_u64(&mut s, n);
                s.append(" of ");
                text::push_u64(&mut s, outcome.expected_frames);
                s.append(" frames");
                (DecoderStatus::VerifiedFail, s)
            }
        },
        None => (
            DecoderStatus::VerifiedFail,
            "exited 0 but reported no frames; nothing was decoded".to_owned(),
        ),
    }
}

/// Record a trial's verdict against its triple.
pub fn capability_for(triple: DecoderTriple, outcome: &TrialOutcome) -> (r: DecoderCapability)
    ensures
        r.triple == triple,
        r.status == verdict(*outcome).0,
        r.evidence@ == verdict(*outcome).1,
{
    let (status, evidence) = classify(outcome);
    DecoderCapability { triple, status, evidence }
}

/// The arguments a decode path needs before the input. None for software: the
/// same trial runs both ways, and only the request for hardware differs.
pub open spec fn hwaccel(kind: DecoderKind) -> Seq<Seq<char>> {
    match kind {
        DecoderKind::Nvdec => seq!["-hwaccel"@, "cuda"@, "-hwaccel_output_format"@, "cuda"@],
        _ => Seq::empty(),
    }
}

/// The arguments a decode path needs before the input.
pub fn hwaccel_args_for(kind: DecoderKind) -> (r: Vec<String>)
    ensures
        text::texts(r@) == hwaccel(kind),
{
    let mut r: Vec<String> = Vec::new();
    if matches!(kind, DecoderKind::Nvdec) {
        text::push_text(&mut r, "-hwaccel");
        text::push_text(&mut r, "cuda");
        text::push_text(&mut r, "-hwaccel_output_format");
        text::push_text(&mut r, "cuda");
    }
    assert(text::texts(r@) =~= hwaccel(kind));
    r
}

/// What every trial asks for after its input: the frames are discarded and
/// counted.
pub open spec fn decode_tail() -> Seq<Seq<char>> {
    seq![
        "-map"@,
        "0:v:0"@,
        "-f"@,
        "null"@,
        "-"@,
        "-progress"@,
        "pipe:1"@,
        "-v"@,
        "error"@,
    ]
}

/// The argv of one trial decode.
pub open spec fn trial_argv(triple: DecoderTriple, sample: Seq<char>) -> Seq<Seq<char>> {
    seq!["-hide_banner"@, "-nostdin"@] + hwaccel(triple.kind) + seq!["-i"@, sample] + decode_tail()
}

/// The argv of one trial decode.
pub fn decode_argv(triple: &DecoderTriple, sample: &str) -> (r: Vec<String>)
    ensures
        text::texts(r@) == trial_argv(*triple, sample@),
{
    let mut r: Vec<String> = Vec::new();
    text::push_text(&mut r, "-hide_banner");
    text::push_text(&mut r, "-nostdin");
    assert(text::texts(r@) =~= seq!["-hide_banner"@, "-nostdin"@]);
    let hw = hwaccel_args_for(triple.kind);
    text::push_texts(&mut r, hw.as_slice());
    let ghost head = text::texts(r@);
    text::push_text(&mut r, "-i");
    text::push_text(&mut r, sample);
    assert(text::texts(r@) =~= head + seq!["-i"@, sample@]);
    let ghost mid = text::texts(r@);
    text::push_text(&mut r, "-map");
    text::push_text(&mut r, "0:v:0");
    text::push_text(&mut r, "-f");
    text::push_text(&mut r, "null");
    text::push_text(&mut r, "-");
    text::push_text(&mut r, "-progress");
    text::push_text(&mut r, "pipe:1");
    text::push_text(&mut r, "-v");
    text::push_text(&mut r, "error");
    assert(text::texts(r@) =~= mid + decode_tail());
    r
}

// -------------------------------------------------------------- the trials --

/// How a trial ended, as far as the process is concerned.
#[derive(Debug, Clone, PartialEq, Eq)]
pub enum TrialEnd {
    /// ffmpeg could not be started.
    NotStarted(String),
    /// It was killed for running past the limit, in seconds.
    TimedOut(u64),
    /// It could not be waited on.
    NotWaited(String),
    /// It ended, but what it wrote could not be collected.
    NotCollected(String),
    /// It ended with an exit code or a signal, having written this.
    Ended {
        /// Process exit code, or `None` if it did not exit normally.
        exit_code: Option<i32>,
        /// Signal that killed it.
        signal: Option<i32>,
        /// Its progress output.
        stdout: String,
        /// Its stderr.
        stderr: String,
    },
}

/// What to do after one look at a running trial.
#[derive(Debug, Clone, Copy, PartialEq, Eq, Structural)]
pub enum TrialWatch {
    /// It has ended: collect its output.
    Collect,
    /// It ran past the limit: kill it.
    Kill,
    /// Look again later.
    Wait,
}

/// What to do after one look at a running trial.
pub fn watch_trial(ended: bool, elapsed_ms: u64, limit_ms: u64) -> (r: TrialWatch)
    ensures
        r == (if ended {
            TrialWatch::Collect
        } else if elapsed_ms >= limit_ms {
            TrialWatch::Kill
        } else {
            TrialWatch::Wait
        }),
{
    if ended {
        TrialWatch::Collect
    } else if elapsed_ms >= limit_ms {
        TrialWatch::Kill
    } else {
        TrialWatch::Wait
    }
}

/// The status and evidence a trial's end gives.
pub open spec fn proved(ffmpeg: Seq<char>, end: TrialEnd) -> (DecoderStatus, Seq<char>) {
    match end {
        TrialEnd::NotStarted(e) => (
            DecoderStatus::VerifiedFail,
            "could not run "@ + ffmpeg + ": "@ + e@,
        ),
        TrialEnd::TimedOut(secs) => (
            DecoderStatus::VerifiedFail,
            "timed out after "@ + text::dec(secs as nat) + "s"@,
        ),
        TrialEnd::NotWaited(e) => (
            DecoderStatus::VerifiedFail,
            "could not wait on ffmpeg: "@ + e@,
        ),
        TrialEnd::NotCollected(e) => (
            DecoderStatus::VerifiedFail,
            "could not collect ffmpeg output: "@ + e@,
        ),
        TrialEnd::Ended { exit_code, signal, stdout, stderr } => verdict(
            TrialOutcome {
                exit_code,
                signal,
                stdout,
                stderr,
                expected_frames: TRIAL_SAMPLE_FRAMES,
            },
        ),
    }
}

/// What one trial decode proves. A timeout is a failed trial, not an error:
/// "this decode does not finish" is reason enough not to send that work.
pub fn run_one(ffmpeg: &str, triple: DecoderTriple, end: TrialEnd) -> (r: DecoderCapability)
    ensures
        r.triple == triple,
        r.status == proved(ffmpeg@, end).0,
        r.evidence@ == proved(ffmpeg@, end).1,
{
    let evidence = match end {
        TrialEnd::NotStarted(e) => {
            let mut s = text::cat3("could not run ", ffmpeg, ": ");
            s.append(e.as_str());
            s
        },
        TrialEnd::TimedOut(secs) => {
            let mut s = "timed out after ".to_owned();
            text::push_u64(&mut s, secs);
            s.append("s");
            s
        },
        TrialEnd::NotWaited(e) => text::cat2("could not wait on ffmpeg: ", e.as_str()),
        TrialEnd::NotCollected(e) => text::cat2("could not collect ffmpeg output: ", e.as_str()),
        TrialEnd::Ended { exit_code, signal, stdout, stderr } => {
            let o = TrialOutcome {
                exit_code,
                signal,
                stdout,
                stderr,
                expected_frames: TRIAL_SAMPLE_FRAMES,
            };
            return capability_for(triple, &o);
        },
    };
    DecoderCapability { triple, status: DecoderStatus::VerifiedFail, evidence }
}

/// What every trial proves, in the order they ran: one at a time, so that no
/// trial fails for want of a decoder session another one holds.
pub fn run_all(ffmpeg: &str, trials: Vec<(DecoderTriple, TrialEnd)>) -> (r: Vec<DecoderCapability>)
    ensures
        r@.len() == trials@.len(),
        forall|i: int|
            0 <= i < r@.len() ==> {
                &&& (#[trigger] r@[i]).triple == trials@[i].0
                &&& r@[i].status == proved(ffmpeg@, trials@[i].1).0
                &&& r@[i].evidence@ == proved(ffmpeg@, trials@[i].1).1
            },
{
    let mut r: Vec<DecoderCapability> = Vec::new();
    for t in it: trials
        invariant
            it.seq() == trials@,
            r@.len() == it.index(),
            forall|i: int|
                0 <= i < r@.len() ==> {
                    &&& (#[trigger] r@[i]).triple == trials@[i].0
                    &&& r@[i].status == proved(ffmpeg@, trials@[i].1).0
                    &&& r@[i].evidence@ == proved(ffmpeg@, trials@[i].1).1
                },
    {
        let (triple, end) = t;
        r.push(run_one(ffmpeg, triple, end));
    }
    r
}

// -------------------------------------------------------------------- laws --

/// An admitted fallback outranks any frame count: a trial that exited 0 and
/// said so is never a hardware decode, however many frames it reports.
pub proof fn law_a_soft_fallback_outranks_the_frames(o: TrialOutcome)
    requires
        o.signal is None,
        o.exit_code == Some(0i32),
        fallback_admitted(o.stderr@) is Some,
    ensures
        verdict(o).0 is VerifiedSoftFallback,
        !(verdict(o).0 is VerifiedOk),
{
}

/// A verdict that meets a hardware requirement rests on a clean exit, no
/// admitted fallback and every frame of the sample.
pub proof fn law_only_a_full_clean_decode_is_verified(o: TrialOutcome)
    ensures
        verdict(o).0 is VerifiedOk <==> {
            &&& o.signal is None
            &&& o.exit_code == Some(0i32)
            &&& fallback_admitted(o.stderr@) is None
            &&& last_frame_count(text::lines(o.stdout@)) matches Some(n) && n >= o.expected_frames
        },
        !(verdict(o).0 is Untested),
{
}

proof fn lemma_counts_add_up(a: Seq<Seq<char>>, b: Seq<Seq<char>>)
    ensures
        last_frame_count(a + b) == (match last_frame_count(b) {
            Some(n) => Some(n),
            None => last_frame_count(a),
        }),
    decreases b.len(),
{
    if b.len() == 0 {
        assert(a + b =~= a);
    } else {
        assert((a + b).drop_last() =~= a + b.drop_last());
        assert((a + b).last() == b.last());
        lemma_counts_add_up(a, b.drop_last());
    }
}

/// The last frame count is the final one: of two outputs, one after the other,
/// the later one's, and the earlier one's where the later one gives none. A
/// single line gives the count that follows `frame=`.
pub proof fn law_the_last_frame_count_wins(a: Seq<char>, b: Seq<char>)
    ensures
        last_frame_count(text::lines(a.push('\n') + b)) == (match last_frame_count(text::lines(b)) {
            Some(n) => Some(n),
            None => last_frame_count(text::lines(a)),
        }),
        !a.contains('\n') ==> last_frame_count(text::lines(a)) == frame_count(a),
{
    text::law_lines_add_up(a.push('\n'), b);
    lemma_counts_add_up(text::lines(a.push('\n')), text::lines(b));
    text::lemma_closed_lines(a);
    let all = text::lines(a);
    let closed = text::lines(a.push('\n'));
    assert(frame_count(Seq::<char>::empty()) is None) by {
        reveal_strlit("frame=");
    }
    if a.len() > 0 && a.last() != '\n' {
        let l = all.last();
        assert(frame_count(text::strip_cr(l)) == frame_count(l)) by {
            if l.len() > 0 && l.last() == '\r' {
                text::lemma_trimmed_end(l);
            }
        }
        assert(closed.drop_last() =~= all.drop_last());
    } else {
        assert(closed.drop_last() =~= all);
    }
    assert(last_frame_count(closed) == last_frame_count(all));
    if !a.contains('\n') {
        text::lemma_first_index(a, '\n');
        let k = text::first_index(a, '\n');
        if k < a.len() {
            assert(a.contains(a[k]));
        }
        if a.len() > 0 {
            assert(all =~= seq![a]);
            assert(all.drop_last() =~= Seq::empty());
            assert(last_frame_count(all.drop_last()) is None);
        } else {
            assert(a =~= Seq::<char>::empty());
        }
    }
}

/// What makes a trial fail or pass, whatever it printed. A signal and a non-zero
/// exit fail it. A clean exit passes where the last frame count is at least the
/// expected one and the log admits to no fallback; fewer frames, or none
/// reported, fail it.
pub proof fn law_what_a_trial_shows(o: TrialOutcome)
    ensures
        o.signal is Some ==> verdict(o).0 is VerifiedFail,
        o.exit_code is None ==> verdict(o).0 is VerifiedFail,
        o.exit_code matches Some(c) ==> c != 0 ==> verdict(o).0 is VerifiedFail,
        o.signal is None && o.exit_code == Some(0i32) && fallback_admitted(o.stderr@) is None ==> {
            match last_frame_count(text::lines(o.stdout@)) {
                Some(n) => (n >= o.expected_frames <==> verdict(o).0 is VerifiedOk) && (n
                    < o.expected_frames <==> verdict(o).0 is VerifiedFail),
                None => verdict(o).0 is VerifiedFail,
            }
        },
        verdict(o).0 is VerifiedSoftFallback <==> o.signal is None && o.exit_code == Some(0i32)
            && fallback_admitted(o.stderr@) is Some,
{
}

/// What a trial leaves as evidence.
pub proof fn law_what_a_trial_says(o: TrialOutcome)
    ensures
        o.signal matches Some(n) ==> verdict(o).1 == "killed by signal "@ + text::dec_int(n as int),
        o.signal is None ==> (o.exit_code matches Some(c) ==> c != 0 ==> verdict(o).1 == "exit "@
            + text::dec_int(c as int) + ": "@ + last_said(text::lines(o.stderr@))),
        o.signal is None && o.exit_code is None ==> verdict(o).1 == "did not exit normally: "@
            + last_said(text::lines(o.stderr@)),
        verdict(o).0 is VerifiedOk ==> verdict(o).1 == "decoded all "@ + text::dec(
            last_frame_count(text::lines(o.stdout@))->0,
        ) + " frames"@,
        verdict(o).0 is VerifiedSoftFallback ==> verdict(o).1
            == "decoded on the CPU: stderr contains '"@ + fallback_admitted(o.stderr@)->0 + "'"@,
{
}

proof fn lemma_marker(hay: Seq<char>, markers: Seq<Seq<char>>, i: int)
    requires
        0 <= i <= markers.len(),
        forall|j: int| 0 <= j < i ==> !text::has(hay, #[trigger] markers[j]),
        i < markers.len() ==> text::has(hay, markers[i]),
    ensures
        i < markers.len() ==> first_marker(hay, markers) == Some(markers[i]),
        i == markers.len() ==> first_marker(hay, markers) is None,
    decreases markers.len(),
{
    if markers.len() > 0 && i > 0 {
        let rest = markers.skip(1);
        assert(!text::has(hay, markers[0]));
        assert forall|j: int| 0 <= j < i - 1 implies !text::has(hay, #[trigger] rest[j]) by {
            assert(rest[j] == markers[j + 1]);
        }
        if i < markers.len() {
            assert(rest[i - 1] == markers[i]);
        }
        lemma_marker(hay, rest, i - 1);
    }
}

/// The words by which a log admits that the CPU did the work, in any case: each
/// of the nine is enough, and without any of them nothing is admitted.
pub proof fn law_what_admits_a_fallback(stderr: Seq<char>)
    ensures
        fallback_admitted(stderr) is Some <==> {
            let s = text::ascii_lower(stderr);
            ||| text::has(s, "no decoder surfaces left"@)
            ||| text::has(s, "hwaccel initialisation returned error"@)
            ||| text::has(s, "hwaccel initialization returned error"@)
            ||| text::has(s, "failed setup for format cuda"@)
            ||| text::has(s, "hardware is lacking required capabilities"@)
            ||| text::has(s, "using auto hwaccel type none"@)
            ||| text::has(s, "cannot load nvcuvid"@)
            ||| text::has(s, "decoder does not support"@)
            ||| text::has(s, "falling back to software decoding"@)
        },
        fallback_admitted(stderr) matches Some(m) ==> text::has(text::ascii_lower(stderr), m),
{
    let s = text::ascii_lower(stderr);
    let m = fallback_markers();
    assert(m[0] == "no decoder surfaces left"@);
    assert(m[1] == "hwaccel initialisation returned error"@);
    assert(m[2] == "hwaccel initialization returned error"@);
    assert(m[3] == "failed setup for format cuda"@);
    assert(m[4] == "hardware is lacking required capabilities"@);
    assert(m[5] == "using auto hwaccel type none"@);
    assert(m[6] == "cannot load nvcuvid"@);
    assert(m[7] == "decoder does not support"@);
    assert(m[8] == "falling back to software decoding"@);
    let k: int = if text::has(s, m[0]) {
        0
    } else if text::has(s, m[1]) {
        1
    } else if text::has(s, m[2]) {
        2
    } else if text::has(s, m[3]) {
        3
    } else if text::has(s, m[4]) {
        4
    } else if text::has(s, m[5]) {
        5
    } else if text::has(s, m[6]) {
        6
    } else if text::has(s, m[7]) {
        7
    } else if text::has(s, m[8]) {
        8
    } else {
        9
    };
    lemma_marker(s, m, k);
}

/// The evidence of a failed run is the last thing that was said: the last line
/// that is not blank.
pub proof fn law_the_last_word_is_kept(lines: Seq<Seq<char>>, line: Seq<char>)
    ensures
        text::trimmed(line).len() > 0 ==> last_said(lines.push(line)) == line,
        text::trimmed(line).len() == 0 ==> last_said(lines.push(line)) == last_said(lines),
        last_said(Seq::empty()) == "no stderr"@,
{
    assert(lines.push(line).drop_last() =~= lines);
    assert(lines.push(line).last() == line);
}

/// A trial reads its own sample: it is the argument right after `-i`, NVDEC is
/// asked for before it, the frames go nowhere, and the progress goes to the
/// pipe.
pub proof fn law_a_trial_decodes_its_sample(triple: DecoderTriple, sample: Seq<char>)
    ensures
        ({
            let argv = trial_argv(triple, sample);
            let n: int = if triple.kind is Nvdec {
                6
            } else {
                2
            };
            &&& argv.len() == n + 11
            &&& argv[0] == "-hide_banner"@
            &&& argv[1] == "-nostdin"@
            &&& triple.kind is Nvdec ==> argv[2] == "-hwaccel"@ && argv[3] == "cuda"@ && argv[4]
                == "-hwaccel_output_format"@ && argv[5] == "cuda"@
            &&& argv[n] == "-i"@
            &&& argv[n + 1] == sample
            &&& argv[n + 2] == "-map"@
            &&& argv[n + 3] == "0:v:0"@
            &&& argv[n + 4] == "-f"@
            &&& argv[n + 5] == "null"@
            &&& argv[n + 6] == "-"@
            &&& argv[n + 7] == "-progress"@
            &&& argv[n + 8] == "pipe:1"@
            &&& argv[n + 9] == "-v"@
            &&& argv[n + 10] == "error"@
        }),
{
}

/// A trial that did not come to an end shows nothing but failure.
pub proof fn law_an_unfinished_trial_fails(ffmpeg: Seq<char>, end: TrialEnd)
    ensures
        !(end is Ended) ==> proved(ffmpeg, end).0 is VerifiedFail,
        proved(ffmpeg, end).0 is VerifiedOk ==> end is Ended && end->exit_code == Some(0i32)
            && end->signal is None && (last_frame_count(text::lines(end->stdout@)) matches Some(n)
            && n >= 10),
{
}

/// A frame count stands on a line of its own after `frame=`, blanks aside.
pub proof fn law_where_a_frame_count_stands(line: Seq<char>)
    ensures
        frame_count(line) is Some ==> "frame="@.is_prefix_of(text::trimmed(line)),
        frame_count(line) matches Some(n) ==> text::parsed_within(
            text::trimmed(text::trimmed(line).skip(6)),
            u64::MAX as nat,
        ) == Some(n),
{
    reveal_strlit("frame=");
}

} // verus!
