//! Output validation.
//!
//! Size is not an accept criterion: a truncated file is always smaller than its
//! source. Gates run in a fixed order and the first failure is terminal, so
//! `Size` is never even consulted for an output that failed `Duration`.
use vstd::prelude::*;

use crate::double::Size;
use crate::probe::{MediaProbe, StreamKind};
use crate::text;

verus! {

/// The checks applied to a transcode output, in the order they run.
#[derive(Debug, Clone, Copy, PartialEq, Eq, Hash, Structural)]
#[non_exhaustive]
pub enum ValidationGate {
    /// ffmpeg exited non-zero, or on a signal.
    ExitCode,
    /// The output could not be probed at all: not a valid media file.
    Probe,
    /// Output duration does not match the source within tolerance.
    Duration,
    /// Audio or subtitle streams went missing.
    Streams,
    /// The output failed its size policy.
    Size,
}

impl ValidationGate {
    /// Gates in execution order. `Size` is deliberately last.
    pub open spec fn spec_order() -> Seq<ValidationGate> {
        seq![
            ValidationGate::ExitCode,
            ValidationGate::Probe,
            ValidationGate::Duration,
            ValidationGate::Streams,
            ValidationGate::Size,
        ]
    }

    /// Gates in execution order.
    pub fn order() -> (r: Vec<ValidationGate>)
        ensures
            r@ == ValidationGate::spec_order(),
    {
        vec![
            ValidationGate::ExitCode,
            ValidationGate::Probe,
            ValidationGate::Duration,
            ValidationGate::Streams,
            ValidationGate::Size,
        ]
    }

    /// The variant's own name, as documents spell it.
    pub fn variant_name(self) -> (r: &'static str)
        ensures
            r@ == self.name(),
            self is ExitCode ==> r@ == "ExitCode"@,
            self is Probe ==> r@ == "Probe"@,
            self is Duration ==> r@ == "Duration"@,
            self is Streams ==> r@ == "Streams"@,
            self is Size ==> r@ == "Size"@,
    {
        match self {
            ValidationGate::ExitCode => "ExitCode",
            ValidationGate::Probe => "Probe",
            ValidationGate::Duration => "Duration",
            ValidationGate::Streams => "Streams",
            ValidationGate::Size => "Size",
        }
    }

    /// The variant's own name.
    pub open spec fn name(self) -> Seq<char> {
        match self {
            ValidationGate::ExitCode => "ExitCode"@,
            ValidationGate::Probe => "Probe"@,
            ValidationGate::Duration => "Duration"@,
            ValidationGate::Streams => "Streams"@,
            ValidationGate::Size => "Size"@,
        }
    }

    /// The position of a gate in the order.
    pub open spec fn rank(self) -> int {
        match self {
            ValidationGate::ExitCode => 0,
            ValidationGate::Probe => 1,
            ValidationGate::Duration => 2,
            ValidationGate::Streams => 3,
            ValidationGate::Size => 4,
        }
    }
}

/// What the output is allowed to do to the file size.
#[derive(Debug, Clone, Copy, PartialEq, Eq, Structural)]
#[non_exhaustive]
pub enum SizePolicy {
    /// The output must be smaller than the source by at least this share.
    RequireSmaller {
        /// Share of the source size that must be saved, in parts per million:
        /// 50,000 is 5%.
        min_shrink_ppm: u32,
    },
    /// The output may be larger: re-encoding Opus to EAC3 640k legitimately
    /// grows the file.
    MayGrow,
}

/// Everything needed to judge one output, computed by the planner.
#[derive(Debug, Clone, Copy, PartialEq, Eq, Structural)]
pub struct ValidationSpec {
    /// Source duration in microseconds, measured at plan time.
    pub source_duration_us: u64,
    /// How much shorter the output may be.
    pub max_shorter_us: u64,
    /// How much longer the output may be.
    pub max_longer_us: u64,
    /// Audio streams the source had, all of which must survive.
    pub expected_audio_streams: usize,
    /// Subtitle streams the source had, all of which must survive.
    pub expected_subtitle_streams: usize,
    /// Source size in bytes.
    pub source_bytes: u64,
    /// What the output is allowed to do to the size.
    pub size_policy: SizePolicy,
}

/// The verdict on one output.
#[derive(Debug, Clone, PartialEq)]
pub struct ValidationReport {
    /// Whether every gate that ran passed.
    pub passed: bool,
    /// Which gate rejected the output, if any.
    pub failed_gate: Option<ValidationGate>,
    /// Human-readable reason, safe to show an operator.
    pub detail: String,
    /// Gates actually evaluated, in order.
    pub gates_run: Vec<ValidationGate>,
}

impl ValidationReport {
    fn fail(gates_run: Vec<ValidationGate>, gate: ValidationGate, detail: String) -> (r: Self)
        ensures
            !r.passed,
            r.failed_gate == Some(gate),
            r.detail == detail,
            r.gates_run == gates_run,
    {
        ValidationReport { passed: false, failed_gate: Some(gate), detail, gates_run }
    }
}

/// Microseconds as seconds to one decimal place.
pub open spec fn seconds(us: u64) -> Seq<char> {
    Size::ratio(us as nat, 1_000_000).tenths() + "s"@
}

fn push_seconds(s: &mut String, us: u64)
    ensures
        final(s)@ == old(s)@ + seconds(us),
{
    Size::of_ratio(us, 1_000_000).push_tenths(s);
    s.append("s");
    assert(s@ =~= old(s)@ + seconds(us));
}

/// The largest output a size policy accepts.
pub open spec fn size_limit(source_bytes: u64, min_shrink_ppm: u32) -> nat {
    if min_shrink_ppm >= 1_000_000 {
        0
    } else {
        (source_bytes as nat * (1_000_000 - min_shrink_ppm) as nat) / 1_000_000
    }
}

/// Why the exit code is refused.
pub open spec fn exit_fault(exit_code: i32) -> Option<Seq<char>> {
    if exit_code != 0 {
        Some("ffmpeg exited "@ + text::dec_int(exit_code as int))
    } else {
        None
    }
}

/// Why the output is no media file.
pub open spec fn probe_fault(probe: MediaProbe) -> Option<Seq<char>> {
    if probe.duration_us is None {
        Some("output has no readable duration"@)
    } else if probe.streams@.len() == 0 {
        Some("output contains no streams"@)
    } else {
        None
    }
}

/// Why a duration is refused. Being short means content was lost; being long
/// by a hair is encoder rounding.
pub open spec fn duration_fault(spec: ValidationSpec, out: u64) -> Option<Seq<char>> {
    let source = spec.source_duration_us;
    if out < source && source - out > spec.max_shorter_us {
        Some(
            "output is "@ + seconds((source - out) as u64) + " shorter than source (limit "@
                + seconds(spec.max_shorter_us) + ") \u{2014} truncated"@,
        )
    } else if out >= source && out - source > spec.max_longer_us {
        Some(
            "output is "@ + seconds((out - source) as u64) + " longer than source (limit "@
                + seconds(spec.max_longer_us) + ")"@,
        )
    } else {
        None
    }
}

/// Why the streams are refused.
pub open spec fn streams_fault(spec: ValidationSpec, probe: MediaProbe) -> Option<Seq<char>> {
    let audio = crate::probe::of_kind(probe.streams@, StreamKind::Audio).len();
    let subs = crate::probe::of_kind(probe.streams@, StreamKind::Subtitle).len();
    if audio < spec.expected_audio_streams {
        Some(
            "audio streams dropped: expected "@ + text::dec(spec.expected_audio_streams as nat)
                + ", got "@ + text::dec(audio),
        )
    } else if subs < spec.expected_subtitle_streams {
        Some(
            "subtitle streams dropped: expected "@ + text::dec(
                spec.expected_subtitle_streams as nat,
            ) + ", got "@ + text::dec(subs),
        )
    } else {
        None
    }
}

/// Why the size is refused.
pub open spec fn size_fault(spec: ValidationSpec, out_bytes: u64) -> Option<Seq<char>> {
    match spec.size_policy {
        SizePolicy::RequireSmaller { min_shrink_ppm } => if out_bytes > size_limit(
            spec.source_bytes,
            min_shrink_ppm,
        ) {
            Some(
                "output "@ + text::dec(out_bytes as nat) + " B did not shrink by "@ + Size::ratio(
                    min_shrink_ppm as nat,
                    1_000_000,
                ).percent().rounded() + "% of "@ + text::dec(spec.source_bytes as nat) + " B"@,
            )
        } else {
            None
        },
        SizePolicy::MayGrow => None,
    }
}

/// Which gate rejects an output, and why.
pub open spec fn judged(
    spec: ValidationSpec,
    probe: MediaProbe,
    exit_code: i32,
    out_bytes: u64,
) -> Option<(ValidationGate, Seq<char>)> {
    if let Some(why) = exit_fault(exit_code) {
        Some((ValidationGate::ExitCode, why))
    } else if let Some(why) = probe_fault(probe) {
        Some((ValidationGate::Probe, why))
    } else if let Some(why) = duration_fault(spec, probe.duration_us->0) {
        Some((ValidationGate::Duration, why))
    } else if let Some(why) = streams_fault(spec, probe) {
        Some((ValidationGate::Streams, why))
    } else if let Some(why) = size_fault(spec, out_bytes) {
        Some((ValidationGate::Size, why))
    } else {
        None
    }
}

/// A report says what was judged, and ran the gates up to the one that failed.
pub open spec fn reports(r: ValidationReport, verdict: Option<(ValidationGate, Seq<char>)>) -> bool {
    match verdict {
        Some((gate, why)) => {
            &&& !r.passed
            &&& r.failed_gate == Some(gate)
            &&& r.detail@ == why
            &&& r.gates_run@ == ValidationGate::spec_order().take(gate.rank() + 1)
        },
        None => {
            &&& r.passed
            &&& r.failed_gate is None
            &&& r.detail@ == "all gates passed"@
            &&& r.gates_run@ == ValidationGate::spec_order()
        },
    }
}

fn duration_problem(spec: &ValidationSpec, out: u64) -> (r: Option<String>)
    ensures
        r is Some == duration_fault(*spec, out) is Some,
        r is Some ==> r->0@ == duration_fault(*spec, out)->0,
{
    if out < spec.source_duration_us {
        let missing: u64 = spec.source_duration_us - out;
        if missing > spec.max_shorter_us {
            let mut s = "output is ".to_owned();
            push_seconds(&mut s, missing);
            s.append(" shorter than source (limit ");
            push_seconds(&mut s, spec.max_shorter_us);
            s.append(") \u{2014} truncated");
            return Some(s);
        }
    } else {
        let extra: u64 = out - spec.source_duration_us;
        if extra > spec.max_longer_us {
            let mut s = "output is ".to_owned();
            push_seconds(&mut s, extra);
            s.append(" longer than source (limit ");
            push_seconds(&mut s, spec.max_longer_us);
            s.append(")");
            return Some(s);
        }
    }
    None
}

fn streams_problem(spec: &ValidationSpec, probe: &MediaProbe) -> (r: Option<String>)
    ensures
        r is Some == streams_fault(*spec, *probe) is Some,
        r is Some ==> r->0@ == streams_fault(*spec, *probe)->0,
{
    let audio: usize = probe.audio_count();
    let subs: usize = probe.subtitle_count();
    if audio < spec.expected_audio_streams {
        let mut s = "audio streams dropped: expected ".to_owned();
        text::push_u64(&mut s, spec.expected_audio_streams as u64);
        s.append(", got ");
        text::push_u64(&mut s, audio as u64);
        return Some(s);
    }
    if subs < spec.expected_subtitle_streams {
        let mut s = "subtitle streams dropped: expected ".to_owned();
        text::push_u64(&mut s, spec.expected_subtitle_streams as u64);
        s.append(", got ");
        text::push_u64(&mut s, subs as u64);
        return Some(s);
    }
    None
}

fn limit_bytes(source_bytes: u64, min_shrink_ppm: u32) -> (r: u64)
    ensures
        r == size_limit(source_bytes, min_shrink_ppm),
{
    if min_shrink_ppm >= 1_000_000 {
        return 0;
    }
    let keep: u128 = 1_000_000u128 - min_shrink_ppm as u128;
    assert(source_bytes as nat * keep as nat <= source_bytes as nat * 1_000_000) by (nonlinear_arith)
        requires
            keep <= 1_000_000,
    ;
    let kept: u128 = source_bytes as u128 * keep;
    (kept / 1_000_000) as u64
}

fn size_problem(spec: &ValidationSpec, out_bytes: u64) -> (r: Option<String>)
    ensures
        r is Some == size_fault(*spec, out_bytes) is Some,
        r is Some ==> r->0@ == size_fault(*spec, out_bytes)->0,
{
    match spec.size_policy {
        SizePolicy::RequireSmaller { min_shrink_ppm } => {
            if out_bytes > limit_bytes(spec.source_bytes, min_shrink_ppm) {
                let mut s = "output ".to_owned();
                text::push_u64(&mut s, out_bytes);
                s.append(" B did not shrink by ");
                Size::of_ratio(min_shrink_ppm as u64, 1_000_000).as_percent().push_rounded(&mut s);
                s.append("% of ");
                text::push_u64(&mut s, spec.source_bytes);
                s.append(" B");
                Some(s)
            } else {
                None
            }
        },
        SizePolicy::MayGrow => None,
    }
}

/// Judge a transcode output.
///
/// `probe` is the output's, with its duration measured from the last packet
/// rather than the container header, which a truncated file often keeps.
pub fn validate_output(
    spec: &ValidationSpec,
    probe: &MediaProbe,
    exit_code: i32,
    out_bytes: u64,
) -> (r: ValidationReport)
    ensures
        reports(r, judged(*spec, *probe, exit_code, out_bytes)),
{
    let ghost order = ValidationGate::spec_order();
    let mut run: Vec<ValidationGate> = Vec::new();

    run.push(ValidationGate::ExitCode);
    assert(run@ =~= order.take(1));
    if exit_code != 0 {
        let mut s = "ffmpeg exited ".to_owned();
        text::push_i64(&mut s, exit_code as i64);
        return ValidationReport::fail(run, ValidationGate::ExitCode, s);
    }
    run.push(ValidationGate::Probe);
    assert(run@ =~= order.take(2));
    let out_duration: u64 = match probe.duration_us {
        Some(d) => d,
        None => {
            return ValidationReport::fail(
                run,
                ValidationGate::Probe,
                "output has no readable duration".to_owned(),
            );
        },
    };
    if probe.streams.len() == 0 {
        return ValidationReport::fail(
            run,
            ValidationGate::Probe,
            "output contains no streams".to_owned(),
        );
    }
    run.push(ValidationGate::Duration);
    assert(run@ =~= order.take(3));
    match duration_problem(spec, out_duration) {
        Some(why) => {
            return ValidationReport::fail(run, ValidationGate::Duration, why);
        },
        None => {},
    }
    run.push(ValidationGate::Streams);
    assert(run@ =~= order.take(4));
    match streams_problem(spec, probe) {
        Some(why) => {
            return ValidationReport::fail(run, ValidationGate::Streams, why);
        },
        None => {},
    }
    // Last, and only now that the output is known to be intact.
    run.push(ValidationGate::Size);
    assert(run@ =~= order.take(5));
    assert(order.take(5) =~= order);
    match size_problem(spec, out_bytes) {
        Some(why) => {
            return ValidationReport::fail(run, ValidationGate::Size, why);
        },
        None => {},
    }
    ValidationReport {
        passed: true,
        failed_gate: None,
        detail: "all gates passed".to_owned(),
        gates_run: run,
    }
}

// ------------------------------------------------------------------- laws --

/// The size is consulted only for an output every earlier gate accepted: a
/// report that fails earlier has not run `Size`, and its verdict does not
/// depend on the size at all.
pub proof fn law_size_is_last(
    spec: ValidationSpec,
    probe: MediaProbe,
    exit_code: i32,
    a: u64,
    b: u64,
    r: ValidationReport,
)
    requires
        reports(r, judged(spec, probe, exit_code, a)),
    ensures
        r.failed_gate is Some && !(r.failed_gate->0 is Size) ==> {
            &&& !r.gates_run@.contains(ValidationGate::Size)
            &&& judged(spec, probe, exit_code, a) == judged(spec, probe, exit_code, b)
        },
{
    if let Some((gate, why)) = judged(spec, probe, exit_code, a) {
        if !(gate is Size) {
            let ran = ValidationGate::spec_order().take(gate.rank() + 1);
            assert forall|i: int| 0 <= i < ran.len() implies ran[i] != ValidationGate::Size by {
                assert(ran[i] == ValidationGate::spec_order()[i]);
            }
        }
    }
}

/// The gates that ran are a prefix of the order, and only the last of them can
/// have failed.
pub proof fn law_gates_run_in_order(
    spec: ValidationSpec,
    probe: MediaProbe,
    exit_code: i32,
    out_bytes: u64,
    r: ValidationReport,
)
    requires
        reports(r, judged(spec, probe, exit_code, out_bytes)),
    ensures
        1 <= r.gates_run@.len() <= 5,
        r.gates_run@ == ValidationGate::spec_order().take(r.gates_run@.len() as int),
        r.failed_gate matches Some(g) ==> r.gates_run@.last() == g,
        r.passed == (r.failed_gate is None),
{
    assert(ValidationGate::spec_order().take(5) =~= ValidationGate::spec_order());
}

/// Content lost beyond the tolerance is rejected, however small the output is.
pub proof fn law_truncation_is_rejected(
    spec: ValidationSpec,
    probe: MediaProbe,
    exit_code: i32,
    out_bytes: u64,
)
    requires
        probe.duration_us matches Some(d) && d + spec.max_shorter_us < spec.source_duration_us,
    ensures
        judged(spec, probe, exit_code, out_bytes) matches Some((gate, _)) && !(gate is Size)
            && !(gate is Streams),
{
}

/// An output that may grow is never rejected for its size.
pub proof fn law_growth_may_be_allowed(
    spec: ValidationSpec,
    probe: MediaProbe,
    exit_code: i32,
    out_bytes: u64,
)
    requires
        spec.size_policy is MayGrow,
    ensures
        judged(spec, probe, exit_code, out_bytes) matches Some((gate, _)) ==> !(gate is Size),
{
}

/// What an output that passes is: ffmpeg exited zero, the output has a duration
/// and streams, it is neither shorter nor longer than the source beyond what is
/// allowed, no audio and no subtitle stream was lost, and it saves the share
/// that is asked for.
pub proof fn law_what_passes_is_whole(
    spec: ValidationSpec,
    probe: MediaProbe,
    exit_code: i32,
    out_bytes: u64,
)
    ensures
        judged(spec, probe, exit_code, out_bytes) is None ==> {
            &&& exit_code == 0
            &&& probe.streams@.len() > 0
            &&& probe.duration_us matches Some(d) && d + spec.max_shorter_us
                >= spec.source_duration_us && d <= spec.source_duration_us + spec.max_longer_us
            &&& crate::probe::of_kind(probe.streams@, StreamKind::Audio).len()
                >= spec.expected_audio_streams
            &&& crate::probe::of_kind(probe.streams@, StreamKind::Subtitle).len()
                >= spec.expected_subtitle_streams
            &&& spec.size_policy matches SizePolicy::RequireSmaller { min_shrink_ppm } ==> out_bytes
                * 1_000_000 + spec.source_bytes * min_shrink_ppm <= spec.source_bytes * 1_000_000
                || out_bytes == 0
        },
{
    if judged(spec, probe, exit_code, out_bytes) is None {
        if let SizePolicy::RequireSmaller { min_shrink_ppm } = spec.size_policy {
            lemma_limit(spec.source_bytes as nat, min_shrink_ppm as nat, out_bytes as nat);
        }
    }
}

/// An output that is whole passes: nothing is rejected that was not lost.
pub proof fn law_what_is_whole_passes(
    spec: ValidationSpec,
    probe: MediaProbe,
    exit_code: i32,
    out_bytes: u64,
)
    requires
        exit_code == 0,
        probe.streams@.len() > 0,
        probe.duration_us matches Some(d) && d + spec.max_shorter_us >= spec.source_duration_us
            && d <= spec.source_duration_us + spec.max_longer_us,
        crate::probe::of_kind(probe.streams@, StreamKind::Audio).len()
            >= spec.expected_audio_streams,
        crate::probe::of_kind(probe.streams@, StreamKind::Subtitle).len()
            >= spec.expected_subtitle_streams,
        spec.size_policy matches SizePolicy::RequireSmaller { min_shrink_ppm } ==> out_bytes
            * 1_000_000 + spec.source_bytes * min_shrink_ppm <= spec.source_bytes * 1_000_000,
    ensures
        judged(spec, probe, exit_code, out_bytes) is None,
{
    if let SizePolicy::RequireSmaller { min_shrink_ppm } = spec.size_policy {
        lemma_limit(spec.source_bytes as nat, min_shrink_ppm as nat, out_bytes as nat);
    }
}

proof fn lemma_limit(source: nat, ppm: nat, out: nat)
    ensures
        ppm < 1_000_000 ==> (out <= source * (1_000_000 - ppm) as nat / 1_000_000) == (out
            * 1_000_000 + source * ppm <= source * 1_000_000),
        ppm >= 1_000_000 && out * 1_000_000 + source * ppm <= source * 1_000_000 ==> out == 0,
{
    if ppm < 1_000_000 {
        let k = (1_000_000 - ppm) as nat;
        assert(source * k + source * ppm == source * 1_000_000) by (nonlinear_arith)
            requires
                k + ppm == 1_000_000,
        ;
    } else {
        assert(source * ppm >= source * 1_000_000) by (nonlinear_arith)
            requires
                ppm >= 1_000_000,
        ;
    }
}

/// The first fault is the one that is named: a failed run before anything else,
/// an unreadable output before a wrong duration, a wrong duration before missing
/// streams, and those before the size.
pub proof fn law_the_first_fault_decides(
    spec: ValidationSpec,
    probe: MediaProbe,
    exit_code: i32,
    out_bytes: u64,
)
    ensures
        ({
            let verdict = judged(spec, probe, exit_code, out_bytes);
            let audio = crate::probe::of_kind(probe.streams@, StreamKind::Audio).len();
            let subs = crate::probe::of_kind(probe.streams@, StreamKind::Subtitle).len();
            let unreadable = probe.duration_us is None || probe.streams@.len() == 0;
            let wrong_length = probe.duration_us matches Some(d) && (d + spec.max_shorter_us
                < spec.source_duration_us || d > spec.source_duration_us + spec.max_longer_us);
            let lost = audio < spec.expected_audio_streams || subs < spec.expected_subtitle_streams;
            &&& exit_code != 0 <==> (verdict matches Some((gate, _)) && gate is ExitCode)
            &&& exit_code == 0 && unreadable <==> (verdict matches Some((gate, _)) && gate is Probe)
            &&& exit_code == 0 && !unreadable && wrong_length <==> (verdict matches Some((gate, _))
                && gate is Duration)
            &&& exit_code == 0 && !unreadable && !wrong_length && lost <==> (verdict
                matches Some((gate, _)) && gate is Streams)
        }),
{
}

/// What an operator is told of lost streams are the two numbers: how many were
/// expected and how many there are. The words say which kind was lost, audio
/// first.
pub proof fn law_lost_streams_are_counted(
    spec: ValidationSpec,
    probe: MediaProbe,
    exit_code: i32,
    out_bytes: u64,
)
    ensures
        judged(spec, probe, exit_code, out_bytes) matches Some((gate, why)) ==> (gate is Streams ==> {
            let audio = crate::probe::of_kind(probe.streams@, StreamKind::Audio).len();
            let subs = crate::probe::of_kind(probe.streams@, StreamKind::Subtitle).len();
            &&& audio < spec.expected_audio_streams ==> why == "audio streams dropped: expected "@
                + text::dec(spec.expected_audio_streams as nat) + ", got "@ + text::dec(audio)
            &&& audio >= spec.expected_audio_streams ==> why
                == "subtitle streams dropped: expected "@ + text::dec(
                spec.expected_subtitle_streams as nat,
            ) + ", got "@ + text::dec(subs)
        }),
{
}

/// The gates in their order.
pub proof fn law_the_order_of_the_gates()
    ensures
        ValidationGate::spec_order().len() == 5,
        ValidationGate::spec_order()[0] is ExitCode,
        ValidationGate::spec_order()[1] is Probe,
        ValidationGate::spec_order()[2] is Duration,
        ValidationGate::spec_order()[3] is Streams,
        ValidationGate::spec_order()[4] is Size,
        forall|g: ValidationGate| ValidationGate::spec_order()[#[trigger] g.rank()] == g,
{
}

/// A report says passed only of an output that is whole: the run ended well, the
/// output can be read, it is as long as the source within the two tolerances, it
/// lost no audio and no subtitle stream, and it is as small as was asked.
pub proof fn law_a_passing_report_is_of_a_whole_output(
    r: ValidationReport,
    spec: ValidationSpec,
    probe: MediaProbe,
    exit_code: i32,
    out_bytes: u64,
)
    requires
        reports(r, judged(spec, probe, exit_code, out_bytes)),
        r.passed,
    ensures
        exit_code == 0,
        probe.streams@.len() > 0,
        probe.duration_us matches Some(d) && d + spec.max_shorter_us >= spec.source_duration_us && d
            <= spec.source_duration_us + spec.max_longer_us,
        crate::probe::of_kind(probe.streams@, StreamKind::Audio).len()
            >= spec.expected_audio_streams,
        crate::probe::of_kind(probe.streams@, StreamKind::Subtitle).len()
            >= spec.expected_subtitle_streams,
        spec.size_policy matches SizePolicy::RequireSmaller { min_shrink_ppm } ==> out_bytes
            * 1_000_000 + spec.source_bytes * min_shrink_ppm <= spec.source_bytes * 1_000_000
            || out_bytes == 0,
        r.failed_gate is None,
        r.detail@ == "all gates passed"@,
        r.gates_run@ == seq![
            ValidationGate::ExitCode,
            ValidationGate::Probe,
            ValidationGate::Duration,
            ValidationGate::Streams,
            ValidationGate::Size,
        ],
{
    law_what_passes_is_whole(spec, probe, exit_code, out_bytes);
}

/// What an operator is told of the other faults: the exit code, what could not be
/// read, by how much the length is off, and by how much the size had to shrink.
pub proof fn law_every_fault_is_told(
    spec: ValidationSpec,
    probe: MediaProbe,
    exit_code: i32,
    out_bytes: u64,
)
    ensures
        exit_code != 0 ==> judged(spec, probe, exit_code, out_bytes) == Some(
            (ValidationGate::ExitCode, "ffmpeg exited "@ + text::dec_int(exit_code as int)),
        ),
        exit_code == 0 && probe.duration_us is None ==> judged(spec, probe, exit_code, out_bytes)
            == Some((ValidationGate::Probe, "output has no readable duration"@)),
        exit_code == 0 && probe.duration_us is Some && probe.streams@.len() == 0 ==> judged(
            spec,
            probe,
            exit_code,
            out_bytes,
        ) == Some((ValidationGate::Probe, "output contains no streams"@)),
        judged(spec, probe, exit_code, out_bytes) matches Some((gate, why)) ==> (gate is Duration
            ==> {
            let out = probe.duration_us->0;
            &&& out < spec.source_duration_us ==> why == "output is "@ + seconds(
                (spec.source_duration_us - out) as u64,
            ) + " shorter than source (limit "@ + seconds(spec.max_shorter_us)
                + ") \u{2014} truncated"@
            &&& out >= spec.source_duration_us ==> why == "output is "@ + seconds(
                (out - spec.source_duration_us) as u64,
            ) + " longer than source (limit "@ + seconds(spec.max_longer_us) + ")"@
        }),
        judged(spec, probe, exit_code, out_bytes) matches Some((gate, why)) ==> (gate is Size
            ==> (spec.size_policy matches SizePolicy::RequireSmaller { min_shrink_ppm } && why
            == "output "@ + text::dec(out_bytes as nat) + " B did not shrink by "@ + Size::ratio(
            min_shrink_ppm as nat,
            1_000_000,
        ).percent().rounded() + "% of "@ + text::dec(spec.source_bytes as nat) + " B"@)),
        forall|us: u64| #[trigger]
            seconds(us) == Size::ratio(us as nat, 1_000_000).tenths() + "s"@,
{
}

} // verus!
