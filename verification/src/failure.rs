//! Classifying why a job failed.
//!
//! The class matters more than the code, because it decides what happens next.
//! A transient failure never excludes an agent and never dead-letters.
//! Capability drift does exclude: the server's model of the fleet is wrong.
use vstd::prelude::*;

use crate::text;

verus! {

/// What kind of failure this was, which decides the response.
#[derive(Debug, Clone, Copy, PartialEq, Eq, Hash, Structural)]
#[non_exhaustive]
pub enum FailureClass {
    /// Temporary. Retry on any agent.
    Transient,
    /// The agent cannot do what it advertised.
    CapabilityDrift,
    /// The job itself is bad. Retrying anywhere will fail the same way.
    Permanent,
}

/// A specific, greppable failure reason.
#[derive(Debug, Clone, Copy, PartialEq, Eq, Hash, Structural)]
#[non_exhaustive]
pub enum FailureCode {
    /// All NVENC encode sessions are in use.
    EncoderSessionExhausted,
    /// The decoder could not handle this input.
    DecodeUnsupported,
    /// The requested encoder is not present in this ffmpeg build.
    EncoderUnavailable,
    /// The source changed underneath the job.
    SourceChanged,
    /// Out of space.
    DiskFull,
    /// Permission denied reading the source or writing the output.
    PermissionDenied,
    /// The source is damaged.
    CorruptSource,
    /// The process was killed by a signal.
    Killed,
    /// Nothing matched. Treated conservatively.
    Unknown,
}

/// Every encode session of the card is taken.
pub open spec fn says_sessions_exhausted(s: Seq<char>) -> bool {
    ||| text::has(s, "outofmemory"@) && text::has(s, "nvenc"@)
    ||| text::has(s, "no free encoding sessions"@)
    ||| text::has(s, "openencodesessionex failed"@)
}

/// The filesystem is full.
pub open spec fn says_disk_full(s: Seq<char>) -> bool {
    text::has(s, "no space left on device"@) || text::has(s, "enospc"@)
}

/// Hardware decode refused the input.
pub open spec fn says_decode_refused(s: Seq<char>) -> bool {
    ||| text::has(s, "no decoder surfaces left"@)
    ||| text::has(s, "hwaccel initialisation returned error"@)
    ||| text::has(s, "hwaccel initialization returned error"@)
    ||| text::has(s, "failed setup for format cuda"@)
}

/// The build has no such encoder.
pub open spec fn says_encoder_missing(s: Seq<char>) -> bool {
    text::has(s, "unknown encoder"@) || text::has(s, "encoder not found"@)
}

/// The source is damaged.
pub open spec fn says_source_corrupt(s: Seq<char>) -> bool {
    text::has(s, "invalid data found when processing input"@) || text::has(
        s,
        "moov atom not found"@,
    )
}

/// The class and code of a failure, most specific reason first.
pub open spec fn classified(exit: i32, signal: Option<i32>, lowered: Seq<char>) -> (
    FailureClass,
    FailureCode,
) {
    if signal is Some {
        (FailureClass::Transient, FailureCode::Killed)
    } else if says_sessions_exhausted(lowered) {
        (FailureClass::Transient, FailureCode::EncoderSessionExhausted)
    } else if says_disk_full(lowered) {
        (FailureClass::Transient, FailureCode::DiskFull)
    } else if text::has(lowered, "permission denied"@) {
        (FailureClass::Transient, FailureCode::PermissionDenied)
    } else if says_decode_refused(lowered) || exit == 69 {
        (FailureClass::CapabilityDrift, FailureCode::DecodeUnsupported)
    } else if says_encoder_missing(lowered) {
        (FailureClass::CapabilityDrift, FailureCode::EncoderUnavailable)
    } else if says_source_corrupt(lowered) {
        (FailureClass::Permanent, FailureCode::CorruptSource)
    } else if text::has(lowered, "no such file or directory"@) {
        (FailureClass::Transient, FailureCode::SourceChanged)
    } else {
        (FailureClass::Transient, FailureCode::Unknown)
    }
}

/// Classify a failed ffmpeg run from its stderr in lowercase.
pub fn classify_lowered(exit: i32, signal: Option<i32>, s: &str) -> (r: (FailureClass, FailureCode))
    ensures
        r == classified(exit, signal, s@),
{
    if signal.is_some() {
        return (FailureClass::Transient, FailureCode::Killed);
    }
    if text::contains(s, "outofmemory") && text::contains(s, "nvenc") || text::contains(
        s,
        "no free encoding sessions",
    ) || text::contains(s, "openencodesessionex failed") {
        return (FailureClass::Transient, FailureCode::EncoderSessionExhausted);
    }
    if text::contains(s, "no space left on device") || text::contains(s, "enospc") {
        return (FailureClass::Transient, FailureCode::DiskFull);
    }
    if text::contains(s, "permission denied") {
        return (FailureClass::Transient, FailureCode::PermissionDenied);
    }
    if text::contains(s, "no decoder surfaces left") || text::contains(
        s,
        "hwaccel initialisation returned error",
    ) || text::contains(s, "hwaccel initialization returned error") || text::contains(
        s,
        "failed setup for format cuda",
    ) || exit == 69 {
        return (FailureClass::CapabilityDrift, FailureCode::DecodeUnsupported);
    }
    if text::contains(s, "unknown encoder") || text::contains(s, "encoder not found") {
        return (FailureClass::CapabilityDrift, FailureCode::EncoderUnavailable);
    }
    if text::contains(s, "invalid data found when processing input") || text::contains(
        s,
        "moov atom not found",
    ) {
        return (FailureClass::Permanent, FailureCode::CorruptSource);
    }
    if text::contains(s, "no such file or directory") {
        return (FailureClass::Transient, FailureCode::SourceChanged);
    }
    (FailureClass::Transient, FailureCode::Unknown)
}

/// Classify a failed ffmpeg run.
///
/// `stderr_tail` is the last few KiB. Matching is substring search in the
/// lowercase text; a missed match degrades to `Unknown`, which retries.
pub fn classify_failure(exit: i32, signal: Option<i32>, stderr_tail: &str) -> (r: (
    FailureClass,
    FailureCode,
))
    ensures
        r == classified(exit, signal, text::lowercase(stderr_tail@)),
{
    let lowered = text::to_lowercase(stderr_tail);
    classify_lowered(exit, signal, lowered.as_str())
}

impl FailureClass {
    /// Whether this class should exclude the agent from similar work. Only
    /// capability drift does.
    pub fn excludes_agent(self) -> (r: bool)
        ensures
            r == (self is CapabilityDrift),
    {
        matches!(self, FailureClass::CapabilityDrift)
    }

    /// Whether exhausting retries should dead-letter the job.
    pub fn may_dead_letter(self) -> (r: bool)
        ensures
            r == !(self is Transient),
    {
        !matches!(self, FailureClass::Transient)
    }
}

/// A signal is always transient, whatever else was printed.
pub proof fn law_signals_are_transient(exit: i32, signal: i32, lowered: Seq<char>)
    ensures
        classified(exit, Some(signal), lowered).0 is Transient,
        classified(exit, Some(signal), lowered).1 is Killed,
{
}

/// Session exhaustion, a full disk and a permission problem stay transient
/// whatever the exit code and whatever else was printed.
pub proof fn law_busy_is_never_taken_for_incapable(exit: i32, lowered: Seq<char>)
    requires
        says_sessions_exhausted(lowered) || says_disk_full(lowered) || text::has(
            lowered,
            "permission denied"@,
        ),
    ensures
        classified(exit, None, lowered).0 is Transient,
        says_sessions_exhausted(lowered) ==> classified(
            exit,
            None,
            lowered,
        ).1 is EncoderSessionExhausted,
{
}

/// What is not recognised is retried.
pub proof fn law_unrecognised_is_retried(exit: i32, signal: Option<i32>, lowered: Seq<char>)
    ensures
        classified(exit, signal, lowered).1 is Unknown ==> classified(
            exit,
            signal,
            lowered,
        ).0 is Transient,
        classified(exit, signal, lowered).0 is Permanent ==> says_source_corrupt(lowered),
        classified(exit, signal, lowered).0 is CapabilityDrift ==> exit == 69
            || says_decode_refused(lowered) || says_encoder_missing(lowered),
{
}

/// What each failure says. A signal means killed. Without one, the text decides,
/// the first of these that it contains: no encoding session left, no space,
/// permission denied, a refused decode or exit code 69, a missing encoder,
/// corrupt input, a missing file.
pub proof fn law_what_the_text_means(exit: i32, s: Seq<char>)
    ensures
        ({
            let (class, code) = classified(exit, None, s);
            let busy = text::has(s, "outofmemory"@) && text::has(s, "nvenc"@) || text::has(
                s,
                "no free encoding sessions"@,
            ) || text::has(s, "openencodesessionex failed"@);
            let full = text::has(s, "no space left on device"@) || text::has(s, "enospc"@);
            let denied = text::has(s, "permission denied"@);
            let refused = text::has(s, "no decoder surfaces left"@) || text::has(
                s,
                "hwaccel initialisation returned error"@,
            ) || text::has(s, "hwaccel initialization returned error"@) || text::has(
                s,
                "failed setup for format cuda"@,
            ) || exit == 69;
            let missing = text::has(s, "unknown encoder"@) || text::has(s, "encoder not found"@);
            let corrupt = text::has(s, "invalid data found when processing input"@) || text::has(
                s,
                "moov atom not found"@,
            );
            let gone = text::has(s, "no such file or directory"@);
            &&& code is EncoderSessionExhausted <==> busy
            &&& code is DiskFull <==> !busy && full
            &&& code is PermissionDenied <==> !busy && !full && denied
            &&& code is DecodeUnsupported <==> !busy && !full && !denied && refused
            &&& code is EncoderUnavailable <==> !busy && !full && !denied && !refused && missing
            &&& code is CorruptSource <==> !busy && !full && !denied && !refused && !missing
                && corrupt
            &&& code is SourceChanged <==> !busy && !full && !denied && !refused && !missing
                && !corrupt && gone
            &&& code is Unknown <==> !busy && !full && !denied && !refused && !missing && !corrupt
                && !gone
        }),
{
}

/// How a failure is handled follows from its code: a refused decode and a
/// missing encoder are drift, corrupt input is permanent, and everything else is
/// worth another try.
pub proof fn law_the_code_decides_the_class(exit: i32, signal: Option<i32>, s: Seq<char>)
    ensures
        ({
            let (class, code) = classified(exit, signal, s);
            &&& signal is Some <==> code is Killed
            &&& class is CapabilityDrift <==> code is DecodeUnsupported || code
                is EncoderUnavailable
            &&& class is Permanent <==> code is CorruptSource
            &&& class is Transient <==> !(code is DecodeUnsupported || code is EncoderUnavailable
                || code is CorruptSource)
        }),
{
}

} // verus!
