use transcodarr::executor::{Executor, ExecutorConfig};
use transcodarr::probe::{MediaProbe, StreamInfo, StreamKind};
use transcodarr::validate::{SizePolicy, ValidationGate, ValidationSpec};

/// The tolerance rule from production: asymmetric, and absolutely capped at
/// `min(0.5%, 5s)`. A percentage alone permits a 40-minute loss on a 3-hour
/// film, so the absolute cap is what actually protects the media.
fn spec(source_us: u64, audio: usize, subs: usize) -> ValidationSpec {
    let max_shorter = std::cmp::min(source_us / 200, 5_000_000);
    ValidationSpec {
        source_duration_us: source_us,
        max_shorter_us: max_shorter,
        max_longer_us: 2_000_000,
        expected_audio_streams: audio,
        expected_subtitle_streams: subs,
        source_bytes: 10_000_000,
        size_policy: SizePolicy::RequireSmaller { min_shrink_ppm: 0 },
    }
}

/// A probe whose header claims eight seconds, whatever its packets say.
fn media() -> MediaProbe {
    MediaProbe {
        container: "matroska".into(),
        duration_us: Some(8_000_000),
        streams: vec![
            StreamInfo { index: 0, kind: StreamKind::Video, ..Default::default() },
            StreamInfo { index: 1, kind: StreamKind::Audio, ..Default::default() },
        ],
        ..Default::default()
    }
}

/// The packet times of so many frames at ten a second.
fn packets(frames: u64) -> Vec<u64> {
    (0..frames).map(|i| i * 100_000).collect()
}

/// A complete output passes, so the rejection below is meaningful rather than
/// a validator that refuses everything.
#[test]
fn a_complete_output_is_accepted() {
    let ex = Executor::new(ExecutorConfig::default());
    let measured = Executor::last_packet_pts_us(&packets(40)).expect("a PTS");
    let probe = Executor::probe_output(media(), Some(measured));
    let report = ex.validate(&spec(measured, 1, 0), Some(probe), 0, Some(1_000_000));
    assert!(report.passed, "a complete output must pass: {report:?}");
}

/// The measured failure mode. A file truncated to a fraction of its length
/// keeps a plausible header; it must still be rejected, and rejected on
/// duration *before* size is ever consulted.
#[test]
fn a_truncated_output_fails_on_duration_before_size_is_consulted() {
    let ex = Executor::new(ExecutorConfig::default());
    let source_us = Executor::last_packet_pts_us(&packets(80)).expect("a PTS");

    // Truncated to a fifth: smaller than the source, and short.
    let truncated = Executor::probe_output(media(), Executor::last_packet_pts_us(&packets(16)));
    let report = ex.validate(&spec(source_us, 1, 0), Some(truncated), 0, Some(200_000));

    assert!(
        !report.passed,
        "a truncated output must be rejected: {report:?}"
    );
    assert!(
        !report.gates_run.contains(&ValidationGate::Size),
        "size must never be reached -- a truncated file is always smaller, so a \
         size-first gate accepts exactly the outputs that destroyed the media. \
         gates_run={:?}",
        report.gates_run
    );
    assert!(
        matches!(
            report.failed_gate,
            Some(ValidationGate::Duration) | Some(ValidationGate::Probe)
        ),
        "expected Duration or Probe, got {:?}",
        report.failed_gate
    );
}

/// The 1 KB artefact the AV1/NVDEC path actually produces. It is not media at
/// all, and must be rejected without the validator erroring.
#[test]
fn a_kilobyte_of_garbage_is_rejected_not_errored() {
    let ex = Executor::new(ExecutorConfig::default());
    let report = ex.validate(&spec(8_000_000, 1, 0), None, 0, Some(1024));
    assert!(!report.passed);
    assert!(!report.gates_run.contains(&ValidationGate::Size));

    // A header without a readable packet is not media either.
    let empty = Executor::probe_output(media(), Executor::last_packet_pts_us(&[]));
    let report = ex.validate(&spec(8_000_000, 1, 0), Some(empty), 0, Some(1024));
    assert_eq!(report.failed_gate, Some(ValidationGate::Probe));
}

/// A nonzero exit is rejected first of all, before anything is probed.
#[test]
fn a_failed_exit_code_is_rejected_first() {
    let ex = Executor::new(ExecutorConfig::default());
    let report = ex.validate(&spec(8_000_000, 1, 0), None, 69, Some(1024));
    assert!(!report.passed);
    assert_eq!(report.failed_gate, Some(ValidationGate::ExitCode));
    assert_eq!(
        report.gates_run,
        vec![ValidationGate::ExitCode],
        "nothing else should have run"
    );
}
