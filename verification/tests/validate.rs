use transcodarr::probe::{MediaProbe, StreamInfo, StreamKind};
use transcodarr::validate::{SizePolicy, ValidationGate, ValidationSpec, validate_output};

fn probe_with(duration_us: Option<u64>, audio: usize, subs: usize) -> MediaProbe {
    let mut streams = vec![StreamInfo {
        index: 0,
        kind: StreamKind::Video,
        codec: "hevc".into(),
        ..Default::default()
    }];
    for i in 0..audio {
        streams.push(StreamInfo {
            index: 1 + i as u32,
            kind: StreamKind::Audio,
            codec: "eac3".into(),
            ..Default::default()
        });
    }
    for i in 0..subs {
        streams.push(StreamInfo {
            index: 100 + i as u32,
            kind: StreamKind::Subtitle,
            codec: "subrip".into(),
            ..Default::default()
        });
    }
    MediaProbe {
        container: "matroska".into(),
        duration_us,
        streams,
        ..Default::default()
    }
}

/// One hour, 2 audio, 1 subtitle, must shrink 5%.
fn spec() -> ValidationSpec {
    ValidationSpec {
        source_duration_us: 3_600_000_000,
        max_shorter_us: 5_000_000, // min(0.5%, 5s) -> 5s at this length
        max_longer_us: 1_000_000,
        expected_audio_streams: 2,
        expected_subtitle_streams: 1,
        source_bytes: 10_000_000_000,
        size_policy: SizePolicy::RequireSmaller { min_shrink_ppm: 50_000 },
    }
}

#[test]
fn a_good_output_passes_every_gate() {
    let r = validate_output(
        &spec(),
        &probe_with(Some(3_600_000_000), 2, 1),
        0,
        4_000_000_000,
    );
    assert!(r.passed, "{}", r.detail);
    assert_eq!(r.gates_run, ValidationGate::order());
}

/// The headline safety property. A truncated output is both far too short
/// and far too small; it must be rejected for being short, and the size
/// gate must never run — because on size alone it would have *passed*.
#[test]
fn truncated_output_fails_duration_before_size_is_consulted() {
    // The measured Turing AV1 failure: ~1 KB out, a few seconds of content.
    let truncated = probe_with(Some(2_000_000), 2, 1);
    let r = validate_output(&spec(), &truncated, 0, 1_024);

    assert!(!r.passed);
    assert_eq!(r.failed_gate, Some(ValidationGate::Duration));
    assert!(
        !r.gates_run.contains(&ValidationGate::Size),
        "Size must never be reached for a truncated output; gates run: {:?}",
        r.gates_run
    );
}

/// Proof that the ordering is what saves us: that same truncated file
/// satisfies the size policy comfortably.
#[test]
fn the_truncated_output_would_have_passed_a_size_first_gate() {
    let s = spec();
    let SizePolicy::RequireSmaller { min_shrink_ppm } = s.size_policy else {
        unreachable!()
    };
    let min_shrink = f64::from(min_shrink_ppm) / 1_000_000.0;
    let target = (s.source_bytes as f64 * (1.0 - min_shrink)) as u64;
    assert!(
        1_024 < target,
        "1 KB is 'smaller', which is exactly why size cannot be the criterion"
    );
}

#[test]
fn nonzero_exit_fails_first_and_probes_nothing() {
    let r = validate_output(&spec(), &probe_with(Some(3_600_000_000), 2, 1), 69, 1_024);
    assert_eq!(r.failed_gate, Some(ValidationGate::ExitCode));
    assert_eq!(r.gates_run, vec![ValidationGate::ExitCode]);
}

#[test]
fn unprobeable_output_fails_before_duration() {
    let r = validate_output(&spec(), &probe_with(None, 2, 1), 0, 1_024);
    assert_eq!(r.failed_gate, Some(ValidationGate::Probe));
    assert!(!r.gates_run.contains(&ValidationGate::Duration));
}

#[test]
fn dropped_audio_tracks_are_caught() {
    // The classic `-c:a eac3` mistake: file plays fine, one track survives.
    let r = validate_output(
        &spec(),
        &probe_with(Some(3_600_000_000), 1, 1),
        0,
        4_000_000_000,
    );
    assert_eq!(r.failed_gate, Some(ValidationGate::Streams));
    assert!(r.detail.contains("audio streams dropped"));
}

#[test]
fn dropped_subtitles_are_caught() {
    let r = validate_output(
        &spec(),
        &probe_with(Some(3_600_000_000), 2, 0),
        0,
        4_000_000_000,
    );
    assert_eq!(r.failed_gate, Some(ValidationGate::Streams));
    assert!(r.detail.contains("subtitle"));
}

#[test]
fn small_duration_drift_within_tolerance_is_accepted() {
    // 2s short on an hour: under the 5s absolute cap.
    let r = validate_output(
        &spec(),
        &probe_with(Some(3_598_000_000), 2, 1),
        0,
        4_000_000_000,
    );
    assert!(r.passed, "{}", r.detail);
}

#[test]
fn a_percentage_only_tolerance_would_have_let_this_through() {
    // 30s short on an hour is 0.83% — under a 1% percentage rule, over the
    // absolute 5s cap. The cap is what catches it.
    let r = validate_output(
        &spec(),
        &probe_with(Some(3_570_000_000), 2, 1),
        0,
        4_000_000_000,
    );
    assert_eq!(r.failed_gate, Some(ValidationGate::Duration));
}

#[test]
fn may_grow_lets_an_audio_stage_get_bigger() {
    // Opus -> EAC3 640k legitimately grows the file. Rejecting it would
    // strand the video stage that was meant to follow.
    let mut s = spec();
    s.size_policy = SizePolicy::MayGrow;
    let r = validate_output(
        &s,
        &probe_with(Some(3_600_000_000), 2, 1),
        0,
        12_000_000_000,
    );
    assert!(r.passed, "{}", r.detail);
    assert_eq!(r.gates_run, ValidationGate::order());
}

#[test]
fn insufficient_shrink_fails_size_but_only_after_everything_else_passed() {
    let r = validate_output(
        &spec(),
        &probe_with(Some(3_600_000_000), 2, 1),
        0,
        9_990_000_000,
    );
    assert_eq!(r.failed_gate, Some(ValidationGate::Size));
    assert_eq!(
        r.gates_run,
        ValidationGate::order(),
        "size runs last, not first"
    );
}

#[test]
fn seconds_and_shares_are_worded_as_doubles_print() {
    let s = ValidationSpec {
        source_duration_us: 10_000_000,
        max_shorter_us: 350_000,
        max_longer_us: 250_000,
        ..spec()
    };
    let r = validate_output(&s, &probe_with(Some(4_650_000), 2, 1), 0, 1);
    assert_eq!(r.detail, "output is 5.3s shorter than source (limit 0.3s) \u{2014} truncated");
    let r = validate_output(&s, &probe_with(Some(10_750_000), 2, 1), 0, 1);
    assert_eq!(r.detail, "output is 0.8s longer than source (limit 0.2s)");

    let s = ValidationSpec {
        source_bytes: 100,
        size_policy: SizePolicy::RequireSmaller { min_shrink_ppm: 575_000 },
        ..spec()
    };
    let r = validate_output(&s, &probe_with(Some(3_600_000_000), 2, 1), 0, 99);
    assert_eq!(r.detail, "output 99 B did not shrink by 57% of 100 B");
}
