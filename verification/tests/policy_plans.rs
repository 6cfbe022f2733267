use transcodarr::facts::{FileFacts, SizeThresholds};
use transcodarr::plan::{BitDepth, EncoderId, pix_fmt_for};
use transcodarr::policy::{
    Decision, DecisionClass, VideoPlan, default_space_saver, encode_plan_for, evaluate, next_job,
    validation_spec_for,
};
use transcodarr::validate::SizePolicy;

fn facts() -> FileFacts {
    FileFacts {
        container: "matroska".into(),
        duration_us: Some(3_600_000_000),
        size_bytes: 8_000_000_000,
        video_codec: Some("h264".into()),
        video_bit_depth: Some(BitDepth::Ten),
        audio_codecs: vec!["truehd".into()],
        audio_track_count: 3,
        subtitle_track_count: 5,
        ..FileFacts::default()
    }
}

/// A bare `-c:a eac3` silently keeps only the default track and drops the
/// rest. Measured, and the single easiest way to quietly destroy a library.
#[test]
fn an_audio_plan_maps_every_stream_and_copies_video() {
    let f = facts();
    let d = evaluate(&f, &default_space_saver());
    let plan = encode_plan_for(&d, &f).expect("audio work is owed");

    assert_eq!(
        plan.video_codec,
        EncoderId::Copy,
        "video must not be touched"
    );
    assert!(
        plan.extra_args
            .windows(2)
            .any(|w| w[0] == "-map" && w[1] == "0"),
        "every stream must be mapped: {:?}",
        plan.extra_args
    );
}

/// Nothing owed means no encode. Emitting one anyway would re-encode the
/// whole library for no reason.
#[test]
fn a_settled_file_yields_no_plan() {
    let f = FileFacts {
        audio_codecs: vec!["eac3".into()],
        video_codec: Some("hevc".into()),
        ..facts()
    };
    let d = evaluate(&f, &default_space_saver());
    if matches!(d.class, DecisionClass::Nothing) {
        assert!(encode_plan_for(&d, &f).is_none());
    }
}

/// DV and object audio are excluded from all work. A plan here would
/// re-encode a title that must never be re-encoded.
#[test]
fn a_quarantined_decision_yields_no_plan() {
    let d = Decision {
        class: DecisionClass::Quarantined,
        audio: None,
        video: None,
        reason: "dolby vision".into(),
    };
    assert!(encode_plan_for(&d, &facts()).is_none());
}

/// A percentage alone permits a 40-minute loss on a three-hour film. The
/// absolute cap is what actually protects the media.
#[test]
fn the_duration_tolerance_is_capped_at_five_seconds() {
    let f = facts(); // one hour
    let d = evaluate(&f, &default_space_saver());
    let spec = validation_spec_for(&f, &d);

    // 0.5% of an hour is 18s, so the 5s cap must bind.
    assert_eq!(spec.max_shorter_us, 5_000_000);
}

/// ...but on a short file the percentage is tighter than the cap, and it
/// is the percentage that must bind.
#[test]
fn the_tolerance_is_a_percentage_on_short_files() {
    let f = FileFacts {
        duration_us: Some(600_000_000), // ten minutes
        ..facts()
    };
    let d = evaluate(&f, &default_space_saver());
    let spec = validation_spec_for(&f, &d);
    assert_eq!(spec.max_shorter_us, 3_000_000, "0.5% of ten minutes");
}

/// Re-encoding TrueHD or Opus to EAC3 640k legitimately grows the file.
/// Requiring shrinkage would reject every audio job and strand the video
/// stage meant to follow it.
#[test]
fn an_audio_pass_is_allowed_to_grow_the_file() {
    let f = facts();
    let d = evaluate(&f, &default_space_saver());
    let spec = validation_spec_for(&f, &d);
    assert!(
        matches!(spec.size_policy, SizePolicy::MayGrow),
        "got {:?}",
        spec.size_policy
    );
}

#[test]
fn a_video_pass_must_actually_save_space() {
    let d = Decision {
        class: DecisionClass::Video,
        audio: None,
        video: Some(VideoPlan {
            encoder_preference: vec![EncoderId::Libx265],
            quality: 22,
            source_depth: BitDepth::Ten,
        }),
        reason: "video".into(),
    };
    let spec = validation_spec_for(&facts(), &d);
    assert!(matches!(
        spec.size_policy,
        SizePolicy::RequireSmaller { .. }
    ));
}

/// Every audio and subtitle track must survive; the spec is what carries
/// that expectation to the validator.
#[test]
fn the_spec_demands_every_track_survives() {
    let f = facts();
    let d = evaluate(&f, &default_space_saver());
    let spec = validation_spec_for(&f, &d);
    assert_eq!(spec.expected_audio_streams, 3);
    assert_eq!(spec.expected_subtitle_streams, 5);
}

/// libx265 wants yuv420p10le and NVENC wants p010le; the wrong one errors
/// the job. Never upconvert 8-bit.
#[test]
fn a_video_plan_preserves_source_bit_depth() {
    for depth in [BitDepth::Eight, BitDepth::Ten] {
        let d = Decision {
            class: DecisionClass::Video,
            audio: None,
            video: Some(VideoPlan {
                encoder_preference: vec![EncoderId::Libx265],
                quality: 22,
                source_depth: depth,
            }),
            reason: "video".into(),
        };
        let plan = encode_plan_for(&d, &facts()).unwrap();
        assert_eq!(
            plan.pix_fmt,
            pix_fmt_for(EncoderId::Libx265, depth),
            "depth {depth:?} must round-trip into the pixel format"
        );
    }
}

/// 12-bit has no target format: declining is safe, and a plan without a pixel
/// format would let ffmpeg reduce it.
#[test]
fn twelve_bit_video_is_declined() {
    let of = |source_depth: BitDepth, encoder: EncoderId| Decision {
        class: DecisionClass::Video,
        audio: None,
        video: Some(VideoPlan { encoder_preference: vec![encoder], quality: 22, source_depth }),
        reason: "video".into(),
    };
    for encoder in [EncoderId::Libx265, EncoderId::HevcNvenc] {
        let t = SizeThresholds::default();
        let twelve = of(BitDepth::Twelve, encoder);
        assert!(encode_plan_for(&twelve, &facts()).is_none());
        assert!(next_job(&twelve, &facts(), &t).is_none());
        let ten = of(BitDepth::Ten, encoder);
        assert!(encode_plan_for(&ten, &facts()).is_some());
        assert!(next_job(&ten, &facts(), &t).is_some());
    }
}
