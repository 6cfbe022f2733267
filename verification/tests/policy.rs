use transcodarr::capability::{
    AgentClass, Capability, ContainerId, Cores, DecoderCapability, DecoderKind, DecoderStatus,
    DecoderTriple, Mount, Platform, Requirement, TransportMode, satisfies,
};
use transcodarr::double::Double;
use transcodarr::facts::{FileFacts, SizeThresholds};
use transcodarr::job::JobClass;
use transcodarr::plan::{BitDepth, EncoderId};
use transcodarr::policy::{
    DecisionClass, Match, default_space_saver, evaluate, evaluate_explained, next_job,
    rules_version,
};

fn cores(n: f64) -> Cores {
    Cores {
        amount: Double { bits: n.to_bits() },
        json: serde_json::Value::from(n).to_string(),
        shown: n.to_string(),
    }
}

fn facts(video: &str, depth: BitDepth, audio: &[&str], bitrate: u64) -> FileFacts {
    FileFacts {
        container: "matroska".into(),
        duration_us: Some(3_600_000_000),
        size_bytes: 5_000_000_000,
        bit_rate_bps: Some(bitrate),
        video_codec: Some(video.into()),
        video_bit_depth: Some(depth),
        width: Some(1920),
        height: Some(1080),
        audio_codecs: audio.iter().map(|s| s.to_string()).collect(),
        audio_track_count: audio.len(),
        ..Default::default()
    }
}

/// The documented example: Opus stereo with HEVC video yields exactly one
/// audio job and no video work at all.
#[test]
fn opus_with_hevc_gives_audio_only() {
    let d = evaluate(
        &facts("hevc", BitDepth::Ten, &["opus"], 4_000_000),
        &default_space_saver(),
    );
    assert_eq!(d.class, DecisionClass::Audio);
    assert_eq!(d.audio.as_ref().unwrap().codec, EncoderId::Eac3);
    assert!(d.video.is_none(), "hevc matches no encode-video rule");
}

#[test]
fn h264_above_the_bitrate_floor_is_re_encoded() {
    let d = evaluate(
        &facts("h264", BitDepth::Eight, &["aac"], 8_000_000),
        &default_space_saver(),
    );
    assert_eq!(d.class, DecisionClass::Video);
    assert_eq!(
        d.video.as_ref().unwrap().encoder_preference[0],
        EncoderId::HevcNvenc
    );
}

#[test]
fn low_bitrate_h264_is_left_alone() {
    let d = evaluate(
        &facts("h264", BitDepth::Eight, &["aac"], 900_000),
        &default_space_saver(),
    );
    assert_eq!(d.class, DecisionClass::Nothing);
}

#[test]
fn lossless_audio_plus_encodable_video_is_two_stages() {
    let d = evaluate(
        &facts("h264", BitDepth::Eight, &["truehd"], 8_000_000),
        &default_space_saver(),
    );
    assert_eq!(d.class, DecisionClass::AudioThenVideo);
}

/// HDR vetoes video but must not strand the audio work.
#[test]
fn hdr_vetoes_video_yet_audio_is_still_planned() {
    let mut f = facts("h264", BitDepth::Ten, &["truehd"], 9_000_000);
    f.is_hdr = true;
    let d = evaluate(&f, &default_space_saver());
    assert_eq!(d.class, DecisionClass::Audio);
    assert!(d.video.is_none(), "HDR must never be re-encoded");
    assert!(d.audio.is_some(), "audio work must survive the video veto");
}

#[test]
fn object_audio_is_quarantined_not_processed() {
    let mut f = facts("h264", BitDepth::Eight, &["truehd"], 9_000_000);
    f.has_object_audio = true;
    let d = evaluate(&f, &default_space_saver());
    assert_eq!(d.class, DecisionClass::Quarantined);
    assert!(d.reason.contains("object audio"));
}

#[test]
fn dolby_vision_profile_7_is_quarantined() {
    let mut f = facts("hevc", BitDepth::Ten, &["eac3"], 9_000_000);
    f.is_dovi = true;
    f.dovi_profile = Some(7);
    let d = evaluate(&f, &default_space_saver());
    assert_eq!(d.class, DecisionClass::Quarantined);
}

/// The documented AV1 case. Policy does not encode "not the GPU box" — it
/// names a decoder triple, and capability matching does the rest.
#[test]
fn av1_plans_a_cpu_job_that_the_turing_node_cannot_satisfy() {
    let f = facts("av1", BitDepth::Eight, &["aac"], 6_000_000);
    let d = evaluate(&f, &default_space_saver());
    assert_eq!(d.class, DecisionClass::Video);
    assert_eq!(
        d.video.as_ref().unwrap().encoder_preference,
        vec![EncoderId::Libx265],
        "no NVENC offered: Turing cannot decode AV1 at all"
    );

    let job = next_job(&d, &f, &SizeThresholds::default()).unwrap();
    assert_eq!(job.class, JobClass::VideoCpu);

    // The GPU node advertises NVENC but not libx265, so it fails to match
    // *before* dispatch rather than failing at runtime with exit 69.
    let gpu = Capability {
        transport: TransportMode::Mount,
        classes: vec![AgentClass::Gpu],
        encoders: vec![EncoderId::HevcNvenc],
        muxers: vec![ContainerId::Matroska],
        decoders: vec![DecoderCapability {
            triple: DecoderTriple {
                codec: "av1".into(),
                profile: String::new(),
                bit_depth: BitDepth::Eight,
                kind: DecoderKind::Nvdec,
            },
            status: DecoderStatus::VerifiedFail,
            evidence: "exit 69".into(),
        }],
        effective_cores: cores(8.0),
        mounts: vec![Mount {
            canonical_prefix: "/mnt/media".into(),
            local_path: "Z:\\".into(),
            writable: true,
        }],
        platform: Some(Platform::Windows),
        workarea_free_bytes: u64::MAX,
        workarea_path: String::new(),
        labels: vec![],
    };
    assert!(
        satisfies(&gpu, &job.requirements).is_err(),
        "AV1 must not route to the Turing node"
    );
}

/// A video job asks for the decode it performs, which is a software one
/// even when the encoder is NVENC.
///
/// `build_ffmpeg_argv_raw` cannot emit `-hwaccel` — it is an input option
/// and the builder puts nothing before `-i` — so requiring `Nvdec` here
/// described a pipeline that does not run, and fail-closed matching turned
/// that into refusing work the card completes.
#[test]
fn a_gpu_video_job_requires_the_software_decode_it_actually_performs() {
    let f = facts("h264", BitDepth::Eight, &["aac"], 8_000_000);
    let d = evaluate(&f, &default_space_saver());
    let job = next_job(&d, &f, &SizeThresholds::default()).unwrap();

    // The encoder is what makes this job a GPU job.
    assert!(
        job.requirements
            .0
            .iter()
            .any(|r| matches!(r, Requirement::AgentClass(AgentClass::Gpu))),
        "the job should still be a GPU job: {:?}",
        job.requirements.0
    );

    let decoders: Vec<&DecoderTriple> = job
        .requirements
        .0
        .iter()
        .filter_map(|r| match r {
            Requirement::Decoder(t) => Some(t),
            _ => None,
        })
        .collect();
    assert_eq!(decoders.len(), 1, "exactly one decode path is asked for");
    assert_eq!(decoders[0].kind, DecoderKind::Software);
    assert_eq!(
        decoders[0].profile, "",
        "software decode does not vary by profile"
    );
}

/// The profiles NVDEC silently falls back on must not block a GPU job.
///
/// These are the three the Turing node refused before the requirement was
/// corrected: `High 4:2:2` and `High 10` trial as `VerifiedSoftFallback`
/// and `av1` as `VerifiedFail`, yet each transcodes fine, because nothing
/// in the job asks NVDEC to decode anything.
#[test]
fn a_profile_nvdec_cannot_handle_still_yields_a_satisfiable_requirement() {
    for (codec, profile, depth) in [
        ("h264", "High 4:2:2", BitDepth::Eight),
        ("h264", "High 10", BitDepth::Ten),
        ("av1", "Main", BitDepth::Eight),
    ] {
        let mut f = facts(codec, depth, &["aac"], 8_000_000);
        f.video_profile = Some(profile.to_string());
        let d = evaluate(&f, &default_space_saver());
        let Some(job) = next_job(&d, &f, &SizeThresholds::default()) else {
            continue;
        };
        for r in &job.requirements.0 {
            if let Requirement::Decoder(t) = r {
                assert_eq!(
                    t.kind,
                    DecoderKind::Software,
                    "{codec} {profile} asked for a hardware decode the plan never performs"
                );
                assert_eq!(
                    t.profile, "",
                    "{codec} {profile} keyed the triple on a profile, so any agent that \
                     did not happen to trial it would refuse the job"
                );
            }
        }
    }
}

#[test]
fn audio_then_video_emits_the_audio_job_first() {
    let f = facts("h264", BitDepth::Eight, &["truehd"], 8_000_000);
    let d = evaluate(&f, &default_space_saver());
    let job = next_job(&d, &f, &SizeThresholds::default()).unwrap();
    assert_eq!(
        job.class,
        JobClass::Audio,
        "the video job is derived later, from the audio output's probe"
    );
}

#[test]
fn quarantined_and_idle_decisions_produce_no_job() {
    let mut f = facts("h264", BitDepth::Eight, &["aac"], 900_000);
    assert!(
        next_job(
            &evaluate(&f, &default_space_saver()),
            &f,
            &SizeThresholds::default()
        )
        .is_none()
    );

    f.has_object_audio = true;
    assert!(
        next_job(
            &evaluate(&f, &default_space_saver()),
            &f,
            &SizeThresholds::default()
        )
        .is_none()
    );
}

#[test]
fn evaluation_is_deterministic_for_fixed_inputs() {
    let f = facts("h264", BitDepth::Eight, &["truehd"], 8_000_000);
    let p = default_space_saver();
    let first = evaluate(&f, &p);
    for _ in 0..64 {
        assert_eq!(evaluate(&f, &p), first);
    }
}

#[test]
fn rules_version_changes_when_the_policy_does() {
    let a = default_space_saver();
    let mut b = a.clone();
    assert_eq!(rules_version(&a), rules_version(&b));
    b.rules[0].name = "renamed".into();
    assert_ne!(
        rules_version(&a),
        rules_version(&b),
        "a policy edit must invalidate stored skip markers"
    );
}

#[test]
fn explain_reports_which_rules_fired() {
    let f = facts("h264", BitDepth::Eight, &["truehd"], 8_000_000);
    let (_, trace) = evaluate_explained(&f, &default_space_saver());
    let fired: Vec<_> = trace.iter().filter(|t| t.matched).collect();
    assert!(fired.len() >= 2, "audio and video rules both fired");
    assert!(
        trace.iter().any(|t| !t.matched),
        "non-matches are shown too"
    );
}

#[test]
fn an_empty_match_is_a_catch_all() {
    assert!(Match::default().matches(&facts("h264", BitDepth::Eight, &[], 1)));
}
