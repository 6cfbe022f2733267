use transcodarr::capability::{DecoderKind, DecoderStatus, DecoderTriple};
use transcodarr::plan::BitDepth;
use transcodarr::probe_caps::{
    TrialOutcome, capability_for, classify, decode_argv, parse_frames_decoded,
};

fn triple(codec: &str, depth: BitDepth) -> DecoderTriple {
    DecoderTriple {
        codec: codec.into(),
        profile: "High".into(),
        bit_depth: depth,
        kind: DecoderKind::Nvdec,
    }
}

fn ok_trial() -> TrialOutcome {
    TrialOutcome {
        exit_code: Some(0),
        signal: None,
        stdout: "frame=10\nfps=240\nprogress=end\n".into(),
        stderr: String::new(),
        expected_frames: 10,
    }
}

#[test]
fn a_clean_hardware_decode_is_verified_ok() {
    let (status, _) = classify(&ok_trial());
    assert_eq!(status, DecoderStatus::VerifiedOk);
}

/// The measured Turing AV1 failure: exit 69.
#[test]
fn the_turing_av1_hard_failure_is_verified_fail() {
    let (status, evidence) = classify(&TrialOutcome {
        exit_code: Some(69),
        stderr: "Failed setup for format cuda".into(),
        ..ok_trial()
    });
    assert_eq!(status, DecoderStatus::VerifiedFail);
    assert!(evidence.contains("exit 69"), "{evidence}");
}

/// The dangerous one. Exit 0, every frame decoded, correct output, on the
/// CPU. Folding this into "works" tells the scheduler this card takes Hi10
/// at GPU speed, and it queues accordingly.
#[test]
fn the_turing_hi10_soft_fallback_is_its_own_verdict() {
    let (status, evidence) = classify(&TrialOutcome {
        stderr: "Failed setup for format cuda: hwaccel initialisation returned error".into(),
        ..ok_trial()
    });
    assert_eq!(
        status,
        DecoderStatus::VerifiedSoftFallback,
        "a soft fallback must never be reported as a hardware decode"
    );
    assert!(evidence.contains("CPU"), "{evidence}");
}

/// Measured on the node on 2026-08-16 for `High 4:2:2` and
/// `High 4:4:4 Predictive` 8-bit H.264 -- the wording NVDEC uses when the
/// chroma format is the thing it cannot do.
#[test]
fn the_measured_chroma_fallback_wording_is_recognised() {
    let (status, _) = classify(&TrialOutcome {
        stderr: "[h264 @ 0000023b] Hardware is lacking required capabilities".into(),
        ..ok_trial()
    });
    assert_eq!(status, DecoderStatus::VerifiedSoftFallback);
}

/// Rule order. A soft fallback decodes every frame, so a frame check that
/// ran first would score the most dangerous case as a success.
#[test]
fn a_soft_fallback_outranks_a_complete_frame_count() {
    let (status, _) = classify(&TrialOutcome {
        stdout: "frame=10\nprogress=end\n".into(),
        stderr: "hwaccel initialisation returned error".into(),
        ..ok_trial()
    });
    assert_eq!(status, DecoderStatus::VerifiedSoftFallback);
}

/// ...and the core rule that makes the distinction matter: a soft fallback
/// does not satisfy a hardware decode requirement.
#[test]
fn a_soft_fallback_never_satisfies_a_hardware_requirement() {
    assert!(!DecoderStatus::VerifiedSoftFallback.satisfies_hardware_requirement());
    assert!(DecoderStatus::VerifiedOk.satisfies_hardware_requirement());
    assert!(!DecoderStatus::VerifiedFail.satisfies_hardware_requirement());
    assert!(!DecoderStatus::Untested.satisfies_hardware_requirement());
}

/// A decode that stops early produced output of an entirely plausible size.
/// Only the frame count says it did not finish.
#[test]
fn a_short_decode_is_a_failure() {
    let (status, evidence) = classify(&TrialOutcome {
        stdout: "frame=3\nprogress=end\n".into(),
        ..ok_trial()
    });
    assert_eq!(status, DecoderStatus::VerifiedFail);
    assert!(evidence.contains("3 of 10"), "{evidence}");
}

#[test]
fn exiting_zero_with_no_frames_reported_is_still_a_failure() {
    let (status, evidence) = classify(&TrialOutcome {
        stdout: String::new(),
        ..ok_trial()
    });
    assert_eq!(status, DecoderStatus::VerifiedFail);
    assert!(evidence.contains("nothing was decoded"), "{evidence}");
}

/// A hardware decoder that faults during initialisation dies on a signal
/// and never returns a code at all.
#[test]
fn a_process_killed_by_a_signal_is_a_failure_that_says_so() {
    let (status, evidence) = classify(&TrialOutcome {
        exit_code: None,
        signal: Some(11),
        ..ok_trial()
    });
    assert_eq!(status, DecoderStatus::VerifiedFail);
    assert!(evidence.contains("signal 11"), "{evidence}");
}

#[test]
fn the_last_frame_count_wins() {
    assert_eq!(
        parse_frames_decoded("frame=1\nfps=0\nframe=7\nframe=10\nprogress=end\n"),
        Some(10)
    );
    assert_eq!(parse_frames_decoded("fps=0\nprogress=end\n"), None);
}

/// The marker match must not be defeated by capitalisation -- ffmpeg's
/// wording varies across builds and locales.
#[test]
fn fallback_markers_match_regardless_of_case() {
    for stderr in [
        "HWACCEL INITIALISATION RETURNED ERROR",
        "Cannot load nvcuvid",
        "No decoder surfaces left",
        "falling back to software decoding",
    ] {
        let (status, _) = classify(&TrialOutcome {
            stderr: stderr.into(),
            ..ok_trial()
        });
        assert_eq!(
            status,
            DecoderStatus::VerifiedSoftFallback,
            "stderr {stderr:?} should read as a fallback"
        );
    }
}

/// Ordinary progress chatter must not be mistaken for a fallback, or every
/// working decoder would be demoted.
#[test]
fn ordinary_stderr_is_not_mistaken_for_a_fallback() {
    for stderr in [
        "frame= 240 fps=480 q=-1.0 size=  2048kB",
        "[hevc @ 0x55] Reinit context to 1920x1080",
        "",
    ] {
        let (status, _) = classify(&TrialOutcome {
            stderr: stderr.into(),
            ..ok_trial()
        });
        assert_eq!(status, DecoderStatus::VerifiedOk, "stderr {stderr:?}");
    }
}

#[test]
fn a_capability_carries_its_triple_and_its_evidence() {
    let cap = capability_for(triple("h264", BitDepth::Ten), &ok_trial());
    assert_eq!(cap.triple.codec, "h264");
    assert_eq!(cap.triple.bit_depth, BitDepth::Ten);
    assert_eq!(cap.status, DecoderStatus::VerifiedOk);
    assert!(
        !cap.evidence.is_empty(),
        "a verdict without evidence cannot be argued with"
    );
}

/// Eight-bit and ten-bit are separate triples: the whole Turing Hi10 lesson
/// is that one can work while the other silently does not.
#[test]
fn bit_depth_is_part_of_the_triple() {
    let eight = capability_for(triple("h264", BitDepth::Eight), &ok_trial());
    let ten = capability_for(
        triple("h264", BitDepth::Ten),
        &TrialOutcome {
            stderr: "hwaccel initialisation returned error".into(),
            ..ok_trial()
        },
    );
    assert_eq!(eight.status, DecoderStatus::VerifiedOk);
    assert_eq!(ten.status, DecoderStatus::VerifiedSoftFallback);
    assert_ne!(eight.triple, ten.triple);
}

#[test]
fn a_hardware_trial_asks_for_the_hardware_and_a_software_one_does_not() {
    let mut t = triple("h264", BitDepth::Eight);
    let argv = decode_argv(&t, "/s/x.mkv");
    let i = argv.iter().position(|a| a == "-hwaccel").expect("nvdec");
    assert_eq!(argv[i + 1], "cuda");

    t.kind = DecoderKind::Software;
    assert!(
        !decode_argv(&t, "/s/x.mkv").contains(&"-hwaccel".to_string()),
        "a software trial that asks for cuda measures the wrong thing"
    );
}

/// The frame count only exists because `-progress` was asked for, and the
/// sample path must survive spaces without a shell to re-split it.
#[test]
fn a_trial_requests_progress_and_passes_its_path_whole() {
    let argv = decode_argv(&triple("h264", BitDepth::Eight), "/a dir/x.mkv");
    let i = argv.iter().position(|a| a == "-progress").unwrap();
    assert_eq!(argv[i + 1], "pipe:1");
    assert!(argv.contains(&"/a dir/x.mkv".to_string()));
    let f = argv.iter().position(|a| a == "-f").unwrap();
    assert_eq!(argv[f + 1], "null");
}

#[test]
fn a_later_output_without_a_count_keeps_the_earlier_one() {
    assert_eq!(parse_frames_decoded("frame=3\r\nfps=1"), Some(3));
    assert_eq!(parse_frames_decoded("  frame= 4 \n\nframe=\n"), Some(4));
    assert_eq!(parse_frames_decoded("frame=3\nframe=x"), Some(3));
    assert_eq!(parse_frames_decoded(""), None);
}
