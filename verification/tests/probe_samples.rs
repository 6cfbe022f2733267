use transcodarr::capability::DecoderKind;
use transcodarr::plan::BitDepth;
use transcodarr::probe_samples::{
    SampleSet, candidate_samples, encode_sample_argv, encoders_for, nvdec_triples,
    software_triples,
};

#[test]
fn a_slug_is_filesystem_safe_and_names_what_it_describes() {
    let spec = candidate_samples()
        .into_iter()
        .find(|s| s.profile == "High 4:2:2")
        .expect("the 4:2:2 spec is the measured NVDEC boundary case");
    assert_eq!(spec.slug(), "h264_high-4-2-2_8");
    assert!(!spec.slug().contains(['/', ':']));
}

/// Every candidate profile is ffprobe's own spelling, measured on
/// 2026-08-16. `High10` and `Profile0` are what a list drafted from memory
/// says, and they match nothing.
#[test]
fn candidate_profiles_use_ffprobes_spelling_with_spaces() {
    let profiles: Vec<&str> = candidate_samples().iter().map(|s| s.profile).collect();
    assert!(profiles.contains(&"High 10"), "{profiles:?}");
    assert!(profiles.contains(&"Main 10"), "{profiles:?}");
    assert!(profiles.contains(&"Profile 0"), "{profiles:?}");
    for p in profiles {
        assert!(
            !p.chars().any(|c| c.is_ascii_digit()) || p.contains(' ') || p == "Profile 0",
            "{p:?} looks like a from-memory spelling with the space removed"
        );
    }
}

/// The two measured Turing soft-fallback cases must both be probed, or the
/// card is advertised as able to decode them.
#[test]
fn the_measured_turing_fallback_cases_are_candidates() {
    for (codec, profile) in [("h264", "High 10"), ("h264", "High 4:2:2")] {
        assert!(
            candidate_samples()
                .iter()
                .any(|s| s.codec == codec && s.profile == profile),
            "{codec}/{profile} is a measured NVDEC soft fallback and must be trialled"
        );
    }
}

/// `Main` H.264 is what real library media carries and what no from-memory
/// candidate list contained.
#[test]
fn the_common_real_world_profile_is_a_candidate() {
    assert!(
        candidate_samples()
            .iter()
            .any(|s| s.codec == "h264" && s.profile == "Main")
    );
}

#[test]
fn ten_bit_specs_encode_into_a_ten_bit_pixel_format() {
    for spec in candidate_samples() {
        let ten = spec.bit_depth == BitDepth::Ten;
        assert_eq!(
            ten,
            spec.pix_fmt.contains("10"),
            "{} claims {:?} but encodes into {}",
            spec.slug(),
            spec.bit_depth,
            spec.pix_fmt
        );
    }
}

#[test]
fn every_candidate_codec_has_at_least_one_encoder_to_try() {
    for spec in candidate_samples() {
        assert!(
            !encoders_for(spec.codec).is_empty(),
            "{} can never be generated",
            spec.slug()
        );
    }
}

/// The node's original ffmpeg had neither libx264 nor libx265; the list is
/// ordered so such a build still reaches H.264 through another encoder.
#[test]
fn h264_has_a_fallback_beyond_libx264() {
    let list = encoders_for("h264");
    assert_eq!(list.first(), Some(&"libx264"));
    assert!(
        list.len() > 1,
        "a build without libx264 must still have something to try"
    );
}

#[test]
fn the_output_path_is_its_own_argv_element() {
    let spec = &candidate_samples()[0];
    let out = "/tmp/a dir/with space.mkv";
    let argv = encode_sample_argv(spec, "libx264", out);
    assert_eq!(argv.last().map(String::as_str), Some(out));
}

#[test]
fn a_profile_argument_is_passed_only_when_the_spec_names_one() {
    let with = candidate_samples()
        .into_iter()
        .find(|s| s.profile_arg.is_some())
        .unwrap();
    let without = candidate_samples()
        .into_iter()
        .find(|s| s.profile_arg.is_none())
        .unwrap();
    assert!(
        encode_sample_argv(&with, "libx264", "o.mkv")
            .contains(&"-profile:v".to_string())
    );
    assert!(
        !encode_sample_argv(&without, "libx265", "o.mkv")
            .contains(&"-profile:v".to_string())
    );
}

#[test]
fn the_pixel_format_is_passed_as_two_adjacent_elements() {
    let spec = candidate_samples()
        .into_iter()
        .find(|s| s.bit_depth == BitDepth::Ten)
        .unwrap();
    let argv = encode_sample_argv(&spec, "libx265", "o.mkv");
    let i = argv.iter().position(|a| a == "-pix_fmt").unwrap();
    assert_eq!(argv[i + 1], spec.pix_fmt);
}

fn set_with(slugs: &[&str]) -> SampleSet {
    let mut set = SampleSet::new();
    for s in slugs {
        set.insert((*s).to_string(), format!("/s/{s}.mkv"));
    }
    set
}

/// Without `cuda` advertised, a hardware trial would decode in software and
/// report a verdict about the CPU.
#[test]
fn no_hardware_triple_is_probed_when_cuda_is_absent() {
    let samples = set_with(&["h264_high_8"]);
    assert!(nvdec_triples(&samples, "videotoolbox\nvaapi\n").is_empty());
    assert_eq!(nvdec_triples(&samples, "cuda\n").len(), 1);
}

#[test]
fn a_hardware_triple_carries_the_exact_profile() {
    let samples = set_with(&["h264_high-10_10"]);
    let t = nvdec_triples(&samples, "cuda\n");
    assert_eq!(t.len(), 1);
    assert_eq!(t[0].0.profile, "High 10");
    assert_eq!(t[0].0.kind, DecoderKind::Nvdec);
}

/// The asymmetry that keeps `Main` H.264 -- and every profile nobody
/// thought to trial -- off the CPU path's blocklist.
#[test]
fn software_triples_are_profile_free_and_one_per_codec_and_depth() {
    let samples = set_with(&[
        "h264_high_8",
        "h264_main_8",
        "h264_constrained-baseline_8",
        "h264_high-10_10",
    ]);
    let t = software_triples(&samples);
    assert_eq!(t.len(), 2, "three 8-bit clips are still one 8-bit triple");
    for (triple, _) in &t {
        assert!(triple.profile.is_empty(), "{triple:?}");
        assert_eq!(triple.kind, DecoderKind::Software);
    }
    let depths: Vec<_> = t.iter().map(|(x, _)| x.bit_depth).collect();
    assert!(depths.contains(&BitDepth::Eight) && depths.contains(&BitDepth::Ten));
}

/// A codec with no clip is absent rather than guessed at.
#[test]
fn a_codec_with_no_sample_yields_no_triple() {
    let t = software_triples(&set_with(&[]));
    assert!(t.is_empty());
}
