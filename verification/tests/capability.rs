use transcodarr::capability::{
    AgentClass, Capability, ContainerId, Cores, DecoderCapability, DecoderKind, DecoderStatus,
    DecoderTriple, Mount, Platform, Requirement, Requirements, satisfies,
};
use transcodarr::double::Double;
use transcodarr::plan::{BitDepth, EncoderId};

fn cores(n: f64) -> Cores {
    Cores {
        amount: Double { bits: n.to_bits() },
        json: serde_json::Value::from(n).to_string(),
        shown: n.to_string(),
    }
}

fn turing_gpu() -> Capability {
    Capability {
        classes: vec![AgentClass::Gpu],
        encoders: vec![EncoderId::HevcNvenc],
        muxers: vec![ContainerId::Matroska],
        decoders: vec![
            DecoderCapability {
                triple: DecoderTriple {
                    codec: "h264".into(),
                    profile: String::new(),
                    bit_depth: BitDepth::Eight,
                    kind: DecoderKind::Nvdec,
                },
                status: DecoderStatus::VerifiedOk,
                evidence: "trial decode ok".into(),
            },
            DecoderCapability {
                triple: DecoderTriple {
                    codec: "h264".into(),
                    profile: "High 10".into(),
                    bit_depth: BitDepth::Ten,
                    kind: DecoderKind::Nvdec,
                },
                // Measured: succeeds, but on the CPU.
                status: DecoderStatus::VerifiedSoftFallback,
                evidence: "hwaccel initialisation returned error".into(),
            },
            DecoderCapability {
                triple: DecoderTriple {
                    codec: "av1".into(),
                    profile: String::new(),
                    bit_depth: BitDepth::Eight,
                    kind: DecoderKind::Nvdec,
                },
                // Measured: ffmpeg exit 69, ~1 KB truncated output.
                status: DecoderStatus::VerifiedFail,
                evidence: "exit 69, 1 KiB output".into(),
            },
        ],
        effective_cores: cores(8.0),
        mounts: vec![Mount {
            canonical_prefix: "/mnt/media".into(),
            local_path: "Z:\\".into(),
            writable: true,
        }],
        platform: Some(Platform::Windows),
        workarea_free_bytes: 500_000_000_000,
        labels: vec![],
        ..Capability::default()
    }
}

fn req_decode(codec: &str, profile: &str, depth: BitDepth) -> Requirements {
    Requirements(vec![Requirement::Decoder(DecoderTriple {
        codec: codec.into(),
        profile: profile.into(),
        bit_depth: depth,
        kind: DecoderKind::Nvdec,
    })])
}

/// The milestone assertion. A soft fallback is a *successful* decode that
/// did not use the hardware; treating it as support is how Hi10 files end
/// up crawling on the GPU box.
#[test]
fn soft_fallback_does_not_satisfy_a_decoder_requirement() {
    assert!(!DecoderStatus::VerifiedSoftFallback.satisfies_hardware_requirement());

    let err = satisfies(&turing_gpu(), &req_decode("h264", "High 10", BitDepth::Ten))
        .expect_err("Hi10 on Turing NVDEC must not match");
    assert!(
        err.detail.contains("VerifiedSoftFallback"),
        "{}",
        err.detail
    );
}

#[test]
fn untested_is_not_evidence_of_capability() {
    assert!(!DecoderStatus::Untested.satisfies_hardware_requirement());
    let err = satisfies(&turing_gpu(), &req_decode("vp9", "", BitDepth::Eight))
        .expect_err("never-trialled must not match");
    assert!(err.detail.contains("Untested"));
}

#[test]
fn av1_hard_failure_is_rejected_before_dispatch() {
    let err = satisfies(&turing_gpu(), &req_decode("av1", "", BitDepth::Eight))
        .expect_err("AV1 on Turing NVDEC is a hard failure");
    assert!(err.detail.contains("VerifiedFail"));
}

#[test]
fn verified_ok_matches() {
    assert!(satisfies(&turing_gpu(), &req_decode("h264", "", BitDepth::Eight)).is_ok());
}

#[test]
fn a_missing_encoder_names_itself_in_the_reason() {
    let err = satisfies(
        &turing_gpu(),
        &Requirements(vec![Requirement::Encoder(EncoderId::Libx265)]),
    )
    .expect_err("GPU node has no libx265");
    assert!(err.detail.contains("libx265"), "{}", err.detail);
}

#[test]
fn wrong_class_is_caught() {
    let err = satisfies(
        &turing_gpu(),
        &Requirements(vec![Requirement::AgentClass(AgentClass::Cpu)]),
    )
    .expect_err("GPU-only node");
    assert!(err.detail.contains("Cpu"));
}

#[test]
fn a_non_writable_mount_does_not_cover_a_path() {
    let mut cap = turing_gpu();
    cap.mounts[0].writable = false;
    let err = satisfies(
        &cap,
        &Requirements(vec![Requirement::MountCovers("/mnt/media/tv".into())]),
    )
    .expect_err("read-only mount cannot receive a commit");
    assert!(err.detail.contains("no writable mount"));
}

#[test]
fn insufficient_cores_and_space_are_reported_numerically() {
    let cap = turing_gpu();
    let e1 = satisfies(
        &cap,
        &Requirements(vec![Requirement::MinEffectiveCores(cores(16.0).amount)]),
    )
    .unwrap_err();
    assert!(e1.detail.contains("8.0"));

    let e2 = satisfies(
        &cap,
        &Requirements(vec![Requirement::MinFreeBytes(u64::MAX)]),
    )
    .unwrap_err();
    assert!(e2.detail.contains("needs"));
}

#[test]
fn the_first_unmet_requirement_is_the_one_reported() {
    let reqs = Requirements(vec![
        Requirement::AgentClass(AgentClass::Cpu), // fails first
        Requirement::Encoder(EncoderId::Libx265), // would also fail
    ]);
    let err = satisfies(&turing_gpu(), &reqs).unwrap_err();
    assert_eq!(err.requirement, Requirement::AgentClass(AgentClass::Cpu));
}

#[test]
fn an_empty_requirement_set_is_satisfied_by_anything() {
    assert!(satisfies(&Capability::default(), &Requirements::default()).is_ok());
}

#[test]
fn capability_hash_changes_when_capability_does() {
    let a = turing_gpu();
    let mut b = a.clone();
    assert_eq!(a.hash(), b.hash());
    b.encoders.push(EncoderId::Libx265);
    assert_ne!(a.hash(), b.hash(), "drift must be detectable");
}
