use transcodarr::capability::{
    AgentClass, Capability, Cores, DecoderCapability, DecoderKind, DecoderStatus, DecoderTriple,
    Mount, Platform,
};
use transcodarr::convert::{
    capability_from_pb, capability_to_pb, decoder_from_pb, decoder_kind_from_pb,
    decoder_kind_to_pb, decoder_status_from_pb, decoder_status_to_pb, decoder_to_pb,
    identity_from_pb, identity_to_pb, live_intent_from_pb, live_intent_to_pb,
};
use transcodarr::double::Double;
use transcodarr::error::ProtoError;
use transcodarr::handshake::AgentIdentity;
use transcodarr::message::{CommitPhase, LiveIntent};
use transcodarr::pb;
use transcodarr::plan::{BitDepth, EncoderId};

fn cores(n: f64) -> Cores {
    Cores {
        amount: Double { bits: n.to_bits() },
        json: serde_json::Value::from(n).to_string(),
        shown: n.to_string(),
    }
}

fn triple() -> DecoderTriple {
    DecoderTriple {
        codec: "h264".into(),
        profile: "High 10".into(),
        bit_depth: BitDepth::Ten,
        kind: DecoderKind::Nvdec,
    }
}

/// The conversion this file exists for. A soft fallback that decays to
/// `VerifiedOk` anywhere on the round trip reintroduces the Turing Hi10
/// trap: ffmpeg reports success while decoding on the CPU, and the
/// scheduler hands 10-bit H.264 to a node that cannot decode it.
#[test]
fn a_soft_fallback_survives_the_round_trip_as_a_soft_fallback() {
    let core = DecoderCapability {
        triple: triple(),
        status: DecoderStatus::VerifiedSoftFallback,
        evidence: "nvdec unavailable for high10, using software".into(),
    };
    let wire = decoder_to_pb(core.clone()).unwrap();
    let back = decoder_from_pb(wire).unwrap();
    assert_eq!(back.status, DecoderStatus::VerifiedSoftFallback);
    assert!(!back.status.satisfies_hardware_requirement());
    assert_eq!(back, core);
}

/// proto3 decodes an unknown enum number to the zero variant. Left alone, a
/// verdict invented by a newer agent would arrive as `Untested` — which is
/// a claim, not the absence of one.
#[test]
fn an_enum_number_outside_the_declared_set_is_refused_not_defaulted() {
    let e = decoder_status_from_pb(97).unwrap_err();
    assert!(
        matches!(
            e,
            ProtoError::Unrecognised {
                field: "decoder_status",
                ..
            }
        ),
        "{e:?}"
    );
    assert!(decoder_kind_from_pb(97).is_err());
}

/// Every declared value survives, so the refusal above cannot be passing by
/// rejecting everything.
#[test]
fn every_declared_status_converts_both_ways() {
    for s in [
        DecoderStatus::Untested,
        DecoderStatus::VerifiedOk,
        DecoderStatus::VerifiedSoftFallback,
        DecoderStatus::VerifiedFail,
    ] {
        let wire = decoder_status_to_pb(s).unwrap();
        assert_eq!(decoder_status_from_pb(wire.number()).unwrap(), s);
    }
    for k in [
        DecoderKind::Software,
        DecoderKind::Nvdec,
        DecoderKind::Qsv,
        DecoderKind::Vaapi,
        DecoderKind::Videotoolbox,
    ] {
        let wire = decoder_kind_to_pb(k).unwrap();
        assert_eq!(decoder_kind_from_pb(wire.number()).unwrap(), k);
    }
}

/// An absent `boot_id` arrives as an empty string, and an empty one
/// compares equal to the last empty one — making two different process
/// instances look like a reconnect, so the second inherits an epoch that
/// should have been bumped.
#[test]
fn an_identity_missing_its_boot_id_is_refused() {
    let wire = pb::AgentIdentity {
        agent_id: "u1".into(),
        agent_uid: "uid-1".into(),
        boot_id: String::new(),
        agent_version: "1.0.0".into(),
        proto_version: 1,
    };
    assert!(matches!(
        identity_from_pb(wire).unwrap_err(),
        ProtoError::Missing("boot_id")
    ));
}

#[test]
fn an_identity_round_trips() {
    let core = AgentIdentity {
        agent_id: "u1".into(),
        agent_uid: "uid-1".into(),
        boot_id: "boot-a".into(),
        agent_version: "1.0.0".into(),
        proto_version: 1,
    };
    let back = identity_from_pb(identity_to_pb(core.clone())).unwrap();
    assert_eq!(back, core);
}

/// An unfamiliar *encoder* must not keep a working node out of the fleet;
/// an unfamiliar *class* must, because dispatch decisions are made from it.
#[test]
fn an_unknown_encoder_is_skipped_but_an_unknown_class_is_refused() {
    let wire = pb::Capability {
        classes: vec!["audio".into()],
        encoders: vec!["eac3".into(), "libaom-av1".into()],
        effective_cores: cores(38.0),
        ..Default::default()
    };
    let core = capability_from_pb(wire).unwrap();
    assert_eq!(core.encoders, vec![EncoderId::Eac3]);

    let bad = pb::Capability {
        classes: vec!["quantum".into()],
        ..Default::default()
    };
    assert!(capability_from_pb(bad).is_err());
}

#[test]
fn a_capability_round_trips_through_the_wire() {
    let core = Capability {
        classes: vec![AgentClass::Audio, AgentClass::Cpu],
        encoders: vec![EncoderId::Eac3, EncoderId::Copy],
        muxers: Vec::new(),
        decoders: vec![DecoderCapability {
            triple: triple(),
            status: DecoderStatus::VerifiedFail,
            evidence: "exit 69".into(),
        }],
        effective_cores: cores(38.0),
        mounts: vec![Mount {
            canonical_prefix: "/mnt/media".into(),
            local_path: "/media".into(),
            writable: true,
        }],
        platform: Some(Platform::Linux),
        workarea_free_bytes: 1 << 40,
        labels: vec![("rack".into(), "1".into())],
        ..Default::default()
    };
    let wire = capability_to_pb(core.clone()).unwrap();
    let back = capability_from_pb(wire).unwrap();
    assert_eq!(back, core);
}

/// The hash is what registration diffs against, so it is computed from the
/// document rather than taken on the agent's word.
#[test]
fn the_wire_capability_carries_the_hash_of_the_document_it_came_from() {
    let core = Capability {
        classes: vec![AgentClass::Audio],
        effective_cores: cores(4.0),
        ..Default::default()
    };
    let wire = capability_to_pb(core.clone()).unwrap();
    assert_eq!(wire.capability_hash, core.hash());
}

#[test]
fn a_live_intent_round_trips() {
    let core = LiveIntent {
        job_id: "j1".into(),
        attempt: 2,
        fencing_epoch: 7,
        phase: CommitPhase::Retired,
        temp_path: "/w/j1.partial.mkv".into(),
        final_path: "/mnt/tv/a.mkv".into(),
        trash_path: "/t/a.mkv".into(),
    };
    let wire = live_intent_to_pb(core.clone()).unwrap();
    let back = live_intent_from_pb(wire).unwrap();
    assert_eq!(back, core);
}

/// A phase spelled by a newer peer is refused rather than guessed at.
#[test]
fn a_live_intent_with_an_unknown_phase_is_refused() {
    let wire = pb::LiveIntent {
        job_id: "j1".into(),
        phase: "teleported".into(),
        ..Default::default()
    };
    assert!(live_intent_from_pb(wire).is_err());
}

#[test]
fn the_last_label_of_a_key_travels() {
    let pair = |k: &str, v: &str| (k.to_string(), v.to_string());
    let core = Capability {
        labels: vec![pair("rack", "1"), pair("row", "a"), pair("rack", "2")],
        ..Default::default()
    };
    let wire = capability_to_pb(core.clone()).unwrap();
    assert_eq!(wire.labels, vec![pair("row", "a"), pair("rack", "2")]);
    let back = capability_from_pb(pb::Capability { labels: core.labels, ..Default::default() });
    assert_eq!(back.unwrap().labels, vec![pair("row", "a"), pair("rack", "2")]);
}

#[test]
fn what_the_document_does_not_hold_is_sent_as_nothing() {
    let core = Capability {
        decoders: vec![DecoderCapability {
            triple: triple(),
            status: DecoderStatus::VerifiedFail,
            evidence: "exit 69".into(),
        }],
        mounts: vec![Mount {
            canonical_prefix: "/mnt/media".into(),
            local_path: "/media".into(),
            writable: true,
        }],
        ..Default::default()
    };
    let wire = capability_to_pb(core).unwrap();
    assert_eq!(wire.physical_cores, 0);
    assert!(wire.muxers.is_empty());
    assert_eq!((wire.ffmpeg_version.as_str(), wire.ffprobe_version.as_str()), ("", ""));
    assert_eq!(wire.decoders[0].probed_at_unix, 0);
    assert_eq!((wire.mounts[0].free_bytes, wire.mounts[0].rename_probe), (0, 0));
}
