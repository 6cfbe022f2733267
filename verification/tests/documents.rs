use transcodarr::capability::{
    Capability, ContainerId, Cores, DecoderCapability, DecoderKind, DecoderStatus, DecoderTriple,
    Mount, Platform, Requirement, Requirements, satisfies,
};
use transcodarr::double::Double;
use transcodarr::facts::{content_sig, derive_facts, signed_material};
use transcodarr::plan::{BitDepth, EncoderId};
use transcodarr::policy::{Action, Match, Policy, Rule, default_space_saver, rules_version};
use transcodarr::probe::{MediaProbe, StreamInfo, StreamKind};
use transcodarr::text::{i64_text, parse_u64, u64_text};

fn cores(n: f64) -> Cores {
    Cores {
        amount: Double { bits: n.to_bits() },
        json: serde_json::Value::from(n).to_string(),
        shown: n.to_string(),
    }
}

/// A policy's document escapes what an operator wrote, and its version is the
/// digest of that document.
#[test]
fn a_policy_is_versioned_by_its_document() {
    let policy = Policy {
        rules: vec![Rule {
            name: "say \"no\"\n\u{1}\\é".into(),
            when: Match {
                video_codec_in: vec!["h264".into()],
                min_width: Some(1920),
                is_hdr: Some(false),
                ..Default::default()
            },
            action: Action::EncodeAudio { codec: EncoderId::Eac3, bitrate: "640k".into() },
        }],
        size_thresholds: Default::default(),
    };
    let document = policy.canonical_json();
    assert_eq!(
        document,
        "{\"rules\":[{\"name\":\"say \\\"no\\\"\\n\\u0001\\\\é\",\"when\":{\"video_codec_in\":[\"h264\"],\"audio_codec_any\":[],\"min_width\":1920,\"min_bit_rate_bps\":null,\"min_size_bytes\":null,\"is_hdr\":false,\"is_dovi\":null},\"then\":{\"EncodeAudio\":{\"codec\":\"Eac3\",\"bitrate\":\"640k\"}}}],\"size_thresholds\":{\"small_max_bytes\":4294967296,\"medium_max_bytes\":21474836480}}"
    );
    let back: serde_json::Value = serde_json::from_str(&document).unwrap();
    assert_eq!(back["rules"][0]["name"], "say \"no\"\n\u{1}\\é");

    let version = rules_version(&policy).0;
    assert_eq!(version, blake3::hash(document.as_bytes()).to_hex().to_string());
    assert_ne!(version, rules_version(&default_space_saver()).0);
}

#[test]
fn every_action_has_its_document() {
    let with = |action| {
        let rule = Rule { name: "r".into(), when: Match::default(), action };
        Policy { rules: vec![rule], size_thresholds: Default::default() }.canonical_json()
    };
    assert!(with(Action::Skip).contains("\"then\":\"Skip\""));
    assert!(with(Action::SkipVideo).contains("\"then\":\"SkipVideo\""));
    assert!(with(Action::Quarantine).contains("\"then\":\"Quarantine\""));
    let video = Action::EncodeVideo {
        encoder_preference: vec![EncoderId::HevcNvenc, EncoderId::Libx265],
        quality: 22,
    };
    assert!(with(video).contains(
        "\"then\":{\"EncodeVideo\":{\"encoder_preference\":[\"HevcNvenc\",\"Libx265\"],\"quality\":22}}"
    ));
}

/// What a signature is taken of quotes and escapes the codec names, and lowers
/// them first, beyond ASCII too.
#[test]
fn a_signature_is_the_digest_of_its_material() {
    let probe = MediaProbe {
        container: "matroska".into(),
        duration_us: Some(1),
        streams: vec![
            StreamInfo {
                kind: StreamKind::Video,
                codec: "H264\"Ä".into(),
                width: Some(1920),
                ..Default::default()
            },
            StreamInfo { kind: StreamKind::Audio, codec: "DTS".into(), ..Default::default() },
        ],
        ..Default::default()
    };
    let facts = derive_facts(&probe, 9);
    assert_eq!(facts.video_codec.as_deref(), Some("h264\"ä"));
    assert_eq!(facts.audio_codecs, ["dts"]);
    let material = signed_material(&facts);
    assert_eq!(
        material,
        "matroska|Some(\"h264\\\"ä\")|None|Some(Eight)|Some(1920)|None|false|false|None|dts|0"
    );
    assert_eq!(
        content_sig(&facts).0,
        blake3::hash(material.as_bytes()).to_hex().to_string()
    );
}

fn machine() -> Capability {
    Capability {
        muxers: vec![ContainerId::Matroska],
        decoders: vec![DecoderCapability {
            triple: DecoderTriple {
                codec: "h264".into(),
                profile: "High 10".into(),
                bit_depth: BitDepth::Ten,
                kind: DecoderKind::Software,
            },
            status: DecoderStatus::VerifiedOk,
            evidence: "ok".into(),
        }],
        effective_cores: cores(3.8),
        mounts: vec![Mount {
            canonical_prefix: "/mnt/\"tv\"".into(),
            local_path: "Z:\\".into(),
            writable: true,
        }],
        platform: Some(Platform::Windows),
        labels: vec![("rack".into(), "1".into())],
        ..Capability::default()
    }
}

#[test]
fn a_capability_is_hashed_over_its_document() {
    let c = machine();
    let document = c.canonical_json();
    let back: serde_json::Value = serde_json::from_str(&document).unwrap();
    assert_eq!(back["mounts"][0]["local_path"], "Z:\\");
    assert_eq!(back["labels"][0][1], "1");
    assert_eq!(back["decoders"][0]["status"], "VerifiedOk");
    assert_eq!(c.hash(), blake3::hash(document.as_bytes()).to_hex().to_string());
}

/// Every requirement that is not met says so in words.
#[test]
fn an_unmet_requirement_says_what_is_missing() {
    let why = |r: Requirement| satisfies(&machine(), &Requirements(vec![r])).unwrap_err().detail;
    assert_eq!(
        why(Requirement::MountCovers("/mnt/films/a.mkv".into())),
        "no writable mount covers /mnt/films/a.mkv; agent sees [\"/mnt/\\\"tv\\\"\"]"
    );
    assert_eq!(
        why(Requirement::PlatformIn(vec![Platform::Linux])),
        "agent platform Some(Windows) not in [Linux]"
    );
    assert_eq!(
        why(Requirement::LabelEquals("rack".into(), "2".into())),
        "agent lacks label rack=2"
    );
    assert_eq!(
        why(Requirement::MinEffectiveCores(cores(8.0).amount)),
        "agent has 3.8 effective cores, needs 8.0"
    );
    assert_eq!(why(Requirement::Muxer(ContainerId::Mp4)), "agent lacks muxer Mp4");
}

/// A number read back is the number that was written.
#[test]
fn a_decimal_reads_back() {
    for n in [0, 1, 9, 10, 101, u64::MAX] {
        assert_eq!(parse_u64(&u64_text(n)), Some(n));
        assert_eq!(u64_text(n), n.to_string());
    }
    for n in [i64::MIN, -1, 0, 7, i64::MAX] {
        assert_eq!(i64_text(n), n.to_string());
    }
    assert_eq!(parse_u64("18446744073709551616"), None);
    assert_eq!(parse_u64("+7"), Some(7));
    assert_eq!(parse_u64("-7"), None);
    assert_eq!(parse_u64(""), None);
}
