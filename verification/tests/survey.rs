use transcodarr::capability::{AgentClass, Platform, TransportMode};
use transcodarr::double::Double;
use transcodarr::pb;
use transcodarr::plan::EncoderId;
use transcodarr::preflight::ProbeStatus;
use transcodarr::survey::{
    MountReading, MountSpec, QuotaFile, Readings, SurveyConfig, classes_for, effective_cores, free_bytes,
    lists_name, parse_labels, platform, rename_verdict, survey,
};

fn quota(contents: &str) -> Option<QuotaFile> {
    let number = |i: usize| {
        let word = contents.split_whitespace().nth(i)?;
        word.parse::<f64>().ok().map(|n| Double { bits: n.to_bits() })
    };
    Some(QuotaFile { contents: contents.into(), first: number(0), second: number(1) })
}

/// `aac` must not be found inside `libfdk_aac`: the agent would advertise
/// an encoder it cannot invoke by that name, and every job needing it would
/// fail on the agent rather than at dispatch.
#[test]
fn an_encoder_is_matched_as_a_whole_name() {
    let listing = " A..... libfdk_aac           Fraunhofer FDK AAC\n A..... aac_at               AudioToolbox AAC\n";
    assert!(!lists_name(listing, "aac"));

    let with_aac = format!("{listing} A..... aac                  AAC (Advanced Audio)\n");
    assert!(lists_name(&with_aac, "aac"));
}

/// Audio work is `-c:v copy` and needs no video encoder, so it is always
/// offered. The rest are offered only if the encoder is really there.
#[test]
fn classes_follow_the_encoders_that_are_present() {
    assert_eq!(classes_for(&[]), vec![AgentClass::Audio]);
    assert_eq!(
        classes_for(&[EncoderId::Libx265]),
        vec![AgentClass::Audio, AgentClass::Cpu]
    );
    assert_eq!(
        classes_for(&[EncoderId::HevcNvenc]),
        vec![AgentClass::Audio, AgentClass::Gpu]
    );
}

/// A label with no `=` must be dropped, not turned into an empty value that
/// could satisfy a `LabelEquals` requirement by accident.
#[test]
fn labels_without_a_value_are_dropped() {
    let labels = parse_labels(&[
        "rack=1".to_string(),
        "broken".to_string(),
        "=novalue".to_string(),
    ]);
    assert_eq!(labels, vec![("rack".to_string(), "1".to_string())]);
}

#[test]
fn a_label_may_contain_an_equals_sign_in_its_value() {
    let labels = parse_labels(&["expr=a=b".to_string()]);
    assert_eq!(labels, vec![("expr".to_string(), "a=b".to_string())]);
}

/// Labels come in the order of their keys, and the last value of a key stands.
#[test]
fn the_last_label_of_a_key_wins() {
    let labels = parse_labels(&[
        "zone=b".to_string(),
        "rack=1".to_string(),
        "zone=a".to_string(),
        "rack=2".to_string(),
    ]);
    assert_eq!(
        labels,
        vec![
            ("rack".to_string(), "2".to_string()),
            ("zone".to_string(), "a".to_string())
        ]
    );
}

/// An unlimited quota is the *absence* of a limit, not a limit of zero —
/// zero cores would make the agent ineligible for everything.
#[test]
fn effective_cores_is_never_zero() {
    let of = |file: Option<QuotaFile>, n: Option<u64>| f64::from_bits(effective_cores(&file, n).bits);
    assert!(of(None, None) > 0.0);
    assert_eq!(of(quota("3800000 100000\n"), Some(48)), 38.0);
    assert_eq!(of(quota("max 100000\n"), Some(48)), 48.0);
    assert_eq!(of(quota("0 100000\n"), Some(2)), 2.0);
    assert_eq!(of(quota("1 100000\n"), Some(2)), 0.00001);
    assert_eq!(of(quota("garbage"), None), 1.0);
}

#[test]
fn a_quota_is_the_quotient_as_it_is() {
    let of = |t: &str| f64::from_bits(effective_cores(&quota(t), Some(4)).bits);
    assert_eq!(of("33333 100000"), 0.33333);
    assert_eq!(of("150000.5 100000"), 1.500005);
    assert_eq!(of("1e5 1e5"), 1.0);
    assert_eq!(of("inf 100000"), f64::INFINITY);
    assert_eq!(of("100000 inf"), 0.0);
    assert!(of("100000 nan").is_nan());
    assert_eq!(of("nan 100000"), 4.0);
    assert_eq!(of("-1 100000"), 4.0);
    assert_eq!(of("1 -100000"), 4.0);
    assert_eq!(of("1 100000 more"), 0.00001);
}

/// A path that does not exist has no room, which reads as ineligible rather
/// than as optimistic.
#[test]
fn free_bytes_of_a_missing_path_is_zero() {
    assert_eq!(free_bytes(&None), 0);
    let df = "Filesystem 1024-blocks Used Available Capacity Mounted on\n/dev/sda1 100 40 60 40% /\n";
    assert_eq!(free_bytes(&Some(df.to_string())), 61_440);
    assert_eq!(free_bytes(&Some("one line".to_string())), 0);
    let huge = "h\nx 1 1 99999999999999999999 1% /\n";
    assert_eq!(free_bytes(&Some(huge.to_string())), 0);
    let wide = "h\nx 1 1 18446744073709551615 1% /\n";
    assert_eq!(free_bytes(&Some(wide.to_string())), u64::MAX);
}

/// A Mac is a development machine, not a node. Claiming to be Linux there
/// would let a `PlatformIn([Linux])` requirement match a machine nobody
/// meant to include.
#[test]
fn an_unknown_platform_is_advertised_as_nothing() {
    assert_eq!(platform("linux"), Some(Platform::Linux));
    assert_eq!(platform("windows"), Some(Platform::Windows));
    assert_eq!(platform("macos"), None);
}

/// Absence of a trial is not evidence of success.
#[test]
fn an_unprobeable_mount_is_untested_not_verified() {
    assert_eq!(
        rename_verdict(false, ProbeStatus::Pass),
        pb::RenameProbeStatus::RpUntested
    );
    assert_eq!(
        rename_verdict(true, ProbeStatus::Warn),
        pb::RenameProbeStatus::RpUntested
    );
    assert_eq!(
        rename_verdict(true, ProbeStatus::Fail),
        pb::RenameProbeStatus::RpNotAtomic
    );
}

#[test]
fn a_real_directory_passes_the_rename_probe() {
    assert_eq!(
        rename_verdict(true, ProbeStatus::Pass),
        pb::RenameProbeStatus::RpAtomicVerified
    );
}

fn config() -> SurveyConfig {
    SurveyConfig {
        ffmpeg: "ffmpeg".into(),
        ffprobe: "ffprobe".into(),
        work_dir: "/w".into(),
        mounts: vec![MountSpec { canonical_prefix: "/mnt/media".into(), local_path: "/media".into() }],
        labels: vec![("rack".into(), "1".into())],
        transport: TransportMode::Mount,
    }
}

fn readings(kb: &str) -> Readings {
    let df = |n: &str| Some(format!("h\n/dev/sda1 1 1 {n} 1% /\n"));
    Readings {
        encoders: Some(" V..... libx265 x\n A..... eac3 y\n".into()),
        muxers: Some("  E matroska x\n  E mp4 y\n".into()),
        ffmpeg_version: Some("ffmpeg version 8.1\nbuilt with\n".into()),
        ffprobe_version: None,
        cpu_max: quota("400000 100000\n"),
        parallelism: Some(16),
        cores_json: "4.0".into(),
        cores_shown: "4".into(),
        os: "linux".into(),
        work_df: df(kb),
        mounts: vec![MountReading { is_dir: true, df: df(kb), renames: ProbeStatus::Pass }],
    }
}

#[test]
fn a_survey_advertises_what_was_read() {
    let w = survey(&config(), &readings("10")).unwrap();
    assert_eq!(w.platform, "linux");
    assert_eq!(f64::from_bits(w.effective_cores.amount.bits), 4.0);
    assert_eq!((w.effective_cores.json.as_str(), w.effective_cores.shown.as_str()), ("4.0", "4"));
    assert_eq!(w.physical_cores, 16);
    assert_eq!(w.classes, vec!["audio", "cpu"]);
    assert_eq!(w.encoders, vec!["libx265", "eac3"]);
    assert_eq!(w.muxers, vec!["matroska", "mp4"]);
    assert!(w.decoders.is_empty());
    assert_eq!(w.workarea_free_bytes, 10_240);
    assert_eq!(w.ffmpeg_version, "ffmpeg version 8.1");
    assert_eq!(w.ffprobe_version, "");
    assert_eq!(w.labels, vec![("rack".to_string(), "1".to_string())]);
    assert_eq!(w.mounts.len(), 1);
    assert_eq!(w.mounts[0].canonical_prefix, "/mnt/media");
    assert_eq!(w.mounts[0].local_path, "/media");
    assert!(w.mounts[0].writable);
    assert_eq!(w.mounts[0].free_bytes, 10_240);
    assert_eq!(w.mounts[0].rename_probe, pb::RenameProbeStatus::RpAtomicVerified.number());
    assert_eq!(w.capability_hash.len(), 64);
}

/// Free space changes every second; an ffmpeg upgrade is what the hash is for.
#[test]
fn free_space_does_not_move_the_hash() {
    let a = survey(&config(), &readings("10")).unwrap();
    let b = survey(&config(), &readings("999")).unwrap();
    assert_ne!(a.workarea_free_bytes, b.workarea_free_bytes);
    assert_eq!(a.capability_hash, b.capability_hash);

    let mut upgraded = readings("10");
    upgraded.encoders = Some(" A..... eac3 y\n".into());
    let c = survey(&config(), &upgraded).unwrap();
    assert_ne!(a.capability_hash, c.capability_hash);
}
