use transcodarr::capability::TransportMode;
use transcodarr::cli::survey_config;
use transcodarr::survey::SurveyConfig;

fn config_of(mounts: Vec<&str>) -> Result<SurveyConfig, String> {
    let mounts: Vec<String> = mounts.into_iter().map(String::from).collect();
    survey_config("ffmpeg", "ffprobe", "/w", &mounts, &[], TransportMode::Mount, false)
}

#[test]
fn a_mount_is_parsed_into_its_two_halves() {
    let cfg = config_of(vec!["/mnt/media=/media"]).unwrap();
    assert_eq!(cfg.mounts.len(), 1);
    assert_eq!(cfg.mounts[0].canonical_prefix, "/mnt/media");
    assert_eq!(cfg.mounts[0].local_path, "/media");
}

/// A Windows agent sees the pool at a drive letter, and the path therefore
/// contains no `=` but plenty else. Splitting on the *first* `=` is what
/// keeps that working.
#[test]
fn a_windows_local_path_survives_parsing() {
    let cfg = config_of(vec!["/mnt/media=Z:\\media"]).unwrap();
    assert_eq!(cfg.mounts[0].local_path, "Z:\\media");
}

/// Refused, not skipped: an agent silently missing a mount is ineligible
/// for the work it was deployed for, and the symptom points nowhere near
/// the cause.
#[test]
fn a_malformed_mount_is_refused() {
    assert!(config_of(vec!["/mnt/media"]).is_err());
    assert!(config_of(vec!["=/media"]).is_err());
    assert!(config_of(vec!["/mnt/media="]).is_err());
}

#[test]
fn an_empty_half_of_a_mount_is_worded_by_the_program() {
    let of = |alone: bool| {
        let mounts = vec!["/mnt/media=".to_string()];
        survey_config("ffmpeg", "ffprobe", "/w", &mounts, &[], TransportMode::Stream, alone)
            .unwrap_err()
    };
    assert_eq!(of(false), "--mount /mnt/media= has an empty prefix or path");
    assert_eq!(of(true), "--mount /mnt/media= has an empty side");
}
