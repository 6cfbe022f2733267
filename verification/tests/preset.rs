use transcodarr::error::CoreError;
use transcodarr::plan::EncoderId;
use transcodarr::preset::{apply, lookup};

#[test]
fn unknown_preset_is_an_error_not_a_silent_default() {
    let err = apply(
        Some("does-not-exist"),
        None,
        None,
        &[],
        EncoderId::Libx264,
        EncoderId::Aac,
    );
    match err {
        Err(CoreError::UnknownPreset { name, valid }) => {
            assert_eq!(name, "does-not-exist");
            assert!(valid.contains("original-h265"));
        }
        other => panic!("expected UnknownPreset, got {other:?}"),
    }
}

#[test]
fn aliases_resolve_to_the_same_preset() {
    assert_eq!(
        lookup("original").unwrap(),
        lookup("original-h265").unwrap()
    );
    assert_eq!(lookup("tv-fast").unwrap(), lookup("tv-h265-fast").unwrap());
    assert_eq!(lookup("movie").unwrap(), lookup("movie-quality").unwrap());
}

#[test]
fn explicit_codec_overrides_the_preset() {
    let plan = apply(
        Some("original-h265"),
        Some(EncoderId::Libx264),
        None,
        &[],
        EncoderId::Libx264,
        EncoderId::Aac,
    )
    .unwrap();
    assert_eq!(plan.video_codec, EncoderId::Libx264);
}

/// The regression the sentinel caused: asking for libx264 explicitly used
/// to be indistinguishable from not asking at all, so the preset silently
/// replaced it with libx265.
#[test]
fn explicitly_choosing_the_old_default_is_honoured() {
    let plan = apply(
        Some("original-h265"),
        Some(EncoderId::Libx264),
        Some(EncoderId::Aac),
        &[],
        EncoderId::Libx264,
        EncoderId::Aac,
    )
    .unwrap();
    assert_eq!(
        plan.video_codec,
        EncoderId::Libx264,
        "an explicit --vcodec libx264 must survive the preset"
    );
}

#[test]
fn user_extras_are_appended_after_preset_args() {
    let plan = apply(
        Some("original-h265"),
        None,
        None,
        &["-crf".into(), "30".into()],
        EncoderId::Libx264,
        EncoderId::Aac,
    )
    .unwrap();
    let positions: Vec<usize> = plan
        .extra_args
        .iter()
        .enumerate()
        .filter(|(_, a)| *a == "-crf")
        .map(|(i, _)| i)
        .collect();
    assert_eq!(positions.len(), 2, "preset crf plus user crf");
    assert_eq!(plan.extra_args[positions[1] + 1], "30", "user value last");
}

#[test]
fn no_preset_falls_back_to_the_supplied_defaults() {
    let plan = apply(None, None, None, &[], EncoderId::Libx265, EncoderId::Aac).unwrap();
    assert_eq!(plan.video_codec, EncoderId::Libx265);
    assert_eq!(plan.audio_codec, EncoderId::Aac);
    assert!(plan.extra_args.is_empty());
}
