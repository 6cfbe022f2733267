use transcodarr::cli::rewrite_legacy_verbs;

#[test]
fn legacy_verbs_are_rewritten_to_local() {
    for verb in &["info", "transcode", "batch"] {
        let got = rewrite_legacy_verbs(vec![
            "transcodarr".into(),
            (*verb).into(),
            "file.mkv".into(),
        ]);
        assert_eq!(
            got,
            vec!["transcodarr", "local", *verb, "file.mkv"],
            "{verb} should be rewritten"
        );
    }
}

#[test]
fn an_explicit_local_is_left_alone() {
    let got = rewrite_legacy_verbs(vec![
        "transcodarr".into(),
        "local".into(),
        "info".into(),
        "file.mkv".into(),
    ]);
    assert_eq!(got, vec!["transcodarr", "local", "info", "file.mkv"]);
}

#[test]
fn flags_and_empty_argv_are_untouched() {
    let got = rewrite_legacy_verbs(vec!["transcodarr".into(), "--help".into()]);
    assert_eq!(got, vec!["transcodarr", "--help"]);
    assert_eq!(rewrite_legacy_verbs(vec!["transcodarr".into()]).len(), 1);
}
