use transcodarr::error::CoreError;
use transcodarr::paths::{
    paths_equivalent, plan_output_path, resolve_output_path, strict_stem, strip_prefix,
    trash_path_for,
};

/// Two shows both have an `S01E01.mkv`. A flat trash directory makes the
/// second replacement destroy the first original — the exact copy the trash
/// exists to preserve.
#[test]
fn the_path_below_the_library_root_is_preserved() {
    let a = trash_path_for(
        "/mnt/tv/.trash",
        "/mnt/tv",
        "/mnt/tv/Show A/S01E01.mkv",
    );
    let b = trash_path_for(
        "/mnt/tv/.trash",
        "/mnt/tv",
        "/mnt/tv/Show B/S01E01.mkv",
    );
    assert_ne!(a, b);
    assert_eq!(a, "/mnt/tv/.trash/Show A/S01E01.mkv");
}

/// Whatever arrives, the result stays inside the trash directory.
#[test]
fn the_result_never_escapes_the_trash_directory() {
    let p = trash_path_for(
        "/mnt/tv/.trash",
        "/mnt/tv",
        "/mnt/tv/../../etc/passwd",
    );
    assert!(p.starts_with("/mnt/tv/.trash"), "{p:?}");
    assert!(!p.contains(".."));
}

/// A path outside the library still gets retained somewhere rather than
/// producing a path that leaves the trash directory.
#[test]
fn a_path_outside_the_library_falls_back_to_its_name() {
    let p = trash_path_for(
        "/t",
        "/mnt/tv",
        "/elsewhere/a.mkv",
    );
    assert_eq!(p, "/t/a.mkv");
}

#[test]
fn strict_stem_keeps_dots_inside_names() {
    assert_eq!(
        strict_stem("/x/Episode 1.11 - Title.mkv"),
        "Episode 1.11 - Title"
    );
}

#[test]
fn strict_stem_handles_dotfiles_and_extensionless() {
    assert_eq!(strict_stem("/x/.bashrc"), ".bashrc");
    assert_eq!(strict_stem("/x/README"), "README");
}

#[test]
fn no_output_yields_suffixed_sibling() {
    let got =
        resolve_output_path("/m/a.mp4", None, "mkv", "/cwd").unwrap();
    assert_eq!(got, "/m/a_transcoded.mkv");
}

#[test]
fn output_equal_to_input_never_overwrites_it() {
    let got = resolve_output_path(
        "/m/a.mp4",
        Some("/m/a.mp4"),
        "mkv",
        "/cwd",
    )
    .unwrap();
    assert_eq!(got, "/m/a_transcoded.mkv");
}

#[test]
fn relative_output_resolves_against_base_dir_not_process_cwd() {
    let got = resolve_output_path(
        "/m/a.mp4",
        Some("out.mkv"),
        "mkv",
        "/base",
    )
    .unwrap();
    assert_eq!(got, "/base/out.mkv");
}

#[test]
fn batch_mirrors_structure_into_a_different_root() {
    let got = plan_output_path(
        "/in/Show/S01/ep.mp4",
        "/in",
        "/out",
        "mkv",
    )
    .unwrap();
    assert_eq!(got, "/out/Show/S01/ep.mkv");
}

#[test]
fn batch_in_place_suffixes_instead_of_clobbering() {
    let got = plan_output_path(
        "/in/Show/ep.mp4",
        "/in",
        "/in",
        "mkv",
    )
    .unwrap();
    assert_eq!(got, "/in/Show/ep_transcoded.mkv");
}

#[test]
fn input_outside_the_root_is_an_error_not_a_silent_escape() {
    let err = plan_output_path(
        "/elsewhere/ep.mp4",
        "/in",
        "/out",
        "mkv",
    );
    assert!(matches!(err, Err(CoreError::InvalidPath(_))));
}

#[test]
fn an_extension_may_hold_a_separator_where_it_is_not_set() {
    assert_eq!(plan_output_path("/in/a.mp4", "/in", "/in", "x/y").unwrap(), "/in/a_transcoded.x/y");
    assert!(plan_output_path("/elsewhere/a.mp4", "/in", "/out", "x/y").is_err());
}

#[test]
fn a_mirrored_output_is_not_the_input() {
    for (input, in_root, out_root, ext, want) in [
        ("/in/a.mkv", "/in", "/out", "mkv", "/out/a.mkv"),
        ("/in/x/a.mkv", "/in", "/in/x", "mkv", "/in/x/x/a.mkv"),
        ("/in/..", "/in", "/out", "mkv", "/out/.."),
        ("/in/a.mkv", "/in", "/out", "", "/out/a"),
        ("/in/..x", "/in", "/out", "", "/out/."),
        ("a.mkv", "", "out", "mkv", "out/a.mkv"),
    ] {
        let got = plan_output_path(input, in_root, out_root, ext).unwrap();
        assert_eq!(got, want);
        assert!(!paths_equivalent(input, &got), "{input}");
    }
}

#[test]
fn what_is_below_a_directory_is_the_rest() {
    assert_eq!(strip_prefix("/a//./b/c/", "/a").unwrap(), "b/c");
    assert_eq!(strip_prefix("./a/b", "./a").unwrap(), "b");
    assert_eq!(strip_prefix("/a", "/a").unwrap(), "");
    assert!(strip_prefix("/ab", "/a").is_none());
}
