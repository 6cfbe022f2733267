use transcodarr::capability::Cores;
use transcodarr::cli::{
    Discovered, Evaluated, Library, Ran, Reevaluated, add_library, agent_survey, attempt_line, batch,
    batch_dry_run, batch_line, cancel_job, check_token, collect_media_files, diagnose,
    dry_run_text, evaluate, info, input_extensions, is_media_file, list_libraries,
    normalise_class, only_class, probe_label, resolve_codecs, run_jobs, scan, scan_steps, selected,
    survey_only, tick_seconds, transcode_one,
};
use transcodarr::double::Double;
use transcodarr::error::CoreError;
use transcodarr::job::{JobClass, JobState};
use transcodarr::pb;
use transcodarr::plan::EncoderId;
use transcodarr::preflight::{PreflightReport, ProbeResult, ProbeStatus};

fn cores(n: f64) -> Cores {
    Cores {
        amount: Double { bits: n.to_bits() },
        json: serde_json::Value::from(n).to_string(),
        shown: n.to_string(),
    }
}

fn strings(v: &[&str]) -> Vec<String> {
    v.iter().map(|s| s.to_string()).collect()
}

#[test]
fn a_class_may_be_typed_as_anyone_would() {
    for (typed, class) in [
        ("audio", JobClass::Audio),
        ("VideoCpu", JobClass::VideoCpu),
        ("video-cpu", JobClass::VideoCpu),
        ("CPU", JobClass::VideoCpu),
        ("gpu", JobClass::VideoGpu),
        ("probe", JobClass::Probe),
        ("Verify", JobClass::Verify),
    ] {
        assert_eq!(only_class(Some(typed)), Ok(Some(class)), "{typed}");
    }
    assert_eq!(only_class(None), Ok(None));
    assert_eq!(only_class(Some("Nope")), Err("unknown job class 'Nope'".to_string()));
    assert_eq!(normalise_class("Nope"), "nope");
}

#[test]
fn an_empty_token_is_refused() {
    assert!(check_token(&None, "run").is_ok());
    assert!(check_token(&Some("x".into()), "run").is_ok());
    assert_eq!(
        check_token(&Some(String::new()), "run"),
        Err("--token was set to an empty string; omit it entirely to run without a token".into())
    );
    assert_eq!(
        check_token(&Some(String::new()), "connect"),
        Err("--token was set to an empty string; omit it entirely to connect without a token".into())
    );
}

#[test]
fn an_explicit_codec_wins_over_the_preset() {
    let (v, a, extra) = resolve_codecs(
        None,
        Some("libsvtav1"),
        None,
        &strings(&["-x"]),
        EncoderId::Libx264,
        EncoderId::Aac,
    )
    .unwrap();
    assert_eq!((v.as_str(), a.as_str()), ("libsvtav1", "aac"));
    assert_eq!(extra, ["-x"]);

    let e = resolve_codecs(Some("nope"), None, None, &[], EncoderId::Libx264, EncoderId::Aac)
        .unwrap_err();
    assert!(matches!(e, CoreError::UnknownPreset { .. }), "{e:?}");
}

#[test]
fn info_asks_for_json_or_for_prose() {
    assert_eq!(
        info("a.mkv", true),
        ["-v", "error", "-print_format", "json", "-show_format", "-show_streams", "a.mkv"]
    );
    assert_eq!(info("a.mkv", false), ["-hide_banner", "-i", "a.mkv"]);
}

#[test]
fn a_transcode_never_writes_over_its_input() {
    let j = transcode_one("/m/a.mkv", None, "/m", None, None, None, &[]).unwrap();
    assert_eq!(j.job.output, "/m/a_transcoded.mkv");
    assert_eq!(j.argv.last().unwrap(), "/m/a_transcoded.mkv");
    let j = transcode_one("/m/a.mkv", Some("/m/a.mkv"), "/m", None, None, None, &[]).unwrap();
    assert_eq!(j.job.output, "/m/a_transcoded.mkv");
    let j = transcode_one("/m/a.mkv", Some("/o/b.mp4"), "/m", None, None, None, &[]).unwrap();
    assert_eq!(j.job.output, "/o/b.mp4");
    assert!(dry_run_text(&j).starts_with("[DRY RUN] /m/a.mkv -> /o/b.mp4\n  ffmpeg "));

    let e = transcode_one("/", None, "/m", Some("nope"), None, None, &[]).unwrap_err();
    assert!(matches!(e, CoreError::InvalidPath(_)), "the input is judged first: {e:?}");
}

#[test]
fn media_is_told_by_its_extension_whatever_the_capitals() {
    let exts = input_extensions("mp4, mkv ,AVI");
    assert_eq!(exts, ["mp4", "mkv", "AVI"]);
    let found = strings(&["/a/x.MKV", "/a/y.txt", "/a/z.avi", "/a/mkv", "/a/w.mp4"]);
    assert_eq!(collect_media_files(found, &exts), ["/a/x.MKV", "/a/z.avi", "/a/w.mp4"]);
    assert!(is_media_file("/a/b.ÄVI", &strings(&["ävi"])));
    assert!(!is_media_file("/a/b.avi", &strings(&["ävi"])));
}

#[test]
fn a_batch_mirrors_its_input() {
    assert!(batch(0, "/i", "/o", Some("nope"), None, None, "mkv", &[]).unwrap().is_none());
    assert!(batch(2, "/i", "/o", Some("nope"), None, None, "mkv", &[]).is_err());

    let b = batch(2, "/i", "/o", None, None, None, "mkv", &[]).unwrap().unwrap();
    assert_eq!(b.heading, "Found 2 files to transcode (vcodec=libx265, acodec=aac, ext=mkv)\n");
    let j = b.item("/i/s/a.avi", "/i", "/o", "mkv").unwrap();
    assert_eq!(j.job.output, "/o/s/a.mkv");
    assert_eq!(batch_line(0, 2, &j), "\n[1/2] /i/s/a.avi -> /o/s/a.mkv\n");
    assert!(batch_dry_run(&j).starts_with("  [DRY RUN] ffmpeg "));
    let e = b.item("/elsewhere/a.avi", "/i", "/o", "mkv").unwrap_err();
    assert_eq!(e, CoreError::InvalidPath("/elsewhere/a.avi is not under /i".into()));

    let b = batch(1, "/i", "/i", None, None, None, "mkv", &[]).unwrap().unwrap();
    assert_eq!(
        b.heading,
        "Found 1 files to transcode IN-PLACE - output will use '_transcoded' suffix (vcodec=libx265, acodec=aac, ext=mkv)\n"
    );
    assert_eq!(b.item("/i/a.mkv", "/i", "/i", "mkv").unwrap().job.output, "/i/a_transcoded.mkv");
}

#[test]
fn a_survey_prints_every_mount_with_its_verdict() {
    let mut c = pb::Capability {
        platform: "linux".into(),
        effective_cores: cores(3.8),
        physical_cores: 48,
        classes: strings(&["audio", "cpu"]),
        encoders: strings(&["eac3"]),
        muxers: strings(&["matroska"]),
        workarea_free_bytes: 7,
        ffmpeg_version: "ffmpeg version 8.1".into(),
        ffprobe_version: "ffprobe version 8.1".into(),
        capability_hash: "abc".into(),
        ..Default::default()
    };
    let head = "platform          linux\neffective cores   3.8\nphysical cores    48\n\
classes           audio, cpu\nencoders          eac3\nmuxers            matroska\n\
work area free    7 bytes\nffmpeg            ffmpeg version 8.1\n\
ffprobe           ffprobe version 8.1\ncapability hash   abc\n";
    assert_eq!(
        survey_only(&c),
        format!("{head}\nmounts            none\n\nThis agent offers no mounts, so it can be given no work: every job requires a mount covering its library.\n")
    );

    c.mounts = vec![pb::Mount {
        local_path: "/media".into(),
        canonical_prefix: "/mnt/media".into(),
        writable: true,
        free_bytes: 12,
        rename_probe: pb::RenameProbeStatus::RpUntested.number(),
    }];
    let line = format!(
        "  {:<24} {:<28} {:>12} bytes free  rename_probe=UNTESTED\n",
        "/mnt/media", "/media", 12
    );
    assert_eq!(
        survey_only(&c),
        format!("{head}\nmounts\n{line}\nNot commit-eligible: every mount must pass the rename probe. This agent can produce output but may not install it.\n")
    );

    c.mounts[0].rename_probe = pb::RenameProbeStatus::RpAtomicVerified.number();
    assert!(!survey_only(&c).contains("Not commit-eligible"));
    assert_eq!(probe_label(pb::RenameProbeStatus::RpNotAtomic.number()), "NOT_ATOMIC");
    assert_eq!(probe_label(77), "UNTESTED");

    let alone = "platform          linux\neffective cores   3.8\nclasses           audio, cpu\n\
encoders          eac3\nmuxers            matroska\nffmpeg            ffmpeg version 8.1\n\
capability hash   abc\n";
    let line = format!("  {:<24} {:<28} {:>12} bytes free\n", "/mnt/media", "/media", 12);
    assert_eq!(
        agent_survey(&c, false),
        format!("{alone}transport         mount\n\nmounts\n{line}")
    );
    c.mounts.clear();
    assert_eq!(
        agent_survey(&c, true),
        format!("{alone}transport         stream\n\nmounts            none\n\nThis agent streams: the server sends it the source bytes and installs the result, so it needs no mounts and offers none.\n")
    );
    assert!(agent_survey(&c, false).ends_with(
        "covering its library. Either pass --mount, or run it with --transport stream.\n"
    ));
}

#[test]
fn a_failed_probe_fails_the_command() {
    let probe = |status| ProbeResult { name: "RenameProbe".into(), status, detail: "d".into() };
    let good = PreflightReport { probes: vec![probe(ProbeStatus::Pass)] };
    let d = diagnose(&good);
    assert!(d.table.ends_with("\ncommit eligible: yes\n"));
    assert_eq!(d.failure, None);
    let bad = PreflightReport { probes: vec![probe(ProbeStatus::Fail)] };
    let d = diagnose(&bad);
    assert!(d.table.ends_with(
        "\ncommit eligible: NO - this machine may produce output but must not install it\n"
    ));
    assert_eq!(d.failure, Some("preflight failed; see the table above"));
}

#[test]
fn a_change_in_size_is_put_in_words() {
    assert_eq!(
        attempt_line("/a.mkv", Some("installed"), None, 1_572_864),
        "  installed    /a.mkv  (saved 1.50 MiB)\n"
    );
    assert_eq!(
        attempt_line("/a.mkv", Some("installed"), Some("x"), -346_030),
        "  installed    /a.mkv  (grew 0.33 MiB)\n"
    );
    assert_eq!(
        attempt_line("/a.mkv", None, Some("too short"), 0),
        "  skipped      /a.mkv\n               too short\n"
    );
    assert_eq!(attempt_line("/a.mkv", None, None, 5), "");
    assert!(attempt_line("/a", Some("l"), None, i64::MIN).contains("grew 8796093022208.00 MiB"));
}

#[test]
fn a_scan_prints_the_steps_that_ran() {
    assert_eq!(scan_steps(false, false), (true, true));
    assert_eq!(scan_steps(true, false), (true, false));
    assert_eq!(scan_steps(false, true), (false, true));
    let d = Discovered { seen: 9, new: 2, changed: 1, missing: 0, too_recent: 3, duration_ms: 17 };
    let e = Evaluated {
        probed: 3,
        failed: 1,
        evaluated: 8,
        jobs_created: 4,
        no_work: 3,
        quarantined: 1,
    };
    let walked = "tv: 9 seen, 2 new, 1 changed, 0 missing, 3 too recent (17 ms)\n";
    let judged = "tv: probed 3, failed 1\ntv: evaluated 8, 4 jobs created, 3 nothing owed, 1 quarantined\n";
    assert_eq!(scan("tv", Some(d), Some(e)), format!("{walked}{judged}"));
    assert_eq!(scan("tv", None, Some(e)), judged);
    assert_eq!(scan("tv", Some(d), None), walked);
}

#[test]
fn libraries_are_registered_and_listed() {
    assert_eq!(selected(0), Err("no enabled libraries; add one with `admin add-library`"));
    assert!(selected(1).is_ok());
    assert_eq!(
        add_library("tv", None, "/mnt/tv", true),
        Ok(("tv".to_string(), "library tv registered at /mnt/tv\n".to_string()))
    );
    assert_eq!(add_library("tv", Some("TV".into()), "/mnt/tv", true).unwrap().0, "TV");
    assert_eq!(
        add_library("tv", None, "/mnt/tv", false),
        Err("/mnt/tv is not a directory".to_string())
    );
    assert_eq!(list_libraries(&vec![]), "no libraries registered\n");
    let tv = Library { id: "tv".into(), root_path: "/mnt/tv".into(), min_mtime_age_s: 300 };
    assert_eq!(
        list_libraries(&vec![tv]),
        format!("{:<12} {:<40} min_mtime_age=300s\n", "tv", "/mnt/tv")
    );
}

#[test]
fn what_came_of_a_library_is_printed() {
    let e = Reevaluated {
        evaluated: 5,
        elapsed_ms: 12,
        jobs_created: 1,
        no_work: 2,
        quarantined: 0,
        already_busy: 2,
    };
    assert_eq!(
        evaluate("tv", &e),
        "tv: evaluated 5 in 12 ms, 1 jobs created, 2 nothing owed, 0 quarantined, 2 already busy\n"
    );
    let r = Ran { attempted: 4, installed: 2, rejected: 1, failed: 1 };
    assert_eq!(run_jobs("tv", &r), "tv: 4 attempted, 2 installed, 1 rejected, 1 failed\n");
    assert_eq!(cancel_job("j1", "Pending", JobState::Pending), "cancelled j1 (was Pending)\n");
    assert_eq!(
        cancel_job("j1", "Running", JobState::Running),
        "cancelled j1 (was Running)\n  an agent was holding it; the server revokes the assignment on that agent's next heartbeat\n"
    );
    assert_eq!((tick_seconds(0), tick_seconds(5)), (1, 5));
}
