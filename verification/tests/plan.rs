use transcodarr::capability::{Platform, TransportMode};
use transcodarr::plan::{
    AgentView, BitDepth, EncodePlan, EncoderId, JobPaths, PixFmt, agent_job_paths,
    build_ffmpeg_argv, format_command, pix_fmt_for,
};

#[test]
fn ten_bit_targets_differ_by_encoder() {
    assert_eq!(
        pix_fmt_for(EncoderId::Libx265, BitDepth::Ten),
        Some(PixFmt::Yuv420p10le)
    );
    assert_eq!(
        pix_fmt_for(EncoderId::HevcNvenc, BitDepth::Ten),
        Some(PixFmt::P010le)
    );
}

#[test]
fn eight_bit_is_never_upconverted() {
    for enc in [EncoderId::Libx265, EncoderId::Libx264, EncoderId::HevcNvenc] {
        assert_eq!(
            pix_fmt_for(enc, BitDepth::Eight),
            Some(PixFmt::Yuv420p),
            "{enc:?} must keep 8-bit at 8-bit"
        );
    }
}

#[test]
fn audio_encoders_have_no_pixel_format() {
    for enc in [
        EncoderId::Eac3,
        EncoderId::Ac3,
        EncoderId::Aac,
        EncoderId::Copy,
    ] {
        for d in [BitDepth::Eight, BitDepth::Ten, BitDepth::Twelve] {
            assert_eq!(pix_fmt_for(enc, d), None);
        }
    }
}

#[test]
fn argv_preserves_metadata_and_subtitles() {
    let plan = EncodePlan {
        video_codec: EncoderId::Libx265,
        audio_codec: EncoderId::Aac,
        pix_fmt: None,
        extra_args: vec![],
    };
    let paths = JobPaths {
        input: "/in.mp4".to_string(),
        output: "/out.mkv".to_string(),
    };
    let argv = build_ffmpeg_argv(&plan, &paths);
    for expected in ["-map_metadata", "0", "-movflags", "use_metadata_tags"] {
        assert!(argv.iter().any(|a| a == expected), "missing {expected}");
    }
    let s_idx = argv.iter().position(|a| a == "-c:s").unwrap();
    assert_eq!(argv[s_idx + 1], "copy");
}

#[test]
fn output_path_is_always_last() {
    let plan = EncodePlan {
        video_codec: EncoderId::Libx265,
        audio_codec: EncoderId::Aac,
        pix_fmt: Some(PixFmt::Yuv420p10le),
        extra_args: vec!["-crf".into(), "18".into()],
    };
    let paths = JobPaths {
        input: "/in.mp4".to_string(),
        output: "/out.mkv".to_string(),
    };
    let argv = build_ffmpeg_argv(&plan, &paths);
    assert_eq!(argv.last().unwrap(), "/out.mkv");
}

#[test]
fn extra_args_come_after_defaults_so_they_win() {
    let plan = EncodePlan {
        video_codec: EncoderId::Libx265,
        audio_codec: EncoderId::Aac,
        pix_fmt: None,
        extra_args: vec!["-crf".into(), "18".into()],
    };
    let paths = JobPaths {
        input: "/in.mp4".to_string(),
        output: "/out.mkv".to_string(),
    };
    let argv = build_ffmpeg_argv(&plan, &paths);
    let crf = argv.iter().position(|a| a == "-crf").unwrap();
    let cv = argv.iter().position(|a| a == "-c:v").unwrap();
    assert!(crf > cv, "user extras must be appended after the defaults");
}

#[test]
fn format_command_quotes_paths_with_spaces() {
    let s = format_command("ffmpeg", &["-i".into(), "/m/My Show/ep 1.mkv".into()]);
    assert_eq!(s, "ffmpeg -i '/m/My Show/ep 1.mkv'");
}

const CANON: &str = "/mnt/tv/Show/S01E01.mkv";
const SERVER_TEMP: &str = "/mnt/tv/.work/u1.j1.0.partial.mkv";

fn view(transport: TransportMode, platform: Option<Platform>, root: &str) -> AgentView<'_> {
    AgentView {
        transport,
        platform,
        workarea_path: root,
    }
}

/// The whole point of the mount transport is that the agent resolves the
/// canonical path itself. Translating it would break the mode that works.
#[test]
fn a_mount_agent_still_gets_the_canonical_path() {
    let v = view(TransportMode::Mount, Some(Platform::Linux), "/var/work");
    let p = agent_job_paths(&v, "j1", 0, CANON, SERVER_TEMP);
    assert_eq!(p.input, CANON);
    assert_eq!(p.output, SERVER_TEMP);
}

/// A streaming agent cannot open the library at all, so neither end of the
/// job may name it.
#[test]
fn a_streaming_agent_gets_both_ends_inside_its_own_work_area() {
    let v = view(TransportMode::Stream, Some(Platform::Linux), "/var/work");
    let p = agent_job_paths(&v, "j1", 0, CANON, SERVER_TEMP);

    assert_eq!(p.input, "/var/work/j1.0.src.mkv");
    assert_eq!(p.output, "/var/work/j1.0.partial.mkv");
    for got in [&p.input, &p.output] {
        let s = got;
        assert!(
            !s.contains("/mnt/tv"),
            "a streaming agent must never be handed a library path: {s}"
        );
    }
}

/// The server is Linux and the only streaming agent so far is Windows, so
/// `Path::join` would pick the wrong separator. `argv` is persisted for an
/// operator to paste into a shell on *that* machine.
#[test]
fn a_windows_agent_gets_windows_separators() {
    let v = view(
        TransportMode::Stream,
        Some(Platform::Windows),
        r"C:\Users\jdfalk\work",
    );
    let p = agent_job_paths(&v, "j1", 2, CANON, SERVER_TEMP);

    assert_eq!(
        p.input,
        r"C:\Users\jdfalk\work\j1.2.src.mkv"
    );
    assert!(
        !p.output.contains('/'),
        "a mixed-separator path merely happens to work"
    );
}

/// A trailing separator on the advertised root must not double up: the
/// resulting path still has to be pasteable.
#[test]
fn a_trailing_separator_on_the_root_is_not_doubled() {
    for root in ["/var/work/", r"C:\work\"] {
        let plat = if root.starts_with('C') {
            Platform::Windows
        } else {
            Platform::Linux
        };
        let v = view(TransportMode::Stream, Some(plat), root);
        let p = agent_job_paths(&v, "j1", 0, CANON, SERVER_TEMP);
        let s = p.input;
        assert!(!s.contains("//") && !s.contains(r"\\"), "{s}");
    }
}

/// Attempts land in different files, or a retry overwrites the staging of
/// the attempt it is retrying.
#[test]
fn each_attempt_gets_its_own_file() {
    let v = view(TransportMode::Stream, Some(Platform::Linux), "/var/work");
    let a = agent_job_paths(&v, "j1", 0, CANON, SERVER_TEMP);
    let b = agent_job_paths(&v, "j1", 1, CANON, SERVER_TEMP);
    assert_ne!(a.input, b.input);
    assert_ne!(a.output, b.output);
}

/// A job id is scanner- and operator-derived. It is not trusted to be a
/// safe path component, and a `..` in one must not escape the work area.
#[test]
fn a_hostile_job_id_cannot_escape_the_work_area() {
    let v = view(TransportMode::Stream, Some(Platform::Linux), "/var/work");
    let p = agent_job_paths(
        &v,
        "../../etc/cron.d/x",
        0,
        CANON,
        SERVER_TEMP,
    );
    assert!(
        p.input.starts_with("/var/work"),
        "escaped the work area: {}",
        p.input
    );
    assert!(!p.input.contains(".."));
}

/// The input keeps the source's container. Handing ffmpeg a `.mkv` named
/// `.bin` is a demux that fails for a reason nobody will connect to this.
#[test]
fn the_fetched_source_keeps_the_source_extension() {
    let v = view(TransportMode::Stream, Some(Platform::Linux), "/var/work");
    let p = agent_job_paths(
        &v,
        "j1",
        0,
        "/mnt/tv/ep.mp4",
        SERVER_TEMP,
    );
    assert!(p.input.ends_with(".src.mp4"));
}

/// Only a video encoder has a pixel format to choose.
#[test]
fn only_video_encoders_make_video() {
    for e in [EncoderId::HevcNvenc, EncoderId::Libx265, EncoderId::Libx264] {
        assert!(e.is_video(), "{e:?}");
    }
    for e in [EncoderId::Eac3, EncoderId::Aac, EncoderId::Copy] {
        assert!(!e.is_video(), "{e:?}");
        assert_eq!(pix_fmt_for(e, BitDepth::Ten), None);
    }
}
