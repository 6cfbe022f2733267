use transcodarr::error::AgentError;
use transcodarr::executor::{
    Executor, ExecutorConfig, Progress, ProgressTailer, Watch, Watcher, persist_argv,
};
use transcodarr::plan::{EncodePlan, EncoderId, JobPaths};
use transcodarr::probe::MediaProbe;
use transcodarr::text::tail;

/// ffmpeg's `out_time_ms` has always carried microseconds despite its name.
/// Reading it as milliseconds understates progress a thousandfold and makes
/// a healthy encode look stalled.
#[test]
fn out_time_ms_is_parsed_as_microseconds() {
    let p = ProgressTailer::parse("out_time_ms=1500000\nprogress=continue\n");
    assert_eq!(p.out_time_us, 1_500_000);
}

/// ffmpeg appends blocks; the newest value for a key is the last one.
#[test]
fn the_latest_block_wins() {
    let text = "frame=10\nout_time_us=1000\nprogress=continue\n\
                frame=250\nout_time_us=9000\ntotal_size=4096\nspeed=2.5x\nprogress=end\n";
    let p = ProgressTailer::parse(text);
    assert_eq!(p.frames, 250);
    assert_eq!(p.out_time_us, 9000);
    assert_eq!(p.total_size, 4096);
    assert_eq!(p.speed.as_deref(), Some("2.5x"));
    assert!(p.done, "progress=end must mark it finished");
}

#[test]
fn an_unfinished_encode_is_not_marked_done() {
    let p = ProgressTailer::parse("frame=5\nprogress=continue\n");
    assert!(!p.done);
}

#[test]
fn garbage_lines_are_ignored_rather_than_panicking() {
    let p = ProgressTailer::parse("nonsense\nframe=notanumber\n=\nframe=7\n");
    assert_eq!(p.frames, 7);
}

#[test]
fn a_missing_progress_file_reads_as_empty() {
    let t = ProgressTailer::new("/nonexistent/progress".to_string());
    assert_eq!(t.path(), "/nonexistent/progress");
    assert_eq!(ProgressTailer::read(None), Progress::default());
}

/// The argv is built by core, so the agent and the CLI cannot drift on
/// argument order or metadata flags. Checked here because the ritual
/// persists it before exec as the reproduction recipe.
#[test]
fn the_argv_maps_all_streams_and_ends_with_the_output() {
    let e = Executor::new(ExecutorConfig::default());
    let plan = EncodePlan {
        video_codec: EncoderId::Copy,
        audio_codec: EncoderId::Eac3,
        pix_fmt: None,
        extra_args: vec!["-b:a".into(), "640k".into()],
    };
    let paths = JobPaths {
        input: "/mnt/tv/in.mkv".into(),
        output: "/w/out.mkv".into(),
    };
    let argv = e.argv_for(&plan, &paths);

    assert_eq!(argv.last().unwrap(), "/w/out.mkv", "output comes last");
    assert!(argv.windows(2).any(|w| w[0] == "-c:s" && w[1] == "copy"));
    assert!(
        argv.windows(2).any(|w| w[0] == "-b:a" && w[1] == "640k"),
        "extra args must survive"
    );
    let launched = e.run(&plan, &paths, "/w/p");
    assert_eq!(launched[..3], ["-nostdin", "-progress", "/w/p"]);
    assert_eq!(launched[3..], argv);
}

#[test]
fn the_argv_is_persisted_as_reproducible_json() {
    let body = persist_argv(&["-i".to_string(), "/mnt/a b.mkv".to_string()]);
    let back: Vec<String> = serde_json::from_slice(body.as_bytes()).unwrap();
    assert_eq!(back, vec!["-i", "/mnt/a b.mkv"]);
    assert_eq!(body, "[\n  \"-i\",\n  \"/mnt/a b.mkv\"\n]");
    assert_eq!(persist_argv(&[]), "[]");
}

#[test]
fn a_long_stderr_is_tailed_on_a_character_boundary() {
    let s = "é".repeat(5000);
    let t = tail(&s, 100);
    assert!(t.len() <= 101, "len {}", t.len());
    assert!(t.chars().all(|c| c == 'é'));
    assert_eq!(t.len(), 100);
    assert_eq!(tail(&s, 101).len(), 100);
    assert_eq!(tail("short", 100), "short");
}

/// A missing ffmpeg is reported, not panicked on.
#[test]
fn a_missing_ffmpeg_binary_is_an_error() {
    let e = Executor::new(ExecutorConfig {
        ffmpeg: "/nonexistent/ffmpeg".into(),
        ..ExecutorConfig::default()
    });
    let r = Executor::launch_error(&e.config.ffmpeg, "No such file or directory (os error 2)");
    assert!(matches!(r, AgentError::Execute { .. }), "{r:?}");
    assert_eq!(
        r.message(),
        "running /nonexistent/ffmpeg: No such file or directory (os error 2)"
    );
}

/// A report is passed on once; a run past its limit is abandoned.
#[test]
fn a_watched_encode_reports_what_is_new_and_stops_at_its_limit() {
    let mut w = Watcher::new();
    let seen = ProgressTailer::parse("frame=3\n");
    assert!(matches!(w.look(false, 10, Some(1_000), Progress::default()), Watch::Wait));
    assert!(matches!(w.look(false, 20, Some(1_000), seen.clone()), Watch::Report(p) if p.frames == 3));
    assert!(matches!(w.look(false, 30, Some(1_000), seen.clone()), Watch::Wait));
    assert!(matches!(w.look(false, 1_000, Some(1_000), seen.clone()), Watch::Abandon));
    assert!(matches!(w.look(false, 1_000, None, seen.clone()), Watch::Wait));
    assert!(matches!(w.look(true, 2_000, Some(1_000), seen), Watch::Finish));
}

/// A process that was signalled has no exit code of its own.
#[test]
fn a_signalled_run_never_exits_zero() {
    let x = Executor::finished(vec![], None, Some(9), "boom", None, 5, Progress::default());
    assert_eq!(x.exit_code, -1);
    assert_eq!(x.signal, Some(9));
    assert_eq!(x.output_bytes, 0);
    assert_eq!(x.stderr_tail, "boom");
}

/// The last packet decides, not the header, and not the order of the packets.
#[test]
fn the_header_duration_is_not_consulted() {
    assert_eq!(Executor::last_packet_pts_us(&[]), None);
    assert_eq!(Executor::last_packet_pts_us(&[1_000, 5_000, 4_000]), Some(5_000));
    let header = MediaProbe { duration_us: Some(1_422_016_000), ..Default::default() };
    assert_eq!(Executor::probe_output(header.clone(), Some(40)).duration_us, Some(40));
    assert_eq!(Executor::probe_output(header, None).duration_us, None);
}

#[test]
fn a_failed_probe_says_how_it_failed() {
    let e = Executor::probe_error("/a.mkv", Some(1), "Invalid data");
    assert_eq!(e.message(), "probing /a.mkv: ffprobe exited 1: Invalid data");
    let e = Executor::probe_error("/a.mkv", None, &"x".repeat(400));
    assert_eq!(
        e.message(),
        format!("probing /a.mkv: ffprobe exited -1: {}", "x".repeat(300))
    );
}

#[test]
fn a_later_report_wins_key_by_key() {
    let a = "frame=10\nout_time_us=5\nspeed=1x\nprogress=continue\n";
    let b = "out_time_ms=9\r\nframe=junk\nprogress=end";
    let p = ProgressTailer::parse(&format!("{a}{b}"));
    assert_eq!((p.frames, p.out_time_us, p.total_size), (10, 9, 0));
    assert_eq!(p.speed.as_deref(), Some("1x"));
    assert!(p.done);
    assert!(ProgressTailer::parse("").same(&Progress::default()));
}
