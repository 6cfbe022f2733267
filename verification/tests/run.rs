use transcodarr::capability::TransportMode;
use transcodarr::executor::ExecutorConfig;
use transcodarr::pb;
use transcodarr::run::{RunConfig, areas, prepare};
use transcodarr::survey::SurveyConfig;

fn config(dir: &str) -> RunConfig {
    RunConfig {
        server: "http://127.0.0.1:1".into(),
        agent_id: "u1".into(),
        work_dir: format!("{dir}/work"),
        auth_token: None,
        survey: SurveyConfig {
            ffmpeg: "ffmpeg".into(),
            ffprobe: "ffprobe".into(),
            work_dir: format!("{dir}/work"),
            mounts: Vec::new(),
            labels: Vec::new(),
            transport: TransportMode::Mount,
        },
        executor: ExecutorConfig::default(),
    }
}

/// Preparing must not need a server: an agent that could only inspect
/// itself while connected would be undiagnosable in exactly the situation
/// where you need to diagnose it.
#[test]
fn an_agent_can_be_prepared_without_a_server() {
    let (worker, client) =
        prepare(config("/d"), "uid-1", "boot-a", "0.1.0", pb::Capability::default());
    assert_eq!(client.fencing_epoch(), 0, "no epoch until it registers");
    assert!(worker.running_job_ids().is_empty());
}

/// The journal has to be readable before anything else happens, so it is
/// created with the work area rather than on first use.
#[test]
fn preparing_creates_the_work_area_and_journal() {
    let cfg = config("/d");
    let (work, journal) = areas(&cfg.work_dir, "uid-1", "boot-a");
    let (worker, _) = prepare(cfg, "uid-1", "boot-a", "0.1.0", pb::Capability::default());
    assert_eq!(worker.work_area.path(), work.path());
    assert_eq!(worker.journal().dir(), journal.dir());
    assert_eq!(journal.dir(), "/d/work/uid-1/.journal");
    assert!(worker.journal().outstanding(Vec::new()).unwrap().is_empty());
}
