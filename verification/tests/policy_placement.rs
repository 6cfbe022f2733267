use transcodarr::capability::{
    AgentClass, Capability, ContainerId, Cores, Mount, Platform, Requirement, TransportMode,
    satisfies,
};
use transcodarr::double::Double;
use transcodarr::facts::{FileFacts, SizeThresholds};
use transcodarr::job::JobClass;
use transcodarr::plan::{BitDepth, EncoderId};
use transcodarr::policy::{default_space_saver, evaluate, next_job};

fn cores(n: f64) -> Cores {
    Cores {
        amount: Double { bits: n.to_bits() },
        json: serde_json::Value::from(n).to_string(),
        shown: n.to_string(),
    }
}

fn flac_file() -> FileFacts {
    FileFacts {
        container: "matroska".into(),
        duration_us: Some(10_000_000),
        size_bytes: 180_938,
        video_codec: Some("h264".into()),
        video_profile: Some("High".into()),
        video_bit_depth: Some(BitDepth::Eight),
        audio_codecs: vec!["flac".into()],
        audio_track_count: 1,
        ..FileFacts::default()
    }
}

/// `windows-rtx2070` as it actually surveys: `hevc_nvenc` and no libx264,
/// so `classes_for` offers `Audio` and `Gpu` and withholds `Cpu`.
fn gpu_only_node() -> Capability {
    Capability {
        classes: vec![AgentClass::Audio, AgentClass::Gpu],
        encoders: vec![EncoderId::HevcNvenc, EncoderId::Eac3, EncoderId::Ac3],
        muxers: vec![ContainerId::Matroska],
        effective_cores: cores(16.0),
        platform: Some(Platform::Windows),
        transport: TransportMode::Stream,
        workarea_path: "C:\\Users\\jdfalk\\tc-work".into(),
        mounts: Vec::<Mount>::new(),
        ..Capability::default()
    }
}

/// The bug that stopped the GPU node dead, as a test.
///
/// An audio pass is `-c:v copy`. It uses no video encoder, and every agent
/// advertises `AgentClass::Audio` unconditionally for exactly that reason.
/// The job asked for `AgentClass::Cpu`, which an agent offers only when it
/// has libx264 or libx265 — so audio work could land only on nodes with a
/// software *video* encoder.
///
/// `windows-rtx2070` has `hevc_nvenc` and no libx264. It advertised `Audio`
/// and could never be handed a single audio job.
#[test]
fn an_audio_job_can_be_placed_on_a_node_with_no_software_video_encoder() {
    let f = flac_file();
    let d = evaluate(&f, &default_space_saver());
    let job = next_job(&d, &f, &SizeThresholds::default()).expect("audio work is owed");

    assert_eq!(job.class, JobClass::Audio);
    satisfies(&gpu_only_node(), &job.requirements)
        .expect("a GPU-only node advertises Audio and eac3; nothing here needs libx264");
}

/// The class asked for is the one every agent actually offers. Stated
/// separately because the placement test above would also pass if the class
/// requirement were dropped altogether, and the requirement is what keeps a
/// job off a node that has withdrawn the class.
#[test]
fn an_audio_job_asks_for_the_audio_class() {
    let f = flac_file();
    let d = evaluate(&f, &default_space_saver());
    let job = next_job(&d, &f, &SizeThresholds::default()).expect("audio work is owed");

    assert!(
        job.requirements
            .0
            .contains(&Requirement::AgentClass(AgentClass::Audio)),
        "got {:?}",
        job.requirements
    );
    assert!(
        !job.requirements
            .0
            .contains(&Requirement::AgentClass(AgentClass::Cpu)),
        "a software video encoder is not a precondition for copying video"
    );
}

/// The encoder is what actually gates an audio job, and it must still bite:
/// the class alone is universal and would place audio work anywhere.
#[test]
fn an_audio_job_is_still_refused_by_a_node_without_the_encoder() {
    let f = flac_file();
    let d = evaluate(&f, &default_space_saver());
    let job = next_job(&d, &f, &SizeThresholds::default()).expect("audio work is owed");

    let mut node = gpu_only_node();
    node.encoders = vec![EncoderId::HevcNvenc];
    let err = satisfies(&node, &job.requirements).expect_err("no eac3 on this node");
    assert!(err.detail.contains("eac3"), "{}", err.detail);
}
