//! Starting an agent: open the work area, survey, connect.
//!
//! The work area and the journal come first, before the survey and before the
//! network: if a previous process died in the middle of an install, the record
//! of it is on disk, and every later step is only safe once it can be seen.
use vstd::prelude::*;

use crate::client::{ClientConfig, ConnectClient};
use crate::commit::CommitRitual;
use crate::executor::{Executor, ExecutorConfig};
use crate::journal::IntentJournal;
use crate::paths;
use crate::pb;
use crate::survey::SurveyConfig;
use crate::workarea;
use crate::workarea::WorkArea;
use crate::worker::LocalWorker;

verus! {

/// Everything needed to run an agent.
#[derive(Debug, Clone)]
pub struct RunConfig {
    /// The server to connect to, as a URI.
    pub server: String,
    /// The operator-assigned name this agent answers to.
    pub agent_id: String,
    /// Where to stage output. Must be on the destination's filesystem.
    pub work_dir: String,
    /// The shared secret, when the server requires one.
    pub auth_token: Option<String>,
    /// How to survey this machine.
    pub survey: SurveyConfig,
    /// Which binaries to run.
    pub executor: ExecutorConfig,
}

/// Where an agent works and keeps its journal.
pub fn areas(work_dir: &str, agent_uid: &str, boot_id: &str) -> (r: (WorkArea, IntentJournal))
    ensures
        r.0.place() == workarea::boot_dir(work_dir@, agent_uid@, boot_id@),
        r.0.install_place() == workarea::install_dir(work_dir@, agent_uid@),
        r.0.owner() == agent_uid@,
        r.0.boot() == boot_id@,
        r.1.place() == paths::joined(workarea::install_dir(work_dir@, agent_uid@), ".journal"@),
{
    let work = WorkArea::at(work_dir, agent_uid, boot_id);
    let journal = IntentJournal::at(work.journal_dir().as_str());
    (work, journal)
}

/// Build the worker and the client, without connecting, from what was surveyed.
/// No epoch is held until the client registers.
pub fn prepare(
    config: RunConfig,
    agent_uid: &str,
    boot_id: &str,
    agent_version: &str,
    capability: pb::Capability,
) -> (r: (LocalWorker, ConnectClient))
    ensures
        r.0.wf(),
        r.0.executor.config == config.executor,
        r.0.work_area.place() == workarea::boot_dir(config.work_dir@, agent_uid@, boot_id@),
        r.0.ritual.area_spec() == r.0.work_area,
        r.0.ritual.journal_spec().place() == paths::joined(
            workarea::install_dir(config.work_dir@, agent_uid@),
            ".journal"@,
        ),
        r.0.capability == capability,
        r.0.running@ == Set::<Seq<char>>::empty(),
        r.0.revoked@ == Set::<Seq<char>>::empty(),
        !r.0.draining,
        r.1.wf(),
        r.1.config.endpoint == config.server,
        r.1.config.agent_id == config.agent_id,
        r.1.config.agent_uid@ == agent_uid@,
        r.1.config.agent_version@ == agent_version@,
        r.1.config.auth_token == config.auth_token,
        r.1.boot_id@ == boot_id@,
        r.1.epoch == 0,
        !r.1.recovered,
{
    let (work, journal) = areas(config.work_dir.as_str(), agent_uid, boot_id);
    let worker = LocalWorker::new(
        Executor::new(config.executor),
        CommitRitual::new(journal, work.duplicate()),
        work,
        capability,
    );
    let mut client = ClientConfig::new(
        config.server,
        config.agent_id,
        agent_uid.to_owned(),
        agent_version.to_owned(),
    );
    client.auth_token = config.auth_token;
    (worker, ConnectClient::new(client, boot_id.to_owned()))
}

} // verus!
