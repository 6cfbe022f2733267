use transcodarr::handshake::{AgentIdentity, RegisterOutcome, VersionGate};

fn identity(proto: u32, version: &str, boot: &str) -> AgentIdentity {
    AgentIdentity {
        agent_id: "u1".into(),
        agent_uid: "uid-1".into(),
        boot_id: boot.into(),
        agent_version: version.into(),
        proto_version: proto,
    }
}

fn gate() -> VersionGate {
    VersionGate {
        min_supported_proto: 1,
        server_proto: 2,
        min_agent_version: (1, 2, 0),
    }
}

#[test]
fn a_current_agent_is_accepted() {
    let out = gate().evaluate(&identity(2, "1.3.0", "boot-a"), None, 0);
    assert!(out.accepted(), "{out:?}");
}

/// Agents are gated at registration, not at first use. An agent missing a safety
/// fix must never take work at all.
#[test]
fn an_agent_below_the_minimum_version_is_turned_away_at_registration() {
    let out = gate().evaluate(&identity(2, "1.1.9", "boot-a"), None, 0);
    match out {
        RegisterOutcome::Rejected { reason } => assert!(reason.contains("min 1.2.0")),
        other => panic!("expected rejection, got {other:?}"),
    }
}

#[test]
fn an_agent_speaking_too_old_a_protocol_is_refused() {
    let g = VersionGate {
        min_supported_proto: 2,
        ..gate()
    };
    let out = g.evaluate(&identity(1, "9.9.9", "boot-a"), None, 0);
    assert!(!out.accepted());
}

/// A newer agent is refused too. It may send fields this build cannot
/// interpret, and a server guessing at one is how a fencing epoch gets
/// silently ignored.
#[test]
fn an_agent_newer_than_the_server_is_also_refused() {
    let out = gate().evaluate(&identity(99, "1.3.0", "boot-a"), None, 0);
    match out {
        RegisterOutcome::Rejected { reason } => assert!(reason.contains("upgrade the server")),
        other => panic!("expected rejection, got {other:?}"),
    }
}

/// An unparseable version is refused rather than assumed new enough --
/// assuming would make gating trivially bypassable by sending garbage.
#[test]
fn an_unparseable_agent_version_is_refused() {
    for v in ["", "latest", "1.2.3.4", "v1.2.3"] {
        let out = gate().evaluate(&identity(2, v, "boot-a"), None, 0);
        assert!(!out.accepted(), "version '{v}' should be refused");
    }
}

#[test]
fn a_prerelease_suffix_does_not_defeat_the_gate() {
    let out = gate().evaluate(&identity(2, "1.3.0-rc1", "boot-a"), None, 0);
    assert!(out.accepted(), "{out:?}");
}

/// A new process instance bumps the epoch, so anything the previous
/// instance was doing can no longer commit.
#[test]
fn a_new_process_instance_bumps_the_fencing_epoch() {
    let out = gate().evaluate(&identity(2, "1.3.0", "boot-b"), Some("boot-a"), 7);
    match out {
        RegisterOutcome::Accepted {
            fencing_epoch,
            new_instance,
        } => {
            assert_eq!(fencing_epoch, 8);
            assert!(new_instance);
        }
        other => panic!("expected acceptance, got {other:?}"),
    }
}

/// The subtle one. Bumping on reconnect looks safer and is the opposite:
/// every network blip would invalidate work still running, and the agent
/// would come back to find its own in-flight job fenced off.
#[test]
fn a_stream_reconnect_resumes_the_existing_epoch() {
    let out = gate().evaluate(&identity(2, "1.3.0", "boot-a"), Some("boot-a"), 7);
    match out {
        RegisterOutcome::Accepted {
            fencing_epoch,
            new_instance,
        } => {
            assert_eq!(fencing_epoch, 7, "a reconnect must not fence its own work");
            assert!(!new_instance);
        }
        other => panic!("expected acceptance, got {other:?}"),
    }
}

/// A first-ever registration has no known boot id, so it is a new instance.
#[test]
fn a_first_registration_is_a_new_instance() {
    let out = gate().evaluate(&identity(2, "1.3.0", "boot-a"), None, 0);
    assert_eq!(
        out,
        RegisterOutcome::Accepted {
            fencing_epoch: 1,
            new_instance: true
        }
    );
}

/// The epoch is monotonic across restarts, so an old instance's grant can
/// never become valid again.
#[test]
fn the_epoch_never_goes_backwards_across_restarts() {
    let g = gate();
    let mut epoch: i64 = 0;
    for (i, boot) in ["b1", "b2", "b3"].iter().enumerate() {
        let prev = if i == 0 { None } else { Some("older") };
        match g.evaluate(&identity(2, "1.3.0", boot), prev, epoch) {
            RegisterOutcome::Accepted { fencing_epoch, .. } => {
                assert!(fencing_epoch > epoch);
                epoch = fencing_epoch;
            }
            other => panic!("{other:?}"),
        }
    }
}
