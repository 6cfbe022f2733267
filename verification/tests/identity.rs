use transcodarr::identity::{agent_uid, boot_id, hostname};

/// A reconnect must present the same identifier, or the server bumps the epoch
/// and fences live work.
#[test]
fn the_boot_id_is_stable_within_a_process() {
    assert_eq!(boot_id(4711, 1_722_000_000_123_456_789), boot_id(4711, 1_722_000_000_123_456_789));
    assert!(!boot_id(0, 0).is_empty());
    assert_eq!(boot_id(0x1a2b, 255), "1a2b-ff");
    assert_eq!(boot_id(0, 0), "0-0");
}

/// A restarted process never presents its predecessor's identifier.
#[test]
fn a_restart_is_another_instance() {
    assert_ne!(boot_id(4711, 1), boot_id(4711, 2));
    assert_ne!(boot_id(0x1, 0x11), boot_id(0x11, 0x1));
}

#[test]
fn an_agent_uid_is_never_empty() {
    assert!(!agent_uid(None, &None).is_empty());
    assert_eq!(agent_uid(None, &None), "local");
    assert_eq!(agent_uid(Some("pinned".into()), &Some("host\n".into())), "pinned");
    assert_eq!(agent_uid(Some(String::new()), &Some("host\n".into())), "host");
    assert_eq!(agent_uid(None, &Some("  \n".into())), "local");
    assert_eq!(hostname(&Some(" u1 \n".into())), Some("u1".to_string()));
}
