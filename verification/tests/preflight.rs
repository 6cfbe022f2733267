use transcodarr::double::Double;
use transcodarr::preflight::{
    FSYNC_ABORT_US, FSYNC_WARN_US, PreflightReport, ProbeResult, ProbeStatus, RenameTrial,
    ZfsListing, classify_fsync_p99, cpu_quota_probe, fsync_probe, quota_files, rename_probe,
    run_all, zfs_probe,
};
use transcodarr::survey::QuotaFile;

fn atomic() -> RenameTrial {
    RenameTrial::Tried { refused: None, after: Ok(b"NEW".to_vec()) }
}

fn no_such_directory() -> RenameTrial {
    RenameTrial::NotSetUp("No such file or directory (os error 2)".into())
}

#[test]
fn rename_over_an_open_destination_works_on_a_posix_filesystem() {
    let r = rename_probe("/d", atomic());
    assert_eq!(r.status, ProbeStatus::Pass, "{}", r.detail);
}

/// A directory we cannot write to says nothing about rename semantics.
/// Reporting FAIL there would wrongly demote a capable node to produce-only
/// -- which is exactly what happened on U1's root_squash NFS mount.
#[test]
fn an_unwritable_directory_is_inconclusive_not_a_failure() {
    let r = rename_probe("/nonexistent-transcodarr-preflight", no_such_directory());
    assert_eq!(r.status, ProbeStatus::Warn, "{}", r.detail);
    assert!(r.detail.contains("INCONCLUSIVE"), "{}", r.detail);
    assert!(
        !r.detail.contains("must NOT be commit-eligible"),
        "an inconclusive probe must not imply an architecture change"
    );
}

/// Inconclusive is still not eligible: silence is not consent.
#[test]
fn an_inconclusive_rename_probe_is_not_commit_eligible() {
    let r = PreflightReport {
        probes: vec![rename_probe(
            "/nonexistent-transcodarr-preflight",
            no_such_directory(),
        )],
    };
    assert!(!r.commit_eligible());
}

#[test]
fn a_rename_that_did_not_replace_is_a_failure() {
    let old = RenameTrial::Tried { refused: None, after: Ok(b"OLD".to_vec()) };
    let r = rename_probe("/d", old);
    assert_eq!(r.status, ProbeStatus::Fail);
    assert!(r.detail.contains("still holds the old contents (3 bytes)"), "{}", r.detail);

    let refused = RenameTrial::Tried {
        refused: Some("sharing violation".into()),
        after: Ok(b"OLD".to_vec()),
    };
    let r = rename_probe("/d", refused);
    assert_eq!(r.status, ProbeStatus::Fail);
    assert!(r.detail.contains("was refused (sharing violation)"), "{}", r.detail);

    let unread = RenameTrial::Tried { refused: None, after: Err("gone".into()) };
    let r = rename_probe("/d", unread);
    assert_eq!(r.status, ProbeStatus::Fail);
    assert!(r.detail.contains("could not be read back (gone)"), "{}", r.detail);
}

#[test]
fn fsync_probe_reports_percentiles() {
    let r = fsync_probe(Ok((1..=50).rev().map(|i| i * 10).collect()));
    assert!(r.detail.contains("p50"), "{}", r.detail);
    assert!(r.detail.contains("p99"), "{}", r.detail);
    assert_eq!(r.detail, "50 fsyncs: p50 0.26 ms, p99 0.50 ms");
    assert_eq!(r.status, ProbeStatus::Pass);
}

#[test]
fn a_slow_disk_is_told_why() {
    let r = fsync_probe(Ok(vec![10_001]));
    assert_eq!(r.status, ProbeStatus::Warn);
    assert_eq!(
        r.detail,
        "1 fsyncs: p50 10.00 ms, p99 10.00 ms — above the 10 ms warn threshold; workable with batching but worth moving."
    );
    let r = fsync_probe(Ok(vec![199_870]));
    assert_eq!(r.status, ProbeStatus::Fail);
    assert_eq!(
        r.detail,
        "1 fsyncs: p50 199.87 ms, p99 199.87 ms — above the 100 ms abort threshold; the single writer would be the bottleneck. Move the DB to faster storage."
    );
    let r = fsync_probe(Err("read-only file system".into()));
    assert_eq!(r.status, ProbeStatus::Fail);
    assert_eq!(r.detail, "could not measure fsync latency: read-only file system");
}

#[test]
fn a_fast_disk_passes_the_fsync_thresholds() {
    assert_eq!(classify_fsync_p99(0), ProbeStatus::Pass);
    assert_eq!(classify_fsync_p99(FSYNC_WARN_US), ProbeStatus::Pass);
}

#[test]
fn a_middling_disk_warns_rather_than_failing() {
    assert_eq!(classify_fsync_p99(FSYNC_WARN_US + 1), ProbeStatus::Warn);
    assert_eq!(classify_fsync_p99(FSYNC_ABORT_US), ProbeStatus::Warn);
}

#[test]
fn a_disk_past_the_abort_threshold_fails() {
    assert_eq!(classify_fsync_p99(FSYNC_ABORT_US + 1), ProbeStatus::Fail);
    // The 199.87 ms a CI runner actually measured.
    assert_eq!(classify_fsync_p99(199_870), ProbeStatus::Fail);
}

/// Absence of a facility is not a failure. A macOS dev machine has no
/// cgroup v2 and possibly no ZFS; reporting FAIL there would train everyone
/// to ignore the output.
#[test]
fn inapplicable_probes_skip_rather_than_fail() {
    let cpu = cpu_quota_probe(8, &vec![]);
    assert_ne!(cpu.status, ProbeStatus::Fail);
    assert_eq!(cpu.detail, "no cgroup v2 cpu.max found; effective cores = 8.0");
    let zfs = zfs_probe("/tmp/x", ZfsListing::Absent);
    assert_ne!(zfs.status, ProbeStatus::Fail);
    assert_eq!(zfs.status, ProbeStatus::Skipped);
    assert_eq!(zfs_probe("/tmp/x", ZfsListing::Failed).status, ProbeStatus::Skipped);
}

#[test]
fn the_longest_matching_dataset_is_accounted_for() {
    let listing = "tank\t10000000000\t0\t5000000000\t1\n\
                   tank/media\t157000000000000\t5000000\t40000000000000\t1\n\
                   tank/other\t1\t1\t1\t1\n\
                   short\tline\n";
    let r = zfs_probe("/mnt/tank/media/tv", ZfsListing::Text(listing.into()));
    assert_eq!(r.status, ProbeStatus::Pass);
    assert_eq!(
        r.detail,
        "tank/media: used 157000.0 GB, held by snapshots 0.0 GB (0.0%), available 40000.0 GB"
    );
    let held = "tank/media\t100000000000\t2000000000\t1\t1\n";
    let r = zfs_probe("/mnt/media", ZfsListing::Text(held.into()));
    assert_eq!(r.status, ProbeStatus::Warn);
    assert!(r.detail.starts_with(
        "tank/media: used 100.0 GB, held by snapshots 2.0 GB (2.0%), available 0.0 GB — snapshots retain"
    ));
    let r = zfs_probe("/elsewhere", ZfsListing::Text(held.into()));
    assert_eq!(r.status, ProbeStatus::Skipped);
    assert_eq!(r.detail, "no ZFS dataset matched /elsewhere");
}

fn quota(contents: &str) -> QuotaFile {
    let number = |i: usize| {
        let word = contents.split_whitespace().nth(i)?;
        word.parse::<f64>().ok().map(|n| Double { bits: n.to_bits() })
    };
    QuotaFile { contents: contents.into(), first: number(0), second: number(1) }
}

fn files(texts: [Option<&str>; 2]) -> Vec<(String, Option<QuotaFile>)> {
    quota_files().iter().zip(texts).map(|(p, t)| (p.to_string(), t.map(quota))).collect()
}

#[test]
fn a_quota_may_be_any_number() {
    let said = |t: &str| cpu_quota_probe(48, &files([Some(t), None])).detail;
    assert_eq!(
        said("150000.5 100000"),
        "cgroup v2 quota 150000/100000 -> effective cores 1.5 of 48 physical"
    );
    assert_eq!(said("-5 1e5"), "cgroup v2 quota -5/100000 -> effective cores -0.0 of 48 physical");
    assert_eq!(said("inf 2"), "cgroup v2 quota inf/2 -> effective cores inf of 48 physical");
    assert_eq!(said("1 NaN"), "cgroup v2 quota 1/NaN -> effective cores NaN of 48 physical");
    assert_eq!(said("1 -0"), "no cgroup v2 cpu.max found; effective cores = 48.0");
}

#[test]
fn a_quota_outranks_the_core_count() {
    let r = cpu_quota_probe(48, &files([Some("1600000 100000\n"), None]));
    assert_eq!(r.status, ProbeStatus::Pass);
    assert_eq!(
        r.detail,
        "cgroup v2 quota 1600000/100000 -> effective cores 16.0 of 48 physical"
    );
    let r = cpu_quota_probe(48, &files([None, Some("max 100000\n")]));
    assert_eq!(
        r.detail,
        "no quota set; effective cores = 48.0 (/sys/fs/cgroup/system.slice/cpu.max)"
    );
    let r = cpu_quota_probe(48, &files([Some("nonsense"), Some("1 0")]));
    assert_eq!(r.status, ProbeStatus::Skipped);
}

#[test]
fn commit_eligibility_follows_the_rename_probe_alone() {
    let ok = PreflightReport {
        probes: vec![rename_probe("/d", atomic())],
    };
    assert!(ok.commit_eligible());

    let bad = PreflightReport {
        probes: vec![ProbeResult {
            name: "RenameProbe".into(),
            status: ProbeStatus::Fail,
            detail: String::new(),
        }],
    };
    assert!(
        !bad.commit_eligible(),
        "a node that cannot rename must never install a replacement"
    );
    assert!(bad.any_failed());
    assert!(!ok.any_failed());
}

#[test]
fn a_report_with_no_rename_probe_is_not_commit_eligible() {
    // Silence is not consent: an absent probe is not a passing one.
    let r = PreflightReport { probes: vec![] };
    assert!(!r.commit_eligible());
}

#[test]
fn run_all_covers_the_four_probes_and_renders() {
    let r = run_all("/d", atomic(), Ok(vec![5; 1000]), ZfsListing::Absent, 8, &vec![]);
    assert_eq!(r.probes.len(), 4);
    let table = r.render();
    for n in [
        "RenameProbe",
        "DbFsyncLatency",
        "ZfsSnapshotPolicy",
        "CpuQuotaReader",
    ] {
        assert!(table.contains(n), "table missing {n}");
    }
}

#[test]
fn a_table_lines_its_columns_up() {
    let r = PreflightReport {
        probes: vec![ProbeResult {
            name: "RenameProbe".into(),
            status: ProbeStatus::Skipped,
            detail: "why".into(),
        }],
    };
    let rule = "-".repeat(59);
    assert_eq!(
        r.render(),
        format!("PROBE        STATUS  DETAIL\n{rule}\nRenameProbe  SKIP    why\n")
    );
    let empty = PreflightReport { probes: vec![] };
    assert_eq!(
        empty.render(),
        format!("PROBE       STATUS  DETAIL\n{}\n", "-".repeat(58))
    );
}
