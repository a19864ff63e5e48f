use jax::daemon::{
    blobs_location, finished_message, has_outboard, listen_address, sqlite_url, tally,
    blob_recovery_outcome, plan_blob_recovery, recover_listed, BlobRecovery, BlobStoreConfig, BlobsLocation, Daemon, DaemonError, DaemonPlan, PeerError, RecoveryOutcome,
    RecoveryStats, StateSetupError,
};

fn daemon(gateway_only: bool, gateway: bool, port: Option<u16>) -> Daemon {
    Daemon { gateway_only, api_hostname: None, gateway, gateway_port: port, gateway_url: None }
}

#[test]
fn daemon_plans() {
    assert!(matches!(daemon(true, false, None).plan(9090), DaemonPlan::GatewayOnly { port: 9090 }));
    assert!(matches!(daemon(true, false, Some(8000)).plan(9090), DaemonPlan::GatewayOnly { port: 8000 }));
    assert!(matches!(daemon(false, false, None).plan(9090), DaemonPlan::Full { gateway_port: None }));
    assert!(matches!(daemon(false, true, None).plan(9090), DaemonPlan::Full { gateway_port: Some(9090) }));
    assert!(matches!(daemon(false, false, Some(7)).plan(9090), DaemonPlan::Full { gateway_port: Some(7) }));
    assert_eq!(finished_message(&DaemonPlan::GatewayOnly { port: 1 }), "gateway ended");
    assert_eq!(finished_message(&DaemonPlan::Full { gateway_port: None }), "daemon ended");
    assert_eq!(listen_address(9090), "0.0.0.0:9090");
    assert_eq!(listen_address(0), "0.0.0.0:0");
    assert_eq!(DaemonError::Failed("x".to_string()).message(), "daemon failed: x");
    assert_eq!(DaemonError::StateError("y".to_string()).message(), "state error: y");
    assert_eq!(PeerError::RouterShutdown("z".to_string()).message(), "failed to shutdown router: z");
}

#[test]
fn database_urls() {
    match sqlite_url(Some("/var/db.sqlite"), true) {
        Ok(u) => assert_eq!(u, "sqlite:///var/db.sqlite"),
        Err(_) => panic!("expected a URL"),
    }
    match sqlite_url(Some("/var/my db.sqlite"), true) {
        Ok(u) => assert_eq!(u, "sqlite:///var/my%20db.sqlite"),
        Err(_) => panic!("expected a URL"),
    }
    assert!(matches!(sqlite_url(Some("/nope"), false), Err(StateSetupError::DatabasePathDoesNotExist)));
    match sqlite_url(None, false) {
        Ok(u) => assert_eq!(u, "sqlite::memory:"),
        Err(_) => panic!("expected a URL"),
    }
    assert!(matches!(sqlite_url(Some("[oops"), true), Err(StateSetupError::InvalidDatabaseUrl)));
    assert_eq!(StateSetupError::InvalidDatabaseUrl.message(), "Invalid database URL");
    assert_eq!(StateSetupError::BlobsStoreError("e".to_string()).message(), "Blobs store error: e");
    assert_eq!(StateSetupError::DatabasePathDoesNotExist.message(), "Database path does not exist");
}

#[test]
fn blob_locations() {
    assert!(matches!(blobs_location(&BlobStoreConfig::Legacy, Some("/j")), BlobsLocation::Dir(d) if d == "/j/blobs"));
    assert!(matches!(blobs_location(&BlobStoreConfig::Legacy, None), BlobsLocation::TempDir));
    let fs = BlobStoreConfig::Filesystem { path: Some("/data".to_string()) };
    assert!(matches!(blobs_location(&fs, Some("/j")), BlobsLocation::Dir(d) if d == "/data"));
    let fs = BlobStoreConfig::Filesystem { path: None };
    assert!(matches!(blobs_location(&fs, Some("/j/")), BlobsLocation::Dir(d) if d == "/j/blobs"));
    let s3 = BlobStoreConfig::S3 { endpoint: "e".to_string(), bucket: "b".to_string(), region: None };
    assert!(matches!(blobs_location(&s3, Some("/j")), BlobsLocation::Memory));
}

#[test]
fn recovery_counts() {
    let outcomes = vec![
        RecoveryOutcome::AlreadyPresent,
        RecoveryOutcome::Added,
        RecoveryOutcome::Added,
        RecoveryOutcome::Failed,
    ];
    let s = tally(&outcomes);
    assert_eq!((s.found, s.existing, s.added, s.errors), (4, 1, 2, 1));
    let mut r = RecoveryStats::begin(2);
    r.record(RecoveryOutcome::Added);
    r.record(RecoveryOutcome::Added);
    assert_eq!((r.found, r.added), (2, 2));
    let d = RecoveryStats::default();
    assert_eq!((d.found, d.added, d.existing, d.errors), (0, 0, 0, 0));
    assert!(!has_outboard(16384));
    assert!(has_outboard(16385));
}

/// Runs `recover_listed` against an in-memory metadata table, answering
/// each "is it there" truthfully as the rows stand when it is asked.
fn run_recovery(
    listed: &[&str],
    rows: &mut std::collections::HashMap<String, (usize, bool)>,
    stored: &std::collections::HashMap<&str, usize>,
) -> RecoveryStats {
    let mut has = Vec::new();
    let mut reads = Vec::new();
    let mut seen = rows.clone();
    for h in listed {
        has.push(seen.contains_key(*h));
        reads.push(stored.get(h).copied());
        if let Some(n) = stored.get(h) {
            seen.entry(h.to_string()).or_insert((*n, *n > 16384));
        }
    }
    let names: Vec<String> = listed.iter().map(|h| h.to_string()).collect();
    let inserted = vec![true; listed.len()];
    let (stats, requests) = recover_listed(&names, &has, &reads, &inserted);
    for (h, size, outboard) in requests {
        rows.insert(h, (size, outboard));
    }
    stats
}

#[test]
fn recovery_twice_finds_everything_present() {
    let stored: std::collections::HashMap<&str, usize> =
        [("a", 10), ("b", 20000), ("c", 3)].into_iter().collect();
    let mut rows = std::collections::HashMap::new();
    rows.insert("c".to_string(), (3, false));
    let first = run_recovery(&["a", "b", "c"], &mut rows, &stored);
    assert_eq!((first.found, first.added, first.existing, first.errors), (3, 2, 1, 0));
    assert_eq!(rows["a"], (10, false));
    assert_eq!(rows["b"], (20000, true));
    let second = run_recovery(&["a", "b", "c"], &mut rows, &stored);
    assert_eq!((second.found, second.added, second.existing, second.errors), (3, 0, 3, 0));
}

#[test]
fn recovery_pass_counts_and_requests() {
    let listed = vec!["a".to_string(), "gone".to_string(), "b".to_string(), "c".to_string()];
    let (stats, requests) = recover_listed(
        &listed,
        &vec![false, false, false, true],
        &vec![Some(7), None, Some(16385), Some(1)],
        &vec![true, true, false, true],
    );
    assert_eq!((stats.found, stats.added, stats.existing, stats.errors), (4, 1, 1, 2));
    assert_eq!(requests, vec![("a".to_string(), 7, false), ("b".to_string(), 16385, true)]);
}

#[test]
fn recovery_decisions() {
    assert!(matches!(plan_blob_recovery(true, None), BlobRecovery::Present));
    assert!(matches!(plan_blob_recovery(false, None), BlobRecovery::Unreadable));
    assert!(matches!(
        plan_blob_recovery(false, Some(16385)),
        BlobRecovery::Insert { size: 16385, has_outboard: true }
    ));
    let insert = plan_blob_recovery(false, Some(5));
    assert_eq!(blob_recovery_outcome(&insert, true), RecoveryOutcome::Added);
    assert_eq!(blob_recovery_outcome(&insert, false), RecoveryOutcome::Failed);
    assert_eq!(blob_recovery_outcome(&BlobRecovery::Unreadable, true), RecoveryOutcome::Failed);
    assert_eq!(blob_recovery_outcome(&BlobRecovery::Present, false), RecoveryOutcome::AlreadyPresent);
}
