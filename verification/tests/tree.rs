use jax::tree::{
    build_tree, bucket_tree_template, created_at_text, reconcile_response, ManifestShare,
    ManifestSummary, MergeEntry, ReconcileError, Timestamp, TreeEntry, TreeError,
};

fn entry(cur: &str, prev: Option<&str>, height: u64) -> TreeEntry {
    TreeEntry {
        current_link: cur.to_string(),
        previous_link: prev.map(|p| p.to_string()),
        height,
        name: format!("v{}", height),
        created_at: Timestamp { unix_nanos: 1_704_067_200_000_000_000, offset_seconds: 0 },
    }
}

#[test]
fn version_tree() {
    let entries = vec![
        entry("a", None, 0),
        entry("b", Some("a"), 1),
        entry("c", Some("b"), 2),
        entry("x", Some("a"), 1),
    ];
    let merges = vec![MergeEntry {
        link_from: "x".to_string(),
        link_onto: "c".to_string(),
        result_link: "d".to_string(),
        height_from: 1,
        height_onto: 2,
        result_height: 3,
        ops_merged: 4,
    }];
    let t = match build_tree(&entries, &"c".to_string(), &merges) {
        Ok(t) => t,
        Err(_) => panic!("expected a tree"),
    };
    assert_eq!(t.canonical_head, "c");
    assert_eq!(t.max_height, 2);
    let flags: Vec<(&str, bool, bool)> =
        t.nodes.iter().map(|n| (n.id.as_str(), n.is_canonical, n.is_merged)).collect();
    assert_eq!(flags, vec![("a", true, false), ("b", true, false), ("c", true, false), ("x", false, true)]);
    assert_eq!(t.nodes[1].parent_id.as_deref(), Some("a"));
    assert_eq!(t.nodes[0].name, "v0");
    assert_eq!(t.nodes[0].created_at, "2024-01-01T00:00:00Z");
    assert_eq!(t.merges.len(), 1);
    assert_eq!(t.merges[0].ops_merged, 4);
    assert_eq!(t.merges[0].result_link, "d");
}

#[test]
fn later_entries_win_when_walking_the_chain() {
    // Two entries for "b": the later one points at "z".
    let entries = vec![entry("a", None, 0), entry("b", Some("a"), 1), entry("z", None, 0), entry("b", Some("z"), 1)];
    let t = match build_tree(&entries, &"b".to_string(), &vec![]) {
        Ok(t) => t,
        Err(_) => panic!("expected a tree"),
    };
    assert!(!t.nodes[0].is_canonical);
    assert!(t.nodes[2].is_canonical);
}

#[test]
fn empty_log_is_not_found() {
    match build_tree(&vec![], &"h".to_string(), &vec![]) {
        Err(e) => {
            assert_eq!(e.status(), 404);
            assert_eq!(e.message(), "Not found: Bucket has no log entries");
            assert_eq!(e.reply_message(), "Bucket has no log entries");
        }
        Ok(_) => panic!("expected an error"),
    }
    assert_eq!(TreeError::Database("d".to_string()).status(), 500);
    assert_eq!(TreeError::Internal("i".to_string()).message(), "Internal error: i");
    assert_eq!(TreeError::Database("d".to_string()).message(), "Database error: d");
}

#[test]
fn reconcile_answers() {
    let r = reconcile_response("bafy", 12, 3);
    assert!(r.success);
    assert_eq!(r.message, "Reconciled 12 operations from 3 branches onto canonical head");
    assert_eq!((r.ops_merged, r.branches_merged), (12, 3));
    let e = ReconcileError::Mount("boom".to_string());
    assert_eq!(e.status(), 400);
    assert_eq!(e.message(), "Mount error: boom");
}

#[test]
fn tree_page() {
    let id: u128 = 0x0123_4567_89ab_cdef_0011_2233_4455_6677;
    let summary = ManifestSummary {
        formatted: "{}".to_string(),
        height: 4,
        version: "V1".to_string(),
        entry_link: "e".to_string(),
        pins_link: "p".to_string(),
        previous_link: Some("q".to_string()),
        shares: vec![ManifestShare { public_key: "k".to_string(), role: "Owner".to_string() }],
    };
    let t = bucket_tree_template(id, "b", "bafkreihdwdcefgh4dqkjv67uzcmw7oje", Ok(summary), None);
    assert_eq!(t.bucket_id_short, "01234567...44556677");
    assert_eq!(t.bucket_link_short, "bafkreih...zcmw7oje");
    assert_eq!(t.manifest_height, 4);
    assert_eq!(t.api_url, "http://localhost:3000");
    assert_eq!(t.current_path, "/");
    let t = bucket_tree_template(id, "b", "short", Err("bad".to_string()), Some("http://api"));
    assert_eq!(t.bucket_data_formatted, "Error: bad");
    assert_eq!(t.manifest_height, 0);
    assert!(t.manifest_previous_link.is_none());
    assert_eq!(t.bucket_link_short, "short");
    assert_eq!(t.api_url, "http://api");
}

#[test]
fn creation_times() {
    let t = Timestamp { unix_nanos: 1_704_067_200_500_000_000, offset_seconds: 3600 };
    assert_eq!(created_at_text(t), "2024-01-01T01:00:00.5+01:00");
    assert_eq!(created_at_text(Timestamp { unix_nanos: 0, offset_seconds: 0 }), "1970-01-01T00:00:00Z");
    assert_eq!(created_at_text(Timestamp { unix_nanos: 0, offset_seconds: 100_000 }), "unknown");
    assert_eq!(created_at_text(Timestamp { unix_nanos: i128::MAX, offset_seconds: 0 }), "unknown");
}

use jax::tree::walk_terminates;

#[test]
fn tree_walks_with_cycles_do_not_end() {
    let ok = vec![entry("a", None, 0), entry("b", Some("a"), 1)];
    assert!(walk_terminates(&ok, &"b".to_string()));
    let cyclic = vec![entry("a", Some("b"), 0), entry("b", Some("a"), 1)];
    assert!(!walk_terminates(&cyclic, &"b".to_string()));
    // A later entry for "a" breaks the cycle.
    let fixed = vec![entry("a", Some("b"), 0), entry("b", Some("a"), 1), entry("a", None, 0)];
    assert!(walk_terminates(&fixed, &"b".to_string()));
}
