use jax::client::{
    build_info, cat_result, check_add_json, config_info, daemon_status, fuse_cat, fuse_listing,
    AddJsonError, IsPublishedError, ListedItem, SyncStatus,
};

#[test]
fn fuse_listing_entries() {
    let items = vec![
        ListedItem { name: "d".to_string(), is_dir: true, mime_type: "inode/directory".to_string() },
        ListedItem { name: "f.txt".to_string(), is_dir: false, mime_type: "text/plain".to_string() },
    ];
    let r = fuse_listing(&items);
    assert_eq!(r.entries[0].entry_type, "directory");
    assert_eq!(r.entries[1].entry_type, "file");
    assert_eq!(r.entries[1].mime_type.as_deref(), Some("text/plain"));
    assert!(r.entries[1].size.is_none());
}

#[test]
fn base64_contents() {
    let c = match fuse_cat("aGVsbG8=", "text/plain", 5) {
        Ok(c) => c,
        Err(e) => panic!("{}", e),
    };
    assert_eq!(c.content, b"hello");
    assert_eq!(c.size, 5);
    let e = match fuse_cat("***", "text/plain", 0) {
        Err(e) => e,
        Ok(_) => panic!("expected an error"),
    };
    assert!(e.starts_with("Failed to decode content: "));
    assert!(e.len() > "Failed to decode content: ".len());
    let c = match cat_result("", "x", 0) {
        Ok(c) => c,
        Err(e) => panic!("{}", e),
    };
    assert!(c.content.is_empty());
}

#[test]
fn add_json_checks() {
    match check_add_json("/a.txt", "aGk=") {
        Ok(b) => assert_eq!(b, b"hi"),
        Err(_) => panic!("expected content"),
    }
    match check_add_json("a.txt", "aGk=") {
        Err(AddJsonError::InvalidPath(m)) => assert_eq!(m, "Path must be absolute: a.txt"),
        _ => panic!("expected InvalidPath"),
    }
    match check_add_json("/a.txt", "!!") {
        Err(e @ AddJsonError::InvalidContent(_)) => {
            assert_eq!(e.status(), 400);
            assert!(e.reply_text().starts_with("Bad request: Invalid base64: "));
        }
        _ => panic!("expected InvalidContent"),
    }
    let m = AddJsonError::Mount("x".to_string());
    assert_eq!((m.status(), m.reply_text().as_str()), (500, "Unexpected error"));
    let p = IsPublishedError::Mount("gone".to_string());
    assert_eq!((p.status(), p.reply_text().as_str()), (500, "Error: Mount error: gone"));
}

#[test]
fn daemon_answers() {
    let s = daemon_status(Some((5000, 9090, "node")));
    assert!(s.running);
    assert_eq!((s.api_port, s.gateway_port), (5000, 9090));
    assert_eq!(s.node_id.as_deref(), Some("node"));
    let s = daemon_status(None);
    assert!(!s.running && s.api_port == 0 && s.gateway_port == 0 && s.node_id.is_none());
    let c = config_info("/home/u/.jax", true);
    assert_eq!(c.db_path, "/home/u/.jax/db.sqlite");
    assert_eq!(c.config_path, "/home/u/.jax/config.toml");
    assert_eq!(c.blob_store, "filesystem");
    assert_eq!(config_info("/j/", false).blob_store, "legacy");
    assert_eq!(config_info("/j/", false).db_path, "/j/db.sqlite");
    assert_eq!(build_info(None).build_features, "none");
    assert_eq!(build_info(Some("fuse")).build_features, "fuse");
}

#[test]
fn sync_status_text() {
    for s in [SyncStatus::Synced, SyncStatus::OutOfSync, SyncStatus::Syncing, SyncStatus::Failed] {
        assert_eq!(SyncStatus::from_text(s.as_text()), Some(s));
    }
    assert_eq!(SyncStatus::OutOfSync.as_text(), "out_of_sync");
    assert_eq!(SyncStatus::from_text("Synced"), None);
}

use jax::client::{bucket_list_limit, daemon_url, name_pattern, published_message, upload_destination};

#[test]
fn client_texts() {
    let id: u128 = 1;
    assert_eq!(
        published_message(id, Some(("bafy", 3))),
        "Bucket 00000000-0000-0000-0000-000000000001 is published at height 3. Link: bafy"
    );
    assert_eq!(published_message(id, None), "Bucket 00000000-0000-0000-0000-000000000001 is not published.");
    assert_eq!(bucket_list_limit(None), 100);
    assert_eq!(bucket_list_limit(Some(5)), 5);
    assert_eq!(bucket_list_limit(Some(5000)), 1000);
    assert_eq!(name_pattern("pho"), "pho%");
    assert_eq!(upload_destination("/docs", "/home/u/a.txt"), "/docs/a.txt");
    assert_eq!(upload_destination("/docs/", "b.png"), "/docs/b.png");
    assert_eq!(upload_destination("/", "/"), "/file");
    assert_eq!(daemon_url(5001), "http://localhost:5001");
}

use jax::client::add_json_response;

#[test]
fn add_json_answer() {
    let r = add_json_response("/a.txt", 2, "bafy");
    assert_eq!((r.path.as_str(), r.size, r.link.as_str()), ("/a.txt", 2, "bafy"));
}
