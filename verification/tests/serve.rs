use jax::gateway::{id_to_text, resolve_relative_url};
use jax::serve::{
    bucket_meta, directory_entry, directory_listing, error_response, explorer_template,
    file_display_info, file_reply, index_candidates, index_reply, not_found_response,
    path_not_found, pick_first, syncing_response, FileReply, NodeKind,
};

const ID: u128 = 0x0123_4567_89ab_cdef_0011_2233_4455_6677;
const LINK: &str = "bafkreihdwdcefgh4dqkjv67uzcmw7oje";

fn items() -> Vec<(String, NodeKind)> {
    vec![
        ("docs".to_string(), NodeKind::Dir),
        ("docs/a.txt".to_string(), NodeKind::Data(Some("text/plain".to_string()))),
        ("blob".to_string(), NodeKind::Data(None)),
    ]
}

#[test]
fn listing_entries() {
    let l = directory_listing("/", &items());
    assert_eq!(l.path, "/");
    assert_eq!(l.entries.len(), 3);
    assert_eq!(l.entries[0].name, "docs");
    assert_eq!(l.entries[0].path, "/docs");
    assert_eq!(l.entries[0].mime_type, "inode/directory");
    assert_eq!(l.entries[1].name, "a.txt");
    assert_eq!(l.entries[1].path, "/docs/a.txt");
    assert_eq!(l.entries[1].mime_type, "text/plain");
    assert_eq!(l.entries[2].mime_type, "application/octet-stream");
    let e = directory_entry("x/y", &NodeKind::Dir);
    assert_eq!((e.name.as_str(), e.path.as_str()), ("y", "/x/y"));
    let f = file_display_info("x/y.bin", &NodeKind::Data(None));
    assert!(!f.is_dir);
    assert_eq!(f.mime_type, "application/octet-stream");
}

#[test]
fn explorer_page() {
    let meta = bucket_meta(ID, "photos", LINK);
    assert_eq!(meta.bucket_id_str, "01234567-89ab-cdef-0011-223344556677");
    assert_eq!(meta.bucket_id_short, "01234567...6677");
    assert_eq!(meta.bucket_link_short, "bafkreih...zcmw7oje");
    let t = explorer_template(&meta, "/docs/sub", &items());
    assert_eq!(t.bucket_name, "photos");
    assert_eq!(t.path_segments.len(), 2);
    assert_eq!(t.path_segments[1].path, "/docs/sub");
    assert_eq!(t.items.len(), 3);
    assert!(t.items[0].is_dir);
}

#[test]
fn index_files() {
    let c = index_candidates("/docs");
    let names: Vec<(&str, &str)> = c.iter().map(|(p, m)| (p.as_str(), m.as_str())).collect();
    assert_eq!(
        names,
        vec![
            ("/docs/index.html", "text/html"),
            ("/docs/index.htm", "text/html"),
            ("/docs/index.md", "text/markdown"),
            ("/docs/index.txt", "text/plain"),
        ]
    );
    assert_eq!(index_candidates("/")[0].0, "/index.html");
    assert_eq!(pick_first(&vec![false, false, true, true]), Some(2));
    assert_eq!(pick_first(&vec![false, false]), None);
}

#[test]
fn index_replies() {
    let (body, ct) = index_reply("text/plain", "/index.txt", b"hi", ID, "");
    assert!(body.is_none());
    assert_eq!(ct, "text/plain; charset=utf-8");
    let (body, ct) = index_reply("text/html", "/d/index.html", br#"<a href="./x.html">x</a>"#, ID, "https://h");
    assert_eq!(ct, "text/html; charset=utf-8");
    let url = resolve_relative_url("./x.html", "/d", ID, "https://h");
    assert_eq!(body.unwrap(), format!(r#"<a href="{}">x</a>"#, url));
    let (body, _) = index_reply("text/markdown", "/index.md", b"[a](./b.md)", ID, "");
    let body = body.unwrap();
    assert!(body.contains(&format!(r#"<a href="/gw/{}/b.md">a</a>"#, id_to_text(ID))));
    assert!(body.starts_with("<!DOCTYPE html>"));
}

#[test]
fn file_replies() {
    let meta = bucket_meta(ID, "b", LINK);
    let mime = Some("text/html".to_string());
    match file_reply(&meta, ID, "/site/p.html", &mime, b"<p/>", true, false, false, Some("h")) {
        FileReply::Download { content_type, disposition } => {
            assert_eq!(content_type, "text/html");
            assert_eq!(disposition, "attachment; filename=\"p.html\"");
        }
        _ => panic!("expected a download"),
    }
    match file_reply(&meta, ID, "/site/p.html", &mime, b"<p/>", false, false, true, Some("h")) {
        FileReply::Metadata { path, name, mime_type, size, size_formatted } => {
            assert_eq!((path.as_str(), name.as_str(), mime_type.as_str()), ("/site/p.html", "p.html", "text/html"));
            assert_eq!(size, 4);
            assert_eq!(size_formatted, "4 B");
        }
        _ => panic!("expected metadata"),
    }
    match file_reply(&meta, ID, "/site/p.html", &mime, b"<img src=\"./i.png\">", false, false, false, None) {
        FileReply::Page { body, disposition } => {
            assert!(body.is_none());
            assert_eq!(disposition, "inline; filename=\"p.html\"");
        }
        _ => panic!("expected the page"),
    }
    match file_reply(&meta, ID, "/site/p.html", &mime, b"<img src=\"./i.png\">", false, false, false, Some("h")) {
        FileReply::Page { body, .. } => {
            assert_eq!(body.unwrap(), format!("<img src=\"h/gw/{}/site/i.png\">", id_to_text(ID)));
        }
        _ => panic!("expected the page"),
    }
    match file_reply(&meta, ID, "/site/p.html", &mime, b"<p/>", false, true, false, Some("h")) {
        FileReply::Viewer(t) => {
            assert_eq!(t.content, "<p/>");
            assert_eq!(t.back_url, format!("/gw/{}/site", id_to_text(ID)));
            assert_eq!(t.file_name, "p.html");
            assert_eq!(t.size_formatted, "4 B");
        }
        _ => panic!("expected the viewer"),
    }
    match file_reply(&meta, ID, "/bin", &None, &[0u8, 1, 2], false, false, false, Some("h")) {
        FileReply::Viewer(t) => {
            assert_eq!(t.mime_type, "application/octet-stream");
            assert!(t.content.starts_with("00000000  00 01 02"));
            assert_eq!(t.back_url, format!("/gw/{}/", id_to_text(ID)));
            assert_eq!(t.file_name, "bin");
        }
        _ => panic!("expected the viewer"),
    }
    let json = Some("application/json".to_string());
    match file_reply(&meta, ID, "/a.json", &json, &[0xff, b'{'], false, false, false, None) {
        FileReply::Viewer(t) => assert_eq!(t.content, "\u{fffd}{"),
        _ => panic!("expected the viewer"),
    }
}

#[test]
fn plain_replies() {
    let e = error_response("Failed to read file");
    assert_eq!((e.status, e.body.as_str()), (500, "Error: Failed to read file"));
    let s = syncing_response();
    assert_eq!((s.status, s.retry_after), (503, Some(5)));
    assert_eq!(s.body, "Bucket is still syncing. Please try again in a moment.");
    assert_eq!(not_found_response("x").body, "Not found: x");
    let p = path_not_found("/nope");
    assert_eq!((p.status, p.body.as_str()), (404, "Not found: Path not found: /nope"));
}

use jax::serve::{gateway_target, needs_lookup, GatewayTarget};

#[test]
fn gateway_targets() {
    assert!(!needs_lookup("/"));
    assert!(needs_lookup("/a"));
    assert!(matches!(gateway_target("/", None), GatewayTarget::Directory));
    assert!(matches!(gateway_target("/a", None), GatewayTarget::Missing));
    assert!(matches!(gateway_target("/a", Some(NodeKind::Dir)), GatewayTarget::Directory));
    assert!(matches!(
        gateway_target("/a.txt", Some(NodeKind::Data(Some("text/plain".to_string())))),
        GatewayTarget::File(Some(m)) if m == "text/plain"
    ));
}

use jax::gateway::GatewayQuery;

#[test]
fn query_flags() {
    let q = GatewayQuery { at: None, download: Some(true), view: None, deep: Some(false), json: None };
    assert!(q.wants_download());
    assert!(!q.wants_view() && !q.wants_deep() && !q.wants_json());
}

use jax::serve::file_reply_sized;

#[test]
fn file_sizes() {
    let meta = bucket_meta(ID, "b", LINK);
    let data = vec![7u8; 1536];
    match file_reply(&meta, ID, "/x.bin", &None, &data, false, false, true, None) {
        FileReply::Metadata { size, size_formatted, .. } => {
            assert_eq!(size, 1536);
            assert_eq!(size_formatted, "1.50 KB");
        }
        _ => panic!("expected metadata"),
    }
    match file_reply_sized(&meta, ID, "/x.bin", &None, &data, "1.50 KB", false, false, false, None) {
        FileReply::Viewer(t) => assert_eq!(t.size_formatted, "1.50 KB"),
        _ => panic!("expected the viewer"),
    }
}

use jax::serve::{load_error_reply, load_failure, load_reply, LoadFailure, VersionLoad};

#[test]
fn version_load_replies() {
    let bad = load_reply(&VersionLoad::At { parsed: false, loaded: false }).unwrap();
    assert_eq!((bad.status, bad.body.as_str()), (500, "Error: Invalid hash format"));
    let old = load_reply(&VersionLoad::At { parsed: true, loaded: false }).unwrap();
    assert_eq!(old.body, "Error: Failed to load historical version");
    assert!(load_reply(&VersionLoad::At { parsed: true, loaded: true }).is_none());
    let syncing = load_reply(&VersionLoad::Current { loaded: false, link_not_found: true }).unwrap();
    assert_eq!((syncing.status, syncing.retry_after), (503, Some(5)));
    assert_eq!(syncing.body, "Bucket is still syncing. Please try again in a moment.");
    let failed = load_reply(&VersionLoad::Current { loaded: false, link_not_found: false }).unwrap();
    assert_eq!((failed.status, failed.body.as_str()), (500, "Error: Failed to load bucket"));
    assert_eq!(load_failure(&VersionLoad::Published { found: false, loaded: false }), Some(LoadFailure::NotYetSynced));
    assert_eq!(load_failure(&VersionLoad::Published { found: true, loaded: true }), None);
    assert_eq!(load_error_reply(LoadFailure::NotYetSynced).status, 503);
}
