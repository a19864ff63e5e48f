use jax::directory::{
    directory_step, DirectoryAction, DirectoryEvent, DirectoryReply, DirectoryRequest,
    DirectoryState,
};
use jax::serve::{bucket_meta, NodeKind};

const ID: u128 = 0x0123_4567_89ab_cdef_0011_2233_4455_6677;
const LINK: &str = "bafkreihdwdcefgh4dqkjv67uzcmw7oje";

fn request(wants_json: bool, deep: bool) -> DirectoryRequest {
    DirectoryRequest {
        absolute_path: "/docs".to_string(),
        dir: "/docs".to_string(),
        wants_json,
        deep,
        bucket_id: ID,
        host: String::new(),
        meta: bucket_meta(ID, "photos", LINK),
    }
}

fn items() -> Vec<(String, NodeKind)> {
    vec![
        ("docs/a.txt".to_string(), NodeKind::Data(Some("text/plain".to_string()))),
        ("docs/sub".to_string(), NodeKind::Dir),
    ]
}

fn error_text(a: &DirectoryAction) -> Option<(u16, String)> {
    match a {
        DirectoryAction::Reply(DirectoryReply::Error(e)) => Some((e.status, e.body.clone())),
        _ => None,
    }
}

#[test]
fn directory_serves_first_index_file() {
    let req = request(false, false);
    let (s, a) = directory_step(&req, DirectoryState::Start, DirectoryEvent::Begin);
    match &a {
        DirectoryAction::ProbeIndex(c) => {
            assert_eq!(c.len(), 4);
            assert_eq!(c[0], ("/docs/index.html".to_string(), "text/html".to_string()));
            assert_eq!(c[2], ("/docs/index.md".to_string(), "text/markdown".to_string()));
        }
        _ => panic!("expected an index lookup"),
    }
    let (s, a) = directory_step(&req, s, DirectoryEvent::IndexProbed(vec![false, false, true, true]));
    assert!(matches!(&a, DirectoryAction::ReadIndex(p) if p == "/docs/index.md"));
    let (s, a) = directory_step(&req, s, DirectoryEvent::IndexRead(b"# Hi".to_vec()));
    assert!(matches!(s, DirectoryState::Done));
    match a {
        DirectoryAction::Reply(DirectoryReply::Text { content_type, body }) => {
            assert_eq!(content_type, "text/html; charset=utf-8");
            assert!(body.contains("<h1>Hi</h1>"));
        }
        _ => panic!("expected the rendered index"),
    }
}

#[test]
fn directory_plain_index_is_served_as_bytes() {
    let req = request(false, false);
    let (s, _) = directory_step(&req, DirectoryState::Start, DirectoryEvent::Begin);
    let (s, _) = directory_step(&req, s, DirectoryEvent::IndexProbed(vec![false, false, false, true]));
    let (_, a) = directory_step(&req, s, DirectoryEvent::IndexRead(vec![0xff, b'a']));
    match a {
        DirectoryAction::Reply(DirectoryReply::Bytes { content_type, bytes }) => {
            assert_eq!(content_type, "text/plain; charset=utf-8");
            assert_eq!(bytes, vec![0xff, b'a']);
        }
        _ => panic!("expected the raw index file"),
    }
}

#[test]
fn directory_without_index_renders_explorer() {
    let req = request(false, true);
    let (s, _) = directory_step(&req, DirectoryState::Start, DirectoryEvent::Begin);
    let (s, a) = directory_step(&req, s, DirectoryEvent::IndexProbed(vec![false; 4]));
    assert!(matches!(a, DirectoryAction::List { deep: true }));
    let (s, a) = directory_step(&req, s, DirectoryEvent::Listed(items()));
    match &a {
        DirectoryAction::Render(t) => {
            assert_eq!(t.bucket_name, "photos");
            assert_eq!(t.items.len(), 2);
            assert_eq!(t.items[0].path, "/docs/a.txt");
            assert!(t.items[1].is_dir);
            assert_eq!(t.path_segments.len(), 1);
        }
        _ => panic!("expected the explorer page"),
    }
    let (s, a) = directory_step(&req, s, DirectoryEvent::Rendered("<html/>".to_string()));
    assert!(matches!(s, DirectoryState::Done));
    assert!(matches!(a, DirectoryAction::Reply(DirectoryReply::Text { content_type, body })
        if content_type == "text/html; charset=utf-8" && body == "<html/>"));
}

#[test]
fn directory_json_skips_index_file() {
    let req = request(true, false);
    let (s, a) = directory_step(&req, DirectoryState::Start, DirectoryEvent::Begin);
    assert!(matches!(a, DirectoryAction::List { deep: false }));
    let (s, a) = directory_step(&req, s, DirectoryEvent::Listed(items()));
    assert!(matches!(s, DirectoryState::Done));
    match a {
        DirectoryAction::Reply(DirectoryReply::Json(l)) => {
            assert_eq!(l.path, "/docs");
            assert_eq!(l.entries[0].name, "a.txt");
            assert_eq!(l.entries[1].mime_type, "inode/directory");
        }
        _ => panic!("expected the JSON listing"),
    }
}

#[test]
fn directory_failures() {
    let req = request(false, false);
    let reading = DirectoryState::ReadingIndex { index_path: "/docs/index.html".to_string(), mime: "text/html".to_string() };
    let (_, a) = directory_step(&req, reading, DirectoryEvent::Failed);
    assert_eq!(error_text(&a), Some((500, "Error: Failed to read index file".to_string())));
    let (_, a) = directory_step(&req, DirectoryState::Listing, DirectoryEvent::Failed);
    assert_eq!(error_text(&a), Some((500, "Error: Failed to list directory".to_string())));
    let (_, a) = directory_step(&req, DirectoryState::Rendering, DirectoryEvent::Failed);
    assert_eq!(error_text(&a), Some((500, "Error: Failed to render page".to_string())));
    let (s, a) = directory_step(&req, DirectoryState::Listing, DirectoryEvent::Begin);
    assert!(matches!(s, DirectoryState::Listing));
    assert!(matches!(a, DirectoryAction::Ignore));
}
