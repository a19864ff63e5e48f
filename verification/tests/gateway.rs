use jax::gateway::{
    display_name, ensure_absolute, gateway_base_url, id_short, id_to_text, normalize_path,
    resolve_relative_url, shorten_link, wants_json,
};
use jax::page::{markdown_to_html, wrap_html_page};
use jax::rewrite::rewrite_relative_urls;

fn expected_resolve(relative_url: &str, current_dir: &str, bucket_id: &uuid::Uuid, host: &str) -> String {
    let path = if let Some(stripped) = relative_url.strip_prefix("./") {
        format!("{}/{}", current_dir, stripped)
    } else if let Some(stripped) = relative_url.strip_prefix("../") {
        let parent = std::path::Path::new(current_dir)
            .parent()
            .and_then(|p| p.to_str())
            .unwrap_or("");
        format!("{}/{}", parent, stripped)
    } else if relative_url.starts_with('/') {
        relative_url.to_string()
    } else {
        format!("{}/{}", current_dir, relative_url)
    };
    let normalized = std::path::PathBuf::from(&path).components().fold(
        std::path::PathBuf::new(),
        |mut acc, component| {
            match component {
                std::path::Component::ParentDir => {
                    acc.pop();
                }
                std::path::Component::Normal(part) => {
                    acc.push(part);
                }
                _ => {}
            }
            acc
        },
    );
    format!(
        "{}/gw/{}/{}",
        host.trim_end_matches('/'),
        bucket_id,
        normalized.to_str().unwrap_or("")
    )
}

fn expected_rewrite(content: &str, current_path: &str, bucket_id: &uuid::Uuid, host: &str) -> String {
    let attr = regex::Regex::new(
        r#"(?P<attr>(?:href|src|action|data|srcset))=["'](?P<url>\.{0,2}/[^"']+)["']"#,
    )
    .unwrap();
    let link = regex::Regex::new(r#"\]\((?P<url>\.{0,2}/[^)]+)\)"#).unwrap();
    let current_dir = if current_path == "/" {
        "".to_string()
    } else {
        std::path::Path::new(current_path)
            .parent()
            .and_then(|p| p.to_str())
            .unwrap_or("")
            .to_string()
    };
    let content = attr.replace_all(content, |caps: &regex::Captures| {
        let absolute_url = expected_resolve(&caps["url"], &current_dir, bucket_id, host);
        format!(r#"{}="{}""#, &caps["attr"], absolute_url)
    });
    let content = link.replace_all(&content, |caps: &regex::Captures| {
        let absolute_url = expected_resolve(&caps["url"], &current_dir, bucket_id, host);
        format!("]({})", absolute_url)
    });
    content.to_string()
}

const ID: u128 = 0x0123_4567_89ab_cdef_0011_2233_4455_6677;

#[test]
fn id_text_is_hyphenated_uuid() {
    for id in [0u128, 1, ID, u128::MAX, 0xdead_beef] {
        assert_eq!(id_to_text(id), uuid::Uuid::from_u128(id).to_string());
    }
    assert_eq!(id_to_text(ID), "01234567-89ab-cdef-0011-223344556677");
    assert_eq!(id_short(ID), "01234567...6677");
}

#[test]
fn base_url_from_host_header() {
    assert_eq!(gateway_base_url(None), "http://localhost");
    assert_eq!(gateway_base_url(Some("localhost:8080")), "http://localhost:8080");
    assert_eq!(gateway_base_url(Some("127.0.0.1:9090")), "http://127.0.0.1:9090");
    assert_eq!(gateway_base_url(Some("example.com")), "https://example.com");
    assert_eq!(gateway_base_url(Some("http://example.com")), "http://example.com");
    assert_eq!(gateway_base_url(Some("https://a.b")), "https://a.b");
}

#[test]
fn absolute_paths() {
    assert_eq!(ensure_absolute("a/b"), "/a/b");
    assert_eq!(ensure_absolute("/a/b"), "/a/b");
    assert_eq!(ensure_absolute(""), "/");
}

#[test]
fn links_are_shortened_past_sixteen_bytes() {
    assert_eq!(shorten_link("short"), "short");
    assert_eq!(shorten_link("0123456789abcdef"), "0123456789abcdef");
    assert_eq!(shorten_link("bafkreihdwdcefgh4dqkjv67uzcmw7oje"), "bafkreih...zcmw7oje");
}

#[test]
fn json_pexpected_from_accept_header() {
    assert!(!wants_json(None));
    assert!(wants_json(Some("application/json")));
    assert!(wants_json(Some("application/json, text/html")));
    assert!(!wants_json(Some("text/html, application/json")));
    assert!(!wants_json(Some("text/html")));
    assert!(!wants_json(Some("*/*")));
}

#[test]
fn display_names_and_normal_paths() {
    assert_eq!(display_name("/a/b.txt", "file"), "b.txt");
    assert_eq!(display_name("/", "file"), "file");
    assert_eq!(display_name("docs/..", ""), "");
    assert_eq!(normalize_path("/a/./b/../c"), "a/c");
    assert_eq!(normalize_path("/../../x"), "x");
    assert_eq!(normalize_path("/"), "");
}

#[test]
fn relative_urls_resolve_like_the_gateway() {
    let id = uuid::Uuid::from_u128(ID);
    let cases = [
        ("./img.png", "/docs"),
        ("../img.png", "/docs/sub"),
        ("/abs/x.css", "/docs"),
        ("plain.md", ""),
        ("./a/../b/./c", "/x/y"),
        ("../../up", "/one"),
    ];
    for host in ["https://h.example/", "http://localhost", ""] {
        for (url, dir) in cases {
            assert_eq!(
                resolve_relative_url(url, dir, ID, host),
                expected_resolve(url, dir, &id, host),
                "{} in {} at {}",
                url,
                dir,
                host
            );
        }
    }
    assert_eq!(
        resolve_relative_url("./img.png", "/docs", ID, "https://h/"),
        "https://h/gw/01234567-89ab-cdef-0011-223344556677/docs/img.png"
    );
}

#[test]
fn pages_have_their_links_rewritten() {
    let id = uuid::Uuid::from_u128(ID);
    let pages = [
        r#"<a href="./page.html">x</a> <img src='../pic.png'> <p>none</p>"#,
        "[doc](./docs/readme.md) and [up](../x) and [abs](/top) and [web](https://e.com)",
        r#"<form action="/submit"></form><object data="./d.bin"></object>"#,
        "no links at all, é ü ✓",
        r#"<a href="./ünï.html">ü</a>[a](./b) <a href="x.html">rel</a>"#,
        "",
    ];
    for page in pages {
        for path in ["/", "/index.html", "/docs/index.html", "/a/b/c.md"] {
            for host in ["https://gw.example", ""] {
                assert_eq!(
                    rewrite_relative_urls(page, path, ID, host),
                    expected_rewrite(page, path, &id, host),
                    "page {:?} at {}",
                    page,
                    path
                );
            }
        }
    }
    assert_eq!(
        rewrite_relative_urls("[x](./y.md)", "/d/index.md", ID, ""),
        "[x](/gw/01234567-89ab-cdef-0011-223344556677/d/y.md)"
    );
    assert_eq!(rewrite_relative_urls("plain", "/", ID, "h"), "plain");
}

#[test]
fn markdown_is_rendered_into_the_page() {
    let md = "# Title\n\n| a | b |\n|---|---|\n| 1 | 2 |\n\n~~gone~~\n\n- [x] done\n";
    let mut body = String::new();
    let mut options = pulldown_cmark::Options::empty();
    options.insert(pulldown_cmark::Options::ENABLE_TABLES);
    options.insert(pulldown_cmark::Options::ENABLE_STRIKETHROUGH);
    options.insert(pulldown_cmark::Options::ENABLE_TASKLISTS);
    pulldown_cmark::html::push_html(&mut body, pulldown_cmark::Parser::new_ext(md, options));
    let page = markdown_to_html(md);
    assert_eq!(page, wrap_html_page(&body));
    assert!(page.starts_with("<!DOCTYPE html>\n<html>\n<head>"));
    assert!(page.contains("<h1>Title</h1>"));
    assert!(page.contains("<del>gone</del>"));
    assert!(page.contains("<table>"));
    assert!(page.ends_with("\n</body>\n</html>"));
    assert!(page.contains("body { font-family"));
}
