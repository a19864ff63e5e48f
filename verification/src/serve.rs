//! What the gateway answers for a directory or a file of a bucket, once the
//! node has been looked up: index pages, listings, the explorer and viewer
//! pages, downloads and metadata.

use vstd::prelude::*;
use vstd::utf8::*;

use crate::gateway::{
    abbreviated, can_abbreviate, display_name, id_short, id_text, id_to_text, path_file_name,
    abbreviate, short_id, starts_with, starts_with_chars,
};
use crate::hexdump::{hex_dump, to_hex_dump};
use crate::mounts::{join_path, join_path_str};
use crate::page::{commonmark_html, html_page, markdown_to_html, GATEWAY_MARKDOWN_OPTIONS};
use crate::paths::{
    build_path_segments, get_parent_path, parent_path, path_segments, segment_views, PathSegment,
};
use crate::rewrite::{rewrite_relative_urls, rewritten};
use crate::size::{format_size, size_text};
use crate::text::{chars_of, push_str};

verus! {

/// File display info for directory listings
pub struct FileDisplayInfo {
    pub name: String,
    pub path: String,
    pub mime_type: String,
    pub is_dir: bool,
}

/// One entry of a directory listing served as JSON.
pub struct DirectoryEntry {
    pub name: String,
    pub path: String,
    pub mime_type: String,
}

/// A directory listing served as JSON.
pub struct DirectoryListing {
    pub path: String,
    pub entries: Vec<DirectoryEntry>,
}

/// The bucket as the gateway pages show it.
pub struct BucketMeta {
    pub bucket_id_str: String,
    pub bucket_id_short: String,
    pub bucket_name: String,
    pub bucket_link: String,
    pub bucket_link_short: String,
}

/// Template for directory explorer
pub struct GatewayExplorerTemplate {
    pub bucket_id: String,
    pub bucket_id_short: String,
    pub bucket_name: String,
    pub bucket_link: String,
    pub bucket_link_short: String,
    pub path_segments: Vec<PathSegment>,
    pub items: Vec<FileDisplayInfo>,
}

/// Template for file viewer
pub struct GatewayViewerTemplate {
    pub bucket_id: String,
    pub bucket_id_short: String,
    pub bucket_name: String,
    pub bucket_link: String,
    pub bucket_link_short: String,
    pub file_path: String,
    pub file_name: String,
    pub mime_type: String,
    pub size_formatted: String,
    pub content: String,
    pub back_url: String,
}

/// A node of a bucket as a listing gives it: a directory, or a file with
/// the MIME type recorded for it, if any.
pub enum NodeKind {
    Dir,
    Data(Option<String>),
}

pub open spec fn opt_str(o: Option<String>) -> Option<Seq<char>> {
    match o {
        Some(s) => Some(s@),
        None => None,
    }
}

/// The MIME type of a file, `application/octet-stream` when none is
/// recorded.
pub open spec fn file_mime(mime: Option<Seq<char>>) -> Seq<char> {
    match mime {
        Some(m) => m,
        None => "application/octet-stream"@,
    }
}

/// The MIME type shown for a node: `inode/directory` for a directory.
pub open spec fn node_mime(kind: NodeKind) -> Seq<char> {
    match kind {
        NodeKind::Dir => "inode/directory"@,
        NodeKind::Data(m) => file_mime(opt_str(m)),
    }
}

/// The name shown for a path: its file name, or `default`.
pub open spec fn name_or(path: Seq<char>, default: Seq<char>) -> Seq<char> {
    match path_file_name(path) {
        Some(n) => n,
        None => default,
    }
}

fn file_mime_of(mime: &Option<String>) -> (r: String)
    ensures
        r@ == file_mime(opt_str(*mime)),
{
    match mime {
        Some(m) => m.clone(),
        None => String::from_str("application/octet-stream"),
    }
}

fn node_mime_of(kind: &NodeKind) -> (r: String)
    ensures
        r@ == node_mime(*kind),
{
    match kind {
        NodeKind::Dir => String::from_str("inode/directory"),
        NodeKind::Data(m) => file_mime_of(m),
    }
}

/// `/` and the path of an entry relative to the bucket root.
fn rooted(path: &str) -> (r: String)
    ensures
        r@ == seq!['/'] + path@,
{
    proof {
        reveal_strlit("/");
    }
    let mut r = String::from_str("/");
    push_str(&mut r, path);
    r
}

pub open spec fn entry_matches(e: DirectoryEntry, path: Seq<char>, kind: NodeKind) -> bool {
    &&& e.name@ == name_or(path, Seq::empty())
    &&& e.path@ == seq!['/'] + path
    &&& e.mime_type@ == node_mime(kind)
}

pub open spec fn info_matches(f: FileDisplayInfo, path: Seq<char>, kind: NodeKind) -> bool {
    &&& f.name@ == name_or(path, Seq::empty())
    &&& f.path@ == seq!['/'] + path
    &&& f.mime_type@ == node_mime(kind)
    &&& f.is_dir == (kind is Dir)
}

/// The JSON entry of a node at `path` (relative to the bucket root).
pub fn directory_entry(path: &str, kind: &NodeKind) -> (r: DirectoryEntry)
    ensures
        entry_matches(r, path@, *kind),
{
    proof {
        reveal_strlit("");
        assert(""@ =~= Seq::<char>::empty());
    }
    DirectoryEntry { name: display_name(path, ""), path: rooted(path), mime_type: node_mime_of(kind) }
}

/// The explorer item of a node at `path` (relative to the bucket root).
pub fn file_display_info(path: &str, kind: &NodeKind) -> (r: FileDisplayInfo)
    ensures
        info_matches(r, path@, *kind),
{
    proof {
        reveal_strlit("");
        assert(""@ =~= Seq::<char>::empty());
    }
    let is_dir = match kind {
        NodeKind::Dir => true,
        NodeKind::Data(_) => false,
    };
    FileDisplayInfo {
        name: display_name(path, ""),
        path: rooted(path),
        mime_type: node_mime_of(kind),
        is_dir,
    }
}

/// The JSON listing of the directory at `absolute_path` with `items`.
pub fn directory_listing(absolute_path: &str, items: &Vec<(String, NodeKind)>) -> (r:
    DirectoryListing)
    ensures
        r.path@ == absolute_path@,
        r.entries@.len() == items@.len(),
        forall|i: int|
            0 <= i < items@.len() ==> entry_matches(
                #[trigger] r.entries@[i],
                items@[i].0@,
                items@[i].1,
            ),
{
    let mut entries: Vec<DirectoryEntry> = Vec::new();
    let mut i: usize = 0;
    while i < items.len()
        invariant
            i <= items@.len(),
            entries@.len() == i,
            forall|k: int|
                0 <= k < i ==> entry_matches(#[trigger] entries@[k], items@[k].0@, items@[k].1),
        decreases items.len() - i,
    {
        let e = directory_entry(items[i].0.as_str(), &items[i].1);
        entries.push(e);
        i += 1;
    }
    DirectoryListing { path: String::from_str(absolute_path), entries }
}

/// The explorer items for `items`.
pub fn explorer_items(items: &Vec<(String, NodeKind)>) -> (r: Vec<FileDisplayInfo>)
    ensures
        r@.len() == items@.len(),
        forall|i: int|
            0 <= i < items@.len() ==> info_matches(#[trigger] r@[i], items@[i].0@, items@[i].1),
{
    let mut r: Vec<FileDisplayInfo> = Vec::new();
    let mut i: usize = 0;
    while i < items.len()
        invariant
            i <= items@.len(),
            r@.len() == i,
            forall|k: int| 0 <= k < i ==> info_matches(#[trigger] r@[k], items@[k].0@, items@[k].1),
        decreases items.len() - i,
    {
        let f = file_display_info(items[i].0.as_str(), &items[i].1);
        r.push(f);
        i += 1;
    }
    r
}

pub open spec fn meta_matches(m: BucketMeta, id: u128, name: Seq<char>, link: &str) -> bool {
    &&& m.bucket_id_str@ == id_text(id)
    &&& m.bucket_id_short@ == short_id(id)
    &&& m.bucket_name@ == name
    &&& m.bucket_link@ == link@
    &&& m.bucket_link_short@ == abbreviated(link, 8, 8)
}

/// The bucket's id and link in full and shortened (the id to its first
/// eight and last four characters, the link to its first and last eight).
pub fn bucket_meta(bucket_id: u128, bucket_name: &str, bucket_link: &str) -> (r: BucketMeta)
    requires
        can_abbreviate(bucket_link, 8, 8),
    ensures
        meta_matches(r, bucket_id, bucket_name@, bucket_link),
{
    BucketMeta {
        bucket_id_str: id_to_text(bucket_id),
        bucket_id_short: id_short(bucket_id),
        bucket_name: String::from_str(bucket_name),
        bucket_link: String::from_str(bucket_link),
        bucket_link_short: abbreviate(bucket_link, 8, 8),
    }
}

/// The explorer page for the directory at `absolute_path`.
pub fn explorer_template(
    meta: &BucketMeta,
    absolute_path: &str,
    items: &Vec<(String, NodeKind)>,
) -> (r: GatewayExplorerTemplate)
    ensures
        r.bucket_id@ == meta.bucket_id_str@,
        r.bucket_id_short@ == meta.bucket_id_short@,
        r.bucket_name@ == meta.bucket_name@,
        r.bucket_link@ == meta.bucket_link@,
        r.bucket_link_short@ == meta.bucket_link_short@,
        segment_views(r.path_segments@) == path_segments(absolute_path@),
        r.items@.len() == items@.len(),
        forall|i: int|
            0 <= i < items@.len() ==> info_matches(#[trigger] r.items@[i], items@[i].0@, items@[i].1),
{
    GatewayExplorerTemplate {
        bucket_id: meta.bucket_id_str.clone(),
        bucket_id_short: meta.bucket_id_short.clone(),
        bucket_name: meta.bucket_name.clone(),
        bucket_link: meta.bucket_link.clone(),
        bucket_link_short: meta.bucket_link_short.clone(),
        path_segments: build_path_segments(absolute_path),
        items: explorer_items(items),
    }
}

/// The index files looked for in a directory, in order of preference, with
/// the MIME type each is served as.
pub open spec fn index_names() -> Seq<(Seq<char>, Seq<char>)> {
    seq![
        ("index.html"@, "text/html"@),
        ("index.htm"@, "text/html"@),
        ("index.md"@, "text/markdown"@),
        ("index.txt"@, "text/plain"@),
    ]
}

/// The paths of the index files of `dir`, each with its MIME type.
pub fn index_candidates(dir: &str) -> (r: Vec<(String, String)>)
    ensures
        r@.len() == 4,
        forall|i: int|
            0 <= i < 4 ==> (#[trigger] r@[i]).0@ == join_path(dir@, index_names()[i].0)
                && r@[i].1@ == index_names()[i].1,
{
    let mut r: Vec<(String, String)> = Vec::new();
    r.push((join_path_str(dir, "index.html"), String::from_str("text/html")));
    r.push((join_path_str(dir, "index.htm"), String::from_str("text/html")));
    r.push((join_path_str(dir, "index.md"), String::from_str("text/markdown")));
    r.push((join_path_str(dir, "index.txt"), String::from_str("text/plain")));
    r
}

/// The first of the candidates that exists (`exists[i]` says whether the
/// `i`-th does).
pub fn pick_first(exists: &Vec<bool>) -> (r: Option<usize>)
    ensures
        match r {
            Some(i) => i < exists@.len() && exists@[i as int] && forall|j: int|
                0 <= j < i ==> !exists@[j],
            None => forall|j: int| 0 <= j < exists@.len() ==> !exists@[j],
        },
{
    let mut i: usize = 0;
    while i < exists.len()
        invariant
            i <= exists@.len(),
            forall|j: int| 0 <= j < i ==> !exists@[j],
        decreases exists.len() - i,
    {
        if exists[i] {
            return Some(i);
        }
        i += 1;
    }
    None
}

fn str_eq(a: &str, b: &str) -> (r: bool)
    ensures
        r == (a@ == b@),
{
    let x = String::from_str(a);
    let y = String::from_str(b);
    x == y
}

/// The text of a file's bytes, with each invalid sequence replaced by
/// U+FFFD, as `String::from_utf8_lossy` gives it.
pub uninterp spec fn lossy_utf8(bytes: Seq<u8>) -> Seq<char>;

/// Calls `String::from_utf8_lossy`; valid UTF-8 comes back decoded, as its
/// documentation says, and other input is named, not spelled out.
#[verifier::external_body]
fn utf8_lossy(data: &[u8]) -> (r: String)
    ensures
        r@ == lossy_utf8(data@),
        valid_utf8(data@) ==> r@ == decode_utf8(data@),
{
    String::from_utf8_lossy(data).into_owned()
}

/// How an index page is served: its body (`None` for the file's bytes as
/// they are) and its content type. Markdown is rendered and HTML has its
/// relative links rewritten against the index file's path.
pub open spec fn index_body(
    mime: Seq<char>,
    index_path: Seq<char>,
    text: Seq<char>,
    id: u128,
    host: Seq<char>,
) -> (Option<Seq<char>>, Seq<char>) {
    if mime == "text/markdown"@ {
        (
            Some(
                rewritten(
                    html_page(commonmark_html(text, GATEWAY_MARKDOWN_OPTIONS)),
                    index_path,
                    id,
                    host,
                ),
            ),
            "text/html; charset=utf-8"@,
        )
    } else if mime == "text/html"@ {
        (Some(rewritten(text, index_path, id, host)), "text/html; charset=utf-8"@)
    } else {
        (None, "text/plain; charset=utf-8"@)
    }
}

/// The reply for an index file found in a directory: `data` is the file's
/// content, `mime` the type it was found as.
pub fn index_reply(mime: &str, index_path: &str, data: &[u8], bucket_id: u128, host: &str) -> (r: (
    Option<String>,
    String,
))
    ensures
        (opt_str(r.0), r.1@) == index_body(mime@, index_path@, lossy_utf8(data@), bucket_id, host@),
{
    if str_eq(mime, "text/markdown") {
        let text = utf8_lossy(data);
        let html = markdown_to_html(text.as_str());
        let body = rewrite_relative_urls(html.as_str(), index_path, bucket_id, host);
        (Some(body), String::from_str("text/html; charset=utf-8"))
    } else if str_eq(mime, "text/html") {
        let text = utf8_lossy(data);
        let body = rewrite_relative_urls(text.as_str(), index_path, bucket_id, host);
        (Some(body), String::from_str("text/html; charset=utf-8"))
    } else {
        (None, String::from_str("text/plain; charset=utf-8"))
    }
}

/// MIME types the viewer shows as text: `text/*`, JSON, XML and JavaScript.
pub open spec fn is_text_mime(m: Seq<char>) -> bool {
    starts_with(m, "text/"@) || m == "application/json"@ || m == "application/xml"@ || m
        == "application/javascript"@
}

/// A page served as itself: Markdown is rendered into the standalone page;
/// when `links_host` is given, relative links are rewritten against it and
/// HTML is served as its text, else HTML is served as its bytes (`None`).
pub open spec fn rendered_page(
    mime: Seq<char>,
    text: Seq<char>,
    path: Seq<char>,
    id: u128,
    links_host: Option<Seq<char>>,
) -> Option<Seq<char>> {
    if mime == "text/markdown"@ {
        let page = html_page(commonmark_html(text, GATEWAY_MARKDOWN_OPTIONS));
        Some(
            match links_host {
                Some(h) => rewritten(page, path, id, h),
                None => page,
            },
        )
    } else {
        match links_host {
            Some(h) => Some(rewritten(text, path, id, h)),
            None => None,
        }
    }
}

/// What the viewer shows of a file: its text for a text type, else a hex
/// dump of its first 1024 bytes.
pub open spec fn viewer_content(mime: Seq<char>, data: Seq<u8>) -> Seq<char> {
    if is_text_mime(mime) {
        lossy_utf8(data)
    } else {
        hex_dump(data, 1024)
    }
}

/// The "up" link of the viewer: the gateway URL of the file's parent
/// directory.
pub open spec fn back_url(bucket_id_str: Seq<char>, path: Seq<char>) -> Seq<char> {
    "/gw/"@ + bucket_id_str + parent_path(path)
}

/// `<kind>; filename="<name>"`
pub open spec fn disposition(kind: Seq<char>, name: Seq<char>) -> Seq<char> {
    kind + "; filename=\""@ + name + "\""@
}

/// The reply for a file of a bucket.
pub enum FileReply {
    /// The file's bytes as they are, as an attachment.
    Download { content_type: String, disposition: String },
    /// The file's metadata, served as JSON.
    Metadata {
        path: String,
        name: String,
        mime_type: String,
        size: u64,
        size_formatted: String,
    },
    /// The page itself, inline (`body` is `None` for the file's bytes as
    /// they are).
    Page { body: Option<String>, disposition: String },
    /// The viewer page.
    Viewer(GatewayViewerTemplate),
}

pub open spec fn viewer_matches(
    t: GatewayViewerTemplate,
    meta: BucketMeta,
    path: Seq<char>,
    name: Seq<char>,
    mime: Seq<char>,
    size_formatted: Seq<char>,
    data: Seq<u8>,
) -> bool {
    &&& t.bucket_id@ == meta.bucket_id_str@
    &&& t.bucket_id_short@ == meta.bucket_id_short@
    &&& t.bucket_name@ == meta.bucket_name@
    &&& t.bucket_link@ == meta.bucket_link@
    &&& t.bucket_link_short@ == meta.bucket_link_short@
    &&& t.file_path@ == path
    &&& t.file_name@ == name
    &&& t.mime_type@ == mime
    &&& t.size_formatted@ == size_formatted
    &&& t.content@ == viewer_content(mime, data)
    &&& t.back_url@ == back_url(meta.bucket_id_str@, path)
}

fn disposition_of(kind: &str, name: &str) -> (r: String)
    ensures
        r@ == disposition(kind@, name@),
{
    let mut r = String::from_str(kind);
    push_str(&mut r, "; filename=\"");
    push_str(&mut r, name);
    push_str(&mut r, "\"");
    r
}

/// What the reply for a file is, given the text its size is shown as.
pub open spec fn file_reply_matches(
    r: FileReply,
    meta: BucketMeta,
    bucket_id: u128,
    absolute_path: Seq<char>,
    mime: Option<Seq<char>>,
    data: Seq<u8>,
    size_formatted: Seq<char>,
    download: bool,
    view: bool,
    json: bool,
    links_host: Option<Seq<char>>,
) -> bool {
    let m = file_mime(mime);
    let name = name_or(absolute_path, "file"@);
    let page = !view && (m == "text/html"@ || m == "text/markdown"@);
    &&& download ==> (r matches FileReply::Download { content_type, disposition: d }
        && content_type@ == m && d@ == disposition("attachment"@, name))
    &&& !download && json ==> (r matches FileReply::Metadata {
        path,
        name: n,
        mime_type,
        size,
        size_formatted: sf,
    } && path@ == absolute_path && n@ == name && mime_type@ == m && size == data.len()
        && sf@ == size_formatted)
    &&& !download && !json && page ==> (r matches FileReply::Page { body, disposition: d }
        && opt_str(body) == rendered_page(m, lossy_utf8(data), absolute_path, bucket_id, links_host)
        && d@ == disposition("inline"@, name))
    &&& !download && !json && !page ==> (r matches FileReply::Viewer(t) && viewer_matches(
        t,
        meta,
        absolute_path,
        name,
        m,
        size_formatted,
        data,
    ))
}

/// The reply for the file at `absolute_path` with content `data`, its size
/// shown as `format_size` gives it: a download when one is asked for, else
/// its metadata when JSON is wanted, else an HTML or Markdown file rendered
/// as a page (unless `view` asks for the viewer), else the viewer page.
pub fn file_reply(
    meta: &BucketMeta,
    bucket_id: u128,
    absolute_path: &str,
    mime: &Option<String>,
    data: &[u8],
    download: bool,
    view: bool,
    json: bool,
    links_host: Option<&str>,
) -> (r: FileReply)
    ensures
        file_reply_matches(
            r,
            *meta,
            bucket_id,
            absolute_path@,
            opt_str(*mime),
            data@,
            size_text(data@.len()),
            download,
            view,
            json,
            match links_host {
                Some(h) => Some(h@),
                None => None,
            },
        ),
        (!download && !json && (mime matches Some(m) && shown_as_text(m@) && (view || (m@ != "text/html"@
            && m@ != "text/markdown"@)))) ==> (r matches FileReply::Viewer(t) && t.content@ == lossy_utf8(
            data@,
        )),
{
    proof {
        if let Some(m) = mime {
            if !download && !json && (view || (m@ != "text/html"@ && m@ != "text/markdown"@)) {
                assert(shown_as_text(m@) ==> is_text_mime(m@)) by {
                    reveal_strlit("text/");
                }
            }
        }
    }
    let size = format_size(data.len() as u64);
    file_reply_sized(
        meta,
        bucket_id,
        absolute_path,
        mime,
        data,
        size.as_str(),
        download,
        view,
        json,
        links_host,
    )
}

/// The same reply with the size shown as `size_formatted`, for a gateway
/// that formats sizes its own way.
pub fn file_reply_sized(
    meta: &BucketMeta,
    bucket_id: u128,
    absolute_path: &str,
    mime: &Option<String>,
    data: &[u8],
    size_formatted: &str,
    download: bool,
    view: bool,
    json: bool,
    links_host: Option<&str>,
) -> (r: FileReply)
    ensures
        file_reply_matches(
            r,
            *meta,
            bucket_id,
            absolute_path@,
            opt_str(*mime),
            data@,
            size_formatted@,
            download,
            view,
            json,
            match links_host {
                Some(h) => Some(h@),
                None => None,
            },
        ),
        (!download && !json && (mime matches Some(m) && shown_as_text(m@) && (view || (m@ != "text/html"@
            && m@ != "text/markdown"@)))) ==> (r matches FileReply::Viewer(t) && t.content@ == lossy_utf8(
            data@,
        )),
{
    proof {
        if let Some(m) = mime {
            if !download && !json && (view || (m@ != "text/html"@ && m@ != "text/markdown"@)) {
                assert(shown_as_text(m@) ==> is_text_mime(m@)) by {
                    reveal_strlit("text/");
                }
            }
        }
    }
    let m = file_mime_of(mime);
    let name = display_name(absolute_path, "file");
    if download {
        return FileReply::Download {
            content_type: m,
            disposition: disposition_of("attachment", name.as_str()),
        };
    }
    if json {
        return FileReply::Metadata {
            path: String::from_str(absolute_path),
            name,
            mime_type: m,
            size: data.len() as u64,
            size_formatted: String::from_str(size_formatted),
        };
    }
    let is_html = str_eq(m.as_str(), "text/html");
    let is_markdown = str_eq(m.as_str(), "text/markdown");
    if (is_html || is_markdown) && !view {
        let body = if is_markdown {
            let text = utf8_lossy(data);
            let page = markdown_to_html(text.as_str());
            match links_host {
                Some(h) => Some(rewrite_relative_urls(page.as_str(), absolute_path, bucket_id, h)),
                None => Some(page),
            }
        } else {
            match links_host {
                Some(h) => {
                    let text = utf8_lossy(data);
                    Some(rewrite_relative_urls(text.as_str(), absolute_path, bucket_id, h))
                },
                None => None,
            }
        };
        return FileReply::Page { body, disposition: disposition_of("inline", name.as_str()) };
    }
    let text_like = starts_with_chars(&chars_of(m.as_str()), &chars_of("text/")) || str_eq(
        m.as_str(),
        "application/json",
    ) || str_eq(m.as_str(), "application/xml") || str_eq(m.as_str(), "application/javascript");
    let content = if text_like {
        utf8_lossy(data)
    } else {
        to_hex_dump(data, 1024)
    };
    let mut back = String::from_str("/gw/");
    push_str(&mut back, meta.bucket_id_str.as_str());
    let parent = get_parent_path(absolute_path);
    push_str(&mut back, parent.as_str());
    FileReply::Viewer(
        GatewayViewerTemplate {
            bucket_id: meta.bucket_id_str.clone(),
            bucket_id_short: meta.bucket_id_short.clone(),
            bucket_name: meta.bucket_name.clone(),
            bucket_link: meta.bucket_link.clone(),
            bucket_link_short: meta.bucket_link_short.clone(),
            file_path: String::from_str(absolute_path),
            file_name: name,
            mime_type: m,
            size_formatted: String::from_str(size_formatted),
            content,
            back_url: back,
        },
    )
}

/// A plain-text reply: its status, the `Retry-After` seconds if any, and
/// its body.
pub struct PlainReply {
    pub status: u16,
    pub retry_after: Option<u32>,
    pub body: String,
}

/// `500 Error: <message>`.
pub fn error_response(message: &str) -> (r: PlainReply)
    ensures
        r.status == 500,
        r.retry_after is None,
        r.body@ == "Error: "@ + message@,
{
    let mut body = String::from_str("Error: ");
    push_str(&mut body, message);
    PlainReply { status: 500, retry_after: None, body }
}

/// `503`, retry after five seconds: the bucket has no version to show yet.
pub fn syncing_response() -> (r: PlainReply)
    ensures
        r.status == 503,
        r.retry_after == Some(5u32),
        r.body@ == "Bucket is still syncing. Please try again in a moment."@,
{
    PlainReply {
        status: 503,
        retry_after: Some(5),
        body: String::from_str("Bucket is still syncing. Please try again in a moment."),
    }
}

/// `404 Not found: <message>`.
pub fn not_found_response(message: &str) -> (r: PlainReply)
    ensures
        r.status == 404,
        r.retry_after is None,
        r.body@ == "Not found: "@ + message@,
{
    let mut body = String::from_str("Not found: ");
    push_str(&mut body, message);
    PlainReply { status: 404, retry_after: None, body }
}

/// The reply for a path that the bucket does not hold.
pub fn path_not_found(absolute_path: &str) -> (r: PlainReply)
    ensures
        r.status == 404,
        r.retry_after is None,
        r.body@ == "Not found: "@ + ("Path not found: "@ + absolute_path@),
{
    let mut m = String::from_str("Path not found: ");
    push_str(&mut m, absolute_path);
    not_found_response(m.as_str())
}

/// What a gateway path turns out to be.
pub enum GatewayTarget {
    /// A directory: the bucket root, or a directory node.
    Directory,
    /// A file, with the MIME type recorded for it, if any.
    File(Option<String>),
    /// Nothing at that path.
    Missing,
}

/// Whether the node at a path has to be looked up: everywhere but at the
/// bucket root, which is always a directory.
pub fn needs_lookup(absolute_path: &str) -> (r: bool)
    ensures
        r == (absolute_path@ != "/"@),
{
    let root = String::from_str("/");
    String::from_str(absolute_path) != root
}

/// What the gateway serves at `absolute_path`, given what looking the path
/// up found (`None` when nothing is there; not consulted for the root).
pub fn gateway_target(absolute_path: &str, found: Option<NodeKind>) -> (r: GatewayTarget)
    ensures
        absolute_path@ == "/"@ ==> r is Directory,
        absolute_path@ != "/"@ ==> match found {
            None => r is Missing,
            Some(NodeKind::Dir) => r is Directory,
            Some(NodeKind::Data(m)) => r matches GatewayTarget::File(n) && opt_str(n) == opt_str(m),
        },
{
    if !needs_lookup(absolute_path) {
        return GatewayTarget::Directory;
    }
    match found {
        None => GatewayTarget::Missing,
        Some(NodeKind::Dir) => GatewayTarget::Directory,
        Some(NodeKind::Data(m)) => GatewayTarget::File(m),
    }
}

/// How loading the bucket version for a gateway request went.
pub enum VersionLoad {
    /// A version was asked for by hash (`at`): whether the hash parsed and,
    /// if it did, whether that version loaded.
    At { parsed: bool, loaded: bool },
    /// The current version: whether it loaded and, if not, whether the
    /// failure was that the bucket's link is not known here yet.
    Current { loaded: bool, link_not_found: bool },
    /// The latest published version: whether one is recorded and, if so,
    /// whether it loaded.
    Published { found: bool, loaded: bool },
}

/// Why a gateway request could not load its bucket version.
#[derive(Debug, Clone, Copy, PartialEq, Eq, Structural)]
pub enum LoadFailure {
    /// The `at` hash does not parse.
    InvalidHash,
    /// The version at the `at` hash did not load.
    HistoricalLoadFailed,
    /// The bucket has no version here yet: it is still syncing.
    NotYetSynced,
    /// The current version did not load for another reason.
    LoadFailed,
}

/// Whether, and why, loading failed.
pub open spec fn load_failure_of(v: VersionLoad) -> Option<LoadFailure> {
    match v {
        VersionLoad::At { parsed, loaded } => if !parsed {
            Some(LoadFailure::InvalidHash)
        } else if !loaded {
            Some(LoadFailure::HistoricalLoadFailed)
        } else {
            None
        },
        VersionLoad::Current { loaded, link_not_found } => if loaded {
            None
        } else if link_not_found {
            Some(LoadFailure::NotYetSynced)
        } else {
            Some(LoadFailure::LoadFailed)
        },
        VersionLoad::Published { found, loaded } => if found && loaded {
            None
        } else {
            Some(LoadFailure::NotYetSynced)
        },
    }
}

/// Whether, and why, loading the version for a request failed.
pub fn load_failure(v: &VersionLoad) -> (r: Option<LoadFailure>)
    ensures
        r == load_failure_of(*v),
{
    match v {
        VersionLoad::At { parsed, loaded } => if !*parsed {
            Some(LoadFailure::InvalidHash)
        } else if !*loaded {
            Some(LoadFailure::HistoricalLoadFailed)
        } else {
            None
        },
        VersionLoad::Current { loaded, link_not_found } => if *loaded {
            None
        } else if *link_not_found {
            Some(LoadFailure::NotYetSynced)
        } else {
            Some(LoadFailure::LoadFailed)
        },
        VersionLoad::Published { found, loaded } => if *found && *loaded {
            None
        } else {
            Some(LoadFailure::NotYetSynced)
        },
    }
}

/// The status, `Retry-After` and body of the reply for a load failure.
pub open spec fn load_error_text(f: LoadFailure) -> (u16, Option<u32>, Seq<char>) {
    match f {
        LoadFailure::InvalidHash => (500, None, "Error: "@ + "Invalid hash format"@),
        LoadFailure::HistoricalLoadFailed => (500, None, "Error: "@ + "Failed to load historical version"@),
        LoadFailure::NotYetSynced => (503, Some(5u32), "Bucket is still syncing. Please try again in a moment."@),
        LoadFailure::LoadFailed => (500, None, "Error: "@ + "Failed to load bucket"@),
    }
}

/// The reply for a load failure: 500 for a hash that does not parse or a
/// version that does not load, 503 (retry after five seconds) while the
/// bucket is still syncing.
pub fn load_error_reply(f: LoadFailure) -> (r: PlainReply)
    ensures
        (r.status, r.retry_after, r.body@) == load_error_text(f),
{
    match f {
        LoadFailure::InvalidHash => error_response("Invalid hash format"),
        LoadFailure::HistoricalLoadFailed => error_response("Failed to load historical version"),
        LoadFailure::NotYetSynced => syncing_response(),
        LoadFailure::LoadFailed => error_response("Failed to load bucket"),
    }
}

/// The reply when loading the version for a request failed, or `None` when
/// it loaded.
pub fn load_reply(v: &VersionLoad) -> (r: Option<PlainReply>)
    ensures
        match load_failure_of(*v) {
            None => r is None,
            Some(f) => r matches Some(p) && (p.status, p.retry_after, p.body@) == load_error_text(f),
        },
{
    match load_failure(v) {
        None => None,
        Some(f) => Some(load_error_reply(f)),
    }
}

/// The MIME types the viewer shows as text, spelled out.
pub open spec fn shown_as_text(m: Seq<char>) -> bool {
    ||| (m.len() >= 5 && m.take(5) == "text/"@)
    ||| m == "application/json"@
    ||| m == "application/xml"@
    ||| m == "application/javascript"@
}

/// A file that is neither downloaded, asked for as JSON, nor served as a
/// page is shown in the viewer: as its text when its type is `text/*`,
/// JSON, XML or JavaScript, else as a hex dump of its first 1024 bytes.
pub proof fn lemma_viewer_shows_text_types(
    r: FileReply,
    meta: BucketMeta,
    bucket_id: u128,
    absolute_path: Seq<char>,
    mime: Seq<char>,
    data: Seq<u8>,
    size_formatted: Seq<char>,
    view: bool,
    links_host: Option<Seq<char>>,
)
    requires
        file_reply_matches(
            r,
            meta,
            bucket_id,
            absolute_path,
            Some(mime),
            data,
            size_formatted,
            false,
            view,
            false,
            links_host,
        ),
        view || (mime != "text/html"@ && mime != "text/markdown"@),
    ensures
        r matches FileReply::Viewer(t) && t.mime_type@ == mime && (shown_as_text(mime) ==> t.content@
            == lossy_utf8(data)) && (!shown_as_text(mime) ==> t.content@ == hex_dump(data, 1024)),
{
    reveal_strlit("text/");
    assert(is_text_mime(mime) == shown_as_text(mime));
}

} // verus!
