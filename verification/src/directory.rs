//! What the gateway serves for a directory of a bucket, as steps: each takes
//! the state and what the last read of the bucket gave, and says what to do
//! next. The reads (index lookup, file content, listing) and the page
//! rendering are done by the caller.

use vstd::prelude::*;

use crate::mounts::join_path;
use crate::paths::{path_segments, segment_views};
use crate::serve::{
    directory_listing, error_response, explorer_template, index_body, index_candidates,
    index_names, index_reply, info_matches, entry_matches, lossy_utf8, pick_first,
    BucketMeta, DirectoryListing, GatewayExplorerTemplate, NodeKind, PlainReply,
};

verus! {

/// A request for a directory page.
pub struct DirectoryRequest {
    /// The directory's path as the page shows it.
    pub absolute_path: String,
    /// The directory's path in the bucket, that index files are looked for in.
    pub dir: String,
    /// The client asked for JSON.
    pub wants_json: bool,
    /// The listing is to include subdirectories' contents.
    pub deep: bool,
    pub bucket_id: u128,
    /// The host relative links of an index page are rewritten against.
    pub host: String,
    pub meta: BucketMeta,
}

/// Where serving a directory stands.
pub enum DirectoryState {
    Start,
    /// The index file candidates were looked up.
    FindingIndex,
    /// The index file found is being read.
    ReadingIndex { index_path: String, mime: String },
    /// The directory is being listed.
    Listing,
    /// The explorer page is being rendered.
    Rendering,
    Done,
}

/// What the last read gave.
pub enum DirectoryEvent {
    Begin,
    /// Whether each index file candidate exists.
    IndexProbed(Vec<bool>),
    /// The index file's content.
    IndexRead(Vec<u8>),
    /// The directory's items: each path and what it is.
    Listed(Vec<(String, NodeKind)>),
    /// The explorer page as rendered.
    Rendered(String),
    /// The pending read or the rendering failed.
    Failed,
}

/// A successful directory reply, or an error.
pub enum DirectoryReply {
    /// `200` with this content type and text.
    Text { content_type: String, body: String },
    /// `200` with this content type and the index file's bytes as they are.
    Bytes { content_type: String, bytes: Vec<u8> },
    /// `200` with the listing as JSON.
    Json(DirectoryListing),
    Error(PlainReply),
}

/// What to do next.
pub enum DirectoryAction {
    /// Look up which of these index files (path and MIME type) exist.
    ProbeIndex(Vec<(String, String)>),
    ReadIndex(String),
    /// List the directory, with subdirectories' contents when `deep`.
    List { deep: bool },
    /// Render the explorer page.
    Render(GatewayExplorerTemplate),
    Reply(DirectoryReply),
    /// The event does not belong to this state; nothing to do.
    Ignore,
}

pub open spec fn is_error_reply(a: DirectoryAction, message: Seq<char>) -> bool {
    a matches DirectoryAction::Reply(DirectoryReply::Error(e)) && e.status == 500 && e.retry_after is None
        && e.body@ == "Error: "@ + message
}

pub open spec fn listing_matches(l: DirectoryListing, path: Seq<char>, items: Seq<(String, NodeKind)>) -> bool {
    &&& l.path@ == path
    &&& l.entries@.len() == items.len()
    &&& forall|i: int|
        0 <= i < items.len() ==> entry_matches(#[trigger] l.entries@[i], items[i].0@, items[i].1)
}

pub open spec fn template_matches(
    t: GatewayExplorerTemplate,
    meta: BucketMeta,
    path: Seq<char>,
    items: Seq<(String, NodeKind)>,
) -> bool {
    &&& t.bucket_id@ == meta.bucket_id_str@
    &&& t.bucket_id_short@ == meta.bucket_id_short@
    &&& t.bucket_name@ == meta.bucket_name@
    &&& t.bucket_link@ == meta.bucket_link@
    &&& t.bucket_link_short@ == meta.bucket_link_short@
    &&& segment_views(t.path_segments@) == path_segments(path)
    &&& t.items@.len() == items.len()
    &&& forall|i: int| 0 <= i < items.len() ==> info_matches(#[trigger] t.items@[i], items[i].0@, items[i].1)
}

/// The reply for an index file read: rendered or rewritten text for
/// Markdown and HTML, the bytes as they are otherwise.
pub open spec fn index_reply_matches(
    a: DirectoryAction,
    req: DirectoryRequest,
    index_path: Seq<char>,
    mime: Seq<char>,
    data: Seq<u8>,
) -> bool {
    let (body, ct) = index_body(mime, index_path, lossy_utf8(data), req.bucket_id, req.host@);
    match body {
        Some(t) => a matches DirectoryAction::Reply(DirectoryReply::Text { content_type, body })
            && content_type@ == ct && body@ == t,
        None => a matches DirectoryAction::Reply(DirectoryReply::Bytes { content_type, bytes })
            && content_type@ == ct && bytes@ == data,
    }
}

/// One step of serving a directory: unless JSON is wanted, an index file
/// (`index.html`, `index.htm`, `index.md`, `index.txt`, in that order) is
/// served in place of the listing; otherwise the directory is listed (deep
/// when asked) and served as JSON or as the explorer page. A failed read of
/// the index file, of the listing, or of the rendering ends with a `500`.
pub open spec fn directory_next(
    req: DirectoryRequest,
    s: DirectoryState,
    e: DirectoryEvent,
    s2: DirectoryState,
    a: DirectoryAction,
) -> bool {
    match (s, e) {
        (DirectoryState::Start, DirectoryEvent::Begin) => if req.wants_json {
            s2 is Listing && a == (DirectoryAction::List { deep: req.deep })
        } else {
            &&& s2 is FindingIndex
            &&& a matches DirectoryAction::ProbeIndex(c)
            &&& c@.len() == 4
            &&& forall|i: int|
                0 <= i < 4 ==> (#[trigger] c@[i]).0@ == join_path(req.dir@, index_names()[i].0)
                    && c@[i].1@ == index_names()[i].1
        },
        (DirectoryState::FindingIndex, DirectoryEvent::IndexProbed(found)) => if exists|i: int|
            0 <= i < 4 && #[trigger] found@[i] {
            exists|i: int|
                0 <= i < 4 && #[trigger] found@[i] && (forall|j: int| 0 <= j < i ==> !found@[j])
                    && (s2 matches DirectoryState::ReadingIndex { index_path, mime } && index_path@
                    == join_path(req.dir@, index_names()[i].0) && mime@ == index_names()[i].1 && (
                a matches DirectoryAction::ReadIndex(p) && p@ == index_path@))
        } else {
            s2 is Listing && a == (DirectoryAction::List { deep: req.deep })
        },
        (DirectoryState::ReadingIndex { index_path, mime }, DirectoryEvent::IndexRead(data)) => s2 is Done
            && index_reply_matches(a, req, index_path@, mime@, data@),
        (DirectoryState::ReadingIndex { .. }, DirectoryEvent::Failed) => s2 is Done && is_error_reply(
            a,
            "Failed to read index file"@,
        ),
        (DirectoryState::Listing, DirectoryEvent::Listed(items)) => if req.wants_json {
            s2 is Done && (a matches DirectoryAction::Reply(DirectoryReply::Json(l)) && listing_matches(
                l,
                req.absolute_path@,
                items@,
            ))
        } else {
            s2 is Rendering && (a matches DirectoryAction::Render(t) && template_matches(
                t,
                req.meta,
                req.absolute_path@,
                items@,
            ))
        },
        (DirectoryState::Listing, DirectoryEvent::Failed) => s2 is Done && is_error_reply(
            a,
            "Failed to list directory"@,
        ),
        (DirectoryState::Rendering, DirectoryEvent::Rendered(html)) => s2 is Done && (
        a matches DirectoryAction::Reply(DirectoryReply::Text { content_type, body })
            && content_type@ == "text/html; charset=utf-8"@ && body@ == html@),
        (DirectoryState::Rendering, DirectoryEvent::Failed) => s2 is Done && is_error_reply(
            a,
            "Failed to render page"@,
        ),
        _ => s2 == s && a is Ignore,
    }
}

fn failure(message: &str) -> (r: DirectoryAction)
    ensures
        is_error_reply(r, message@),
{
    DirectoryAction::Reply(DirectoryReply::Error(error_response(message)))
}

/// One step of serving a directory of a bucket.
pub fn directory_step(req: &DirectoryRequest, state: DirectoryState, event: DirectoryEvent) -> (r: (
    DirectoryState,
    DirectoryAction,
))
    requires
        (state matches DirectoryState::FindingIndex) ==> (event matches DirectoryEvent::IndexProbed(f)
            ==> f@.len() == 4),
    ensures
        directory_next(*req, state, event, r.0, r.1),
{
    match (state, event) {
        (DirectoryState::Start, DirectoryEvent::Begin) => if req.wants_json {
            (DirectoryState::Listing, DirectoryAction::List { deep: req.deep })
        } else {
            (DirectoryState::FindingIndex, DirectoryAction::ProbeIndex(index_candidates(req.dir.as_str())))
        },
        (DirectoryState::FindingIndex, DirectoryEvent::IndexProbed(found)) => {
            match pick_first(&found) {
                Some(i) => {
                    let c = index_candidates(req.dir.as_str());
                    let index_path = c[i].0.clone();
                    let mime = c[i].1.clone();
                    let p = index_path.clone();
                    (DirectoryState::ReadingIndex { index_path, mime }, DirectoryAction::ReadIndex(p))
                },
                None => (DirectoryState::Listing, DirectoryAction::List { deep: req.deep }),
            }
        },
        (DirectoryState::ReadingIndex { index_path, mime }, DirectoryEvent::IndexRead(data)) => {
            let (body, ct) = index_reply(
                mime.as_str(),
                index_path.as_str(),
                data.as_slice(),
                req.bucket_id,
                req.host.as_str(),
            );
            let reply = match body {
                Some(t) => DirectoryReply::Text { content_type: ct, body: t },
                None => DirectoryReply::Bytes { content_type: ct, bytes: data },
            };
            (DirectoryState::Done, DirectoryAction::Reply(reply))
        },
        (DirectoryState::ReadingIndex { .. }, DirectoryEvent::Failed) => (
            DirectoryState::Done,
            failure("Failed to read index file"),
        ),
        (DirectoryState::Listing, DirectoryEvent::Listed(items)) => if req.wants_json {
            let l = directory_listing(req.absolute_path.as_str(), &items);
            (DirectoryState::Done, DirectoryAction::Reply(DirectoryReply::Json(l)))
        } else {
            let t = explorer_template(&req.meta, req.absolute_path.as_str(), &items);
            (DirectoryState::Rendering, DirectoryAction::Render(t))
        },
        (DirectoryState::Listing, DirectoryEvent::Failed) => (
            DirectoryState::Done,
            failure("Failed to list directory"),
        ),
        (DirectoryState::Rendering, DirectoryEvent::Rendered(html)) => (
            DirectoryState::Done,
            DirectoryAction::Reply(
                DirectoryReply::Text { content_type: String::from_str("text/html; charset=utf-8"), body: html },
            ),
        ),
        (DirectoryState::Rendering, DirectoryEvent::Failed) => (
            DirectoryState::Done,
            failure("Failed to render page"),
        ),
        (s, _) => (s, DirectoryAction::Ignore),
    }
}

} // verus!
