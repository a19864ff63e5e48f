//! What the API clients (the FUSE layer and the desktop app) make of the
//! daemon's answers, and the small answers the daemon builds itself.

use vstd::prelude::*;

use crate::mounts::{join_path, join_path_str};
use crate::text::push_str;

verus! {

/// What `STANDARD.decode` (base64, standard alphabet with padding) gives
/// for a text: the bytes, or the text of its error.
pub uninterp spec fn base64_decoded(text: Seq<char>) -> Result<Seq<u8>, Seq<char>>;

pub open spec fn decode_view(r: Result<Vec<u8>, String>) -> Result<Seq<u8>, Seq<char>> {
    match r {
        Ok(v) => Ok(v@),
        Err(e) => Err(e@),
    }
}

/// Decodes base64 text with the `base64` crate's standard engine; the
/// result, and the text of the error, are named, not spelled out.
#[verifier::external_body]
fn decode_base64(text: &str) -> (r: Result<Vec<u8>, String>)
    ensures
        decode_view(r) == base64_decoded(text@),
{
    base64::Engine::decode(&base64::engine::general_purpose::STANDARD, text).map_err(|e| e.to_string())
}

/// FUSE-friendly directory entry
pub struct FuseDirEntry {
    pub name: String,
    pub entry_type: String,
    pub size: Option<u64>,
    pub mime_type: Option<String>,
}

/// FUSE-friendly directory listing response
pub struct FuseLsResponse {
    pub entries: Vec<FuseDirEntry>,
}

/// FUSE-friendly cat response with decoded content
pub struct FuseCatResponse {
    pub content: Vec<u8>,
    pub mime_type: String,
    pub size: usize,
}

/// An item of a listing as the daemon answers it.
pub struct ListedItem {
    pub name: String,
    pub is_dir: bool,
    pub mime_type: String,
}

pub open spec fn fuse_entry_matches(e: FuseDirEntry, item: ListedItem) -> bool {
    &&& e.name@ == item.name@
    &&& e.entry_type@ == (if item.is_dir {
        "directory"@
    } else {
        "file"@
    })
    &&& e.size is None
    &&& (e.mime_type matches Some(m) && m@ == item.mime_type@)
}

/// The FUSE listing of a daemon listing: each item as a `directory` or a
/// `file`, with its MIME type and no size.
pub fn fuse_listing(items: &Vec<ListedItem>) -> (r: FuseLsResponse)
    ensures
        r.entries@.len() == items@.len(),
        forall|i: int|
            0 <= i < items@.len() ==> fuse_entry_matches(#[trigger] r.entries@[i], items@[i]),
{
    let mut entries: Vec<FuseDirEntry> = Vec::new();
    let mut i: usize = 0;
    while i < items.len()
        invariant
            i <= items@.len(),
            entries@.len() == i,
            forall|k: int| 0 <= k < i ==> fuse_entry_matches(#[trigger] entries@[k], items@[k]),
        decreases items.len() - i,
    {
        let item = &items[i];
        let entry_type = if item.is_dir {
            String::from_str("directory")
        } else {
            String::from_str("file")
        };
        entries.push(
            FuseDirEntry {
                name: item.name.clone(),
                entry_type,
                size: None,
                mime_type: Some(item.mime_type.clone()),
            },
        );
        i += 1;
    }
    FuseLsResponse { entries }
}

/// The content of a file as the daemon sends it (base64), decoded: the
/// bytes, or `Failed to decode content: <error>`.
pub open spec fn decoded_content(content: Seq<char>) -> Result<Seq<u8>, Seq<char>> {
    match base64_decoded(content) {
        Ok(b) => Ok(b),
        Err(e) => Err("Failed to decode content: "@ + e),
    }
}

/// The FUSE view of a file read from the daemon.
pub fn fuse_cat(content: &str, mime_type: &str, size: usize) -> (r: Result<FuseCatResponse, String>)
    ensures
        match (r, decoded_content(content@)) {
            (Ok(c), Ok(b)) => c.content@ == b && c.mime_type@ == mime_type@ && c.size == size,
            (Err(e), Err(m)) => e@ == m,
            _ => false,
        },
{
    match decode_base64(content) {
        Ok(bytes) => Ok(FuseCatResponse { content: bytes, mime_type: String::from_str(mime_type), size }),
        Err(e) => {
            let mut m = String::from_str("Failed to decode content: ");
            push_str(&mut m, e.as_str());
            Err(m)
        },
    }
}

/// Result of reading a file with cat
pub struct CatResult {
    pub content: Vec<u8>,
    pub mime_type: String,
    pub size: usize,
}

/// The desktop view of a file read from the daemon.
pub fn cat_result(content: &str, mime_type: &str, size: usize) -> (r: Result<CatResult, String>)
    ensures
        match (r, decoded_content(content@)) {
            (Ok(c), Ok(b)) => c.content@ == b && c.mime_type@ == mime_type@ && c.size == size,
            (Err(e), Err(m)) => e@ == m,
            _ => false,
        },
{
    match fuse_cat(content, mime_type, size) {
        Ok(c) => Ok(CatResult { content: c.content, mime_type: c.mime_type, size: c.size }),
        Err(e) => Err(e),
    }
}

/// File/directory entry returned by ls command
pub struct FileEntry {
    pub path: String,
    pub name: String,
    pub is_dir: bool,
    pub mime_type: String,
    pub link_hash: String,
}

/// Share info for a bucket peer
pub struct ShareInfo {
    pub public_key: String,
    pub role: String,
    pub is_self: bool,
}

/// The answer to adding a file through the JSON endpoint.
pub struct AddJsonResponse {
    pub path: String,
    pub size: usize,
    /// The bucket's new link, as text.
    pub link: String,
}

/// Errors of the JSON add endpoint.
pub enum AddJsonError {
    InvalidPath(String),
    InvalidContent(String),
    /// The mount failed; its message.
    Mount(String),
}

impl AddJsonError {
    /// The HTTP status: 400 for a bad path or content, else 500.
    pub fn status(&self) -> (r: u16)
        ensures
            r == (if self is Mount {
                500u16
            } else {
                400u16
            }),
    {
        match self {
            AddJsonError::Mount(_) => 500,
            _ => 400,
        }
    }

    /// The body of the error response: `Bad request: <reason>`, or
    /// `Unexpected error` for a failed mount.
    pub fn reply_text(&self) -> (r: String)
        ensures
            r@ == match self {
                AddJsonError::InvalidPath(m) => "Bad request: "@ + m@,
                AddJsonError::InvalidContent(m) => "Bad request: "@ + m@,
                AddJsonError::Mount(_) => "Unexpected error"@,
            },
    {
        match self {
            AddJsonError::InvalidPath(m) | AddJsonError::InvalidContent(m) => {
                let mut r = String::from_str("Bad request: ");
                push_str(&mut r, m.as_str());
                r
            },
            AddJsonError::Mount(_) => String::from_str("Unexpected error"),
        }
    }
}

/// What the JSON add endpoint accepts: an absolute path and base64 content.
/// A relative path gives `InvalidPath`, content that does not decode
/// `InvalidContent`, each with the reason.
pub open spec fn add_json_check(path: Seq<char>, content: Seq<char>) -> Result<Seq<u8>, (bool, Seq<char>)> {
    if !(path.len() > 0 && path[0] == '/') {
        Err((true, "Path must be absolute: "@ + path))
    } else {
        match base64_decoded(content) {
            Ok(b) => Ok(b),
            Err(e) => Err((false, "Invalid base64: "@ + e)),
        }
    }
}

/// Checks a JSON add request and decodes its content.
pub fn check_add_json(path: &str, content: &str) -> (r: Result<Vec<u8>, AddJsonError>)
    ensures
        match (r, add_json_check(path@, content@)) {
            (Ok(v), Ok(b)) => v@ == b,
            (Err(AddJsonError::InvalidPath(m)), Err((true, t))) => m@ == t,
            (Err(AddJsonError::InvalidContent(m)), Err((false, t))) => m@ == t,
            _ => false,
        },
{
    let first = crate::text::chars_of(path);
    if !(first.len() > 0 && first[0] == '/') {
        let mut m = String::from_str("Path must be absolute: ");
        push_str(&mut m, path);
        return Err(AddJsonError::InvalidPath(m));
    }
    match decode_base64(content) {
        Ok(bytes) => Ok(bytes),
        Err(e) => {
            let mut m = String::from_str("Invalid base64: ");
            push_str(&mut m, e.as_str());
            Err(AddJsonError::InvalidContent(m))
        },
    }
}

/// The answer after a JSON add of `size` bytes at `path`.
pub fn add_json_response(path: &str, size: usize, link: &str) -> (r: AddJsonResponse)
    ensures
        r.path@ == path@,
        r.size == size,
        r.link@ == link@,
{
    AddJsonResponse { path: String::from_str(path), size, link: String::from_str(link) }
}

/// Errors of the is-published endpoint.
pub enum IsPublishedError {
    /// The mount failed; its message.
    Mount(String),
}

impl IsPublishedError {
    /// The HTTP status: 500.
    pub fn status(&self) -> (r: u16)
        ensures
            r == 500,
    {
        500
    }

    /// The body of the error response: `Error: Mount error: <message>`.
    pub fn reply_text(&self) -> (r: String)
        ensures
            r@ == match self {
                IsPublishedError::Mount(m) => "Error: Mount error: "@ + m@,
            },
    {
        match self {
            IsPublishedError::Mount(m) => {
                let mut r = String::from_str("Error: Mount error: ");
                push_str(&mut r, m.as_str());
                r
            },
        }
    }
}

/// Daemon status information
pub struct DaemonStatus {
    pub running: bool,
    pub api_port: u16,
    pub gateway_port: u16,
    pub node_id: Option<String>,
}

/// The status of the daemon: its ports and node id when it runs, else not
/// running with zero ports.
pub fn daemon_status(running: Option<(u16, u16, &str)>) -> (r: DaemonStatus)
    ensures
        match running {
            Some((api, gateway, id)) => r.running && r.api_port == api && r.gateway_port == gateway
                && (r.node_id matches Some(n) && n@ == id@),
            None => !r.running && r.api_port == 0 && r.gateway_port == 0 && r.node_id is None,
        },
{
    match running {
        Some((api, gateway, id)) => DaemonStatus {
            running: true,
            api_port: api,
            gateway_port: gateway,
            node_id: Some(String::from_str(id)),
        },
        None => DaemonStatus { running: false, api_port: 0, gateway_port: 0, node_id: None },
    }
}

/// Configuration info for the Settings page
pub struct ConfigInfo {
    pub jax_dir: String,
    pub db_path: String,
    pub config_path: String,
    pub blob_store: String,
}

/// Where the daemon keeps its files, and which blob store it uses:
/// `filesystem` when the `blobs-store` directory exists, else `legacy`.
pub fn config_info(jax_dir: &str, blobs_store_exists: bool) -> (r: ConfigInfo)
    ensures
        r.jax_dir@ == jax_dir@,
        r.db_path@ == join_path(jax_dir@, "db.sqlite"@),
        r.config_path@ == join_path(jax_dir@, "config.toml"@),
        r.blob_store@ == (if blobs_store_exists {
            "filesystem"@
        } else {
            "legacy"@
        }),
{
    ConfigInfo {
        jax_dir: String::from_str(jax_dir),
        db_path: join_path_str(jax_dir, "db.sqlite"),
        config_path: join_path_str(jax_dir, "config.toml"),
        blob_store: if blobs_store_exists {
            String::from_str("filesystem")
        } else {
            String::from_str("legacy")
        },
    }
}

/// Sync status of a bucket
#[derive(Debug, Clone, Copy, PartialEq, Eq, Structural)]
pub enum SyncStatus {
    Synced,
    OutOfSync,
    Syncing,
    Failed,
}

/// The text a status is stored and shown as.
pub open spec fn sync_text(s: SyncStatus) -> Seq<char> {
    match s {
        SyncStatus::Synced => "synced"@,
        SyncStatus::OutOfSync => "out_of_sync"@,
        SyncStatus::Syncing => "syncing"@,
        SyncStatus::Failed => "failed"@,
    }
}

impl SyncStatus {
    /// The status as it is stored and shown.
    pub fn as_text(&self) -> (r: &'static str)
        ensures
            r@ == sync_text(*self),
    {
        match self {
            SyncStatus::Synced => "synced",
            SyncStatus::OutOfSync => "out_of_sync",
            SyncStatus::Syncing => "syncing",
            SyncStatus::Failed => "failed",
        }
    }

    /// The status stored as `text`, if it names one.
    pub fn from_text(text: &str) -> (r: Option<SyncStatus>)
        ensures
            match r {
                Some(s) => text@ == sync_text(s),
                None => forall|s: SyncStatus| text@ != #[trigger] sync_text(s),
            },
    {
        let t = String::from_str(text);
        if t == String::from_str("synced") {
            Some(SyncStatus::Synced)
        } else if t == String::from_str("out_of_sync") {
            Some(SyncStatus::OutOfSync)
        } else if t == String::from_str("syncing") {
            Some(SyncStatus::Syncing)
        } else if t == String::from_str("failed") {
            Some(SyncStatus::Failed)
        } else {
            None
        }
    }
}

/// Each status has a text of its own, so reading back the text of a status
/// gives that status.
pub proof fn lemma_sync_text_distinct(a: SyncStatus, b: SyncStatus)
    ensures
        sync_text(a) == sync_text(b) ==> a == b,
{
    reveal_strlit("synced");
    reveal_strlit("out_of_sync");
    reveal_strlit("syncing");
    reveal_strlit("failed");
    if sync_text(a) == sync_text(b) && a != b {
        assert(sync_text(a).len() != sync_text(b).len() || sync_text(a)[0] != sync_text(b)[0]);
    }
}

/// The build information the daemon reports: the features it was built
/// with.
pub struct BuildInfo {
    pub build_features: String,
}

/// The daemon's build information: the features it was built with, or
/// `none` when the build recorded none.
pub fn build_info(build_features: Option<&str>) -> (r: BuildInfo)
    ensures
        r.build_features@ == match build_features {
            Some(f) => f@,
            None => "none"@,
        },
{
    match build_features {
        Some(f) => BuildInfo { build_features: String::from_str(f) },
        None => BuildInfo { build_features: String::from_str("none") },
    }
}

/// What `bucket is-published` reports: the height and link of the latest
/// published version, or that there is none.
pub fn published_message(bucket_id: u128, published: Option<(&str, u64)>) -> (r: String)
    ensures
        r@ == match published {
            Some((link, height)) => "Bucket "@ + crate::gateway::id_text(bucket_id)
                + " is published at height "@ + crate::text::dec(height as nat) + ". Link: "@ + link@,
            None => "Bucket "@ + crate::gateway::id_text(bucket_id) + " is not published."@,
        },
{
    let id = crate::gateway::id_to_text(bucket_id);
    let mut r = String::from_str("Bucket ");
    push_str(&mut r, id.as_str());
    match published {
        Some((link, height)) => {
            push_str(&mut r, " is published at height ");
            crate::text::push_decimal(&mut r, height);
            push_str(&mut r, ". Link: ");
            push_str(&mut r, link);
        },
        None => {
            push_str(&mut r, " is not published.");
        },
    }
    r
}

/// How many buckets a listing returns: 100 unless asked, and never more
/// than 1000.
pub fn bucket_list_limit(limit: Option<u32>) -> (r: u32)
    ensures
        r == (match limit {
            Some(l) => if l < 1000 {
                l
            } else {
                1000u32
            },
            None => 100u32,
        }),
{
    let l = match limit {
        Some(l) => l,
        None => 100,
    };
    if l < 1000 {
        l
    } else {
        1000
    }
}

/// The name filter of a bucket listing: names that start with `prefix`
/// (a SQL `LIKE` pattern).
pub fn name_pattern(prefix: &str) -> (r: String)
    ensures
        r@ == prefix@ + "%"@,
{
    let mut r = String::from_str(prefix);
    push_str(&mut r, "%");
    r
}

/// The name an uploaded file keeps: its file name, or `file`.
pub open spec fn upload_name(file_path: Seq<char>) -> Seq<char> {
    match crate::gateway::path_file_name(file_path) {
        Some(n) => n,
        None => "file"@,
    }
}

pub open spec fn upload_dest(mount_path: Seq<char>, file_path: Seq<char>) -> Seq<char> {
    if mount_path.len() > 0 && mount_path.last() == '/' {
        mount_path + upload_name(file_path)
    } else {
        mount_path + seq!['/'] + upload_name(file_path)
    }
}

/// Where an uploaded local file goes in the bucket: its file name (`file`
/// when it has none) in the directory `mount_path`.
pub fn upload_destination(mount_path: &str, file_path: &str) -> (r: String)
    ensures
        r@ == upload_dest(mount_path@, file_path@),
{
    let name = crate::gateway::display_name(file_path, "file");
    let cs = crate::text::chars_of(mount_path);
    let mut r = String::from_str(mount_path);
    if !(cs.len() > 0 && cs[cs.len() - 1] == '/') {
        crate::text::push_char(&mut r, '/');
    }
    push_str(&mut r, name.as_str());
    r
}

/// The base URL of the daemon's API on this machine.
pub fn daemon_url(api_port: u16) -> (r: String)
    ensures
        r@ == "http://localhost:"@ + crate::text::dec(api_port as nat),
{
    let mut r = String::from_str("http://localhost:");
    crate::text::push_decimal(&mut r, api_port as u64);
    r
}

} // verus!
