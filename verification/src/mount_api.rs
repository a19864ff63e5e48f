//! Mounts as the daemon's API and its clients see them: the mount records,
//! the answers and errors of the mount endpoints, and the `mount add` and
//! `mount list` commands.

use vstd::prelude::*;

use crate::gateway::{id_text, id_to_text};
use crate::text::push_str;

verus! {

/// What `Uuid::parse_str` gives for a text: the id as a number, or the text
/// of its error.
pub uninterp spec fn uuid_parse(text: Seq<char>) -> Result<u128, Seq<char>>;

/// Calls `uuid::Uuid::parse_str` and gives the id as a number
/// (`Uuid::as_u128`) or the error's text; the result is named, not spelled
/// out.
#[verifier::external_body]
fn parse_uuid(text: &str) -> (r: Result<u128, String>)
    ensures
        match r {
            Ok(id) => uuid_parse(text@) == Ok::<u128, Seq<char>>(id),
            Err(e) => uuid_parse(text@) == Err::<u128, Seq<char>>(e@),
        },
{
    uuid::Uuid::parse_str(text).map(|u| u.as_u128()).map_err(|e| e.to_string())
}

/// A bucket id from text: the id, or `Invalid bucket ID: <error>`.
pub fn parse_bucket_id(text: &str) -> (r: Result<u128, String>)
    ensures
        match (r, uuid_parse(text@)) {
            (Ok(a), Ok(b)) => a == b,
            (Err(m), Err(e)) => m@ == "Invalid bucket ID: "@ + e,
            _ => false,
        },
{
    match parse_uuid(text) {
        Ok(id) => Ok(id),
        Err(e) => {
            let mut m = String::from_str("Invalid bucket ID: ");
            push_str(&mut m, e.as_str());
            Err(m)
        },
    }
}

/// A mount as the desktop app shows it.
pub struct MountInfo {
    pub mount_id: String,
    pub bucket_id: String,
    pub mount_point: String,
    pub enabled: bool,
    pub auto_mount: bool,
    pub read_only: bool,
    pub cache_size_mb: u32,
    pub cache_ttl_secs: u32,
    pub status: String,
    pub error_message: Option<String>,
    pub created_at: String,
    pub updated_at: String,
}

/// A mount as the daemon's API answers it.
pub struct ApiMountInfo {
    pub mount_id: u128,
    pub bucket_id: u128,
    pub mount_point: String,
    pub enabled: bool,
    pub auto_mount: bool,
    pub read_only: bool,
    pub cache_size_mb: u32,
    pub cache_ttl_secs: u32,
    pub status: String,
    pub error_message: Option<String>,
    pub created_at: String,
    pub updated_at: String,
}

pub open spec fn opt_view(o: Option<String>) -> Option<Seq<char>> {
    match o {
        Some(s) => Some(s@),
        None => None,
    }
}

pub open spec fn info_from_api(m: MountInfo, a: ApiMountInfo) -> bool {
    &&& m.mount_id@ == id_text(a.mount_id)
    &&& m.bucket_id@ == id_text(a.bucket_id)
    &&& m.mount_point@ == a.mount_point@
    &&& m.enabled == a.enabled
    &&& m.auto_mount == a.auto_mount
    &&& m.read_only == a.read_only
    &&& m.cache_size_mb == a.cache_size_mb
    &&& m.cache_ttl_secs == a.cache_ttl_secs
    &&& m.status@ == a.status@
    &&& opt_view(m.error_message) == opt_view(a.error_message)
    &&& m.created_at@ == a.created_at@
    &&& m.updated_at@ == a.updated_at@
}

/// The desktop record of a mount the API answered, its ids as text.
pub fn mount_info(a: &ApiMountInfo) -> (r: MountInfo)
    ensures
        info_from_api(r, *a),
{
    MountInfo {
        mount_id: id_to_text(a.mount_id),
        bucket_id: id_to_text(a.bucket_id),
        mount_point: a.mount_point.clone(),
        enabled: a.enabled,
        auto_mount: a.auto_mount,
        read_only: a.read_only,
        cache_size_mb: a.cache_size_mb,
        cache_ttl_secs: a.cache_ttl_secs,
        status: a.status.clone(),
        error_message: match &a.error_message {
            Some(e) => Some(e.clone()),
            None => None,
        },
        created_at: a.created_at.clone(),
        updated_at: a.updated_at.clone(),
    }
}

/// Response of deleting a mount.
pub struct DeleteMountResponse {
    pub deleted: bool,
}

/// Response containing the mount
pub struct GetMountResponse {
    pub mount: MountInfo,
}

/// Response listing the mounts.
pub struct ListMountsResponse {
    pub mounts: Vec<MountInfo>,
}

/// Response indicating mount was stopped
pub struct StopMountResponse {
    pub stopped: bool,
}

/// Response of updating a mount.
pub struct UpdateMountResponse {
    pub mount: MountInfo,
}

/// Errors of deleting a mount.
pub enum DeleteMountError {
    MountManagerUnavailable,
    /// The mount manager failed; its message.
    Mount(String),
}

/// Errors of listing the mounts.
pub enum ListMountsError {
    MountManagerUnavailable,
    Mount(String),
}

/// Errors of stopping a mount.
pub enum StopMountError {
    MountManagerUnavailable,
    Mount(String),
}

/// Errors of getting a mount.
pub enum GetMountError {
    MountManagerUnavailable,
    NotFound(u128),
    Mount(String),
}

/// Errors of updating a mount.
pub enum UpdateMountError {
    MountManagerUnavailable,
    NotFound(u128),
    Mount(String),
}

/// What a failed mount endpoint answers: `503 Mount manager not available`,
/// `404 Mount not found: <id>`, or the mount error with the status the
/// endpoint gives it.
pub open spec fn mount_error_reply(
    unavailable: bool,
    not_found: Option<u128>,
    error: Seq<char>,
    error_status: u16,
) -> (u16, Seq<char>) {
    if unavailable {
        (503, "Mount manager not available"@)
    } else {
        match not_found {
            Some(id) => (404, "Mount not found: "@ + id_text(id)),
            None => (error_status, "Mount error: "@ + error),
        }
    }
}

fn mount_error_text(e: &String) -> (r: String)
    ensures
        r@ == "Mount error: "@ + e@,
{
    let mut r = String::from_str("Mount error: ");
    push_str(&mut r, e.as_str());
    r
}

fn not_found_text(id: u128) -> (r: String)
    ensures
        r@ == "Mount not found: "@ + id_text(id),
{
    let mut r = String::from_str("Mount not found: ");
    let t = id_to_text(id);
    push_str(&mut r, t.as_str());
    r
}

impl DeleteMountError {
    /// The status and body of the error response.
    pub fn reply(&self) -> (r: (u16, String))
        ensures
            (r.0, r.1@) == match self {
                DeleteMountError::MountManagerUnavailable => mount_error_reply(true, None, Seq::empty(), 500),
                DeleteMountError::Mount(e) => mount_error_reply(false, None, e@, 500),
            },
    {
        match self {
            DeleteMountError::MountManagerUnavailable => (503, String::from_str("Mount manager not available")),
            DeleteMountError::Mount(e) => (500, mount_error_text(e)),
        }
    }
}

impl ListMountsError {
    /// The status and body of the error response.
    pub fn reply(&self) -> (r: (u16, String))
        ensures
            (r.0, r.1@) == match self {
                ListMountsError::MountManagerUnavailable => mount_error_reply(true, None, Seq::empty(), 500),
                ListMountsError::Mount(e) => mount_error_reply(false, None, e@, 500),
            },
    {
        match self {
            ListMountsError::MountManagerUnavailable => (503, String::from_str("Mount manager not available")),
            ListMountsError::Mount(e) => (500, mount_error_text(e)),
        }
    }
}

impl StopMountError {
    /// The status and body of the error response.
    pub fn reply(&self) -> (r: (u16, String))
        ensures
            (r.0, r.1@) == match self {
                StopMountError::MountManagerUnavailable => mount_error_reply(true, None, Seq::empty(), 400),
                StopMountError::Mount(e) => mount_error_reply(false, None, e@, 400),
            },
    {
        match self {
            StopMountError::MountManagerUnavailable => (503, String::from_str("Mount manager not available")),
            StopMountError::Mount(e) => (400, mount_error_text(e)),
        }
    }
}

impl GetMountError {
    /// The status and body of the error response.
    pub fn reply(&self) -> (r: (u16, String))
        ensures
            (r.0, r.1@) == match self {
                GetMountError::MountManagerUnavailable => mount_error_reply(true, None, Seq::empty(), 500),
                GetMountError::NotFound(id) => mount_error_reply(false, Some(*id), Seq::empty(), 500),
                GetMountError::Mount(e) => mount_error_reply(false, None, e@, 500),
            },
    {
        match self {
            GetMountError::MountManagerUnavailable => (503, String::from_str("Mount manager not available")),
            GetMountError::NotFound(id) => (404, not_found_text(*id)),
            GetMountError::Mount(e) => (500, mount_error_text(e)),
        }
    }
}

impl UpdateMountError {
    /// The status and body of the error response.
    pub fn reply(&self) -> (r: (u16, String))
        ensures
            (r.0, r.1@) == match self {
                UpdateMountError::MountManagerUnavailable => mount_error_reply(true, None, Seq::empty(), 400),
                UpdateMountError::NotFound(id) => mount_error_reply(false, Some(*id), Seq::empty(), 400),
                UpdateMountError::Mount(e) => mount_error_reply(false, None, e@, 400),
            },
    {
        match self {
            UpdateMountError::MountManagerUnavailable => (503, String::from_str("Mount manager not available")),
            UpdateMountError::NotFound(id) => (404, not_found_text(*id)),
            UpdateMountError::Mount(e) => (400, mount_error_text(e)),
        }
    }
}

/// What a mount endpoint answers without FUSE support.
pub fn fuse_disabled_reply() -> (r: (u16, &'static str))
    ensures
        r.0 == 501,
        r.1@ == "FUSE support not enabled"@,
{
    (501, "FUSE support not enabled")
}

/// The answer to getting a mount: the manager's lookup, or `NotFound`.
pub fn get_mount_reply(id: u128, found: Option<MountInfo>) -> (r: Result<GetMountResponse, GetMountError>)
    ensures
        match found {
            Some(m) => r matches Ok(g) && g.mount == m,
            None => r matches Err(GetMountError::NotFound(i)) && i == id,
        },
{
    match found {
        Some(m) => Ok(GetMountResponse { mount: m }),
        None => Err(GetMountError::NotFound(id)),
    }
}

/// The answer to updating a mount: the updated mount, or `NotFound`.
pub fn update_mount_reply(id: u128, updated: Option<MountInfo>) -> (r: Result<UpdateMountResponse, UpdateMountError>)
    ensures
        match updated {
            Some(m) => r matches Ok(g) && g.mount == m,
            None => r matches Err(UpdateMountError::NotFound(i)) && i == id,
        },
{
    match updated {
        Some(m) => Ok(UpdateMountResponse { mount: m }),
        None => Err(UpdateMountError::NotFound(id)),
    }
}

/// The `mount add` command.
pub struct Add {
    /// Bucket name or ID
    pub bucket: String,
    /// Mount point path
    pub path: String,
    /// Auto-mount on daemon startup
    pub auto_mount: bool,
    /// Mount as read-only
    pub read_only: bool,
    /// Cache size in MB
    pub cache_size: u32,
    /// Cache TTL in seconds
    pub cache_ttl: u32,
}

/// How the command names its bucket.
pub enum BucketSelector {
    /// By id: the argument parses as one.
    Id(u128),
    /// By name: it does not.
    Name(String),
}

/// The request that creates a mount.
pub struct CreateMountRequest {
    pub bucket_id: u128,
    pub mount_point: String,
    pub auto_mount: bool,
    pub read_only: bool,
    pub cache_size_mb: u32,
    pub cache_ttl_secs: u32,
}

impl Add {
    /// A `mount add` of `bucket` at `path` with the defaults: no auto-mount,
    /// writable, a 100 MB cache kept for 60 seconds.
    pub fn new(bucket: &str, path: &str) -> (r: Add)
        ensures
            r.bucket@ == bucket@,
            r.path@ == path@,
            !r.auto_mount,
            !r.read_only,
            r.cache_size == 100,
            r.cache_ttl == 60,
    {
        Add {
            bucket: String::from_str(bucket),
            path: String::from_str(path),
            auto_mount: false,
            read_only: false,
            cache_size: 100,
            cache_ttl: 60,
        }
    }

    /// The bucket argument: an id when it parses as one, else a name to
    /// resolve.
    pub fn selector(&self) -> (r: BucketSelector)
        ensures
            match uuid_parse(self.bucket@) {
                Ok(id) => r == BucketSelector::Id(id),
                Err(_) => r matches BucketSelector::Name(n) && n@ == self.bucket@,
            },
    {
        match parse_uuid(self.bucket.as_str()) {
            Ok(id) => BucketSelector::Id(id),
            Err(_) => BucketSelector::Name(self.bucket.clone()),
        }
    }

    /// The request for the resolved bucket.
    pub fn request(&self, bucket_id: u128) -> (r: CreateMountRequest)
        ensures
            r.bucket_id == bucket_id,
            r.mount_point@ == self.path@,
            r.auto_mount == self.auto_mount,
            r.read_only == self.read_only,
            r.cache_size_mb == self.cache_size,
            r.cache_ttl_secs == self.cache_ttl,
    {
        CreateMountRequest {
            bucket_id,
            mount_point: self.path.clone(),
            auto_mount: self.auto_mount,
            read_only: self.read_only,
            cache_size_mb: self.cache_size,
            cache_ttl_secs: self.cache_ttl,
        }
    }

    /// The command as text: `mount add <bucket> <path>`.
    pub fn describe(&self) -> (r: String)
        ensures
            r@ == "mount add "@ + self.bucket@ + " "@ + self.path@,
    {
        let mut r = String::from_str("mount add ");
        push_str(&mut r, self.bucket.as_str());
        push_str(&mut r, " ");
        push_str(&mut r, self.path.as_str());
        r
    }
}

/// What `mount add` reports for the mount it created.
pub fn created_message(mount_id: &str, bucket_id: &str, mount_point: &str, status: &str) -> (r: String)
    ensures
        r@ == "Created mount "@ + mount_id@ + " for bucket "@ + bucket_id@ + " at "@ + mount_point@
            + "\nStatus: "@ + status@,
{
    let mut r = String::from_str("Created mount ");
    push_str(&mut r, mount_id);
    push_str(&mut r, " for bucket ");
    push_str(&mut r, bucket_id);
    push_str(&mut r, " at ");
    push_str(&mut r, mount_point);
    push_str(&mut r, "\nStatus: ");
    push_str(&mut r, status);
    r
}

/// The `mount list` command.
pub struct List;

pub open spec fn yes_no(b: bool) -> Seq<char> {
    if b {
        "yes"@
    } else {
        "no"@
    }
}

pub open spec fn row_matches(row: Seq<String>, m: MountInfo) -> bool {
    &&& row.len() == 6
    &&& row[0]@ == m.mount_id@
    &&& row[1]@ == m.bucket_id@
    &&& row[2]@ == m.mount_point@
    &&& row[3]@ == m.status@
    &&& row[4]@ == yes_no(m.auto_mount)
    &&& row[5]@ == yes_no(m.read_only)
}

fn yes_no_text(b: bool) -> (r: String)
    ensures
        r@ == yes_no(b),
{
    if b {
        String::from_str("yes")
    } else {
        String::from_str("no")
    }
}

impl List {
    /// The column titles of the mount table.
    pub fn header() -> (r: Vec<&'static str>)
        ensures
            r@.len() == 6,
            r@[0]@ == "MOUNT ID"@,
            r@[1]@ == "BUCKET ID"@,
            r@[2]@ == "PATH"@,
            r@[3]@ == "STATUS"@,
            r@[4]@ == "AUTO"@,
            r@[5]@ == "RO"@,
    {
        let mut r: Vec<&'static str> = Vec::new();
        r.push("MOUNT ID");
        r.push("BUCKET ID");
        r.push("PATH");
        r.push("STATUS");
        r.push("AUTO");
        r.push("RO");
        r
    }

    /// The rows of the mount table, one for each mount; `None` when there
    /// is no mount, which is shown as `No mounts configured`.
    pub fn rows(mounts: &Vec<MountInfo>) -> (r: Option<Vec<Vec<String>>>)
        ensures
            mounts@.len() == 0 <==> r is None,
            r matches Some(rows) ==> rows@.len() == mounts@.len() && forall|i: int|
                0 <= i < mounts@.len() ==> row_matches(#[trigger] rows@[i]@, mounts@[i]),
    {
        if mounts.len() == 0 {
            return None;
        }
        let mut rows: Vec<Vec<String>> = Vec::new();
        let mut i: usize = 0;
        while i < mounts.len()
            invariant
                i <= mounts@.len(),
                rows@.len() == i,
                forall|k: int| 0 <= k < i ==> row_matches(#[trigger] rows@[k]@, mounts@[k]),
            decreases mounts.len() - i,
        {
            let m = &mounts[i];
            let mut row: Vec<String> = Vec::new();
            row.push(m.mount_id.clone());
            row.push(m.bucket_id.clone());
            row.push(m.mount_point.clone());
            row.push(m.status.clone());
            row.push(yes_no_text(m.auto_mount));
            row.push(yes_no_text(m.read_only));
            rows.push(row);
            i += 1;
        }
        Some(rows)
    }
}

/// The `mount set` command: the mount and the settings to change.
pub struct SetMount {
    pub id: u128,
    pub mount_point: Option<String>,
    pub enabled: Option<bool>,
    pub auto_mount: Option<bool>,
    pub read_only: Option<bool>,
    pub cache_size: Option<u32>,
    pub cache_ttl: Option<u32>,
}

impl SetMount {
    /// The update the command asks for.
    pub fn request(&self) -> (r: crate::mounts::UpdateMountRequest)
        ensures
            opt_view(r.mount_point) == opt_view(self.mount_point),
            r.enabled == self.enabled,
            r.auto_mount == self.auto_mount,
            r.read_only == self.read_only,
            r.cache_size_mb == self.cache_size,
            r.cache_ttl_secs == self.cache_ttl,
    {
        crate::mounts::UpdateMountRequest {
            mount_point: match &self.mount_point {
                Some(p) => Some(p.clone()),
                None => None,
            },
            enabled: self.enabled,
            auto_mount: self.auto_mount,
            read_only: self.read_only,
            cache_size_mb: self.cache_size,
            cache_ttl_secs: self.cache_ttl,
        }
    }
}

pub open spec fn bool_text(b: bool) -> Seq<char> {
    if b {
        "true"@
    } else {
        "false"@
    }
}

fn push_bool(r: &mut String, b: bool)
    ensures
        final(r)@ == old(r)@ + bool_text(b),
{
    if b {
        push_str(r, "true");
    } else {
        push_str(r, "false");
    }
}

/// What `mount set` reports of the updated mount.
pub fn updated_message(m: &MountInfo) -> (r: String)
    ensures
        r@ == "Updated mount "@ + m.mount_id@ + "\n  mount_point: "@ + m.mount_point@
            + "\n  enabled: "@ + bool_text(m.enabled) + "\n  auto_mount: "@ + bool_text(m.auto_mount)
            + "\n  read_only: "@ + bool_text(m.read_only) + "\n  cache_size_mb: "@
            + crate::text::dec(m.cache_size_mb as nat) + "\n  cache_ttl_secs: "@
            + crate::text::dec(m.cache_ttl_secs as nat),
{
    let mut r = String::from_str("Updated mount ");
    push_str(&mut r, m.mount_id.as_str());
    push_str(&mut r, "\n  mount_point: ");
    push_str(&mut r, m.mount_point.as_str());
    push_str(&mut r, "\n  enabled: ");
    push_bool(&mut r, m.enabled);
    push_str(&mut r, "\n  auto_mount: ");
    push_bool(&mut r, m.auto_mount);
    push_str(&mut r, "\n  read_only: ");
    push_bool(&mut r, m.read_only);
    push_str(&mut r, "\n  cache_size_mb: ");
    crate::text::push_decimal(&mut r, m.cache_size_mb as u64);
    push_str(&mut r, "\n  cache_ttl_secs: ");
    crate::text::push_decimal(&mut r, m.cache_ttl_secs as u64);
    r
}

/// The API path of a mount.
pub fn mount_path(id: u128) -> (r: String)
    ensures
        r@ == "/api/v0/mounts/"@ + id_text(id),
{
    let mut r = String::from_str("/api/v0/mounts/");
    let t = id_to_text(id);
    push_str(&mut r, t.as_str());
    r
}

/// The API path of an action on a mount, such as `start` or `stop`.
pub fn mount_action_path(id: u128, action: &str) -> (r: String)
    ensures
        r@ == "/api/v0/mounts/"@ + id_text(id) + "/"@ + action@,
{
    let mut r = mount_path(id);
    push_str(&mut r, "/");
    push_str(&mut r, action);
    r
}

} // verus!
