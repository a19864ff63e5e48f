//! The desktop app's mount and unmount of a bucket and its upload of local
//! files, as steps: each takes the state and what the last request gave,
//! and says what to do next. The requests themselves (to the daemon's API
//! and the file system) are made by the caller.

use vstd::prelude::*;

use crate::mount_api::{info_from_api, mount_info, parse_bucket_id, uuid_parse, ApiMountInfo, MountInfo};
use crate::mounts::{
    find_mount_for_bucket, generate_mount_point, is_generated_mount_point, mount_point_candidate,
    mount_point_candidates, sanitize_mount_name, sanitized, string_views, BucketRef, MountEntry,
};
use crate::text::push_str;

verus! {

/// Where mounting a bucket stands.
pub enum MountBucketState {
    /// Nothing asked yet.
    Start,
    /// The bucket list was asked for, to name the bucket.
    ListingBuckets { bucket_id: u128 },
    /// The mount list was asked for, to avoid mount points in use.
    ListingMounts { bucket_id: u128, bucket_name: String },
    /// The candidate mount points were looked up on disk.
    Probing { bucket_id: u128, bucket_name: String, existing: Vec<String>, base_dir: String },
    /// The mount point directory is being created.
    CreatingDir { bucket_id: u128, mount_point: String },
    /// The mount was asked to be created.
    Creating,
    /// The mount was asked to start.
    Starting { mount_id: u128 },
    /// The mount was asked for.
    Fetching,
    /// Finished.
    Done,
}

/// What the last request gave.
pub enum MountBucketEvent {
    /// Mount the bucket with this id (as text).
    Begin(String),
    /// The buckets the daemon lists.
    Buckets(Vec<BucketRef>),
    /// The mount points in use, and the directory mount points are made in.
    Mounts { mount_points: Vec<String>, base_dir: String },
    /// Whether each candidate mount point exists on disk, and a fresh random
    /// id for the fallback name.
    OnDisk { flags: Vec<bool>, random_id: u128 },
    /// The mount point directory exists now.
    DirCreated,
    /// The daemon created the mount with this id.
    Created(u128),
    /// The daemon started the mount.
    Started,
    /// The daemon answered with a non-success status and this body.
    Rejected(String),
    /// The mount as the daemon now has it.
    Fetched(ApiMountInfo),
    /// The request failed or its answer could not be read; the message.
    Failed(String),
}

/// The request that creates the desktop's mount.
pub struct DesktopCreateMount {
    pub bucket_id: u128,
    pub mount_point: String,
    pub auto_mount: bool,
    pub read_only: bool,
}

/// What to do next.
pub enum MountBucketAction {
    ListBuckets,
    ListMounts,
    /// Look up on disk which of these paths exist.
    ProbeMountPoints(Vec<String>),
    CreateDir(String),
    CreateMount(DesktopCreateMount),
    StartMount(u128),
    GetMount(u128),
    /// Done: the mount, or why it failed.
    Finish(Result<MountInfo, String>),
    /// The event does not belong to this state; nothing to do.
    Ignore,
}

pub open spec fn finished_err(a: MountBucketAction, m: Seq<char>) -> bool {
    a matches MountBucketAction::Finish(Err(e)) && e@ == m
}

/// One step of mounting a bucket: the next state `s2` and action `a` for
/// state `s` and event `e`.
pub open spec fn mount_bucket_next(
    s: MountBucketState,
    e: MountBucketEvent,
    s2: MountBucketState,
    a: MountBucketAction,
) -> bool {
    match (s, e) {
        (_, MountBucketEvent::Failed(m)) => s2 is Done && finished_err(a, m@),
        (MountBucketState::Start, MountBucketEvent::Begin(t)) => match uuid_parse(t@) {
            Ok(id) => s2 == (MountBucketState::ListingBuckets { bucket_id: id }) && a
                is ListBuckets,
            Err(err) => s2 is Done && finished_err(a, "Invalid bucket ID: "@ + err),
        },
        (MountBucketState::ListingBuckets { bucket_id }, MountBucketEvent::Buckets(bs)) => {
            &&& a is ListMounts
            &&& s2 matches MountBucketState::ListingMounts { bucket_id: id, bucket_name: n }
            &&& id == bucket_id
            &&& ((exists|i: int|
                0 <= i < bs@.len() && (#[trigger] bs@[i]).bucket_id == bucket_id && n@ == bs@[i].name@
                    && forall|j: int| 0 <= j < i ==> (#[trigger] bs@[j]).bucket_id != bucket_id)
                || ((forall|j: int| 0 <= j < bs@.len() ==> (#[trigger] bs@[j]).bucket_id != bucket_id)
                && n@ == "bucket"@))
        },
        (
            MountBucketState::ListingMounts { bucket_id, bucket_name },
            MountBucketEvent::Mounts { mount_points, base_dir },
        ) => {
            &&& s2 matches MountBucketState::Probing { bucket_id: id, bucket_name: n, existing, base_dir: b }
            &&& id == bucket_id && n@ == bucket_name@ && existing@ == mount_points@ && b@ == base_dir@
            &&& a matches MountBucketAction::ProbeMountPoints(c)
            &&& c@.len() == 99
            &&& forall|i: int|
                0 <= i < 99 ==> (#[trigger] c@[i])@ == mount_point_candidate(
                    base_dir@,
                    sanitized(bucket_name@),
                    (i + 1) as nat,
                )
        },
        (
            MountBucketState::Probing { bucket_id, bucket_name, existing, base_dir },
            MountBucketEvent::OnDisk { flags, random_id },
        ) => {
            &&& s2 matches MountBucketState::CreatingDir { bucket_id: id, mount_point: p }
            &&& id == bucket_id
            &&& is_generated_mount_point(
                base_dir@,
                bucket_name@,
                string_views(existing@),
                flags@,
                random_id,
                p@,
            )
            &&& a matches MountBucketAction::CreateDir(d) && d@ == p@
        },
        (MountBucketState::CreatingDir { bucket_id, mount_point }, MountBucketEvent::DirCreated) => {
            &&& s2 is Creating
            &&& a matches MountBucketAction::CreateMount(req)
            &&& req.bucket_id == bucket_id && req.mount_point@ == mount_point@
            &&& !req.auto_mount && !req.read_only
        },
        (MountBucketState::Creating, MountBucketEvent::Created(id)) => s2 == (
        MountBucketState::Starting { mount_id: id }) && a == MountBucketAction::StartMount(id),
        (MountBucketState::Creating, MountBucketEvent::Rejected(body)) => s2 is Done && finished_err(
            a,
            "Failed to create mount: "@ + body@,
        ),
        (MountBucketState::Starting { mount_id }, MountBucketEvent::Started) => s2 is Fetching && a
            == MountBucketAction::GetMount(mount_id),
        (MountBucketState::Starting { .. }, MountBucketEvent::Rejected(body)) => s2 is Done
            && finished_err(a, "Failed to start mount: "@ + body@),
        (MountBucketState::Fetching, MountBucketEvent::Fetched(m)) => s2 is Done && (a matches MountBucketAction::Finish(
            Ok(info),
        ) && info_from_api(info, m)),
        _ => s2 == s && a is Ignore,
    }
}

fn err_finish(prefix: &str, body: &String) -> (r: MountBucketAction)
    ensures
        finished_err(r, prefix@ + body@),
{
    let mut m = String::from_str(prefix);
    push_str(&mut m, body.as_str());
    MountBucketAction::Finish(Err(m))
}

/// One step of mounting a bucket at an automatically chosen mount point:
/// name the bucket, avoid the mount points in use and on disk, create the
/// directory, create the mount (not auto-mounted, writable), start it and
/// read it back.
pub fn mount_bucket_step(state: MountBucketState, event: MountBucketEvent) -> (r: (
    MountBucketState,
    MountBucketAction,
))
    requires
        (state matches MountBucketState::Probing { .. }) ==> (event matches MountBucketEvent::OnDisk {
            flags,
            ..
        } ==> flags@.len() == 99),
    ensures
        mount_bucket_next(state, event, r.0, r.1),
{
    match event {
        MountBucketEvent::Failed(m) => return (MountBucketState::Done, MountBucketAction::Finish(Err(m))),
        _ => {},
    }
    match (state, event) {
        (MountBucketState::Start, MountBucketEvent::Begin(t)) => match parse_bucket_id(t.as_str()) {
            Ok(id) => (MountBucketState::ListingBuckets { bucket_id: id }, MountBucketAction::ListBuckets),
            Err(m) => (MountBucketState::Done, MountBucketAction::Finish(Err(m))),
        },
        (MountBucketState::ListingBuckets { bucket_id }, MountBucketEvent::Buckets(bs)) => {
            let name = crate::mounts::bucket_name_or_default(&bs, bucket_id);
            (
                MountBucketState::ListingMounts { bucket_id, bucket_name: name },
                MountBucketAction::ListMounts,
            )
        },
        (
            MountBucketState::ListingMounts { bucket_id, bucket_name },
            MountBucketEvent::Mounts { mount_points, base_dir },
        ) => {
            let name = sanitize_mount_name(bucket_name.as_str());
            let candidates = mount_point_candidates(base_dir.as_str(), name.as_str());
            (
                MountBucketState::Probing { bucket_id, bucket_name, existing: mount_points, base_dir },
                MountBucketAction::ProbeMountPoints(candidates),
            )
        },
        (
            MountBucketState::Probing { bucket_id, bucket_name, existing, base_dir },
            MountBucketEvent::OnDisk { flags, random_id },
        ) => {
            let p = generate_mount_point(
                base_dir.as_str(),
                bucket_name.as_str(),
                &existing,
                &flags,
                random_id,
            );
            let d = p.clone();
            (
                MountBucketState::CreatingDir { bucket_id, mount_point: p },
                MountBucketAction::CreateDir(d),
            )
        },
        (MountBucketState::CreatingDir { bucket_id, mount_point }, MountBucketEvent::DirCreated) => (
            MountBucketState::Creating,
            MountBucketAction::CreateMount(
                DesktopCreateMount { bucket_id, mount_point, auto_mount: false, read_only: false },
            ),
        ),
        (MountBucketState::Creating, MountBucketEvent::Created(id)) => (
            MountBucketState::Starting { mount_id: id },
            MountBucketAction::StartMount(id),
        ),
        (MountBucketState::Creating, MountBucketEvent::Rejected(body)) => (
            MountBucketState::Done,
            err_finish("Failed to create mount: ", &body),
        ),
        (MountBucketState::Starting { mount_id }, MountBucketEvent::Started) => (
            MountBucketState::Fetching,
            MountBucketAction::GetMount(mount_id),
        ),
        (MountBucketState::Starting { mount_id }, MountBucketEvent::Rejected(body)) => (
            MountBucketState::Done,
            err_finish("Failed to start mount: ", &body),
        ),
        (MountBucketState::Fetching, MountBucketEvent::Fetched(m)) => (
            MountBucketState::Done,
            MountBucketAction::Finish(Ok(mount_info(&m))),
        ),
        (s, _) => (s, MountBucketAction::Ignore),
    }
}

/// Where unmounting a bucket stands.
pub enum UnmountState {
    Start,
    /// The mount list was asked for, to find the bucket's mount.
    ListingMounts { bucket_id: u128 },
    /// The mount was asked to stop.
    Stopping { mount_id: u128 },
    /// The mount's configuration was asked to be deleted.
    Deleting,
    Done,
}

/// What the last request gave.
pub enum UnmountEvent {
    /// Unmount the bucket with this id (as text).
    Begin(String),
    /// The mounts the daemon lists.
    Mounts(Vec<MountEntry>),
    Stopped,
    Deleted,
    /// The daemon answered with a non-success status and this body.
    Rejected(String),
    /// The request failed or its answer could not be read; the message.
    Failed(String),
}

/// What to do next.
pub enum UnmountAction {
    ListMounts,
    StopMount(u128),
    DeleteMount(u128),
    /// Done: whether it worked, or why not.
    Finish(Result<bool, String>),
    /// The event does not belong to this state; nothing to do.
    Ignore,
}

pub open spec fn unmount_err(a: UnmountAction, m: Seq<char>) -> bool {
    a matches UnmountAction::Finish(Err(e)) && e@ == m
}

/// One step of unmounting a bucket: the next state `s2` and action `a`.
pub open spec fn unmount_next(s: UnmountState, e: UnmountEvent, s2: UnmountState, a: UnmountAction) -> bool {
    match (s, e) {
        (_, UnmountEvent::Failed(m)) => s2 is Done && unmount_err(a, m@),
        (UnmountState::Start, UnmountEvent::Begin(t)) => match uuid_parse(t@) {
            Ok(id) => s2 == (UnmountState::ListingMounts { bucket_id: id }) && a is ListMounts,
            Err(err) => s2 is Done && unmount_err(a, "Invalid bucket ID: "@ + err),
        },
        (UnmountState::ListingMounts { bucket_id }, UnmountEvent::Mounts(ms)) => if exists|i: int|
            0 <= i < ms@.len() && (#[trigger] ms@[i]).bucket_id == bucket_id {
            exists|i: int|
                0 <= i < ms@.len() && (#[trigger] ms@[i]).bucket_id == bucket_id && (forall|j: int|
                    0 <= j < i ==> (#[trigger] ms@[j]).bucket_id != bucket_id) && s2 == (
                UnmountState::Stopping { mount_id: ms@[i].mount_id }) && a == UnmountAction::StopMount(
                    ms@[i].mount_id,
                )
        } else {
            s2 is Done && unmount_err(a, "No mount found for this bucket"@)
        },
        (UnmountState::Stopping { mount_id }, UnmountEvent::Stopped) => s2 is Deleting && a
            == UnmountAction::DeleteMount(mount_id),
        (UnmountState::Stopping { .. }, UnmountEvent::Rejected(body)) => s2 is Done && unmount_err(
            a,
            "Failed to stop mount: "@ + body@,
        ),
        (UnmountState::Deleting, UnmountEvent::Deleted) => s2 is Done && a == UnmountAction::Finish(
            Ok(true),
        ),
        (UnmountState::Deleting, UnmountEvent::Rejected(body)) => s2 is Done && unmount_err(
            a,
            "Failed to delete mount: "@ + body@,
        ),
        _ => s2 == s && a is Ignore,
    }
}

fn unmount_fail(prefix: &str, body: &String) -> (r: UnmountAction)
    ensures
        unmount_err(r, prefix@ + body@),
{
    let mut m = String::from_str(prefix);
    push_str(&mut m, body.as_str());
    UnmountAction::Finish(Err(m))
}

/// One step of unmounting a bucket: find its mount, stop it, then delete
/// its configuration.
pub fn unmount_bucket_step(state: UnmountState, event: UnmountEvent) -> (r: (UnmountState, UnmountAction))
    ensures
        unmount_next(state, event, r.0, r.1),
{
    match event {
        UnmountEvent::Failed(m) => return (UnmountState::Done, UnmountAction::Finish(Err(m))),
        _ => {},
    }
    match (state, event) {
        (UnmountState::Start, UnmountEvent::Begin(t)) => match parse_bucket_id(t.as_str()) {
            Ok(id) => (UnmountState::ListingMounts { bucket_id: id }, UnmountAction::ListMounts),
            Err(m) => (UnmountState::Done, UnmountAction::Finish(Err(m))),
        },
        (UnmountState::ListingMounts { bucket_id }, UnmountEvent::Mounts(ms)) => {
            match find_mount_for_bucket(&ms, bucket_id) {
                Some(i) => {
                    let id = ms[i].mount_id;
                    (UnmountState::Stopping { mount_id: id }, UnmountAction::StopMount(id))
                },
                None => (
                    UnmountState::Done,
                    UnmountAction::Finish(Err(String::from_str("No mount found for this bucket"))),
                ),
            }
        },
        (UnmountState::Stopping { mount_id }, UnmountEvent::Stopped) => (
            UnmountState::Deleting,
            UnmountAction::DeleteMount(mount_id),
        ),
        (UnmountState::Stopping { .. }, UnmountEvent::Rejected(body)) => (
            UnmountState::Done,
            unmount_fail("Failed to stop mount: ", &body),
        ),
        (UnmountState::Deleting, UnmountEvent::Deleted) => (
            UnmountState::Done,
            UnmountAction::Finish(Ok(true)),
        ),
        (UnmountState::Deleting, UnmountEvent::Rejected(body)) => (
            UnmountState::Done,
            unmount_fail("Failed to delete mount: ", &body),
        ),
        (s, _) => (s, UnmountAction::Ignore),
    }
}

/// Local files to upload into a directory of a bucket.
pub struct UploadJob {
    pub mount_path: String,
    pub files: Vec<String>,
}

/// Where an upload stands.
pub enum UploadState {
    Start,
    /// The `i`-th file is being read.
    Reading(usize),
    /// The `i`-th file is being sent.
    Uploading(usize),
    Done,
}

/// What the last request gave.
pub enum UploadEvent {
    Begin,
    /// The file's content.
    Read(Vec<u8>),
    /// Reading the file failed; why.
    ReadFailed(String),
    Uploaded,
    /// The daemon answered with a non-success status (as text) and body.
    Rejected { status: String, body: String },
    /// The request failed; the message.
    Failed(String),
}

/// What to do next.
pub enum UploadAction {
    ReadFile(String),
    /// Send the file's content under its name to its place in the bucket.
    Upload { file_name: String, dest_path: String, data: Vec<u8> },
    Finish(Result<(), String>),
    Ignore,
}

pub open spec fn upload_err(a: UploadAction, m: Seq<char>) -> bool {
    a matches UploadAction::Finish(Err(e)) && e@ == m
}

pub open spec fn read_next(job: UploadJob, i: int, s2: UploadState, a: UploadAction) -> bool {
    if i < job.files@.len() {
        s2 == UploadState::Reading(i as usize) && (a matches UploadAction::ReadFile(p) && p@
            == job.files@[i]@)
    } else {
        s2 is Done && a == UploadAction::Finish(Ok(()))
    }
}

/// One step of uploading files one after the other: each is read, then sent
/// under its file name to the directory; the first failure ends the upload.
pub open spec fn upload_next(
    job: UploadJob,
    s: UploadState,
    e: UploadEvent,
    s2: UploadState,
    a: UploadAction,
) -> bool {
    match (s, e) {
        (_, UploadEvent::Failed(m)) => s2 is Done && upload_err(a, m@),
        (UploadState::Start, UploadEvent::Begin) => read_next(job, 0, s2, a),
        (UploadState::Reading(i), UploadEvent::Read(data)) => s2 == UploadState::Uploading(i) && (
        a matches UploadAction::Upload { file_name, dest_path, data: d } && file_name@
            == crate::client::upload_name(job.files@[i as int]@) && dest_path@
            == crate::client::upload_dest(job.mount_path@, job.files@[i as int]@) && d == data),
        (UploadState::Reading(i), UploadEvent::ReadFailed(why)) => s2 is Done && upload_err(
            a,
            "Failed to read file '"@ + job.files@[i as int]@ + "': "@ + why@,
        ),
        (UploadState::Uploading(i), UploadEvent::Uploaded) => read_next(job, i + 1, s2, a),
        (UploadState::Uploading(_), UploadEvent::Rejected { status, body }) => s2 is Done
            && upload_err(a, "Failed to upload file ("@ + status@ + "): "@ + body@),
        _ => s2 == s && a is Ignore,
    }
}

fn read_or_finish(job: &UploadJob, i: usize) -> (r: (UploadState, UploadAction))
    ensures
        read_next(*job, i as int, r.0, r.1),
{
    if i < job.files.len() {
        (UploadState::Reading(i), UploadAction::ReadFile(job.files[i].clone()))
    } else {
        (UploadState::Done, UploadAction::Finish(Ok(())))
    }
}

/// One step of uploading local files into a bucket directory.
pub fn upload_step(job: &UploadJob, state: UploadState, event: UploadEvent) -> (r: (
    UploadState,
    UploadAction,
))
    requires
        state matches UploadState::Reading(i) ==> i < job.files@.len(),
        state matches UploadState::Uploading(i) ==> i < job.files@.len(),
    ensures
        upload_next(*job, state, event, r.0, r.1),
{
    match event {
        UploadEvent::Failed(m) => return (UploadState::Done, UploadAction::Finish(Err(m))),
        _ => {},
    }
    match (state, event) {
        (UploadState::Start, UploadEvent::Begin) => read_or_finish(job, 0),
        (UploadState::Reading(i), UploadEvent::Read(data)) => {
            let path = job.files[i].as_str();
            (
                UploadState::Uploading(i),
                UploadAction::Upload {
                    file_name: crate::gateway::display_name(path, "file"),
                    dest_path: crate::client::upload_destination(job.mount_path.as_str(), path),
                    data,
                },
            )
        },
        (UploadState::Reading(i), UploadEvent::ReadFailed(why)) => {
            let mut m = String::from_str("Failed to read file '");
            push_str(&mut m, job.files[i].as_str());
            push_str(&mut m, "': ");
            push_str(&mut m, why.as_str());
            (UploadState::Done, UploadAction::Finish(Err(m)))
        },
        (UploadState::Uploading(i), UploadEvent::Uploaded) => {
            let n = job.files.len();
            assert(i < n);
            read_or_finish(job, i + 1)
        },
        (UploadState::Uploading(_), UploadEvent::Rejected { status, body }) => {
            let mut m = String::from_str("Failed to upload file (");
            push_str(&mut m, status.as_str());
            push_str(&mut m, "): ");
            push_str(&mut m, body.as_str());
            (UploadState::Done, UploadAction::Finish(Err(m)))
        },
        (s, _) => (s, UploadAction::Ignore),
    }
}

} // verus!
