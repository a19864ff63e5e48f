use jax::desktop::{
    mount_bucket_step, unmount_bucket_step, upload_step, MountBucketAction, MountBucketEvent,
    MountBucketState, UnmountAction, UnmountEvent, UnmountState, UploadAction, UploadEvent,
    UploadJob, UploadState,
};
use jax::mount_api::ApiMountInfo;
use jax::mounts::{BucketRef, MountEntry};

const BUCKET: u128 = 0x0123_4567_89ab_cdef_0011_2233_4455_6677;
const BUCKET_TEXT: &str = "01234567-89ab-cdef-0011-223344556677";

fn api_info(mount_id: u128, mount_point: &str) -> ApiMountInfo {
    ApiMountInfo {
        mount_id,
        bucket_id: BUCKET,
        mount_point: mount_point.to_string(),
        enabled: true,
        auto_mount: false,
        read_only: false,
        cache_size_mb: 100,
        cache_ttl_secs: 60,
        status: "running".to_string(),
        error_message: None,
        created_at: "c".to_string(),
        updated_at: "u".to_string(),
    }
}

fn finished_with(a: &MountBucketAction) -> Option<&str> {
    match a {
        MountBucketAction::Finish(Err(e)) => Some(e.as_str()),
        _ => None,
    }
}

/// Runs the mount up to the point where the daemon is asked to create it.
fn mount_until_create(flags: Vec<bool>) -> (MountBucketState, MountBucketAction) {
    let (s, a) = mount_bucket_step(MountBucketState::Start, MountBucketEvent::Begin(BUCKET_TEXT.to_string()));
    assert!(matches!(a, MountBucketAction::ListBuckets));
    let buckets = vec![
        BucketRef { bucket_id: 9, name: "other".to_string() },
        BucketRef { bucket_id: BUCKET, name: "My Photos".to_string() },
    ];
    let (s, a) = mount_bucket_step(s, MountBucketEvent::Buckets(buckets));
    assert!(matches!(a, MountBucketAction::ListMounts));
    let (s, a) = mount_bucket_step(
        s,
        MountBucketEvent::Mounts {
            mount_points: vec!["/media/u/My-Photos".to_string()],
            base_dir: "/media/u".to_string(),
        },
    );
    match &a {
        MountBucketAction::ProbeMountPoints(c) => {
            assert_eq!(c.len(), 99);
            assert_eq!(c[0], "/media/u/My-Photos");
            assert_eq!(c[1], "/media/u/My-Photos-2");
        }
        _ => panic!("expected a probe"),
    }
    let (s, a) = mount_bucket_step(s, MountBucketEvent::OnDisk { flags, random_id: BUCKET });
    let dir = match &a {
        MountBucketAction::CreateDir(d) => d.clone(),
        _ => panic!("expected a directory to create"),
    };
    let (s, a) = mount_bucket_step(s, MountBucketEvent::DirCreated);
    match &a {
        MountBucketAction::CreateMount(req) => {
            assert_eq!(req.bucket_id, BUCKET);
            assert_eq!(req.mount_point, dir);
            assert!(!req.auto_mount);
            assert!(!req.read_only);
        }
        _ => panic!("expected a create request"),
    }
    (s, a)
}

#[test]
fn mount_bucket_runs_create_start_get() {
    let mut flags = vec![false; 99];
    flags[1] = true;
    let (s, a) = mount_until_create(flags);
    match &a {
        MountBucketAction::CreateMount(req) => assert_eq!(req.mount_point, "/media/u/My-Photos-3"),
        _ => panic!("expected a create request"),
    }
    let (s, a) = mount_bucket_step(s, MountBucketEvent::Created(7));
    assert!(matches!(a, MountBucketAction::StartMount(7)));
    let (s, a) = mount_bucket_step(s, MountBucketEvent::Started);
    assert!(matches!(a, MountBucketAction::GetMount(7)));
    let (s, a) = mount_bucket_step(s, MountBucketEvent::Fetched(api_info(7, "/media/u/My-Photos-3")));
    assert!(matches!(s, MountBucketState::Done));
    match a {
        MountBucketAction::Finish(Ok(info)) => {
            assert_eq!(info.mount_id, "00000000-0000-0000-0000-000000000007");
            assert_eq!(info.bucket_id, BUCKET_TEXT);
            assert_eq!(info.mount_point, "/media/u/My-Photos-3");
            assert_eq!(info.status, "running");
        }
        _ => panic!("expected the mount"),
    }
}

#[test]
fn mount_bucket_falls_back_to_random_suffix() {
    let (_, a) = mount_until_create(vec![true; 99]);
    match &a {
        MountBucketAction::CreateMount(req) => assert_eq!(req.mount_point, "/media/u/My-Photos-01234567"),
        _ => panic!("expected a create request"),
    }
}

#[test]
fn mount_bucket_create_rejected_does_not_start() {
    let (s, _) = mount_until_create(vec![false; 99]);
    let (s, a) = mount_bucket_step(s, MountBucketEvent::Rejected("no space".to_string()));
    assert!(matches!(s, MountBucketState::Done));
    assert_eq!(finished_with(&a), Some("Failed to create mount: no space"));
}

#[test]
fn mount_bucket_start_rejected() {
    let (s, _) = mount_until_create(vec![false; 99]);
    let (s, _) = mount_bucket_step(s, MountBucketEvent::Created(7));
    let (s, a) = mount_bucket_step(s, MountBucketEvent::Rejected("busy".to_string()));
    assert!(matches!(s, MountBucketState::Done));
    assert_eq!(finished_with(&a), Some("Failed to start mount: busy"));
}

#[test]
fn mount_bucket_bad_id_and_failures() {
    let (s, a) = mount_bucket_step(MountBucketState::Start, MountBucketEvent::Begin("nope".to_string()));
    assert!(matches!(s, MountBucketState::Done));
    assert!(finished_with(&a).unwrap().starts_with("Invalid bucket ID: "));

    let (s, a) = mount_bucket_step(
        MountBucketState::Fetching,
        MountBucketEvent::Failed("connection refused".to_string()),
    );
    assert!(matches!(s, MountBucketState::Done));
    assert_eq!(finished_with(&a), Some("connection refused"));

    // An event that does not belong to the state changes nothing.
    let (s, a) = mount_bucket_step(MountBucketState::Creating, MountBucketEvent::Started);
    assert!(matches!(s, MountBucketState::Creating));
    assert!(matches!(a, MountBucketAction::Ignore));
}

#[test]
fn mount_bucket_unknown_bucket_is_named_bucket() {
    let (s, _) = mount_bucket_step(MountBucketState::Start, MountBucketEvent::Begin(BUCKET_TEXT.to_string()));
    let (s, _) = mount_bucket_step(s, MountBucketEvent::Buckets(vec![]));
    let (_, a) = mount_bucket_step(
        s,
        MountBucketEvent::Mounts { mount_points: vec![], base_dir: "/mnt".to_string() },
    );
    match &a {
        MountBucketAction::ProbeMountPoints(c) => assert_eq!(c[0], "/mnt/bucket"),
        _ => panic!("expected a probe"),
    }
}

fn entry(mount_id: u128, bucket_id: u128) -> MountEntry {
    MountEntry { mount_id, bucket_id, mount_point: "/m".to_string(), status: "running".to_string() }
}

#[test]
fn unmount_stops_then_deletes() {
    let (s, a) = unmount_bucket_step(UnmountState::Start, UnmountEvent::Begin(BUCKET_TEXT.to_string()));
    assert!(matches!(a, UnmountAction::ListMounts));
    let (s, a) = unmount_bucket_step(s, UnmountEvent::Mounts(vec![entry(1, 9), entry(2, BUCKET), entry(3, BUCKET)]));
    assert!(matches!(a, UnmountAction::StopMount(2)));
    let (s, a) = unmount_bucket_step(s, UnmountEvent::Stopped);
    assert!(matches!(a, UnmountAction::DeleteMount(2)));
    let (s, a) = unmount_bucket_step(s, UnmountEvent::Deleted);
    assert!(matches!(s, UnmountState::Done));
    assert!(matches!(a, UnmountAction::Finish(Ok(true))));
}

#[test]
fn unmount_errors() {
    let (s, _) = unmount_bucket_step(UnmountState::Start, UnmountEvent::Begin(BUCKET_TEXT.to_string()));
    let (s, a) = unmount_bucket_step(s, UnmountEvent::Mounts(vec![entry(1, 9)]));
    assert!(matches!(s, UnmountState::Done));
    assert!(matches!(a, UnmountAction::Finish(Err(e)) if e == "No mount found for this bucket"));

    let (_, a) = unmount_bucket_step(UnmountState::Stopping { mount_id: 2 }, UnmountEvent::Rejected("x".to_string()));
    assert!(matches!(a, UnmountAction::Finish(Err(e)) if e == "Failed to stop mount: x"));
    let (_, a) = unmount_bucket_step(UnmountState::Deleting, UnmountEvent::Rejected("y".to_string()));
    assert!(matches!(a, UnmountAction::Finish(Err(e)) if e == "Failed to delete mount: y"));
    let (_, a) = unmount_bucket_step(UnmountState::Start, UnmountEvent::Begin("bad".to_string()));
    assert!(matches!(a, UnmountAction::Finish(Err(e)) if e.starts_with("Invalid bucket ID: ")));
    let (s, a) = unmount_bucket_step(UnmountState::Deleting, UnmountEvent::Stopped);
    assert!(matches!(s, UnmountState::Deleting));
    assert!(matches!(a, UnmountAction::Ignore));
}

#[test]
fn upload_reads_and_sends_each_file() {
    let job = UploadJob {
        mount_path: "/docs".to_string(),
        files: vec!["/home/u/a.txt".to_string(), "b.png".to_string()],
    };
    let (s, a) = upload_step(&job, UploadState::Start, UploadEvent::Begin);
    assert!(matches!(a, UploadAction::ReadFile(p) if p == "/home/u/a.txt"));
    let (s, a) = upload_step(&job, s, UploadEvent::Read(vec![1, 2]));
    match a {
        UploadAction::Upload { file_name, dest_path, data } => {
            assert_eq!(file_name, "a.txt");
            assert_eq!(dest_path, "/docs/a.txt");
            assert_eq!(data, vec![1, 2]);
        }
        _ => panic!("expected an upload"),
    }
    let (s, a) = upload_step(&job, s, UploadEvent::Uploaded);
    assert!(matches!(a, UploadAction::ReadFile(p) if p == "b.png"));
    let (s, a) = upload_step(&job, s, UploadEvent::Read(vec![]));
    assert!(matches!(a, UploadAction::Upload { dest_path, .. } if dest_path == "/docs/b.png"));
    let (s, a) = upload_step(&job, s, UploadEvent::Uploaded);
    assert!(matches!(s, UploadState::Done));
    assert!(matches!(a, UploadAction::Finish(Ok(()))));
}

#[test]
fn upload_failures() {
    let job = UploadJob { mount_path: "/".to_string(), files: vec!["x.bin".to_string()] };
    let (_, a) = upload_step(&job, UploadState::Reading(0), UploadEvent::ReadFailed("denied".to_string()));
    assert!(matches!(a, UploadAction::Finish(Err(e)) if e == "Failed to read file 'x.bin': denied"));
    let (_, a) = upload_step(
        &job,
        UploadState::Uploading(0),
        UploadEvent::Rejected { status: "500".to_string(), body: "boom".to_string() },
    );
    assert!(matches!(a, UploadAction::Finish(Err(e)) if e == "Failed to upload file (500): boom"));
    let (_, a) = upload_step(&job, UploadState::Uploading(0), UploadEvent::Failed("reset".to_string()));
    assert!(matches!(a, UploadAction::Finish(Err(e)) if e == "reset"));

    let empty = UploadJob { mount_path: "/".to_string(), files: vec![] };
    let (s, a) = upload_step(&empty, UploadState::Start, UploadEvent::Begin);
    assert!(matches!(s, UploadState::Done));
    assert!(matches!(a, UploadAction::Finish(Ok(()))));
}
