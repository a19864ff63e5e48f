use jax::mount_api::{
    created_message, fuse_disabled_reply, get_mount_reply, mount_info, parse_bucket_id, Add,
    ApiMountInfo, BucketSelector, DeleteMountError, GetMountError, List, ListMountsError,
    MountInfo, StopMountError, UpdateMountError,
};
use jax::mounts::{
    apply_mount_update, bucket_name_or_default, cache_settings, choose_mount_point,
    find_bucket_by_name, find_mount_for_bucket, find_running_mount_for_bucket,
    generate_mount_point, mount_point_candidates, sanitize_mount_name, BucketRef, MountConfig,
    MountEntry, UpdateMountRequest,
};

const ID: u128 = 0x0123_4567_89ab_cdef_0011_2233_4455_6677;

#[test]
fn sanitized_names() {
    assert_eq!(sanitize_mount_name("My Bucket!"), "My-Bucket");
    assert_eq!(sanitize_mount_name("--a b--"), "a-b");
    assert_eq!(sanitize_mount_name("café_2024"), "café_2024");
    assert_eq!(sanitize_mount_name("///"), "");
    let once = sanitize_mount_name("  x..y  ");
    assert_eq!(sanitize_mount_name(&once), once);
}

#[test]
fn mount_points() {
    let c = mount_point_candidates("/media/u", "photos");
    assert_eq!(c.len(), 99);
    assert_eq!(c[0], "/media/u/photos");
    assert_eq!(c[1], "/media/u/photos-2");
    assert_eq!(c[98], "/media/u/photos-99");
    let existing = vec!["/media/u/photos".to_string()];
    let mut on_disk = vec![false; 99];
    on_disk[1] = true;
    assert_eq!(choose_mount_point(&c, &existing, &on_disk), Some(2));
    assert_eq!(generate_mount_point("/media/u", "photos", &existing, &on_disk, ID), "/media/u/photos-3");
    let all = vec![true; 99];
    assert_eq!(generate_mount_point("/media/u", "My Photos", &vec![], &all, ID), "/media/u/My-Photos-01234567");
}

#[test]
fn mount_updates() {
    let c = MountConfig {
        mount_point: "/m".to_string(),
        enabled: true,
        auto_mount: false,
        read_only: false,
        cache_size_mb: 100,
        cache_ttl_secs: 60,
    };
    let u = UpdateMountRequest {
        mount_point: None,
        enabled: Some(false),
        auto_mount: None,
        read_only: Some(true),
        cache_size_mb: Some(200),
        cache_ttl_secs: None,
    };
    let r = apply_mount_update(&c, &u);
    assert_eq!(r.mount_point, "/m");
    assert!(!r.enabled && r.read_only && !r.auto_mount);
    assert_eq!((r.cache_size_mb, r.cache_ttl_secs), (200, 60));
    let again = apply_mount_update(&r, &u);
    assert_eq!((again.enabled, again.read_only, again.cache_size_mb), (r.enabled, r.read_only, r.cache_size_mb));
    assert_eq!(cache_settings(None, None), (100, 60));
    assert_eq!(cache_settings(Some(50), Some(30)), (50, 30));
}

#[test]
fn mount_lookups() {
    let mounts = vec![
        MountEntry { mount_id: 1, bucket_id: 7, mount_point: "/a".to_string(), status: "stopped".to_string() },
        MountEntry { mount_id: 2, bucket_id: 7, mount_point: "/b".to_string(), status: "running".to_string() },
    ];
    assert_eq!(find_mount_for_bucket(&mounts, 7), Some(0));
    assert_eq!(find_running_mount_for_bucket(&mounts, 7), Some(1));
    assert_eq!(find_mount_for_bucket(&mounts, 8), None);
    let buckets = vec![BucketRef { bucket_id: 3, name: "x".to_string() }, BucketRef { bucket_id: 4, name: "y".to_string() }];
    assert_eq!(find_bucket_by_name(&buckets, "y"), Some(4));
    assert_eq!(find_bucket_by_name(&buckets, "z"), None);
    assert_eq!(bucket_name_or_default(&buckets, 3), "x");
    assert_eq!(bucket_name_or_default(&buckets, 9), "bucket");
}

fn info(id: &str, auto: bool) -> MountInfo {
    MountInfo {
        mount_id: id.to_string(),
        bucket_id: "b".to_string(),
        mount_point: "/m".to_string(),
        enabled: true,
        auto_mount: auto,
        read_only: false,
        cache_size_mb: 100,
        cache_ttl_secs: 60,
        status: "running".to_string(),
        error_message: None,
        created_at: "t0".to_string(),
        updated_at: "t1".to_string(),
    }
}

#[test]
fn mount_api_answers() {
    assert_eq!(parse_bucket_id("01234567-89ab-cdef-0011-223344556677"), Ok(ID));
    let err = parse_bucket_id("nope").unwrap_err();
    assert!(err.starts_with("Invalid bucket ID: "));
    let a = ApiMountInfo {
        mount_id: ID,
        bucket_id: 1,
        mount_point: "/m".to_string(),
        enabled: true,
        auto_mount: false,
        read_only: true,
        cache_size_mb: 1,
        cache_ttl_secs: 2,
        status: "running".to_string(),
        error_message: Some("e".to_string()),
        created_at: "c".to_string(),
        updated_at: "u".to_string(),
    };
    let m = mount_info(&a);
    assert_eq!(m.mount_id, "01234567-89ab-cdef-0011-223344556677");
    assert_eq!(m.bucket_id, "00000000-0000-0000-0000-000000000001");
    assert_eq!(m.error_message.as_deref(), Some("e"));
    assert_eq!(DeleteMountError::MountManagerUnavailable.reply(), (503, "Mount manager not available".to_string()));
    assert_eq!(DeleteMountError::Mount("x".to_string()).reply(), (500, "Mount error: x".to_string()));
    assert_eq!(ListMountsError::Mount("x".to_string()).reply().0, 500);
    assert_eq!(StopMountError::Mount("x".to_string()).reply(), (400, "Mount error: x".to_string()));
    assert_eq!(
        GetMountError::NotFound(ID).reply(),
        (404, "Mount not found: 01234567-89ab-cdef-0011-223344556677".to_string())
    );
    assert_eq!(UpdateMountError::Mount("y".to_string()).reply().0, 400);
    assert_eq!(UpdateMountError::NotFound(1).reply().0, 404);
    assert_eq!(fuse_disabled_reply(), (501, "FUSE support not enabled"));
    assert!(matches!(get_mount_reply(3, None), Err(GetMountError::NotFound(3))));
    assert!(matches!(get_mount_reply(3, Some(info("m", false))), Ok(r) if r.mount.mount_id == "m"));
}

#[test]
fn mount_commands() {
    let add = Add::new("photos", "/mnt/p");
    assert_eq!((add.cache_size, add.cache_ttl), (100, 60));
    assert_eq!(add.describe(), "mount add photos /mnt/p");
    assert!(matches!(add.selector(), BucketSelector::Name(n) if n == "photos"));
    let by_id = Add::new("01234567-89ab-cdef-0011-223344556677", "/mnt/p");
    assert!(matches!(by_id.selector(), BucketSelector::Id(ID)));
    let req = add.request(5);
    assert_eq!((req.bucket_id, req.mount_point.as_str(), req.cache_size_mb), (5, "/mnt/p", 100));
    assert_eq!(created_message("m1", "b1", "/p", "running"), "Created mount m1 for bucket b1 at /p\nStatus: running");
    assert_eq!(List::header(), vec!["MOUNT ID", "BUCKET ID", "PATH", "STATUS", "AUTO", "RO"]);
    assert!(List::rows(&vec![]).is_none());
    let rows = List::rows(&vec![info("m", true)]).unwrap();
    assert_eq!(rows[0], vec!["m", "b", "/m", "running", "yes", "no"]);
}

use jax::mount_api::{updated_message, SetMount};

#[test]
fn mount_set_command() {
    let s = SetMount {
        id: 1,
        mount_point: Some("/new".to_string()),
        enabled: None,
        auto_mount: Some(true),
        read_only: None,
        cache_size: Some(10),
        cache_ttl: None,
    };
    let r = s.request();
    assert_eq!(r.mount_point.as_deref(), Some("/new"));
    assert_eq!((r.auto_mount, r.cache_size_mb, r.enabled), (Some(true), Some(10), None));
    assert_eq!(
        updated_message(&info("m1", true)),
        "Updated mount m1\n  mount_point: /m\n  enabled: true\n  auto_mount: true\n  read_only: false\n  cache_size_mb: 100\n  cache_ttl_secs: 60"
    );
}

use jax::mount_api::update_mount_reply;

#[test]
fn update_mount_answers() {
    assert!(matches!(update_mount_reply(4, None), Err(UpdateMountError::NotFound(4))));
    assert!(matches!(update_mount_reply(4, Some(info("u", false))), Ok(r) if r.mount.mount_id == "u"));
}

fn expected_sanitize(name: &str) -> String {
    name.chars()
        .map(|c| if c.is_alphanumeric() || c == '-' || c == '_' { c } else { '-' })
        .collect::<String>()
        .trim_matches('-')
        .to_string()
}

#[test]
fn sanitizing_matches_char_classes() {
    for name in ["My Bucket!", "", "-", "a--b", "日本語 ノート", "Ünïcödé/Ω", "x\u{200b}y", "__ok__", "٣٤٥", "a.b.c"] {
        assert_eq!(sanitize_mount_name(name), expected_sanitize(name), "{:?}", name);
    }
}

#[test]
fn candidates_join_like_paths() {
    for base in ["/media/u", "/media/u/", "", "rel", "/"] {
        let c = mount_point_candidates(base, "n");
        assert_eq!(c[0], std::path::Path::new(base).join("n").to_string_lossy());
        assert_eq!(c[9], std::path::Path::new(base).join("n-10").to_string_lossy());
    }
}

use jax::mount_api::{mount_action_path, mount_path};

#[test]
fn mount_endpoints() {
    assert_eq!(mount_path(ID), "/api/v0/mounts/01234567-89ab-cdef-0011-223344556677");
    assert_eq!(mount_action_path(ID, "stop"), "/api/v0/mounts/01234567-89ab-cdef-0011-223344556677/stop");
}
