use jax::update::{detect_installation, has_fuse_feature, InstallMethod};
use jax::version::is_newer_version;

#[test]
fn test_is_newer_version() {
    assert!(is_newer_version("0.1.0", "0.1.1"));
    assert!(is_newer_version("0.1.9", "0.2.0"));
    assert!(is_newer_version("0.1.9", "1.0.0"));
    assert!(!is_newer_version("0.1.9", "0.1.9"));
    assert!(!is_newer_version("0.2.0", "0.1.9"));
}

#[test]
fn test_has_fuse_feature() {
    let _ = has_fuse_feature();
}

#[test]
fn test_detect_installation() {
    let _ = detect_installation(None);
    let _ = detect_installation(Some("/home/user/.cargo/bin/jax"));
}

#[test]
fn detect_installation_by_path() {
    assert!(matches!(detect_installation(Some("/home/u/.cargo/bin/jax")), InstallMethod::Cargo));
    assert!(matches!(detect_installation(None), InstallMethod::Unknown));
}

use jax::paths::{build_path_segments, get_parent_path};
use jax::update::{
    confirm_answer, finish_update, install_command, parse_latest_release, plan_update,
    prompt_suffix, UpdateError, UpdateOutcome, UpdatePlan,
};
use jax::version::version_triple;

fn expected_newer(current: &str, latest: &str) -> bool {
    let parse = |v: &str| -> (u32, u32, u32) {
        let parts: Vec<u32> = v
            .trim_start_matches('v')
            .split('.')
            .filter_map(|p| p.parse().ok())
            .collect();
        (
            *parts.first().unwrap_or(&0),
            *parts.get(1).unwrap_or(&0),
            *parts.get(2).unwrap_or(&0),
        )
    };
    parse(latest) > parse(current)
}

#[test]
fn version_parsing_edge_cases() {
    assert_eq!(version_triple("v1.2.3"), (1, 2, 3));
    assert_eq!(version_triple("vv1.2"), (1, 2, 0));
    assert_eq!(version_triple("1.x.3"), (1, 3, 0));
    assert_eq!(version_triple("+5.0.1"), (5, 0, 1));
    assert_eq!(version_triple(""), (0, 0, 0));
    assert_eq!(version_triple("4294967295.4294967296.7"), (4294967295, 7, 0));
    let samples = [
        "0.1.0", "0.1.1", "v0.2.0", "1.0.0", "1.0", "1", "", "x", "1.2.3.4", "01.02.03", "+1.0.0",
        "-1.0.0", "1..2", "v", "99999999999.1.1", "1.2.3-beta",
    ];
    for a in samples {
        for b in samples {
            assert_eq!(jax::version::is_newer_version(a, b), expected_newer(a, b), "{} {}", a, b);
        }
    }
}

#[test]
fn update_plans() {
    assert_eq!(plan_update(InstallMethod::Script, "0.1.0", "0.1.0", false, false, false), UpdatePlan::AlreadyUpToDate);
    assert_eq!(
        plan_update(InstallMethod::Script, "0.1.0", "0.2.0", false, true, false),
        UpdatePlan::RunInstaller { fuse: true, newer: true }
    );
    assert_eq!(
        plan_update(InstallMethod::Cargo, "0.1.0", "0.1.0", true, false, false),
        UpdatePlan::ConfirmSwitch { fuse: false, newer: false }
    );
    assert_eq!(
        plan_update(InstallMethod::Unknown, "0.1.0", "0.3.0", false, false, false),
        UpdatePlan::UnknownMethod { newer: true }
    );
    let confirm = UpdatePlan::ConfirmSwitch { fuse: false, newer: true };
    assert_eq!(finish_update(confirm, false).message(), "Update cancelled.");
    assert_eq!(finish_update(confirm, true).message(), "Updated successfully.");
    assert_eq!(finish_update(UpdatePlan::AlreadyUpToDate, true), UpdateOutcome::UpToDate);
    assert_eq!(UpdateOutcome::UpToDate.message(), "Already up to date.");
    assert_eq!(
        UpdateOutcome::UnknownMethod.message(),
        "Update cancelled — unknown installation method."
    );
    assert_eq!(InstallMethod::Script.description(), "install script (~/.local/bin)");
}

#[test]
fn release_list_parsing() {
    let body = "[\n  {\n    \"tag_name\": \"jax-app-v9.9.9\",\n  },\n  {\n    \"tag_name\": \"jax-daemon-v0.4.2\",\r\n    \"name\": \"jax-daemon-v0.4.2\"\n  }\n]";
    assert_eq!(parse_latest_release(body), Ok("0.4.2".to_string()));
    assert_eq!(
        parse_latest_release("{\"tag_name\": \"v1\"}"),
        Err("Could not find jax-daemon release version".to_string())
    );
    assert_eq!(
        parse_latest_release("\"tag_name\": \"jax-daemon-v1.0\n\"tag_name\": \"jax-daemon-v2.0\""),
        Ok("2.0".to_string())
    );
    match UpdateError::check_failed("offline") {
        UpdateError::Failed(m) => assert_eq!(m, "Failed to check for updates: offline"),
    }
    assert_eq!(UpdateError::Failed("x".to_string()).message(), "x");
}

#[test]
fn confirmation_prompt() {
    assert!(confirm_answer(None, true));
    assert!(!confirm_answer(None, false));
    assert!(confirm_answer(Some("\n"), true));
    assert!(confirm_answer(Some(" YES \n"), false));
    assert!(confirm_answer(Some("y"), false));
    assert!(!confirm_answer(Some("no"), true));
    assert!(!confirm_answer(Some("yep"), true));
    assert_eq!(prompt_suffix(true), "[Y/n]");
    assert_eq!(prompt_suffix(false), "[y/N]");
    assert_eq!(
        install_command(true),
        "curl -fsSL https://raw.githubusercontent.com/jax-protocol/jax-fs/main/install.sh | sh -s -- --fuse"
    );
    assert!(install_command(false).ends_with("sh -s --"));
}

#[test]
fn breadcrumbs_and_parents() {
    assert!(build_path_segments("/").is_empty());
    let s = build_path_segments("/a/b/c");
    let v: Vec<(&str, &str)> = s.iter().map(|p| (p.name.as_str(), p.path.as_str())).collect();
    assert_eq!(v, vec![("a", "/a"), ("b", "/a/b"), ("c", "/a/b/c")]);
    let s = build_path_segments("//a//b/");
    let v: Vec<(&str, &str)> = s.iter().map(|p| (p.name.as_str(), p.path.as_str())).collect();
    assert_eq!(v, vec![("a", "/a"), ("b", "/a/b")]);
    assert_eq!(get_parent_path("/"), "/");
    assert_eq!(get_parent_path("/a"), "/");
    assert_eq!(get_parent_path("/a/b"), "/a");
    assert_eq!(get_parent_path("/a/b/"), "/a");
    assert_eq!(get_parent_path("a"), "/");
    assert_eq!(get_parent_path("a/b"), "a");
    for seg in build_path_segments("/x/y/z").iter().skip(1) {
        let parent = get_parent_path(&seg.path);
        assert!(seg.path.starts_with(&parent));
    }
}

#[test]
fn up_link_targets_previous_breadcrumb() {
    for path in ["/docs", "/docs/2024/report.pdf", "/a/b"] {
        let s = build_path_segments(path);
        assert_eq!(s.last().unwrap().path, path);
        let up = get_parent_path(path);
        if s.len() == 1 {
            assert_eq!(up, "/");
        } else {
            assert_eq!(up, s[s.len() - 2].path);
        }
    }
}

#[test]
fn confirm_trims_unicode_white_space() {
    assert!(confirm_answer(Some("\u{3000}Yes\u{2029}"), false));
    assert!(confirm_answer(Some("\u{a0}\t\r\n"), true));
    assert!(!confirm_answer(Some("\u{a0}\t\r\n"), false));
    assert!(!confirm_answer(Some("y\u{200b}"), true));
}
