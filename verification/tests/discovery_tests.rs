use moon_core::lsp::discovery::{oxlint_config_folder, oxlint_folder_list};
use moon_core::json::Json;
use moon_core::lsp::discovery::{
    ancestor_bin_candidates, cargo_bin_candidate, container_path_of, go_bin_candidate, is_native_tsc,
    is_rustup_link_target, node_bin_filename, python_venv_layout, rustup_which_path, scan_descends_into,
    typescript_major_version,
};

fn manifest(version: &str) -> Json {
    Json::Object(vec![
        ("name".to_owned(), Json::Str("typescript".to_owned())),
        ("version".to_owned(), Json::Str(version.to_owned())),
    ])
}

#[test]
fn discover_ts7_tsc_accepts_typescript_7() {
    let major = typescript_major_version(&manifest("7.0.1"));
    assert_eq!(major, Some(7));
    assert!(is_native_tsc(major));
}

#[test]
fn discover_ts7_tsc_rejects_typescript_6() {
    let major = typescript_major_version(&manifest("6.0.3"));
    assert_eq!(major, Some(6));
    assert!(!is_native_tsc(major));
}

#[test]
fn typescript_manifest_without_a_version_is_rejected() {
    assert_eq!(typescript_major_version(&Json::Object(vec![])), None);
    assert_eq!(typescript_major_version(&manifest("next")), None);
    assert_eq!(typescript_major_version(&manifest("12")), Some(12));
    assert!(!is_native_tsc(None));
}

#[test]
fn ancestor_walk_lists_candidates_nearest_first() {
    let c = ancestor_bin_candidates("/a/b", "node_modules", ".bin", "tsgo");
    assert_eq!(c, vec!["/a/b/node_modules/.bin/tsgo", "/a/node_modules/.bin/tsgo", "/node_modules/.bin/tsgo"]);
    let v = ancestor_bin_candidates("/p", ".venv", "bin", "ty");
    assert_eq!(v, vec!["/p/.venv/bin/ty", "/.venv/bin/ty"]);
}

#[test]
fn container_binary_path_resolves_node_modules_inside_mount() {
    assert_eq!(
        container_path_of("/home/u/app/node_modules/.bin/tsgo", "/home/u/app", "/workspace/moon-ide").as_deref(),
        Some("/workspace/moon-ide/node_modules/.bin/tsgo")
    );
}

#[test]
fn container_binary_path_rejects_node_modules_above_mount() {
    assert!(container_path_of("/home/u/node_modules/.bin/tsgo", "/home/u/app", "/workspace/app").is_none());
}

#[test]
fn nested_scan_skips_links_hidden_dirs_and_node_modules() {
    assert!(scan_descends_into("apps", false, true));
    assert!(!scan_descends_into("apps", true, true));
    assert!(!scan_descends_into("README.md", false, false));
    assert!(!scan_descends_into("node_modules", false, true));
    assert!(!scan_descends_into(".git", false, true));
    assert!(!scan_descends_into(".next", false, true));
}

#[test]
fn platform_file_names() {
    assert_eq!(node_bin_filename("tsgo", false), "tsgo");
    assert_eq!(node_bin_filename("tsgo", true), "tsgo.cmd");
    assert_eq!(python_venv_layout("ty", false), ("bin", "ty".to_owned()));
    assert_eq!(python_venv_layout("ty", true), ("Scripts", "ty.exe".to_owned()));
}

#[test]
fn go_bin_candidate_prefers_gobin() {
    assert_eq!(go_bin_candidate("gopls", Some("/gb"), Some("/gp"), Some("/h"), None, false).as_deref(), Some("/gb/gopls"));
}

#[test]
fn go_bin_candidate_falls_back_to_gopath_then_home() {
    assert_eq!(go_bin_candidate("gopls", None, Some("/gp"), Some("/h"), None, false).as_deref(), Some("/gp/bin/gopls"));
    assert_eq!(go_bin_candidate("gopls", None, None, Some("/h"), None, false).as_deref(), Some("/h/go/bin/gopls"));
    assert_eq!(go_bin_candidate("gopls", None, None, None, Some("C:/u"), true).as_deref(), Some("C:/u/go/bin/gopls.exe"));
    assert!(go_bin_candidate("gopls", None, None, None, None, false).is_none());
}

#[test]
fn cargo_bin_candidate_prefers_cargo_home() {
    assert_eq!(cargo_bin_candidate("fake-ra", Some("/ch"), Some("/h"), None, false).as_deref(), Some("/ch/bin/fake-ra"));
    assert_eq!(cargo_bin_candidate("fake-ra", None, Some("/h"), None, false).as_deref(), Some("/h/.cargo/bin/fake-ra"));
    assert!(cargo_bin_candidate("fake-ra", None, None, None, false).is_none());
}

#[test]
fn rustup_link_targets_are_shims() {
    assert!(is_rustup_link_target("rustup"));
    assert!(is_rustup_link_target("/home/u/.cargo/bin/rustup"));
    assert!(!is_rustup_link_target("/opt/rust-analyzer"));
}

#[test]
fn rustup_which_output_is_trimmed() {
    assert_eq!(rustup_which_path(b"/t/bin/rust-analyzer\n").as_deref(), Some("/t/bin/rust-analyzer"));
    assert_eq!(rustup_which_path(b"  \n"), None);
    assert_eq!(rustup_which_path(&[0xff, 0xfe]), None);
}

#[test]
fn discover_oxlint_workspace_folders_returns_root_when_no_configs() {
    assert_eq!(oxlint_folder_list(vec![]), vec![String::new()]);
}

#[test]
fn oxlint_configs_become_sorted_unique_folders() {
    let root = "/repo";
    let walked = [
        ("/repo/.oxlintrc.json", true, 1),
        ("/repo/packages/utils/.oxlintrc.json", true, 3),
        ("/repo/apps/api/.oxlintrc.json", true, 3),
        ("/repo/apps/api/.oxlintrc.json", true, 3),
        ("/repo/apps/game-server/.oxlintrc.json", true, 3),
        ("/repo/apps/web/index.ts", true, 3),
        ("/repo/apps/dir/.oxlintrc.json", false, 3),
        ("/repo", false, 0),
    ];
    let found: Vec<String> =
        walked.iter().filter_map(|(p, is_file, depth)| oxlint_config_folder(p, *is_file, *depth, root)).collect();
    assert_eq!(
        oxlint_folder_list(found),
        vec!["".to_owned(), "apps/api".to_owned(), "apps/game-server".to_owned(), "packages/utils".to_owned()]
    );
}
