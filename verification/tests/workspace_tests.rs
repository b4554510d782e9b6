use moon_core::workspace::ref_content_plan;
use moon_core::workspace::{git_file_path, ref_content_result, ref_content_spec};
use moon_core::workspace::{walk_entry, WalkEntry};
use moon_core::error::MoonError;
use moon_core::workspace::{
    cache_effects, candidate_path, check_delete_target, check_rename_source, collect_under_rel, dir_entry, entry_kind,
    ensure_inside_root, rename_needed, restore_paths_plan, sort_dir_entries, split_target, DirEntry, EntryKind,
};

fn invalid_message(r: Result<impl std::fmt::Debug, MoonError>) -> String {
    match r {
        Err(MoonError::InvalidArgument(m)) => m,
        other => panic!("expected an invalid-argument error, got {other:?}"),
    }
}

#[test]
fn git_restore_paths_rejects_path_escapes() {
    let msg = invalid_message(restore_paths_plan(&["../outside.txt".to_owned()]));
    assert_eq!(msg, "git_restore_paths rejects path escape: ../outside.txt");
    let msg = invalid_message(restore_paths_plan(&["a/../../b".to_owned()]));
    assert!(msg.contains("path escape"));
    let msg = invalid_message(restore_paths_plan(&["ok.txt".to_owned(), "/etc/passwd".to_owned()]));
    assert_eq!(msg, "git_restore_paths rejects absolute path: /etc/passwd");
}

#[test]
fn git_restore_paths_keeps_relative_paths_trimmed() {
    let rels = restore_paths_plan(&[
        "src/a.rs".to_owned(),
        "dir/".to_owned(),
        "/".to_owned(),
        "".to_owned(),
        "./c.txt".to_owned(),
        "a/../b".to_owned(),
    ])
    .unwrap();
    assert_eq!(rels, vec!["src/a.rs", "dir", "./c.txt", "a/../b"]);
    assert!(restore_paths_plan(&[]).unwrap().is_empty());
}

#[test]
fn resolved_paths_stay_under_the_root() {
    assert!(ensure_inside_root("/ws/src/a.rs", "/ws").is_ok());
    assert!(ensure_inside_root("/ws", "/ws").is_ok());
    match ensure_inside_root("/wsx/a", "/ws") {
        Err(MoonError::PermissionDenied(m)) => assert_eq!(m, "path /wsx/a escapes workspace root"),
        other => panic!("unexpected {other:?}"),
    }
}

#[test]
fn delete_refuses_workspace_root() {
    assert_eq!(invalid_message(check_delete_target("/ws", "/ws")), "refusing to delete the workspace root");
    assert!(check_delete_target("/ws/a", "/ws").is_ok());
    assert_eq!(invalid_message(check_rename_source("/ws/", "/ws")), "refusing to rename the workspace root");
}

#[test]
fn rename_checks_the_target() {
    assert_eq!(rename_needed("/ws/a", "/ws/a", true).unwrap(), false);
    assert_eq!(rename_needed("/ws/a", "/ws/b", false).unwrap(), true);
    assert_eq!(invalid_message(rename_needed("/ws/a", "/ws/b", true)), "rename target already exists: /ws/b");
}

#[test]
fn targets_split_into_directory_and_name() {
    assert_eq!(candidate_path("/ws", "src/a.rs"), "/ws/src/a.rs");
    assert_eq!(candidate_path("/ws", "/tmp/x"), "/tmp/x");
    let (dir, name) = split_target("/ws/src/a.rs", "no parent", "no name").unwrap();
    assert_eq!((dir.as_str(), name.as_str()), ("/ws/src", "a.rs"));
    assert_eq!(invalid_message(split_target("/", "no parent", "no name")), "no parent");
    assert_eq!(invalid_message(split_target("/ws/..", "no parent", "no name")), "no name");
}

#[test]
fn config_files_invalidate_their_caches() {
    assert_eq!(cache_effects(".editorconfig"), (true, false));
    assert_eq!(cache_effects(".lintstagedrc.json"), (false, true));
    assert_eq!(cache_effects("package.json"), (false, true));
    assert_eq!(cache_effects("main.rs"), (false, false));
}

#[test]
fn collect_paths_under_rejects_empty_rel() {
    assert_eq!(invalid_message(collect_under_rel("")), "collect_paths_under requires a non-empty subdirectory");
    assert_eq!(collect_under_rel("node_modules//").unwrap(), "node_modules");
}

fn entry(name: &str, kind: EntryKind) -> DirEntry {
    dir_entry("/ws", name.to_owned(), &format!("/ws/{name}"), kind, None, None).unwrap()
}

#[test]
fn read_dir_lists_dirs_first_then_by_name() {
    assert!(dir_entry("/ws", ".git".to_owned(), "/ws/.git", EntryKind::Dir, None, None).is_none());
    let git_file = dir_entry("/ws", ".git".to_owned(), "/ws/.git", EntryKind::File, Some(3), None).unwrap();
    assert!(git_file.is_hidden);
    assert_eq!(git_file.path, ".git");
    assert_eq!(git_file.size, Some(3));
    let outside = dir_entry("/ws", "x".to_owned(), "/elsewhere/x", EntryKind::Symlink, None, None).unwrap();
    assert_eq!(outside.path, "/elsewhere/x");

    assert_eq!(entry_kind(true, true, false), EntryKind::Dir);
    assert_eq!(entry_kind(false, true, true), EntryKind::Symlink);
    assert_eq!(entry_kind(false, false, true), EntryKind::File);
    assert_eq!(entry_kind(false, false, false), EntryKind::Other);

    let sorted = sort_dir_entries(vec![
        entry("b.txt", EntryKind::File),
        entry("src", EntryKind::Dir),
        entry("A.md", EntryKind::File),
        entry(".github", EntryKind::Dir),
        entry("link", EntryKind::Symlink),
        entry("docs", EntryKind::Dir),
        entry("é.txt", EntryKind::File),
    ]);
    let names: Vec<&str> = sorted.iter().map(|e| e.name.as_str()).collect();
    assert_eq!(names, vec![".github", "docs", "src", "A.md", "b.txt", "link", "é.txt"]);
}

#[test]
fn collect_paths_walk_decisions() {
    let skip = vec!["node_modules/".to_owned(), "a/target/".to_owned()];
    assert_eq!(walk_entry("", ".git", true, false, &skip, 0, 3), WalkEntry::Ignore);
    assert_eq!(walk_entry("", "node_modules", true, false, &skip, 0, 3), WalkEntry::Collapsed("node_modules/".to_owned()));
    assert_eq!(walk_entry("a", "target", true, false, &skip, 1, 3), WalkEntry::Collapsed("a/target/".to_owned()));
    assert_eq!(
        walk_entry("a", "src", true, false, &skip, 1, 3),
        WalkEntry::Descend { listed: "a/src/".to_owned(), rel: "a/src".to_owned() }
    );
    assert_eq!(walk_entry("a/b/c", "d", true, false, &skip, 3, 3), WalkEntry::Frontier("a/b/c/d/".to_owned()));
    assert_eq!(walk_entry("a", "x.rs", false, true, &skip, 1, 3), WalkEntry::Path("a/x.rs".to_owned()));
    assert_eq!(walk_entry("", "fifo", false, false, &skip, 0, 3), WalkEntry::Ignore);
}

#[test]
fn per_file_git_reads_stay_inside_the_workspace() {
    assert_eq!(git_file_path("git_blame", "").unwrap(), None);
    assert_eq!(git_file_path("git_blame", "src/a.rs/").unwrap().as_deref(), Some("src/a.rs"));
    assert_eq!(invalid_message(git_file_path("git_blame", "/etc/passwd")), "git_blame rejects absolute path: /etc/passwd");
    assert_eq!(invalid_message(git_file_path("git_ref_content", "../x")), "git_ref_content rejects path escape: ../x");
}

#[test]
fn ref_content_checks_the_rev_and_reads_text_blobs() {
    assert_eq!(ref_content_spec("HEAD", "src/a.rs").unwrap(), "HEAD:src/a.rs");
    let sha = "0123456789abcdef0123456789abcdef01234567";
    assert_eq!(ref_content_spec(sha, "a\\b.rs").unwrap(), format!("{sha}:a/b.rs"));
    assert_eq!(
        invalid_message(ref_content_spec("main\n", "a")),
        "git_ref_content rejects rev: \"main\\n\" (expected \"HEAD\" or 40-char hex SHA)"
    );
    assert_eq!(ref_content_result(false, b"x".to_vec()).unwrap(), None);
    assert_eq!(ref_content_result(true, b"a\0b".to_vec()).unwrap(), None);
    assert_eq!(ref_content_result(true, b"text\n".to_vec()).unwrap().as_deref(), Some("text\n"));
    match ref_content_result(true, vec![0x66, 0xff]) {
        Err(MoonError::IoError(m)) => assert!(m.starts_with("git show <rev>:<path> produced non-UTF-8 text: invalid utf-8")),
        other => panic!("unexpected {other:?}"),
    }
}

#[test]
fn ref_content_plan_checks_the_rev_before_the_path() {
    match ref_content_plan("main", "") {
        Err(MoonError::InvalidArgument(m)) => assert!(m.starts_with("git_ref_content rejects rev: \"main\"")),
        other => panic!("unexpected {other:?}"),
    }
    assert!(matches!(ref_content_plan("HEAD", ""), Ok(None)));
    assert_eq!(ref_content_plan("HEAD", "src/lib.rs/").unwrap(), Some("HEAD:src/lib.rs".to_string()));
    assert!(matches!(ref_content_plan("HEAD", "../x"), Err(MoonError::InvalidArgument(_))));
}
