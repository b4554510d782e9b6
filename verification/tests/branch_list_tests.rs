use moon_core::branch_info::web_url_from;
use moon_core::branches::{
    all_scope_rows, branch_list_local_args, entries_of, gh_pr_list_args, local_branch_section, pr_query_result,
    BranchListEntry, GhRun, PrListStatus,
};
use moon_core::git_run::GitRun;
use moon_core::json::Json;

fn ok(stdout: &str) -> GitRun {
    GitRun::Exited { success: true, code: 0, stdout: stdout.as_bytes().to_vec(), stderr: Vec::new() }
}

fn pr(number: u32) -> BranchListEntry {
    BranchListEntry::Pr {
        number,
        title: format!("PR {number}"),
        author: "ada".to_string(),
        head_ref: format!("b{number}"),
        is_draft: false,
        updated_at_relative: "now".to_string(),
    }
}

fn numbers(rows: &[BranchListEntry]) -> Vec<u32> {
    rows.iter()
        .map(|r| match r {
            BranchListEntry::Pr { number, .. } => *number,
            BranchListEntry::Local { .. } => 0,
        })
        .collect()
}

#[test]
fn gh_pr_list_args_scope_by_search_or_open_state() {
    let base = ["pr", "list", "--limit", "30", "--json", "number,title,headRefName,isDraft,updatedAt,author"];
    let mut open: Vec<String> = base.iter().map(|s| s.to_string()).collect();
    open.extend(["--state".to_string(), "open".to_string()]);
    assert_eq!(gh_pr_list_args(None), open);
    let mut search: Vec<String> = base.iter().map(|s| s.to_string()).collect();
    search.extend(["--search".to_string(), "involves:@me".to_string()]);
    assert_eq!(gh_pr_list_args(Some("involves:@me")), search);
}

#[test]
fn branch_list_local_args_list_recent_heads() {
    assert_eq!(
        branch_list_local_args(),
        vec![
            "for-each-ref",
            "--sort=-committerdate",
            "--count=20",
            "--format=%(refname:short)%00%(committerdate:relative)%00%(subject)",
            "refs/heads"
        ]
    );
}

#[test]
fn local_branch_section_marks_current_and_needs_a_listing() {
    let listing = ok("main\u{0}2 days ago\u{0}Fix things\nfeat\u{0}1 hour ago\u{0}Add x\n");
    let rows = local_branch_section(&ok(" feat \n"), &listing);
    assert_eq!(rows.len(), 2);
    match &rows[1] {
        BranchListEntry::Local { name, is_current, last_commit_subject, .. } => {
            assert_eq!(name, "feat");
            assert!(*is_current);
            assert_eq!(last_commit_subject, "Add x");
        }
        other => panic!("unexpected {other:?}"),
    }
    let detached = local_branch_section(&GitRun::Exited { success: false, code: 1, stdout: Vec::new(), stderr: Vec::new() }, &listing);
    assert!(detached.iter().all(|r| matches!(r, BranchListEntry::Local { is_current: false, .. })));
    let none = local_branch_section(&ok("main"), &GitRun::NotLaunched { error: "no git".to_string() });
    assert!(none.is_empty());
}

#[test]
fn pr_query_result_reads_every_outcome() {
    let (rows, status) = pr_query_result(&GhRun::SpawnFailed { not_found: true, error: "x".to_string() }, 0);
    assert!(rows.is_empty());
    assert_eq!(status, PrListStatus::GhMissing);
    let (_, status) = pr_query_result(&GhRun::SpawnFailed { not_found: false, error: "denied".to_string() }, 0);
    assert_eq!(status, PrListStatus::Failed { detail: "denied".to_string() });
    let (_, status) = pr_query_result(&GhRun::WaitFailed { error: "broken pipe".to_string() }, 0);
    assert_eq!(status, PrListStatus::Failed { detail: "gh pr list: broken pipe".to_string() });
    let (_, status) = pr_query_result(&GhRun::TimedOut, 0);
    assert_eq!(status, PrListStatus::Failed { detail: "gh pr list: timed out after 30s".to_string() });
    let auth = GhRun::Exited {
        success: false,
        stderr: b"  You are not logged into any GitHub hosts. Run gh auth login to authenticate.\n".to_vec(),
        reply: None,
    };
    assert_eq!(pr_query_result(&auth, 0).1, PrListStatus::GhNotAuthed);
    let other = GhRun::Exited { success: false, stderr: b" HTTP 502 \n".to_vec(), reply: None };
    assert_eq!(pr_query_result(&other, 0).1, PrListStatus::Failed { detail: "HTTP 502".to_string() });
    let garbage = GhRun::Exited { success: true, stderr: Vec::new(), reply: None };
    let (rows, status) = pr_query_result(&garbage, 0);
    assert!(rows.is_empty());
    assert_eq!(status, PrListStatus::Listed);
    let reply = Json::Array(vec![Json::Object(vec![
        ("number".to_string(), Json::Number(Some(7))),
        ("title".to_string(), Json::Str("Seven".to_string())),
        ("headRefName".to_string(), Json::Str("b7".to_string())),
        ("isDraft".to_string(), Json::Bool(true)),
        ("updatedAt".to_string(), Json::Str("1970-01-01T00:00:10Z".to_string())),
        ("author".to_string(), Json::Object(vec![("login".to_string(), Json::Str("ada".to_string()))])),
    ])]);
    let listed = GhRun::Exited { success: true, stderr: Vec::new(), reply: Some(reply) };
    let (rows, status) = pr_query_result(&listed, 70);
    assert_eq!(status, PrListStatus::Listed);
    assert_eq!(rows.len(), 1);
    assert_eq!(rows[0].1, Some(10));
    assert_eq!(numbers(&[rows[0].0.clone()]), vec![7]);
}

#[test]
fn all_scope_rows_are_newest_first_without_stamps() {
    let rows = vec![(pr(1), Some(5)), (pr(2), None), (pr(3), Some(9))];
    assert_eq!(numbers(&all_scope_rows(rows)), vec![3, 1, 2]);
    let kept = vec![(pr(4), None), (pr(5), Some(1))];
    assert_eq!(numbers(&entries_of(kept)), vec![4, 5]);
}

#[test]
fn web_url_from_reads_config_replies() {
    assert_eq!(web_url_from(&ok("git@github.com:moon/ide.git\n")), Some("https://github.com/moon/ide".to_string()));
    assert_eq!(web_url_from(&ok("https://gitlab.com/moon/ide.git\n")), None);
    assert_eq!(web_url_from(&ok("  \n")), None);
    assert_eq!(web_url_from(&GitRun::NotLaunched { error: "no git".to_string() }), None);
}
