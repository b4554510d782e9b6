use moon_core::status::untracked_listing;
use moon_core::git::{branch_switch_command, command_failure, diff_suppressed_on_default, BranchSwitchTarget};
use moon_core::blame::parse_blame_porcelain;
use moon_core::branches::{
    gh_failure_status, parse_branch_list_local, parse_gh_pr_list, parse_gh_pr_url, participating_rows,
    reconcile_pr_status, sort_newest_first, BranchListEntry, PrListStatus,
};
use moon_core::commit::{check_branch_name, commit_args, commit_failure, commit_subject, rollback_target, stage_failure};
use moon_core::error::MoonError;
use moon_core::git::{
    default_branch_behind_needed, encode_branch_segment, is_safe_rev, normalize_remote_url, parse_ahead_behind,
    parse_count, pr_create_url, trimmed_output,
};
use moon_core::json::Json;
use moon_core::status::{
    map_porcelain_status, parse_diff_name_status_z, parse_ignored_dirs, parse_porcelain_v1, GitFileStatus,
};
use moon_core::summary::{looks_like_summary_totals, merge_diff_summary, parse_totals_line, reconcile_totals_line, UntrackedSummary};
use moon_core::time::{days_from_civil, format_iso8601_relative, parse_iso8601_utc};

fn to_json(v: &serde_json::Value) -> Json {
    match v {
        serde_json::Value::Null => Json::Null,
        serde_json::Value::Bool(b) => Json::Bool(*b),
        serde_json::Value::Number(n) => Json::Number(n.as_i64().map(|x| x as i128).or(n.as_u64().map(|x| x as i128))),
        serde_json::Value::String(s) => Json::Str(s.clone()),
        serde_json::Value::Array(a) => Json::Array(a.iter().map(to_json).collect()),
        serde_json::Value::Object(m) => Json::Object(m.iter().map(|(k, v)| (k.clone(), to_json(v))).collect()),
    }
}

/// `gh pr list` output as the host reads it: bytes that do not decode
/// as JSON give no rows.
fn gh_pr_list(bytes: &[u8], now: i64) -> Vec<(BranchListEntry, Option<i64>)> {
    match serde_json::from_slice::<serde_json::Value>(bytes) {
        Ok(v) => parse_gh_pr_list(&to_json(&v), now),
        Err(_) => Vec::new(),
    }
}

fn gh_pr_url(bytes: &[u8]) -> Option<String> {
    serde_json::from_slice::<serde_json::Value>(bytes).ok().and_then(|v| parse_gh_pr_url(&to_json(&v)))
}

#[test]
fn host_normalize_remote_url_handles_all_shapes() {
    assert_eq!(normalize_remote_url("git@github.com:moon/ide.git"), Some("https://github.com/moon/ide".into()));
    assert_eq!(normalize_remote_url("git@github.com:moon/ide"), Some("https://github.com/moon/ide".into()));
    assert_eq!(normalize_remote_url("ssh://git@github.com/moon/ide.git"), Some("https://github.com/moon/ide".into()));
    assert_eq!(normalize_remote_url("ssh://github.com/moon/ide.git"), Some("https://github.com/moon/ide".into()));
    assert_eq!(normalize_remote_url("https://github.com/moon/ide.git"), Some("https://github.com/moon/ide".into()));
    assert_eq!(normalize_remote_url("https://github.com/moon/ide"), Some("https://github.com/moon/ide".into()));
    assert_eq!(normalize_remote_url("https://gitlab.com/moon/ide.git"), None);
    assert_eq!(normalize_remote_url("git@bitbucket.org:moon/ide.git"), None);
    assert_eq!(normalize_remote_url(""), None);
}

#[test]
fn encode_branch_segment_preserves_safe_chars_and_slashes() {
    assert_eq!(encode_branch_segment("main"), "main");
    assert_eq!(encode_branch_segment("feat/scm-publish"), "feat/scm-publish");
    assert_eq!(encode_branch_segment("release-1.2.3"), "release-1.2.3");
    assert_eq!(encode_branch_segment("hot fix"), "hot%20fix");
    assert_eq!(encode_branch_segment("ticket#42"), "ticket%2342");
    assert_eq!(encode_branch_segment("café"), "caf%C3%A9");
}

#[test]
fn merge_diff_summary_handles_empty_tracked() {
    let untracked = vec![
        UntrackedSummary { path: "src/lib.rs".to_string(), lines: Some(42) },
        UntrackedSummary { path: "README.md".to_string(), lines: Some(1) },
    ];
    let merged = merge_diff_summary("", &untracked);
    assert!(merged.contains("src/lib.rs | 42"), "got {merged:?}");
    assert!(merged.contains("README.md | 1"), "got {merged:?}");
    assert!(merged.contains("2 files changed"), "got {merged:?}");
    assert!(merged.contains("43 insertions(+)"), "got {merged:?}");
}

#[test]
fn merge_diff_summary_reconciles_totals() {
    let committed = " a.txt | 7 +++++--\n 1 file changed, 5 insertions(+), 2 deletions(-)\n";
    let untracked = vec![UntrackedSummary { path: "b.txt".to_string(), lines: Some(10) }];
    let merged = merge_diff_summary(committed, &untracked);
    assert!(merged.contains("a.txt | 7"), "tracked entry dropped: {merged:?}");
    assert!(merged.contains("b.txt | 10"), "untracked entry missing: {merged:?}");
    assert_eq!(merged.matches("file changed").count() + merged.matches("files changed").count(), 1);
    assert!(merged.contains("2 files changed"), "got {merged:?}");
    assert!(merged.contains("15 insertions(+)"), "got {merged:?}");
    assert!(merged.contains("2 deletions(-)"), "got {merged:?}");
}

#[test]
fn merge_diff_summary_handles_empty_input() {
    let merged = merge_diff_summary("", &[]);
    assert!(merged.is_empty(), "got {merged:?}");
}

#[test]
fn parse_iso8601_utc_round_trips_known_timestamps() {
    assert_eq!(parse_iso8601_utc("1970-01-01T00:00:00Z"), Some(0));
    assert_eq!(parse_iso8601_utc("2026-05-07T22:00:00Z"), Some(1_778_191_200));
    assert_eq!(parse_iso8601_utc(""), None);
    assert_eq!(parse_iso8601_utc("2026-05-07 22:00:00"), None);
    assert_eq!(parse_iso8601_utc("2026/05/07T22:00:00Z"), None);
}

#[test]
fn parse_iso8601_utc_accepts_only_z_or_a_fraction_then_z() {
    assert_eq!(parse_iso8601_utc("2026-05-07T22:00:00+01:00"), None);
    assert_eq!(parse_iso8601_utc("2026-05-07T22:00:00-0500"), None);
    assert_eq!(parse_iso8601_utc("2026-05-07T22:00:00.123Z"), Some(1_778_191_200));
    assert_eq!(parse_iso8601_utc("2026-05-07T22:00:00.5Z"), Some(1_778_191_200));
    assert_eq!(parse_iso8601_utc("2026-05-07T22:00:00.Z"), None);
    assert_eq!(parse_iso8601_utc("2026-05-07T22:00:00.12aZ"), None);
    assert_eq!(parse_iso8601_utc("2026-05-07T22:00:00Zjunk"), None);
    assert_eq!(parse_iso8601_utc("2026-05-07T22:00:00z"), None);
    assert_eq!(format_iso8601_relative("2026-05-07T22:00:00+01:00", 1_778_191_260), None);
}

fn iso8601_from_unix(secs: i64) -> String {
    let days = secs.div_euclid(86_400);
    let time = secs.rem_euclid(86_400);
    let (y, m, d) = civil_from_days(days);
    let hour = time / 3600;
    let min = (time % 3600) / 60;
    let sec = time % 60;
    format!("{y:04}-{m:02}-{d:02}T{hour:02}:{min:02}:{sec:02}Z")
}

fn civil_from_days(z: i64) -> (i64, u32, u32) {
    let z = z + 719_468;
    let era = if z >= 0 { z } else { z - 146_096 } / 146_097;
    let doe = (z - era * 146_097) as u32;
    let yoe = (doe - doe / 1460 + doe / 36524 - doe / 146_096) / 365;
    let y = yoe as i64 + era * 400;
    let doy = doe - (365 * yoe + yoe / 4 - yoe / 100);
    let mp = (5 * doy + 2) / 153;
    let d = doy - (153 * mp + 2) / 5 + 1;
    let m = if mp < 10 { mp + 3 } else { mp - 9 };
    let y = if m <= 2 { y + 1 } else { y };
    (y, m, d)
}

#[test]
fn format_iso8601_relative_buckets_diff_into_human_strings() {
    let now: i64 = 1_780_000_000;
    let from_secs_ago = |secs: i64| -> String {
        let iso = iso8601_from_unix(1_780_000_000 - secs);
        format_iso8601_relative(&iso, now).expect("relative")
    };
    assert_eq!(from_secs_ago(0), "just now");
    assert_eq!(from_secs_ago(45), "just now");
    assert_eq!(from_secs_ago(60), "1 minute ago");
    assert_eq!(from_secs_ago(120), "2 minutes ago");
    assert_eq!(from_secs_ago(3600), "1 hour ago");
    assert_eq!(from_secs_ago(7200), "2 hours ago");
    assert_eq!(from_secs_ago(60 * 60 * 25), "yesterday");
    assert_eq!(from_secs_ago(60 * 60 * 24 * 3), "3 days ago");
    assert_eq!(from_secs_ago(60 * 60 * 24 * 8), "1 week ago");
    assert_eq!(from_secs_ago(60 * 60 * 24 * 35), "1 month ago");
    assert_eq!(from_secs_ago(60 * 60 * 24 * 400), "1 year ago");
    let future_iso = iso8601_from_unix(1_780_001_000);
    assert_eq!(format_iso8601_relative(&future_iso, now), None);
}

#[test]
fn format_iso8601_relative_counts_in_every_unit() {
    let now: i64 = 1_780_000_000;
    let at = |secs: i64| format_iso8601_relative(&iso8601_from_unix(now - secs), now).unwrap();
    assert_eq!(at(59 * 60), "59 minutes ago");
    assert_eq!(at(23 * 3600), "23 hours ago");
    assert_eq!(at(6 * 86_400), "6 days ago");
    assert_eq!(at(21 * 86_400), "3 weeks ago");
    assert_eq!(at(90 * 86_400), "3 months ago");
    assert_eq!(at(3 * 365 * 86_400), "3 years ago");
    assert_eq!(format_iso8601_relative("garbage", now), None);
}

#[test]
fn days_from_civil_counts_from_the_epoch() {
    assert_eq!(days_from_civil(1970, 1, 1), 0);
    assert_eq!(days_from_civil(2000, 3, 1), 11_017);
    assert_eq!(days_from_civil(1969, 12, 31), -1);
    assert_eq!(days_from_civil(2024, 2, 29), 19_782);
    assert_eq!(days_from_civil(100_000_000_000_000, 3, 1), 36_524_249_999_280_532);
    assert_eq!(days_from_civil(-100_000_000_000_000, 1, 1), -36_524_250_000_719_528);
}

#[test]
fn is_safe_rev_accepts_head_and_40_char_hex() {
    assert!(is_safe_rev("HEAD"));
    assert!(is_safe_rev("0123456789abcdef0123456789abcdef01234567"));
    assert!(is_safe_rev("0123456789ABCDEF0123456789ABCDEF01234567"));
    assert!(!is_safe_rev(""));
    assert!(!is_safe_rev("head"));
    assert!(!is_safe_rev("main"));
    assert!(!is_safe_rev("origin/main"));
    assert!(!is_safe_rev("--upload-pack=evil"));
    assert!(!is_safe_rev("0123456789abcdef"));
    assert!(!is_safe_rev("0123456789abcdef0123456789abcdef0123456g"));
}

#[test]
fn parse_gh_pr_list_extracts_rows_and_skips_malformed() {
    let now: i64 = 1_780_000_000;
    let json = br#"[
        {
            "number": 42,
            "title": "Add cool feature",
            "headRefName": "feat/cool",
            "isDraft": false,
            "updatedAt": "2026-05-07T22:00:00Z",
            "author": { "login": "ada" }
        },
        {
            "number": 7,
            "title": "WIP: shave yak",
            "headRefName": "wip/yak",
            "isDraft": true,
            "updatedAt": "2026-05-06T22:00:00Z",
            "author": { "login": "lovelace" }
        },
        {
            "title": "missing number - skipped",
            "headRefName": "x"
        }
    ]"#;
    let rows = gh_pr_list(json, now);
    assert_eq!(rows.len(), 2, "expected the two well-formed rows");
    match &rows[0].0 {
        BranchListEntry::Pr { number, title, author, head_ref, is_draft, .. } => {
            assert_eq!(*number, 42);
            assert_eq!(title, "Add cool feature");
            assert_eq!(author, "ada");
            assert_eq!(head_ref, "feat/cool");
            assert!(!is_draft);
        },
        _ => panic!("expected Pr entry"),
    }
    match &rows[1].0 {
        BranchListEntry::Pr { number, is_draft, .. } => {
            assert_eq!(*number, 7);
            assert!(*is_draft);
        },
        _ => panic!("expected Pr entry"),
    }
    assert!(rows[0].1.is_some());
}

#[test]
fn parse_gh_pr_list_returns_empty_on_garbage() {
    let now: i64 = 0;
    assert!(gh_pr_list(b"", now).is_empty());
    assert!(gh_pr_list(b"not json", now).is_empty());
    assert!(gh_pr_list(br#"{"oops": true}"#, now).is_empty());
}

#[test]
fn parse_gh_pr_url_extracts_first_url_or_returns_none() {
    assert_eq!(gh_pr_url(b"[]"), None);
    assert_eq!(
        gh_pr_url(br#"[{"url": "https://github.com/owner/repo/pull/42"}]"#),
        Some("https://github.com/owner/repo/pull/42".to_owned()),
    );
    assert_eq!(gh_pr_url(br#"[{"url": "https://a/1"}, {"url": "https://b/2"}]"#), Some("https://a/1".to_owned()));
    assert_eq!(gh_pr_url(br#"[{"url": ""}]"#), None);
    assert_eq!(gh_pr_url(b""), None);
    assert_eq!(gh_pr_url(b"not json"), None);
    assert_eq!(gh_pr_url(br#"[{"notUrl": "x"}]"#), None);
    assert_eq!(gh_pr_url(br#"{"oops": true}"#), None);
}

#[test]
fn parse_diff_name_status_z_maps_status_bytes_and_skips_unknowns() {
    let raw: &[u8] = b"M\0src/lib.rs\0A\0src/new.rs\0D\0src/gone.rs\0T\0src/typechange.rs\0X\0noise\0";
    let entries = parse_diff_name_status_z(raw);
    assert_eq!(entries.len(), 4);
    assert_eq!(entries[0].path, "src/lib.rs");
    assert!(matches!(entries[0].status, GitFileStatus::Modified));
    assert_eq!(entries[1].path, "src/new.rs");
    assert!(matches!(entries[1].status, GitFileStatus::Added));
    assert_eq!(entries[2].path, "src/gone.rs");
    assert!(matches!(entries[2].status, GitFileStatus::Deleted));
    assert_eq!(entries[3].path, "src/typechange.rs");
    assert!(matches!(entries[3].status, GitFileStatus::Modified));
}

#[test]
fn parse_diff_name_status_z_handles_empty_and_malformed_input() {
    assert!(parse_diff_name_status_z(b"").is_empty());
    assert!(parse_diff_name_status_z(b"M\0src/lib.rs").is_empty());
}

#[test]
fn parse_porcelain_v1_maps_xy_pairs() {
    let raw: &[u8] = b" M src/a.rs\0?? new.txt\0!! target/\0A  added.rs\0 D gone.rs\0RM x\0UU conflict.rs\0?? dir\\sub.txt";
    let entries = parse_porcelain_v1(raw);
    let got: Vec<(String, GitFileStatus)> = entries.iter().map(|e| (e.path.clone(), e.status)).collect();
    assert_eq!(
        got,
        vec![
            ("src/a.rs".to_owned(), GitFileStatus::Modified),
            ("new.txt".to_owned(), GitFileStatus::Untracked),
            ("target/".to_owned(), GitFileStatus::Ignored),
            ("added.rs".to_owned(), GitFileStatus::Added),
            ("gone.rs".to_owned(), GitFileStatus::Deleted),
            ("x".to_owned(), GitFileStatus::Modified),
            ("dir/sub.txt".to_owned(), GitFileStatus::Untracked),
        ]
    );
    assert_eq!(map_porcelain_status('D', 'A'), Some(GitFileStatus::Deleted));
    assert_eq!(map_porcelain_status('U', 'U'), None);
    assert!(parse_porcelain_v1(b"M").is_empty());
}

#[test]
fn parse_ignored_dirs_keeps_collapsed_directories_once() {
    let raw: &[u8] = b"!! target/\0!! notes.log\0?? new/\0!! node_modules/\0!! target/\0";
    let mut dirs = parse_ignored_dirs(raw);
    dirs.sort();
    assert_eq!(dirs, vec!["node_modules/".to_owned(), "target/".to_owned()]);
}

#[test]
fn parse_blame_porcelain_fills_lines_and_reuses_commit_headers() {
    let sha_a = "a".repeat(40);
    let zero = "0".repeat(40);
    let text = format!(
        "{sha_a} 1 1 2\nauthor Ada\nauthor-mail <ada@example.com>\nauthor-time 1712345678\nsummary first commit\n\tline one\n{sha_a} 2 2\n\tline two\n{zero} 3 3 1\nauthor Not Committed Yet\nauthor-mail <not.committed.yet>\nauthor-time 1712349999\nsummary Version of x.txt from x.txt\n\tline three\n"
    );
    let blame = parse_blame_porcelain(text.as_bytes(), "x.txt".to_owned());
    assert_eq!(blame.path, "x.txt");
    assert_eq!(blame.remote_url, "");
    assert_eq!(blame.lines.len(), 3);
    assert_eq!(blame.lines[0].sha, sha_a);
    assert_eq!(blame.lines[0].author, "Ada");
    assert_eq!(blame.lines[0].author_email, "ada@example.com");
    assert_eq!(blame.lines[0].author_time, 1_712_345_678);
    assert_eq!(blame.lines[0].summary, "first commit");
    assert_eq!(blame.lines[0].message, "first commit");
    assert!(!blame.lines[0].is_uncommitted);
    assert_eq!(blame.lines[1].author, "Ada");
    assert_eq!(blame.lines[1].summary, "first commit");
    assert!(blame.lines[2].is_uncommitted);
    assert_eq!(blame.lines[2].author, "Not Committed Yet");
}

#[test]
fn parse_blame_porcelain_leaves_skipped_lines_empty() {
    let sha = "b".repeat(40);
    let text = format!("{sha} 5 3 1\nauthor Bo\n\tthird\n");
    let blame = parse_blame_porcelain(text.as_bytes(), "y".to_owned());
    assert_eq!(blame.lines.len(), 3);
    assert_eq!(blame.lines[0].sha, "");
    assert_eq!(blame.lines[1].author, "");
    assert_eq!(blame.lines[2].author, "Bo");
}

#[test]
fn parse_branch_list_local_splits_fields_and_marks_current() {
    let out = "main\x002 days ago\x00Fix things\nfeat/x\x001 hour ago\x00Add x\x00with nul\n\x00no name\nbroken line\n";
    let rows = parse_branch_list_local(out, Some("feat/x"));
    assert_eq!(rows.len(), 2);
    match &rows[0] {
        BranchListEntry::Local { name, last_commit_subject, committer_date_relative, is_current } => {
            assert_eq!(name, "main");
            assert_eq!(last_commit_subject, "Fix things");
            assert_eq!(committer_date_relative, "2 days ago");
            assert!(!is_current);
        },
        _ => panic!("expected a local row"),
    }
    match &rows[1] {
        BranchListEntry::Local { name, last_commit_subject, is_current, .. } => {
            assert_eq!(name, "feat/x");
            assert_eq!(last_commit_subject, "Add x\0with nul");
            assert!(*is_current);
        },
        _ => panic!("expected a local row"),
    }
}

fn pr(number: u32) -> BranchListEntry {
    BranchListEntry::Pr {
        number,
        title: format!("pr {number}"),
        author: String::new(),
        head_ref: String::new(),
        is_draft: false,
        updated_at_relative: String::new(),
    }
}

fn numbers(rows: &[(BranchListEntry, Option<i64>)]) -> Vec<u32> {
    rows.iter()
        .map(|(e, _)| match e {
            BranchListEntry::Pr { number, .. } => *number,
            _ => 0,
        })
        .collect()
}

#[test]
fn participating_rows_merge_by_number_and_sort_newest_first() {
    let involves = vec![(pr(1), Some(100)), (pr(2), None), (pr(3), Some(300))];
    let review = vec![(pr(3), Some(999)), (pr(4), Some(200))];
    let rows = participating_rows(involves, review);
    assert_eq!(numbers(&rows), vec![3, 4, 1, 2]);
    assert_eq!(rows[0].1, Some(300));
    let many: Vec<(BranchListEntry, Option<i64>)> = (0..40u32).map(|n| (pr(n), Some(n as i64))).collect();
    let capped = participating_rows(many, Vec::new());
    assert_eq!(capped.len(), 30);
    assert_eq!(capped[0].1, Some(39));
    assert_eq!(capped[29].1, Some(10));
    let sorted = sort_newest_first(vec![(pr(1), None), (pr(2), Some(5)), (pr(3), Some(7))]);
    assert_eq!(numbers(&sorted), vec![3, 2, 1]);
}

#[test]
fn gh_failures_read_as_auth_or_detail() {
    assert_eq!(gh_failure_status("You are not logged into any GitHub hosts"), PrListStatus::GhNotAuthed);
    assert_eq!(gh_failure_status("run: GH AUTH LOGIN"), PrListStatus::GhNotAuthed);
    assert_eq!(gh_failure_status("boom"), PrListStatus::Failed { detail: "boom".to_owned() });
    assert_eq!(reconcile_pr_status(PrListStatus::GhMissing, PrListStatus::Listed), PrListStatus::Listed);
    assert_eq!(reconcile_pr_status(PrListStatus::GhMissing, PrListStatus::GhNotAuthed), PrListStatus::GhMissing);
}

#[test]
fn branch_info_pieces() {
    assert_eq!(trimmed_output("  main\n"), Some("main".to_owned()));
    assert_eq!(trimmed_output(" \n"), None);
    assert_eq!(parse_ahead_behind("3\t5\n"), (3, 5));
    assert_eq!(parse_ahead_behind("3\n"), (0, 0));
    assert_eq!(parse_ahead_behind("x\t5"), (0, 0));
    assert_eq!(parse_count(" 12\n"), 12);
    assert_eq!(parse_count("nope"), 0);
    assert_eq!(pr_create_url("https://github.com/moon/ide", "feat/a b"), "https://github.com/moon/ide/pull/new/feat/a%20b");
    assert!(!default_branch_behind_needed(Some("origin/main"), Some("main")));
    assert!(default_branch_behind_needed(Some("origin/main"), Some("feat")));
    assert!(!default_branch_behind_needed(None, Some("feat")));
}

#[test]
fn commit_pieces() {
    assert_eq!(commit_args("msg", false), vec!["-m".to_owned(), "msg".to_owned()]);
    assert_eq!(commit_args("", true), vec!["--amend".to_owned(), "--no-edit".to_owned()]);
    assert_eq!(commit_args("new", true), vec!["--amend".to_owned(), "-m".to_owned(), "new".to_owned()]);
    match commit_failure("On branch main\nnothing to commit, working tree clean\n", "", 1) {
        MoonError::InvalidArgument(m) => assert_eq!(m, "nothing to commit"),
        other => panic!("unexpected {other:?}"),
    }
    match commit_failure("out", "  Please tell me who you are  ", 128) {
        MoonError::IoError(m) => assert_eq!(m, "git commit exited 128: Please tell me who you are"),
        other => panic!("unexpected {other:?}"),
    }
    match stage_failure("fatal: x", -1) {
        MoonError::IoError(m) => assert_eq!(m, "git add exited -1: fatal: x"),
        other => panic!("unexpected {other:?}"),
    }
    assert_eq!(commit_subject("  Subject line  \n\nBody"), "Subject line");
    assert_eq!(commit_subject(""), "");
    assert!(check_branch_name("").is_err());
    assert!(check_branch_name("feat").is_ok());
    assert_eq!(rollback_target(None, Some("abc")), Some("abc"));
    assert_eq!(rollback_target(Some("main"), Some("abc")), Some("main"));
}

#[test]
fn branch_switch_commands_and_failures() {
    let c = branch_switch_command("/ws", &BranchSwitchTarget::Local { name: "  feat/x ".to_owned() }).unwrap();
    assert_eq!(c.program, "git");
    assert_eq!(c.args, vec!["-C", "/ws", "switch", "feat/x"]);
    assert_eq!(c.label, "git switch feat/x");
    assert!(!c.in_root_dir);
    let c = branch_switch_command("/ws", &BranchSwitchTarget::Pr { number: 42 }).unwrap();
    assert_eq!(c.program, "gh");
    assert_eq!(c.args, vec!["pr", "checkout", "42"]);
    assert_eq!(c.label, "gh pr checkout 42");
    assert!(c.in_root_dir);
    match branch_switch_command("/ws", &BranchSwitchTarget::Local { name: "   ".to_owned() }) {
        Err(MoonError::InvalidArgument(m)) => assert_eq!(m, "branch name is empty"),
        other => panic!("unexpected {other:?}"),
    }
    match command_failure("git switch x", "out", " err \n", 1) {
        MoonError::IoError(m) => assert_eq!(m, "git switch x: err"),
        other => panic!("unexpected {other:?}"),
    }
    match command_failure("git switch x", " out ", "", 1) {
        MoonError::IoError(m) => assert_eq!(m, "git switch x: out"),
        other => panic!("unexpected {other:?}"),
    }
    match command_failure("gh pr checkout 4", "", "", -1) {
        MoonError::IoError(m) => assert_eq!(m, "gh pr checkout 4: exit -1"),
        other => panic!("unexpected {other:?}"),
    }
    assert!(diff_suppressed_on_default("origin/main", "main"));
    assert!(!diff_suppressed_on_default("origin/main", "feat"));
    assert!(!diff_suppressed_on_default("main", "main"));
}

#[test]
fn untracked_listing_splits_nul_records() {
    assert_eq!(untracked_listing(b"a.txt\0dir/b.rs\0"), vec!["a.txt".to_owned(), "dir/b.rs".to_owned()]);
    assert_eq!(untracked_listing(b"\0\0x\0\xff\0y"), vec!["x".to_owned(), "y".to_owned()]);
    assert!(untracked_listing(b"").is_empty());
}

#[test]
fn reconciled_totals_line_reads_back_to_the_new_counts() {
    let untracked = vec![
        UntrackedSummary { path: "a.txt".to_string(), lines: Some(7) },
        UntrackedSummary { path: "b.bin".to_string(), lines: None },
    ];
    let line = reconcile_totals_line(" 3 files changed, 10 insertions(+), 1 deletion(-)", &untracked);
    assert_eq!(line, " 5 files changed, 17 insertions(+), 1 deletion(-)");
    let chars: Vec<char> = line.chars().collect();
    assert!(looks_like_summary_totals(&chars));
    assert_eq!(parse_totals_line(&line), (5, 17, 1));
    let one = reconcile_totals_line("", &untracked[..1]);
    assert_eq!(one, " 1 file changed, 7 insertions(+)");
    assert_eq!(parse_totals_line(&one), (1, 7, 0));
    assert_eq!(reconcile_totals_line("", &[]), "");
}
