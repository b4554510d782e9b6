use moon_core::forge::{
    normalize_remote_url_with, parse_fj_hosts, parse_fj_token, parse_forgejo_pr_list, parse_git_config_remote_url,
    forgejo_after_status, forgejo_error_message, forgejo_precheck, forgejo_user_login, fj_keys_paths,
    open_pulls_path, reviews_path, ForgeKind, ForgejoNext,
};
use moon_core::json::Json;

fn to_json(v: &serde_json::Value) -> Json {
    match v {
        serde_json::Value::Null => Json::Null,
        serde_json::Value::Bool(b) => Json::Bool(*b),
        serde_json::Value::Number(n) => Json::Number(n.as_i64().map(|x| x as i128).or(n.as_u64().map(|x| x as i128))),
        serde_json::Value::String(s) => Json::Str(s.clone()),
        serde_json::Value::Array(a) => Json::Array(a.iter().map(to_json).collect()),
        serde_json::Value::Object(m) => Json::Object(m.iter().map(|(k, v)| (k.clone(), to_json(v))).collect()),
    }
}

/// The document `text` decodes to, `None` when it is not JSON.
fn json(text: &str) -> Option<Json> {
    serde_json::from_str::<serde_json::Value>(text).ok().map(|v| to_json(&v))
}

fn fj_hosts(text: &str) -> Vec<String> {
    match json(text) {
        Some(doc) => parse_fj_hosts(&doc),
        None => Vec::new(),
    }
}

fn fj_token(text: &str, host: &str) -> Option<String> {
    json(text).and_then(|doc| parse_fj_token(&doc, host))
}

#[test]
fn forge_normalize_remote_url_handles_all_shapes() {
    let web = |raw: &str| normalize_remote_url_with(raw, &[]).map(|r| r.web_base);
    assert_eq!(web("git@github.com:moon/ide.git"), Some("https://github.com/moon/ide".into()));
    assert_eq!(web("git@github.com:moon/ide"), Some("https://github.com/moon/ide".into()));
    assert_eq!(web("ssh://git@github.com/moon/ide.git"), Some("https://github.com/moon/ide".into()));
    assert_eq!(web("ssh://github.com/moon/ide.git"), Some("https://github.com/moon/ide".into()));
    assert_eq!(web("https://github.com/moon/ide.git"), Some("https://github.com/moon/ide".into()));
    assert_eq!(web("https://github.com/moon/ide"), Some("https://github.com/moon/ide".into()));
    assert_eq!(web("https://gitlab.com/moon/ide.git"), None);
    assert_eq!(web("git@bitbucket.org:moon/ide.git"), None);
    assert_eq!(web(""), None);
}

#[test]
fn normalize_remote_url_recognises_forgejo_hosts() {
    let remote = normalize_remote_url_with("git@codeberg.org:moon/ide.git", &[]).unwrap();
    assert_eq!(remote.kind, ForgeKind::Forgejo);
    assert_eq!(remote.web_base, "https://codeberg.org/moon/ide");
    assert_eq!(remote.owner_repo, "moon/ide");
    assert_eq!(remote.host, "codeberg.org");

    assert!(normalize_remote_url_with("git@git.example.com:moon/ide.git", &[]).is_none());
    let known = vec!["git.example.com".to_owned()];
    let remote = normalize_remote_url_with("git@git.example.com:moon/ide.git", &known).unwrap();
    assert_eq!(remote.kind, ForgeKind::Forgejo);
    assert_eq!(remote.web_base, "https://git.example.com/moon/ide");

    let remote = normalize_remote_url_with("ssh://git@git.example.com:2222/moon/ide.git", &known).unwrap();
    assert_eq!(remote.web_base, "https://git.example.com/moon/ide");

    let remote = normalize_remote_url_with("git@github.com:moon/ide.git", &known).unwrap();
    assert_eq!(remote.kind, ForgeKind::GitHub);
}

#[test]
fn parse_git_config_remote_url_walks_sections() {
    let config = "[core]\n\tbare = false\n[remote \"origin\"]\n\turl = git@github.com:moon/ide.git\n\tfetch = +refs/heads/*:refs/remotes/origin/*\n[remote \"upstream\"]\n\turl = https://github.com/up/stream.git\n";
    assert_eq!(parse_git_config_remote_url(config, "origin"), Some("git@github.com:moon/ide.git".into()));
    assert_eq!(parse_git_config_remote_url(config, "upstream"), Some("https://github.com/up/stream.git".into()));
    assert_eq!(parse_git_config_remote_url(config, "fork"), None);
    assert_eq!(parse_git_config_remote_url("[core]\n\turl = x\n", "origin"), None);
}

#[test]
fn parse_fj_hosts_collects_hosts_and_aliases() {
    let text = r#"{
        "hosts": {
            "codeberg.org": { "Application": { "token": "tok1" } },
            "git.example.com/forgejo": { "OAuth": { "token": "tok2", "refresh_token": "r", "expires_at": [2026, 1] } }
        },
        "aliases": { "cb": "codeberg.org", "work": "forge.corp.net" },
        "default_ssh": []
    }"#;
    let hosts = fj_hosts(text);
    assert!(hosts.contains(&"codeberg.org".to_owned()));
    assert!(hosts.contains(&"git.example.com".to_owned()));
    assert!(hosts.contains(&"cb".to_owned()));
    assert!(hosts.contains(&"forge.corp.net".to_owned()));
    assert!(fj_hosts("not json").is_empty());
    assert!(fj_hosts("{}").is_empty());
}

#[test]
fn parse_fj_token_handles_both_login_shapes() {
    let text = r#"{
        "hosts": {
            "codeberg.org": { "Application": { "token": "app-tok" } },
            "git.example.com": { "OAuth": { "token": "oauth-tok", "refresh_token": "r", "expires_at": [2026, 1] } }
        }
    }"#;
    assert_eq!(fj_token(text, "codeberg.org"), Some("app-tok".into()));
    assert_eq!(fj_token(text, "git.example.com"), Some("oauth-tok".into()));
    assert_eq!(fj_token(text, "unknown.org"), None);
    assert_eq!(fj_token("not json", "codeberg.org"), None);
}

#[test]
fn parse_forgejo_pr_list_maps_fields_and_skips_broken_rows() {
    let doc = json(
        r#"[
        {
            "number": 42,
            "title": "Add feature",
            "user": { "login": "alice" },
            "head": { "ref": "feat/x", "sha": "abc123" },
            "draft": true,
            "updated_at": "2026-01-02T03:04:05Z",
            "html_url": "https://codeberg.org/moon/ide/pulls/42",
            "assignees": [ { "login": "bob" } ],
            "requested_reviewers": [ { "login": "carol" } ]
        },
        { "number": 43, "title": "No head — skipped" }
    ]"#,
    )
    .unwrap();
    let rows = parse_forgejo_pr_list(&doc);
    assert_eq!(rows.len(), 1);
    let pr = &rows[0];
    assert_eq!(pr.number, 42);
    assert_eq!(pr.title, "Add feature");
    assert_eq!(pr.author, "alice");
    assert_eq!(pr.head_ref, "feat/x");
    assert_eq!(pr.head_sha, "abc123");
    assert!(pr.is_draft);
    assert_eq!(pr.updated_at, "2026-01-02T03:04:05Z");
    assert_eq!(pr.html_url, "https://codeberg.org/moon/ide/pulls/42");
    assert_eq!(pr.assignees, vec!["bob".to_owned()]);
    assert_eq!(pr.requested_reviewers, vec!["carol".to_owned()]);
}

#[test]
fn api_base_points_at_api_v1() {
    let remote = normalize_remote_url_with("git@codeberg.org:moon/ide.git", &[]).unwrap();
    assert_eq!(remote.api_base(), "https://codeberg.org/api/v1");
    assert_eq!(open_pulls_path(&remote, 30), "/repos/moon/ide/pulls?state=open&sort=recentupdate&limit=30");
    assert_eq!(reviews_path(&remote, 7), "/repos/moon/ide/pulls/7/reviews");
}

#[test]
fn forgejo_writes_need_a_login_and_401_refreshes_once() {
    assert!(forgejo_precheck("codeberg.org", false, false).is_ok());
    assert_eq!(
        forgejo_precheck("codeberg.org", true, false).unwrap_err(),
        "no fj login for codeberg.org — run `fj auth login` on the host"
    );
    assert!(matches!(forgejo_after_status("h", 401, false, true), ForgejoNext::Refresh));
    match forgejo_after_status("h", 401, true, true) {
        ForgejoNext::Fail(m) => assert_eq!(m, "h returned 401 — run `fj auth login` on the host to (re)authenticate"),
        other => panic!("unexpected {other:?}"),
    }
    assert!(matches!(forgejo_after_status("h", 403, false, true), ForgejoNext::Fail(_)));
    assert!(matches!(forgejo_after_status("h", 500, false, true), ForgejoNext::ReadError));
    assert!(matches!(forgejo_after_status("h", 200, false, false), ForgejoNext::Decode));
}

#[test]
fn forgejo_error_message_prefers_the_json_message() {
    let body = r#"{"message": "pull request not found"}"#;
    let doc = json(body);
    assert_eq!(
        forgejo_error_message("codeberg.org", 404, doc.as_ref(), body),
        "codeberg.org returned 404: pull request not found"
    );
    assert_eq!(forgejo_error_message("codeberg.org", 502, None, "  bad gateway \n"), "codeberg.org returned 502: bad gateway");
}

#[test]
fn forgejo_user_login_needs_a_non_empty_login() {
    assert_eq!(forgejo_user_login("h", &json(r#"{"login": "ada"}"#).unwrap()), Ok("ada".to_owned()));
    assert_eq!(forgejo_user_login("h", &json(r#"{"login": ""}"#).unwrap()), Err("h: /user returned no login".to_owned()));
    assert_eq!(forgejo_user_login("h", &json("{}").unwrap()), Err("h: /user returned no login".to_owned()));
}

#[test]
fn fj_keys_paths_lists_xdg_then_home_layouts() {
    let paths = fj_keys_paths(Some("/x"), Some("/home/u"));
    assert_eq!(
        paths,
        vec![
            "/x/forgejo-cli/keys.json".to_owned(),
            "/home/u/.local/share/forgejo-cli/keys.json".to_owned(),
            "/home/u/Library/Application Support/forgejo-cli.forgejo-cli/keys.json".to_owned(),
            "/home/u/Library/Application Support/Cyborus.forgejo-cli/keys.json".to_owned(),
        ]
    );
    assert_eq!(fj_keys_paths(Some(""), None), Vec::<String>::new());
}
