use moon_core::app_state::{lock_path, state_path, tmp_path};
use moon_core::editorconfig::{
    resolve_properties, Charset, EditorConfig, EditorConfigProperties, EndOfLine, IndentSize, IndentStyle, MaxLineLen,
};
use moon_core::error::MoonError;
use moon_core::json::Json;
use moon_core::lint_staged::{config_search_dirs, package_json_rules, parse_value, rules_in_dir, ConfigFile, LintStagedRules};
use moon_core::next_edit::{
    finish_completion, normalize_base_url, plan_completion, probe_failed_request, probe_plan, probe_response,
    validate_relative_path, NextEditCompleteParams, NextEditProbeKind,
};
use moon_core::next_edit_server::{resolve_program, start_plan, ServerLog, LINE_MAX, LOG_CAP};
use moon_core::patch::{cap_patch_at_newline, looks_binary, synthesise_new_file_patch, untracked_line_count};

fn to_json(v: &serde_json::Value) -> Json {
    match v {
        serde_json::Value::Null => Json::Null,
        serde_json::Value::Bool(b) => Json::Bool(*b),
        serde_json::Value::Number(n) => Json::Number(
            n.as_i64().map(|i| i as i128).or_else(|| n.as_u64().map(|u| u as i128)),
        ),
        serde_json::Value::String(s) => Json::Str(s.clone()),
        serde_json::Value::Array(a) => Json::Array(a.iter().map(to_json).collect()),
        serde_json::Value::Object(m) => Json::Object(m.iter().map(|(k, v)| (k.clone(), to_json(v))).collect()),
    }
}

fn json(text: &str) -> Json {
    to_json(&serde_json::from_str::<serde_json::Value>(text).expect("test json"))
}

fn no_props() -> EditorConfigProperties {
    EditorConfigProperties {
        indent_style: None,
        tab_width: None,
        indent_size: None,
        end_of_line: None,
        final_newline: None,
        trim_trailing_whitespace: None,
        charset: None,
        max_line_length: None,
    }
}

// ---- editorconfig ----

#[test]
fn defaults_when_no_editorconfig() {
    let ec = resolve_properties(None);
    assert_eq!(ec.indent_style, IndentStyle::Tab);
    assert_eq!(ec.indent_size, 2);
    assert_eq!(ec.tab_width, 2);
    assert_eq!(ec.end_of_line, Some(EndOfLine::Lf));
    assert!(ec.insert_final_newline);
    assert!(ec.trim_trailing_whitespace);
    assert_eq!(ec.charset, "utf-8");
    assert_eq!(ec.max_line_length, None);
    let d = EditorConfig::default();
    assert_eq!(d.indent_size, ec.indent_size);
    assert_eq!(d.charset, ec.charset);
}

#[test]
fn explicit_properties_override_the_defaults() {
    let mut p = no_props();
    p.indent_style = Some(IndentStyle::Space);
    p.indent_size = Some(IndentSize::Value(4));
    p.end_of_line = Some(EndOfLine::Crlf);
    p.final_newline = Some(false);
    p.trim_trailing_whitespace = Some(false);
    p.charset = Some(Charset::Latin1);
    p.max_line_length = Some(MaxLineLen::Value(100));
    let ec = resolve_properties(Some(p));
    assert_eq!(ec.indent_style, IndentStyle::Space);
    assert_eq!(ec.indent_size, 4);
    assert_eq!(ec.tab_width, 4);
    assert_eq!(ec.end_of_line, Some(EndOfLine::Crlf));
    assert!(!ec.insert_final_newline);
    assert!(!ec.trim_trailing_whitespace);
    assert_eq!(ec.charset, "latin1");
    assert_eq!(ec.max_line_length, Some(100));
}

#[test]
fn indent_size_tab_follows_tab_width() {
    let mut p = no_props();
    p.tab_width = Some(8);
    p.indent_size = Some(IndentSize::UseTabWidth);
    p.max_line_length = Some(MaxLineLen::Off);
    let ec = resolve_properties(Some(p));
    assert_eq!(ec.tab_width, 8);
    assert_eq!(ec.indent_size, 8);
    assert_eq!(ec.max_line_length, None);

    let mut p = no_props();
    p.indent_style = Some(IndentStyle::Space);
    p.tab_width = Some(8);
    let ec = resolve_properties(Some(p));
    assert_eq!(ec.indent_size, 2);
    assert_eq!(ec.end_of_line, Some(EndOfLine::Lf));
}

// ---- lint-staged ----

#[test]
fn empty_when_no_config() {
    let rules = LintStagedRules::empty();
    assert!(rules.is_empty());
    assert!(rules.config_dir().is_none());
    assert!(rules.match_command("/w/src/lib.rs").is_none());
}

#[test]
fn lintstagedrc_basename_match() {
    let value = json(
        r#"{
            "*.{ts,tsx,js}": "oxfmt",
            "*.svelte": "prettier --write",
            "*.rs": "rustfmt --edition 2021"
        }"#,
    );
    let rules = parse_value(&value, "/w").unwrap();
    assert_eq!(rules.config_dir().map(|s| s.as_str()), Some("/w"));
    assert_eq!(rules.match_command("/w/src/deep/foo.ts").as_deref(), Some("oxfmt"));
    assert_eq!(rules.match_command("/w/src/App.svelte").as_deref(), Some("prettier --write"));
    assert!(rules.match_command("/w/Cargo.toml").is_none());
}

#[test]
fn package_json_lint_staged_field() {
    let value = json(r#"{ "name": "x", "lint-staged": { "*.ts": "oxfmt" } }"#);
    let rules = package_json_rules(&value, "/w").expect("has a lint-staged member").unwrap();
    assert_eq!(rules.match_command("/w/a.ts").as_deref(), Some("oxfmt"));
    assert!(package_json_rules(&json(r#"{ "name": "x" }"#), "/w").is_none());
}

#[test]
fn separator_pattern_anchors_to_path() {
    let rules = parse_value(&json(r#"{ "src/*.ts": "oxfmt" }"#), "/w").unwrap();
    assert_eq!(rules.match_command("/w/src/a.ts").as_deref(), Some("oxfmt"));
    assert!(rules.match_command("/w/other/b.ts").is_none());
}

#[test]
fn array_command_first_wins() {
    let rules = parse_value(&json(r#"{ "*.ts": ["oxfmt", "echo done"] }"#), "/w").unwrap();
    assert_eq!(rules.match_command("/w/a.ts").as_deref(), Some("oxfmt"));
    assert_eq!(rules.match_commands("/w/a.ts"), Some(vec!["oxfmt".to_owned(), "echo done".to_owned()]));
    assert!(rules.match_commands("/w/a.rs").is_none());
}

#[test]
fn first_listed_rule_wins() {
    let rules = parse_value(&json(r#"{ "*.ts": "first", "a.*": "second" }"#), "/w").unwrap();
    assert_eq!(rules.match_command("/w/a.ts").as_deref(), Some("first"));
    assert_eq!(rules.match_command("/w/a.js").as_deref(), Some("second"));
}

#[test]
fn malformed_config_is_refused() {
    let err = parse_value(&json(r#"["oxfmt"]"#), "/w").unwrap_err();
    assert_eq!(err, "lint-staged config must be an object");
    let rules = parse_value(&json(r#"{ "*.ts": [], "[": "x", "*.md": 3 }"#), "/w").unwrap();
    assert!(rules.is_empty());
}

// ---- next edit ----

fn params(base: &str, path: &str, cursor: u32, doc: &str, head: Option<&str>) -> NextEditCompleteParams {
    NextEditCompleteParams {
        base_url: base.to_owned(),
        relative_path: path.to_owned(),
        cursor_line: cursor,
        document_text: doc.to_owned(),
        head_text: head.map(|h| h.to_owned()),
    }
}

#[test]
fn base_url_and_paths_are_checked() {
    assert_eq!(normalize_base_url("  http://127.0.0.1:8080// ").unwrap(), "http://127.0.0.1:8080");
    assert!(matches!(normalize_base_url("   "), Err(MoonError::InvalidArgument(_))));
    assert!(validate_relative_path("src/a.ts").is_ok());
    assert!(validate_relative_path("").is_err());
    assert!(validate_relative_path("../etc/passwd").is_err());
}

#[test]
fn plan_completion_builds_the_window_prompt() {
    let p = params("http://h:1/", "src/a.ts", 1, "one\ntwo\nthree\n", Some("one\nTWO\n"));
    let req = plan_completion(&p).unwrap();
    assert_eq!(req.url, "http://h:1/completion");
    assert_eq!((req.from_line, req.to_line), (0, 2));
    assert!(!req.line_after_window);
    assert!(req.prompt.contains("<|file_sep|>original/src/a.ts\none\nTWO\n"));
    assert!(req.prompt.contains("<|file_sep|>current/src/a.ts\none\ntwo\nthree\n"));
    assert!(req.prompt.ends_with("<|file_sep|>updated/src/a.ts\n"));

    let done = finish_completion(&req, "one\ntwo\n3\n".to_owned());
    assert_eq!((done.from_line, done.to_line), (0, 2));
    assert_eq!(done.replacement, "one\ntwo\n3\n");
    let cut = finish_completion(&req, "a\nb\nc\nd\n".to_owned());
    assert_eq!(cut.replacement, "a\nb\nc");
}

#[test]
fn plan_completion_refuses_bad_input_in_order() {
    assert!(plan_completion(&params("", "../x", 0, "", None)).unwrap_err().message().contains("base URL"));
    assert!(plan_completion(&params("http://h", "../x", 0, "a", None)).unwrap_err().message().contains(".."));
    assert_eq!(plan_completion(&params("http://h", "a.ts", 0, "", None)).unwrap_err().message(), "empty document");
}

#[test]
fn probe_outcomes() {
    assert_eq!(probe_plan("http://h:1/").unwrap(), "http://h:1/health");
    let refused = probe_plan(" ").unwrap_err();
    assert_eq!(refused.kind, NextEditProbeKind::Error);
    assert!(refused.detail.is_some());
    assert_eq!(probe_response(200, Some("ok".into())).kind, NextEditProbeKind::Ready);
    let loading = probe_response(503, Some("loading".into()));
    assert_eq!(loading.kind, NextEditProbeKind::ModelLoading);
    assert_eq!(loading.detail.as_deref(), Some("loading"));
    assert_eq!(probe_response(500, None).kind, NextEditProbeKind::Error);
    assert_eq!(probe_failed_request(true, "refused".into()).kind, NextEditProbeKind::Unreachable);
    assert_eq!(probe_failed_request(false, "tls".into()).kind, NextEditProbeKind::Error);
}

// ---- next edit server ----

#[test]
fn start_plan_trims_and_checks_settings() {
    assert_eq!(resolve_program("  "), "llama-server");
    assert_eq!(resolve_program(" /opt/llama "), "/opt/llama");
    let l = start_plan("", " sweepai/sweep ", " 127.0.0.1 ", 8080).unwrap();
    assert_eq!(l.program, "llama-server");
    assert_eq!(l.args, vec!["--host", "127.0.0.1", "--port", "8080", "--hf-repo", "sweepai/sweep"]);
    assert_eq!(l.banner, "[moon-ide] spawning `llama-server` --host 127.0.0.1 --port 8080 --hf-repo sweepai/sweep");
    assert!(start_plan("", "  ", "h", 1).unwrap_err().message().starts_with("HF repo is empty"));
    assert_eq!(start_plan("", "r", " ", 1).unwrap_err().message(), "listen host is empty");
}

#[test]
fn server_log_keeps_the_newest_lines() {
    let mut log = ServerLog::new();
    for i in 0..(LOG_CAP + 3) {
        log.push_line(format!("l{i}"));
    }
    let tail = log.tail(2);
    assert_eq!(tail, vec![format!("l{}", LOG_CAP + 1), format!("l{}", LOG_CAP + 2)]);
    assert_eq!(log.tail(usize::MAX).len(), LOG_CAP);
    assert_eq!(log.tail(usize::MAX)[0], "l3");
}

#[test]
fn server_log_cuts_long_lines() {
    let mut log = ServerLog::new();
    log.push_log("[stderr] ", "short");
    let long = "x".repeat(LINE_MAX + 10);
    log.push_log("[stdout] ", &long);
    let tail = log.tail(2);
    assert_eq!(tail[0], "[stderr] short");
    assert_eq!(tail[1], format!("[stdout] {}…", "x".repeat(LINE_MAX)));
}

// ---- app state, paths, patches ----

#[test]
fn app_state_files_sit_in_the_config_dir() {
    assert_eq!(state_path("/home/u/.config/moon"), "/home/u/.config/moon/state.json");
    assert_eq!(lock_path("/home/u/.config/moon"), "/home/u/.config/moon/state.json.lock");
    assert_eq!(tmp_path("/home/u/.config/moon"), "/home/u/.config/moon/state.json.tmp");
}

#[test]
fn untracked_files_render_as_new_file_patches() {
    assert!(!looks_binary(b"text\n"));
    assert!(looks_binary(b"a\0b"));
    assert_eq!(untracked_line_count(b"a\nb"), Some(2));
    assert_eq!(untracked_line_count(b"a\nb\n"), Some(2));
    assert_eq!(untracked_line_count(b""), Some(0));
    assert_eq!(untracked_line_count(b"\0"), None);
    assert_eq!(
        synthesise_new_file_patch("n.txt", b"x\ny"),
        "diff --git a/n.txt b/n.txt\nnew file mode 100644\nindex 0000000..0000000\n--- /dev/null\n+++ b/n.txt\n@@ -0,0 +1,2 @@\n+x\n+y\n\\ No newline at end of file\n"
    );
    assert_eq!(
        synthesise_new_file_patch("b.bin", b"\0\x01"),
        "diff --git a/b.bin b/b.bin\nnew file mode 100644\nindex 0000000..0000000\nBinary files /dev/null and b/b.bin differ\n"
    );
}

#[test]
fn patches_are_capped_at_a_newline() {
    assert_eq!(cap_patch_at_newline("short\n".to_owned(), 100), "short\n");
    assert_eq!(cap_patch_at_newline("exactly ten".to_owned(), 11), "exactly ten");
    let five = "line1\nline2\nline3\nline4\nline5\n".to_owned();
    let capped = cap_patch_at_newline(five, 29);
    assert_eq!(capped, "line1\n... (diff truncated)\n");
    assert!(capped.len() <= 29);
    let one_line = "abcdefghijklmnopqrstuvwxyz0123456789".to_owned();
    let hard = cap_patch_at_newline(one_line, 30);
    assert_eq!(hard, "abcdefghi... (diff truncated)\n");
    assert_eq!(hard.len(), 30);
    let wide = "\u{e9}\u{e9}\u{e9}\u{e9}\u{e9}\u{e9}\u{e9}\u{e9}\u{e9}\u{e9}\u{e9}\u{e9}".to_owned();
    let cut = cap_patch_at_newline(wide, 23);
    assert_eq!(cut, "\u{e9}... (diff truncated)\n");
    assert_eq!(cut.len(), 23);
    assert_eq!(cap_patch_at_newline("line1\nline2\nline3\n".to_owned(), 9), "");
}

#[test]
fn capped_patch_never_exceeds_the_cap() {
    let text = "a\n".repeat(40) + &"b".repeat(50);
    for cap in 0..text.len() + 5 {
        let out = cap_patch_at_newline(text.clone(), cap);
        assert!(out.len() <= cap, "cap {cap} gave {}", out.len());
        if text.len() > cap && cap >= 21 {
            assert!(out.ends_with("... (diff truncated)\n"));
            assert!(text.starts_with(&out[..out.len() - 21]));
        }
    }
}

#[test]
fn save_runs_every_command_of_the_matching_rule_from_the_config_dir() {
    let rules = parse_value(&json(r#"{ "*.ts": ["oxfmt", "echo done"], "*.md": "prettier --write" }"#), "/w/pkg").unwrap();
    let (cwd, cmds) = rules.chain_for("/w/pkg/src/a.ts", "/w").unwrap();
    assert_eq!(cwd, "/w/pkg");
    assert_eq!(cmds, vec!["oxfmt".to_owned(), "echo done".to_owned()]);
    assert!(rules.chain_for("/w/pkg/a.rs", "/w").is_none());
    assert!(LintStagedRules::empty().chain_for("/w/a.ts", "/w").is_none());
}

#[test]
fn config_search_walks_up_to_the_root_and_stops_at_the_first_deciding_dir() {
    assert_eq!(config_search_dirs("/w/nested/deep", "/w"), vec!["/w/nested/deep", "/w/nested", "/w"]);
    assert_eq!(config_search_dirs("/w", "/w"), vec!["/w"]);

    // The closest directory with a config wins, even without a matching rule.
    let nested = rules_in_dir(&ConfigFile::Parsed(json(r#"{ "*.js": "inner" }"#)), &ConfigFile::Missing, "/w/nested")
        .expect("an rc file decides");
    assert!(nested.match_command("/w/nested/a.ts").is_none());
    assert_eq!(nested.match_command("/w/nested/b.js").as_deref(), Some("inner"));

    // An rc file wins over package.json in the same directory.
    let both = rules_in_dir(
        &ConfigFile::Parsed(json(r#"{ "*.ts": "from-rc" }"#)),
        &ConfigFile::Parsed(json(r#"{ "lint-staged": { "*.ts": "from-pkg" } }"#)),
        "/w",
    )
    .unwrap();
    assert_eq!(both.match_command("/w/a.ts").as_deref(), Some("from-rc"));

    // A package.json without the field lets the search go on.
    assert!(rules_in_dir(&ConfigFile::Missing, &ConfigFile::Parsed(json(r#"{ "name": "x" }"#)), "/w").is_none());
    assert!(rules_in_dir(&ConfigFile::Missing, &ConfigFile::Missing, "/w").is_none());

    // Broken configs decide, with no rules.
    assert!(rules_in_dir(&ConfigFile::Unreadable, &ConfigFile::Missing, "/w").unwrap().is_empty());
    assert!(rules_in_dir(&ConfigFile::Missing, &ConfigFile::Unreadable, "/w").unwrap().is_empty());
    assert!(rules_in_dir(&ConfigFile::Parsed(json("[1]")), &ConfigFile::Missing, "/w").unwrap().is_empty());
}
