use moon_core::json::Json;
use moon_core::lsp::server::PathTranslator;
use moon_core::lsp::watch::{
    did_change_watched_files_params, parse_watched_files_registration, Registration, WatchRegistry, WatchedPattern,
};

fn to_json(v: &serde_json::Value) -> Json {
    match v {
        serde_json::Value::Null => Json::Null,
        serde_json::Value::Bool(b) => Json::Bool(*b),
        serde_json::Value::Number(n) => Json::Number(
            n.as_i64().map(|i| i as i128).or_else(|| n.as_u64().map(|u| u as i128)),
        ),
        serde_json::Value::String(s) => Json::Str(s.clone()),
        serde_json::Value::Array(a) => Json::Array(a.iter().map(to_json).collect()),
        serde_json::Value::Object(m) => Json::Object(m.iter().map(|(k, v)| (k.clone(), to_json(v))).collect()),
    }
}

fn json(text: &str) -> Json {
    to_json(&serde_json::from_str::<serde_json::Value>(text).expect("test json"))
}

fn reg(id: &str, options: Option<&str>) -> Registration {
    Registration {
        id: id.to_owned(),
        method: "workspace/didChangeWatchedFiles".to_owned(),
        register_options: options.map(json),
    }
}

fn matches(p: &WatchedPattern, path: &str) -> bool {
    let mut r = WatchRegistry::new();
    r.register("probe".to_owned(), vec![WatchedPattern { pattern: p.pattern.clone(), kind: 2 }]);
    r.watches_change_of(path)
}

#[test]
fn watched_files_registration_compiles_string_globs() {
    let reg = reg(
        "ts-files",
        Some(r#"{ "watchers": [ { "globPattern": "**/*.ts" }, { "globPattern": "**/tsconfig*.json", "kind": 2 } ] }"#),
    );
    let (id, patterns) = parse_watched_files_registration(&reg).expect("registration parses");
    assert_eq!(id, "ts-files");
    assert_eq!(patterns.len(), 2);
    assert!(matches(&patterns[0], "src/main.ts"));
    assert!(matches(&patterns[0], "nested/foo/bar.ts"));
    assert!(!matches(&patterns[0], "src/main.rs"));
    assert_eq!(patterns[0].kind, 7, "default kind must include Change so notify_files_changed actually fires");
    assert_eq!(patterns[1].kind, 2);
    assert!(matches(&patterns[1], "tsconfig.json"));
    assert!(matches(&patterns[1], "packages/api/tsconfig.build.json"));
}

#[test]
fn watched_files_registration_empty_returns_none() {
    assert!(parse_watched_files_registration(&reg("noop", Some(r#"{ "watchers": [] }"#))).is_none());
}

#[test]
fn watched_files_registration_missing_options_returns_none() {
    assert!(parse_watched_files_registration(&reg("broken", None)).is_none());
}

#[test]
fn watched_files_registration_skips_bad_globs() {
    let reg = reg("mixed", Some(r#"{ "watchers": [ { "globPattern": "**/*.rs" }, { "globPattern": "[" } ] }"#));
    let (_, patterns) = parse_watched_files_registration(&reg).expect("at least one valid pattern");
    assert_eq!(patterns.len(), 1, "the bad glob is dropped, the good one survives");
    assert!(matches(&patterns[0], "crates/foo/src/lib.rs"));
}

#[test]
fn watched_files_registration_handles_relative_pattern() {
    let reg = reg(
        "relative",
        Some(r#"{ "watchers": [ { "globPattern": { "baseUri": "file:///workspace", "pattern": "**/*.go" } } ] }"#),
    );
    let (_, patterns) = parse_watched_files_registration(&reg).expect("relative pattern parses");
    assert!(matches(&patterns[0], "cmd/main.go"));
    assert!(!matches(&patterns[0], "README.md"));
}

#[test]
fn watched_files_registration_refuses_malformed_watchers() {
    assert!(parse_watched_files_registration(&reg("k", Some(r#"{ "watchers": [ { "globPattern": "*", "kind": 9 } ] }"#)))
        .is_none());
    assert!(parse_watched_files_registration(&reg("k", Some(r#"{ "watchers": [ { "kind": 2 } ] }"#))).is_none());
    assert!(parse_watched_files_registration(&reg("k", Some(r#"{ "watchers": "**" }"#))).is_none());
    let (_, ps) = parse_watched_files_registration(&reg("k", Some(r#"{ "watchers": [ { "globPattern": "*", "kind": null } ] }"#)))
        .expect("a null kind is unset");
    assert_eq!(ps[0].kind, 7);
}

#[test]
fn register_capability_records_and_unregister_forgets() {
    let mut r = WatchRegistry::new();
    assert!(r.is_empty());
    r.register_capability(&json(
        r#"{ "registrations": [
            { "id": "a", "method": "workspace/didChangeWatchedFiles", "registerOptions": { "watchers": [ { "globPattern": "**/*.ts" } ] } },
            { "id": "b", "method": "textDocument/formatting" }
        ] }"#,
    ));
    assert!(!r.is_empty());
    assert!(r.watches_change_of("src/a.ts"));
    assert!(!r.watches_change_of("src/a.rs"));

    // A malformed payload is refused whole.
    r.register_capability(&json(
        r#"{ "registrations": [
            { "id": "c", "method": "workspace/didChangeWatchedFiles", "registerOptions": { "watchers": [ { "globPattern": "**/*.rs" } ] } },
            { "id": 3 }
        ] }"#,
    ));
    assert!(!r.watches_change_of("src/a.rs"));

    // Re-registering an id replaces its patterns.
    r.register_capability(&json(
        r#"{ "registrations": [ { "id": "a", "method": "workspace/didChangeWatchedFiles", "registerOptions": { "watchers": [ { "globPattern": "**/*.rs" } ] } } ] }"#,
    ));
    assert!(r.watches_change_of("src/a.rs"));
    assert!(!r.watches_change_of("src/a.ts"));

    r.unregister_capability(&json(r#"{ "unregisterations": [ { "id": "a", "method": "workspace/didChangeWatchedFiles" } ] }"#));
    assert!(r.is_empty());
    assert!(!r.watches_change_of("src/a.rs"));
}

#[test]
fn only_change_watchers_see_changes() {
    let mut r = WatchRegistry::new();
    r.register("create-only".to_owned(), vec![WatchedPattern { pattern: "**/*.ts".to_owned(), kind: 1 }]);
    assert!(!r.watches_change_of("a.ts"));
    r.register("all".to_owned(), vec![WatchedPattern { pattern: "**/*.ts".to_owned(), kind: 7 }]);
    assert!(r.watches_change_of("a.ts"));
}

#[test]
fn changed_files_become_file_uris() {
    let mut r = WatchRegistry::new();
    let t = PathTranslator::HostMount { host_root: "/home/u/ws".to_owned(), server_root: "/workspace/ws".to_owned() };
    assert!(r.changed_file_uris(&t, &["src/a.ts".to_owned()]).is_empty());
    r.register("a".to_owned(), vec![WatchedPattern { pattern: "**/*.ts".to_owned(), kind: 7 }]);
    let uris = r.changed_file_uris(&t, &["src/a.ts".to_owned(), "README.md".to_owned(), "b c.ts".to_owned()]);
    assert_eq!(uris, vec!["file:///workspace/ws/src/a.ts".to_owned(), "file:///workspace/ws/b%20c.ts".to_owned()]);

    let params = did_change_watched_files_params(&uris[..1]);
    match params {
        Json::Object(ms) => {
            assert_eq!(ms[0].0, "changes");
            match &ms[0].1 {
                Json::Array(events) => {
                    assert_eq!(events.len(), 1);
                    match &events[0] {
                        Json::Object(e) => {
                            assert_eq!(e[0].0, "uri");
                            assert!(matches!(&e[0].1, Json::Str(u) if u == "file:///workspace/ws/src/a.ts"));
                            assert_eq!(e[1].0, "type");
                            assert!(matches!(e[1].1, Json::Number(Some(2))));
                        },
                        _ => panic!("event object expected"),
                    }
                },
                _ => panic!("changes array expected"),
            }
        },
        _ => panic!("params object expected"),
    }
}

#[test]
fn watched_files_registration_refuses_a_base_uri_that_is_no_uri() {
    let reg = reg(
        "bad-base",
        Some(r#"{ "watchers": [ { "globPattern": { "baseUri": "file:///work space", "pattern": "**/*.go" } } ] }"#),
    );
    assert!(parse_watched_files_registration(&reg).is_none());
    let folder = reg_with_folder();
    assert!(parse_watched_files_registration(&folder).is_some());
}

fn reg_with_folder() -> Registration {
    reg(
        "folder-base",
        Some(
            r#"{ "watchers": [ { "globPattern": { "baseUri": { "uri": "file:///ws", "name": "ws" }, "pattern": "*.go" } } ] }"#,
        ),
    )
}
