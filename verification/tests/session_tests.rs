use moon_core::json::Json;
use moon_core::lsp::server::PathTranslator;
use moon_core::lsp::session::{
    completion_resolve_support, initialize_process_id, relative_to_uri, route_notification, uri_to_relative,
    workspace_folders_plan, DocSync, DocTable, NotificationRoute,
};

fn mount() -> PathTranslator {
    PathTranslator::HostMount { host_root: "/home/u/ws".to_owned(), server_root: "/workspace/ws".to_owned() }
}

#[test]
fn documents_open_once_then_change_with_rising_versions() {
    let mut t = DocTable::new();
    assert_eq!(t.open_or_change("src/a.ts"), DocSync::Open { version: 1 });
    assert_eq!(t.open_or_change("src/a.ts"), DocSync::Change { version: 2 });
    assert_eq!(t.open_or_change("src/b.ts"), DocSync::Open { version: 1 });
    assert_eq!(t.open_or_change("src/a.ts"), DocSync::Change { version: 3 });
    assert_eq!(t.version_of("src/a.ts"), Some(3));
    let mut open = t.open_paths();
    open.sort();
    assert_eq!(open, vec!["src/a.ts".to_owned(), "src/b.ts".to_owned()]);
    assert!(t.close("src/a.ts"));
    assert!(!t.close("src/a.ts"));
    assert_eq!(t.version_of("src/a.ts"), None);
    assert_eq!(t.open_or_change("src/a.ts"), DocSync::Open { version: 1 });
}

#[test]
fn notifications_are_routed_by_method() {
    assert_eq!(route_notification("textDocument/publishDiagnostics"), NotificationRoute::PublishDiagnostics);
    assert_eq!(route_notification("client/registerCapability"), NotificationRoute::RegisterCapability);
    assert_eq!(route_notification("client/unregisterCapability"), NotificationRoute::UnregisterCapability);
    assert_eq!(route_notification("workspace/diagnostic/refresh"), NotificationRoute::RefreshDiagnostics);
    assert_eq!(route_notification("window/logMessage"), NotificationRoute::Ignore);
}

#[test]
fn uris_round_trip_through_the_server_root() {
    let t = mount();
    let uri = relative_to_uri(&t, "src/main.rs");
    assert_eq!(uri, "file:///workspace/ws/src/main.rs");
    assert_eq!(uri_to_relative(&t, &uri).as_deref(), Some("src/main.rs"));
    assert_eq!(uri_to_relative(&t, "file:///usr/lib/rustlib/core.rs"), None);
    assert_eq!(uri_to_relative(&t, "untitled:Untitled-1"), None);
}

#[test]
fn initialize_sends_folders_and_pid_by_route() {
    let t = mount();
    let folders = workspace_folders_plan(&t, &[]);
    assert_eq!(folders, vec![("file:///workspace/ws".to_owned(), "ws".to_owned())]);
    let folders = workspace_folders_plan(&t, &[".".to_owned(), "packages/api".to_owned()]);
    assert_eq!(
        folders,
        vec![
            ("file:///workspace/ws".to_owned(), "ws".to_owned()),
            ("file:///workspace/ws/packages/api".to_owned(), "api".to_owned()),
        ]
    );
    assert_eq!(initialize_process_id(&t, 42), None);
    assert_eq!(initialize_process_id(&PathTranslator::Identity { host_root: "/h".to_owned() }, 42), Some(42));
}

#[test]
fn resolve_provider_is_read_from_the_capabilities() {
    let caps = |v: Json| {
        Json::Object(vec![(
            "capabilities".to_owned(),
            Json::Object(vec![("completionProvider".to_owned(), Json::Object(vec![("resolveProvider".to_owned(), v)]))]),
        )])
    };
    assert!(completion_resolve_support(&caps(Json::Bool(true))));
    assert!(!completion_resolve_support(&caps(Json::Bool(false))));
    assert!(!completion_resolve_support(&caps(Json::Null)));
    assert!(!completion_resolve_support(&Json::Object(vec![])));
}
