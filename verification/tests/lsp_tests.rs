use moon_core::json::Json;
use moon_core::lsp::broker::{after_spawn, fallback_route, on_slot, EnsureAction, Route, SlotState, SpawnResult};
use moon_core::lsp::client::{classify_incoming, shutdown_error, Incoming, LspClientError, LspRpcError};
use moon_core::lsp::framing::{classify_header_line, frame_header, header_step, HeaderLine, HeaderStep};
use moon_core::lsp::server::{
    container_binary_plan, covers_oxlint_language, go_server, is_lint_slot, lint_spec_for, log_source_for,
    oxlint_languages, oxlint_linter, python_server, resolve_install_hint, rust_server, spec_for, svelte_server,
    ts_server, ContainerBinary, DiscoveryStrategy, PathTranslator,
};
use moon_core::lsp::spawn::LspSpawner;
use moon_core::lsp::translate::{
    code_actions, completion_item_with_resolve, definition_response, diagnostic, hover, severity, to_lsp_diagnostic,
    CodeActionOrCommand, CompletionItem, CompletionTextEdit, GotoDefinitionResponse, HoverContents, LspDiagnostic,
    LspPosition, LspRange, LspSeverity, LspTextEdit, Location, MarkedString, MarkupKind, NumberOrString,
    ServerDiagnostic, TextDocumentEdit, WorkspaceEdit,
};

fn pos(line: u32, character: u32) -> LspPosition {
    LspPosition { line, character }
}

fn range(a: (u32, u32), b: (u32, u32)) -> LspRange {
    LspRange { start: pos(a.0, a.1), end: pos(b.0, b.1) }
}

fn zero() -> LspRange {
    range((0, 0), (0, 0))
}

fn item(label: &str) -> CompletionItem {
    CompletionItem {
        label: label.to_owned(),
        kind: None,
        detail: None,
        documentation: None,
        insert_text: None,
        sort_text: None,
        filter_text: None,
        text_edit: None,
        additional_text_edits: None,
        json: None,
    }
}

fn obj(members: Vec<(&str, Json)>) -> Json {
    Json::Object(members.into_iter().map(|(k, v)| (k.to_owned(), v)).collect())
}

// ---- server specs ----

#[test]
fn oxlint_covers_same_languages_as_ts_server() {
    let langs = oxlint_languages();
    for lang in ["typescript", "typescriptreact", "javascript", "javascriptreact"] {
        assert!(langs.contains(&lang), "oxlint should cover {lang}");
        assert!(covers_oxlint_language(lang));
        assert_eq!(spec_for(lang).unwrap().language_id, "typescript");
    }
    assert!(!langs.contains(&"rust"));
    assert!(!langs.contains(&"python"));
    assert!(!covers_oxlint_language("rust"));
}

#[test]
fn spec_for_routes_each_language() {
    assert_eq!(spec_for("rust").unwrap().bin_name, "rust-analyzer");
    assert_eq!(spec_for("python").unwrap().bin_name, "ty");
    assert_eq!(spec_for("go").unwrap().bin_name, "gopls");
    assert!(spec_for("markdown").is_none());
    assert_eq!(lint_spec_for("typescript").unwrap().bin_name, "oxlint");
    assert!(lint_spec_for("rust").is_none());
    assert!(is_lint_slot(&oxlint_linter()));
    assert!(!is_lint_slot(&ts_server()));
    assert_eq!(log_source_for("rust"), "lsp.rust");
}

#[test]
fn install_hint_for_svelte_follows_lockfile() {
    assert_eq!(resolve_install_hint(&svelte_server(), false, false), "bun add -D svelte-language-server");
    assert_eq!(resolve_install_hint(&svelte_server(), true, false), "pnpm -wD add svelte-language-server");
}

#[test]
fn install_hint_picks_pnpm_for_pnpm_lock() {
    assert_eq!(resolve_install_hint(&ts_server(), true, false), "pnpm -wD add @typescript/native-preview");
}

#[test]
fn install_hint_picks_npm_for_npm_lock() {
    assert_eq!(resolve_install_hint(&ts_server(), false, true), "npm i -D @typescript/native-preview");
}

#[test]
fn install_hint_prefers_pnpm_over_npm() {
    assert_eq!(resolve_install_hint(&ts_server(), true, true), "pnpm -wD add @typescript/native-preview");
}

#[test]
fn install_hint_defaults_to_bun() {
    assert_eq!(resolve_install_hint(&ts_server(), false, false), "bun add -D @typescript/native-preview");
}

#[test]
fn install_hint_passthrough_for_other_languages() {
    assert_eq!(resolve_install_hint(&rust_server(), true, false), "rustup component add rust-analyzer");
    assert_eq!(resolve_install_hint(&go_server(), true, false), "go install golang.org/x/tools/gopls@latest");
    assert_eq!(resolve_install_hint(&python_server(), true, false), "uv add --dev ty (or uv tool install ty)");
}

#[test]
fn install_hint_for_oxlint_follows_lockfile() {
    assert_eq!(resolve_install_hint(&oxlint_linter(), false, false), "bun add -D oxlint");
    assert_eq!(resolve_install_hint(&oxlint_linter(), true, false), "pnpm -wD add oxlint");
    assert_eq!(resolve_install_hint(&oxlint_linter(), false, true), "npm i -D oxlint");
}

// ---- path translation ----

#[test]
fn translator_identity_round_trip() {
    let t = PathTranslator::Identity { host_root: "/home/dev/code/moon-ide".to_owned() };
    let abs = t.absolutise("src/lib/state.svelte.ts");
    assert_eq!(abs, "/home/dev/code/moon-ide/src/lib/state.svelte.ts");
    let rel = t.relativise(&abs).expect("round-trip");
    assert_eq!(rel, "src/lib/state.svelte.ts");
    assert_eq!(t.host_root(), t.server_root());
    assert!(!t.is_remote());
}

#[test]
fn translator_host_mount_round_trip() {
    let t = PathTranslator::HostMount {
        host_root: "/home/dev/code/moon-ide".to_owned(),
        server_root: "/workspace/moon-ide".to_owned(),
    };
    let abs = t.absolutise("crates/moon-core/src/lsp/server.rs");
    assert_eq!(abs, "/workspace/moon-ide/crates/moon-core/src/lsp/server.rs");
    let rel = t.relativise(&abs).expect("round-trip");
    assert_eq!(rel, "crates/moon-core/src/lsp/server.rs");
    assert_eq!(t.host_root(), "/home/dev/code/moon-ide");
    assert_eq!(t.server_root(), "/workspace/moon-ide");
    assert!(t.is_remote());
}

#[test]
fn translator_relativise_rejects_paths_outside_root() {
    let t = PathTranslator::HostMount {
        host_root: "/home/dev/code/moon-ide".to_owned(),
        server_root: "/workspace/moon-ide".to_owned(),
    };
    assert!(t.relativise("/usr/local/lib/rustlib/src/rust/library/core/src/lib.rs").is_none());
    assert!(t.relativise("/workspace/moon-ide-other/a.rs").is_none());
}

#[test]
fn container_binary_path_cargo_home_returns_basename() {
    let translator = PathTranslator::HostMount {
        host_root: "/home/dev/code/moon-ide".to_owned(),
        server_root: "/workspace/moon-ide".to_owned(),
    };
    match container_binary_plan(&rust_server(), &translator) {
        ContainerBinary::Basename(b) => assert_eq!(b, "rust-analyzer"),
        _ => panic!("rust-analyzer resolves to its basename"),
    }
}

#[test]
fn container_binary_path_go_bin_returns_basename() {
    let translator = PathTranslator::HostMount {
        host_root: "/home/dev/code/moon-ide".to_owned(),
        server_root: "/workspace/moon-ide".to_owned(),
    };
    match container_binary_plan(&go_server(), &translator) {
        ContainerBinary::Basename(b) => assert_eq!(b, "gopls"),
        _ => panic!("gopls resolves to its basename"),
    }
}

#[test]
fn container_binary_plan_searches_node_modules_and_venvs() {
    let translator = PathTranslator::HostMount { host_root: "/h".to_owned(), server_root: "/w".to_owned() };
    assert!(matches!(
        container_binary_plan(&ts_server(), &translator),
        ContainerBinary::Search(DiscoveryStrategy::NodeModules)
    ));
    assert!(matches!(
        container_binary_plan(&python_server(), &translator),
        ContainerBinary::Search(DiscoveryStrategy::PythonVenv)
    ));
    let local = PathTranslator::Identity { host_root: "/h".to_owned() };
    assert!(matches!(container_binary_plan(&rust_server(), &local), ContainerBinary::NoContainer));
}

// ---- spawning ----

#[test]
fn local_build_command_matches_direct_spawn() {
    let cmd = LspSpawner::Local.build_command("/usr/local/bin/tsgo", &["--lsp", "--stdio"]);
    assert_eq!(cmd.program, "/usr/local/bin/tsgo");
    assert_eq!(cmd.args, vec!["--lsp", "--stdio"]);
}

#[test]
fn docker_exec_build_command_uses_dash_i_not_dash_t() {
    let spawner = LspSpawner::DockerExec { container_name: "moon-ws-default-dev-1".into() };
    let cmd = spawner.build_command("rust-analyzer", &[]);
    assert_eq!(cmd.program, "docker");
    assert_eq!(cmd.args, vec!["exec", "-i", "moon-ws-default-dev-1", "rust-analyzer"]);
    assert!(!cmd.args.iter().any(|a| a == "-t" || a == "-it"));
}

#[test]
fn docker_exec_forwards_extra_server_args_in_order() {
    let spawner = LspSpawner::DockerExec { container_name: "moon-ws-default-dev-1".into() };
    let cmd = spawner.build_command("tsgo", &["--lsp", "--stdio"]);
    assert_eq!(cmd.args, vec!["exec", "-i", "moon-ws-default-dev-1", "tsgo", "--lsp", "--stdio"]);
}

// ---- broker decisions ----

#[test]
fn broker_spawns_missing_and_respawns_dead_servers() {
    assert!(matches!(on_slot(SlotState::ReadyAlive), EnsureAction::UseExisting));
    assert!(matches!(on_slot(SlotState::NotAvailable), EnsureAction::NoServer));
    assert!(matches!(on_slot(SlotState::Missing), EnsureAction::Spawn { route: Route::Primary, respawn: false }));
    assert!(matches!(on_slot(SlotState::ReadyDead), EnsureAction::Spawn { route: Route::Primary, respawn: true }));
}

#[test]
fn broker_falls_back_once_then_records_the_outcome() {
    assert!(matches!(
        after_spawn(Route::Primary, SpawnResult::Unavailable, true),
        EnsureAction::Spawn { route: Route::Fallback, .. }
    ));
    assert!(matches!(after_spawn(Route::Primary, SpawnResult::Unavailable, false), EnsureAction::StoreNotAvailable));
    assert!(matches!(
        after_spawn(Route::Fallback, SpawnResult::Ready, false),
        EnsureAction::StoreReady { route: Route::Fallback }
    ));
    assert!(matches!(
        after_spawn(Route::Primary, SpawnResult::Failed, true),
        EnsureAction::StoreCrashed { route: Route::Primary }
    ));
}

#[test]
fn broker_fallback_runs_on_the_host() {
    let spawner = LspSpawner::DockerExec { container_name: "c".into() };
    let translator = PathTranslator::HostMount { host_root: "/h".to_owned(), server_root: "/w".to_owned() };
    let (s, t) = fallback_route(&spawner, &translator).expect("container route has a host fallback");
    assert!(matches!(s, LspSpawner::Local));
    assert_eq!(t.server_root(), "/h");
    let local = PathTranslator::Identity { host_root: "/h".to_owned() };
    assert!(fallback_route(&LspSpawner::Local, &local).is_none());
}

// ---- framing ----

#[test]
fn header_lines_classify() {
    assert_eq!(classify_header_line("Content-Length: 42\r\n"), HeaderLine::Length(42));
    assert_eq!(classify_header_line("Content-Length: 7\n"), HeaderLine::Length(7));
    assert_eq!(classify_header_line("Content-Length: x\r\n"), HeaderLine::BadLength);
    assert_eq!(classify_header_line("Content-Type: application/vscode-jsonrpc\r\n"), HeaderLine::Other);
    assert_eq!(classify_header_line("\r\n"), HeaderLine::End);
}

#[test]
fn header_steps_reach_the_payload() {
    let s = header_step(None, "Content-Length: 12\r\n");
    assert_eq!(s, HeaderStep::Continue(Some(12)));
    assert_eq!(header_step(Some(12), "Content-Type: x\r\n"), HeaderStep::Continue(Some(12)));
    assert_eq!(header_step(Some(12), "\r\n"), HeaderStep::Payload(12));
    assert_eq!(header_step(None, "\n"), HeaderStep::MissingLength);
    assert_eq!(header_step(None, "Content-Length: -1\r\n"), HeaderStep::BadLength);
}

#[test]
fn frame_header_reads_back() {
    let h = frame_header(1234);
    assert_eq!(h, "Content-Length: 1234\r\n\r\n");
    let first = &h[..h.find('\n').unwrap() + 1];
    assert_eq!(header_step(None, first), HeaderStep::Continue(Some(1234)));
    assert_eq!(header_step(Some(1234), "\r\n"), HeaderStep::Payload(1234));
}

// ---- client ----

#[test]
fn incoming_messages_are_routed() {
    let req = obj(vec![("id", Json::Number(Some(7))), ("method", Json::Str("workspace/configuration".into()))]);
    assert!(matches!(classify_incoming(&req), Incoming::ServerRequest { .. }));

    let note = obj(vec![("method", Json::Str("window/logMessage".into())), ("params", Json::Null)]);
    match classify_incoming(&note) {
        Incoming::Notification { method, params } => {
            assert_eq!(method, "window/logMessage");
            assert!(params.is_some());
        },
        _ => panic!("notification expected"),
    }

    let ok = obj(vec![("id", Json::Number(Some(3))), ("result", Json::Bool(true))]);
    match classify_incoming(&ok) {
        Incoming::Response { id, outcome } => {
            assert_eq!(id, 3);
            assert!(matches!(outcome, Ok(Some(Json::Bool(true)))));
        },
        _ => panic!("response expected"),
    }

    let err = obj(vec![
        ("id", Json::Number(Some(4))),
        ("error", obj(vec![("code", Json::Number(Some(-32601))), ("message", Json::Str("nope".into()))])),
    ]);
    match classify_incoming(&err) {
        Incoming::Response { id, outcome: Err(e) } => {
            assert_eq!(id, 4);
            assert_eq!(e.code, -32601);
            assert_eq!(e.message, "nope");
        },
        _ => panic!("error response expected"),
    }

    let odd = obj(vec![("id", Json::Str("x".into()))]);
    assert!(matches!(classify_incoming(&odd), Incoming::NonNumericId));
    assert!(matches!(classify_incoming(&obj(vec![])), Incoming::Unroutable));
}

#[test]
fn client_errors_render() {
    let e = shutdown_error();
    assert_eq!(e.code, -32099);
    assert_eq!(e.message, "lsp client shut down");
    let wrapped: LspClientError = LspRpcError { code: 1, message: "m".into() }.into();
    assert!(matches!(wrapped, LspClientError::Rpc(_)));
    assert!(!LspClientError::Shutdown.to_text().is_empty());
}

// ---- translation ----

#[test]
fn diagnostic_severity_defaults_to_error() {
    let d = ServerDiagnostic { range: zero(), severity: None, message: "boom".into(), source: None, code: None };
    assert_eq!(diagnostic(&d).severity, LspSeverity::Error);
    assert_eq!(severity(Some(2)), LspSeverity::Warning);
    assert_eq!(severity(Some(4)), LspSeverity::Hint);
    assert_eq!(severity(Some(9)), LspSeverity::Info);
}

#[test]
fn diagnostic_numeric_code_becomes_text() {
    let d = ServerDiagnostic {
        range: zero(),
        severity: Some(1),
        message: "m".into(),
        source: Some("rustc".into()),
        code: Some(NumberOrString::Number(-12)),
    };
    let out = diagnostic(&d);
    assert_eq!(out.code.as_deref(), Some("-12"));
    assert_eq!(out.source.as_deref(), Some("rustc"));
}

#[test]
fn hover_empty_contents_yields_none() {
    assert!(hover(&HoverContents::Scalar(MarkedString::Text("   ".into())), None).is_none());
}

#[test]
fn hover_normalises_plaintext_markup() {
    let h = hover(&HoverContents::Markup { kind: MarkupKind::PlainText, value: "x: number".into() }, None);
    assert_eq!(h.unwrap().contents, "```\nx: number\n```");
}

#[test]
fn definition_in_workspace_becomes_relative() {
    let loc = Location { uri: "file:///tmp/ws/src/lib.rs".into(), range: zero() };
    let resp = definition_response(&GotoDefinitionResponse::Scalar(loc), "/tmp/ws").expect("location");
    assert_eq!(resp.path, "src/lib.rs");
    assert!(resp.external_uri.is_empty());
}

#[test]
fn definition_outside_workspace_keeps_uri() {
    let loc = Location { uri: "file:///tmp/somewhere-else.rs".into(), range: zero() };
    let resp = definition_response(&GotoDefinitionResponse::Scalar(loc), "/tmp/ws").expect("location");
    assert!(resp.path.is_empty());
    assert!(resp.external_uri.starts_with("file://"));
    assert!(definition_response(&GotoDefinitionResponse::Array(vec![]), "/tmp/ws").is_none());
}

#[test]
fn completion_item_emits_resolve_token_when_supported() {
    let mut it = item("useState");
    it.kind = Some(3);
    it.detail = Some("(initialState: S | (() => S)) => [S, Dispatch<SetStateAction<S>>]".into());
    it.json = Some(r#"{"label":"useState","data":{"exportName":"useState","moduleSpecifier":"react"}}"#.into());
    let projected = completion_item_with_resolve(&it, true);
    assert_eq!(projected.label, "useState");
    assert!(projected.additional_text_edits.is_empty());
    let token = projected.resolve_token.expect("resolve token must be present when supported");
    let restored: serde_json::Value = serde_json::from_str(&token).expect("token decodes");
    assert_eq!(restored["label"], "useState");
    assert_eq!(restored["data"]["moduleSpecifier"], "react");
}

#[test]
fn completion_item_omits_resolve_token_when_unsupported() {
    let mut it = item("Foo");
    it.json = Some(r#"{"label":"Foo"}"#.into());
    let projected = completion_item_with_resolve(&it, false);
    assert!(projected.resolve_token.is_none());
}

#[test]
fn completion_item_passes_through_additional_text_edits() {
    let mut it = item("HashMap");
    it.additional_text_edits =
        Some(vec![LspTextEdit { range: zero(), new_text: "use std::collections::HashMap;\n".into() }]);
    let projected = completion_item_with_resolve(&it, true);
    assert_eq!(projected.additional_text_edits.len(), 1);
    assert_eq!(projected.additional_text_edits[0].new_text, "use std::collections::HashMap;\n");
}

#[test]
fn to_lsp_diagnostic_round_trips_code_and_severity() {
    let d = LspDiagnostic {
        range: range((5, 3), (5, 9)),
        severity: LspSeverity::Warning,
        message: "constant condition".into(),
        source: Some("oxc".into()),
        code: Some("eslint(no-constant-condition)".into()),
    };
    let lsp = to_lsp_diagnostic(&d);
    assert_eq!(lsp.severity, Some(2));
    assert_eq!(lsp.message, "constant condition");
    assert_eq!(lsp.source.as_deref(), Some("oxc"));
    match &lsp.code {
        Some(NumberOrString::String(s)) => assert_eq!(s, "eslint(no-constant-condition)"),
        _ => panic!("expected string code"),
    }
    assert_eq!(lsp.range.start.line, 5);
    assert_eq!(lsp.range.end.character, 9);
    let back = diagnostic(&lsp);
    assert_eq!(back.severity, LspSeverity::Warning);
    assert_eq!(back.code.as_deref(), Some("eslint(no-constant-condition)"));
}

#[test]
fn code_actions_drops_command_only_entries() {
    let resp = vec![CodeActionOrCommand::Command];
    assert!(code_actions(&resp, "oxlint", "/tmp/root").is_empty());
}

fn quickfix(title: &str, uri: &str, text: &str) -> CodeActionOrCommand {
    CodeActionOrCommand::CodeAction {
        title: title.into(),
        kind: Some("quickfix".into()),
        edit: Some(WorkspaceEdit {
            changes: Some(vec![TextDocumentEdit {
                uri: uri.into(),
                edits: vec![LspTextEdit { range: range((5, 0), (5, 0)), new_text: text.into() }],
            }]),
            document_changes: None,
        }),
        is_preferred: Some(false),
    }
}

#[test]
fn code_actions_keeps_quickfix_with_workspace_edit() {
    let resp = vec![quickfix(
        "Disable no-constant-condition for this line",
        "file:///tmp/ws/src/a.ts",
        "// oxlint-disable-next-line no-constant-condition\n",
    )];
    let projected = code_actions(&resp, "oxlint", "/tmp/ws");
    assert_eq!(projected.len(), 1);
    assert_eq!(projected[0].title, "Disable no-constant-condition for this line");
    assert_eq!(projected[0].kind.as_deref(), Some("quickfix"));
    assert_eq!(projected[0].producer, "oxlint");
    assert_eq!(projected[0].edit.document_edits.len(), 1);
    assert_eq!(projected[0].edit.document_edits[0].path, "src/a.ts");
    assert_eq!(projected[0].edit.document_edits[0].edits.len(), 1);
    assert!(projected[0].edit.document_edits[0].edits[0].new_text.contains("oxlint-disable-next-line"));
}

#[test]
fn code_actions_drops_quickfix_with_only_external_edits() {
    let resp = vec![quickfix("Edit external file", "file:///tmp/elsewhere.ts", "x")];
    assert!(code_actions(&resp, "oxlint", "/tmp/ws").is_empty());
}

#[test]
fn completion_item_picks_replace_range_for_insert_replace_edit() {
    let mut it = item("foo");
    it.text_edit = Some(CompletionTextEdit::InsertAndReplace {
        insert: range((0, 3), (0, 3)),
        replace: range((0, 0), (0, 6)),
        new_text: "fooBar".into(),
    });
    let projected = completion_item_with_resolve(&it, false);
    let edit = projected.text_edit.expect("primary text edit projected");
    assert_eq!(edit.range.start.character, 0);
    assert_eq!(edit.range.end.character, 6);
    assert_eq!(edit.new_text, "fooBar");
}
