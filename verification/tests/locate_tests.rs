use std::collections::{BTreeMap, BTreeSet};

use moon_core::json::Json;
use moon_core::lsp::locate::{DirChild, Locate, LocateEnv, LocateStep, Probe, ProbeAnswer};
use moon_core::lsp::server::{python_server, rust_server, ts_server, DiscoveryStrategy};

/// A small imaginary machine.
#[derive(Default)]
struct World {
    files: BTreeSet<String>,
    dirs: BTreeMap<String, Vec<(String, bool, bool)>>,
    on_path: BTreeMap<String, String>,
    rustup: BTreeMap<String, String>,
    links: BTreeMap<String, String>,
    manifests: BTreeMap<String, String>,
    asked: Vec<String>,
}

impl World {
    fn answer(&mut self, p: &Probe) -> ProbeAnswer {
        match p {
            Probe::Exists { path } => {
                self.asked.push(format!("exists {path}"));
                ProbeAnswer::Exists(self.files.contains(path))
            }
            Probe::Which { bin } => {
                self.asked.push(format!("which {bin}"));
                ProbeAnswer::Found(self.on_path.get(bin).cloned())
            }
            Probe::RustupWhich { bin } => match self.rustup.get(bin) {
                Some(p) => ProbeAnswer::Ran { success: true, stdout: format!("{p}\n").into_bytes() },
                None => ProbeAnswer::Ran { success: false, stdout: Vec::new() },
            },
            Probe::ReadLink { path } => ProbeAnswer::LinkTarget(self.links.get(path).cloned()),
            Probe::ListDir { path } => {
                self.asked.push(format!("list {path}"));
                ProbeAnswer::Listing(self.dirs.get(path).map(|cs| {
                    cs.iter()
                        .map(|(n, d, l)| DirChild { name: n.clone(), is_dir: *d, is_symlink: *l })
                        .collect()
                }))
            }
            Probe::ReadManifest { path } => ProbeAnswer::Manifest(self.manifests.get(path).map(|v| {
                Json::Object(vec![("version".to_string(), Json::Str(v.clone()))])
            })),
        }
    }

    fn run(&mut self, (mut search, mut step): (Locate, LocateStep)) -> Option<String> {
        loop {
            match step {
                LocateStep::Done(r) => return r,
                LocateStep::Ask(p) => {
                    let a = self.answer(&p);
                    step = search.advance(a);
                }
            }
        }
    }
}

fn unix_env() -> LocateEnv {
    LocateEnv {
        cargo_home: None,
        home: Some("/home/dev".to_string()),
        userprofile: None,
        gobin: None,
        gopath: None,
        windows: false,
    }
}

#[test]
fn locate_prefers_the_nearest_hoisted_node_modules() {
    let mut w = World::default();
    w.files.insert("/repo/node_modules/.bin/my-lsp".to_string());
    w.on_path.insert("my-lsp".to_string(), "/usr/bin/my-lsp".to_string());
    let found = w.run(Locate::for_binary("my-lsp", DiscoveryStrategy::NodeModules, "/repo/app", &unix_env()));
    assert_eq!(found.as_deref(), Some("/repo/node_modules/.bin/my-lsp"));
    assert_eq!(w.asked[0], "exists /repo/app/node_modules/.bin/my-lsp");
    assert!(!w.asked.iter().any(|q| q.starts_with("which")));
}

#[test]
fn locate_scans_nested_workspaces_skipping_hidden_and_node_modules() {
    let mut w = World::default();
    w.dirs.insert(
        "/repo".to_string(),
        vec![
            (".git".to_string(), true, false),
            ("node_modules".to_string(), true, false),
            ("link".to_string(), true, true),
            ("README.md".to_string(), false, false),
            ("apps".to_string(), true, false),
        ],
    );
    w.dirs.insert("/repo/apps".to_string(), vec![("api".to_string(), true, false)]);
    w.files.insert("/repo/apps/api/node_modules/.bin/my-lsp".to_string());
    let found = w.run(Locate::for_binary("my-lsp", DiscoveryStrategy::NodeModules, "/repo", &unix_env()));
    assert_eq!(found.as_deref(), Some("/repo/apps/api/node_modules/.bin/my-lsp"));
    assert!(!w.asked.iter().any(|q| q.contains(".git") || q.contains("/link") || q == "list /repo/node_modules"));
}

#[test]
fn locate_falls_back_to_path_last() {
    let mut w = World::default();
    w.on_path.insert("my-lsp".to_string(), "/usr/bin/my-lsp".to_string());
    let found = w.run(Locate::for_binary("my-lsp", DiscoveryStrategy::NodeModules, "/repo", &unix_env()));
    assert_eq!(found.as_deref(), Some("/usr/bin/my-lsp"));
    assert_eq!(w.asked.last().map(|s| s.as_str()), Some("which my-lsp"));
    let none = World::default().run(Locate::for_binary("absent", DiscoveryStrategy::PythonVenv, "/repo", &unix_env()));
    assert_eq!(none, None);
}

#[test]
fn locate_cargo_home_rejects_rustup_proxies() {
    let mut w = World::default();
    w.rustup.insert("rust-analyzer".to_string(), "/tc/bin/rust-analyzer".to_string());
    assert_eq!(w.run(Locate::for_server(&rust_server(), "/repo", &unix_env())).as_deref(), Some("/tc/bin/rust-analyzer"));

    let mut w = World::default();
    w.files.insert("/home/dev/.cargo/bin/rust-analyzer".to_string());
    w.links.insert("/home/dev/.cargo/bin/rust-analyzer".to_string(), "/home/dev/.cargo/bin/rustup".to_string());
    w.on_path.insert("rust-analyzer".to_string(), "/home/dev/.cargo/bin/rust-analyzer".to_string());
    assert_eq!(w.run(Locate::for_server(&rust_server(), "/repo", &unix_env())), None);

    let mut w = World::default();
    w.files.insert("/home/dev/.cargo/bin/rust-analyzer".to_string());
    assert_eq!(
        w.run(Locate::for_server(&rust_server(), "/repo", &unix_env())).as_deref(),
        Some("/home/dev/.cargo/bin/rust-analyzer")
    );
}

#[test]
fn locate_typescript_accepts_only_native_tsc() {
    let mut w = World::default();
    w.files.insert("/repo/node_modules/.bin/tsc".to_string());
    w.manifests.insert("/repo/node_modules/typescript/package.json".to_string(), "7.0.1".to_string());
    assert_eq!(
        w.run(Locate::for_server(&ts_server(), "/repo", &unix_env())).as_deref(),
        Some("/repo/node_modules/.bin/tsc")
    );
    let mut w = World::default();
    w.files.insert("/repo/node_modules/.bin/tsc".to_string());
    w.manifests.insert("/repo/node_modules/typescript/package.json".to_string(), "6.0.2".to_string());
    w.on_path.insert("tsgo".to_string(), "/usr/bin/tsgo".to_string());
    assert_eq!(w.run(Locate::for_server(&ts_server(), "/repo", &unix_env())).as_deref(), Some("/usr/bin/tsgo"));
}

#[test]
fn locate_in_container_reroots_under_the_mount() {
    let mut w = World::default();
    w.files.insert("/home/dev/proj/node_modules/.bin/tsgo".to_string());
    assert_eq!(
        w.run(Locate::in_container(&ts_server(), "/home/dev/proj", "/workspace/proj")).as_deref(),
        Some("/workspace/proj/node_modules/.bin/tsgo")
    );
    let mut w = World::default();
    w.files.insert("/home/dev/node_modules/.bin/tsgo".to_string());
    assert_eq!(w.run(Locate::in_container(&ts_server(), "/home/dev/proj", "/workspace/proj")), None);
    let mut w = World::default();
    w.files.insert("/home/dev/proj/.venv/bin/ty".to_string());
    assert_eq!(
        w.run(Locate::in_container(&python_server(), "/home/dev/proj", "/workspace/proj")).as_deref(),
        Some("/workspace/proj/.venv/bin/ty")
    );
}

#[test]
fn discover_returns_none_when_missing_everywhere() {
    let mut w = World::default();
    let (search, step) =
        Locate::for_binary("definitely-not-a-real-lsp-server-xyzzy", DiscoveryStrategy::NodeModules, "/tmp/empty", &unix_env());
    let found = w.run((search, step));
    assert!(found.is_none());
    assert_eq!(w.asked.last().map(|s| s.as_str()), Some("which definitely-not-a-real-lsp-server-xyzzy"));
}
