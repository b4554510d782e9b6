//! The language servers the workspace knows: which binary serves which
//! language, how it is found and probed, and what to tell the user
//! when it is missing.
use vstd::prelude::*;
use crate::lsp::spawn::str_views;
use crate::paths::{join_path, strip_path_prefix, utf8_join, utf8_strip_prefix};
use crate::text::{chars_of, forward_slashes, push_str_chars, str_eq, string_from_chars, to_forward_slashes};

verus! {

/// Where to look for a server binary before falling back to `$PATH`.
#[derive(Debug, Clone, Copy, PartialEq, Eq, Structural)]
pub enum DiscoveryStrategy {
    /// `node_modules/.bin/<bin>` in the ancestors of the workspace root.
    NodeModules,
    /// `$CARGO_HOME/bin/<bin>` (default `$HOME/.cargo/bin`).
    CargoHome,
    /// `.venv/bin/<bin>` in the ancestors of the workspace root.
    PythonVenv,
    /// `$GOBIN/<bin>`, then `$GOPATH/bin/<bin>` (default `$HOME/go`).
    GoBin,
}

/// Which binary to spawn for a language, with its arguments, the
/// arguments of its availability probe, the hint shown when it is
/// missing, and where to look for it.
#[derive(Debug)]
pub struct LspBinarySpec {
    pub language_id: &'static str,
    pub bin_name: &'static str,
    pub args: &'static [&'static str],
    pub probe_args: &'static [&'static str],
    pub install_hint: &'static str,
    pub discovery: DiscoveryStrategy,
}

impl LspBinarySpec {
    /// The spec's fields, as text.
    pub open spec fn fields(&self) -> (Seq<char>, Seq<char>, Seq<Seq<char>>, Seq<Seq<char>>, Seq<char>, DiscoveryStrategy) {
        (self.language_id@, self.bin_name@, str_views(self.args@), str_views(self.probe_args@), self.install_hint@, self.discovery)
    }
}

/// The fields of the typescript server's spec.
pub open spec fn ts_fields() -> (Seq<char>, Seq<char>, Seq<Seq<char>>, Seq<Seq<char>>, Seq<char>, DiscoveryStrategy) {
    ("typescript"@, "tsgo"@, seq!["--lsp"@, "--stdio"@], seq!["--version"@], "bun add -D @typescript/native-preview"@, DiscoveryStrategy::NodeModules)
}

/// TypeScript / JavaScript: `tsgo --lsp --stdio`, the native TypeScript
/// server, found in `node_modules`.
pub fn ts_server() -> (s: LspBinarySpec)
    ensures
        s.fields() == ts_fields(),
{
    let s = LspBinarySpec {
        language_id: "typescript",
        bin_name: "tsgo",
        args: &["--lsp", "--stdio"],
        probe_args: &["--version"],
        install_hint: "bun add -D @typescript/native-preview",
        discovery: DiscoveryStrategy::NodeModules,
    };
    assert(str_views(s.args@) =~= seq!["--lsp"@, "--stdio"@]);
    assert(str_views(s.probe_args@) =~= seq!["--version"@]);
    s
}

/// The fields of the rust server's spec.
pub open spec fn rust_fields() -> (Seq<char>, Seq<char>, Seq<Seq<char>>, Seq<Seq<char>>, Seq<char>, DiscoveryStrategy) {
    ("rust"@, "rust-analyzer"@, Seq::<Seq<char>>::empty(), seq!["--version"@], "rustup component add rust-analyzer"@, DiscoveryStrategy::CargoHome)
}

/// Rust: `rust-analyzer`, found under `$CARGO_HOME/bin`.
pub fn rust_server() -> (s: LspBinarySpec)
    ensures
        s.fields() == rust_fields(),
{
    let s = LspBinarySpec {
        language_id: "rust",
        bin_name: "rust-analyzer",
        args: &[],
        probe_args: &["--version"],
        install_hint: "rustup component add rust-analyzer",
        discovery: DiscoveryStrategy::CargoHome,
    };
    assert(str_views(s.args@) =~= Seq::<Seq<char>>::empty());
    assert(str_views(s.probe_args@) =~= seq!["--version"@]);
    s
}

/// The fields of the python server's spec.
pub open spec fn python_fields() -> (Seq<char>, Seq<char>, Seq<Seq<char>>, Seq<Seq<char>>, Seq<char>, DiscoveryStrategy) {
    ("python"@, "ty"@, seq!["server"@], seq!["--version"@], "uv add --dev ty (or uv tool install ty)"@, DiscoveryStrategy::PythonVenv)
}

/// Python: `ty server`, found in a `.venv`.
pub fn python_server() -> (s: LspBinarySpec)
    ensures
        s.fields() == python_fields(),
{
    let s = LspBinarySpec {
        language_id: "python",
        bin_name: "ty",
        args: &["server"],
        probe_args: &["--version"],
        install_hint: "uv add --dev ty (or uv tool install ty)",
        discovery: DiscoveryStrategy::PythonVenv,
    };
    assert(str_views(s.args@) =~= seq!["server"@]);
    assert(str_views(s.probe_args@) =~= seq!["--version"@]);
    s
}

/// The fields of the go server's spec.
pub open spec fn go_fields() -> (Seq<char>, Seq<char>, Seq<Seq<char>>, Seq<Seq<char>>, Seq<char>, DiscoveryStrategy) {
    ("go"@, "gopls"@, Seq::<Seq<char>>::empty(), seq!["version"@], "go install golang.org/x/tools/gopls@latest"@, DiscoveryStrategy::GoBin)
}

/// Go: `gopls`, found under `$GOBIN` or `$GOPATH/bin`; its probe is the
/// `version` subcommand, not a `--version` flag.
pub fn go_server() -> (s: LspBinarySpec)
    ensures
        s.fields() == go_fields(),
{
    let s = LspBinarySpec {
        language_id: "go",
        bin_name: "gopls",
        args: &[],
        probe_args: &["version"],
        install_hint: "go install golang.org/x/tools/gopls@latest",
        discovery: DiscoveryStrategy::GoBin,
    };
    assert(str_views(s.args@) =~= Seq::<Seq<char>>::empty());
    assert(str_views(s.probe_args@) =~= seq!["version"@]);
    s
}

/// The fields of the svelte server's spec.
pub open spec fn svelte_fields() -> (Seq<char>, Seq<char>, Seq<Seq<char>>, Seq<Seq<char>>, Seq<char>, DiscoveryStrategy) {
    ("svelte"@, "svelteserver"@, seq!["--stdio"@], Seq::<Seq<char>>::empty(), "bun add -D svelte-language-server"@, DiscoveryStrategy::NodeModules)
}

/// Svelte: `svelteserver --stdio`, found in `node_modules`; probed with no
/// arguments.
pub fn svelte_server() -> (s: LspBinarySpec)
    ensures
        s.fields() == svelte_fields(),
{
    let s = LspBinarySpec {
        language_id: "svelte",
        bin_name: "svelteserver",
        args: &["--stdio"],
        probe_args: &[],
        install_hint: "bun add -D svelte-language-server",
        discovery: DiscoveryStrategy::NodeModules,
    };
    assert(str_views(s.args@) =~= seq!["--stdio"@]);
    assert(str_views(s.probe_args@) =~= Seq::<Seq<char>>::empty());
    s
}

/// The fields of the oxlint server's spec.
pub open spec fn oxlint_fields() -> (Seq<char>, Seq<char>, Seq<Seq<char>>, Seq<Seq<char>>, Seq<char>, DiscoveryStrategy) {
    ("oxlint"@, "oxlint"@, seq!["--lsp"@], seq!["--version"@], "bun add -D oxlint"@, DiscoveryStrategy::NodeModules)
}

/// The JS/TS linter `oxlint --lsp`, run beside the TypeScript server on
/// the same files; found in `node_modules`.
pub fn oxlint_linter() -> (s: LspBinarySpec)
    ensures
        s.fields() == oxlint_fields(),
{
    let s = LspBinarySpec {
        language_id: "oxlint",
        bin_name: "oxlint",
        args: &["--lsp"],
        probe_args: &["--version"],
        install_hint: "bun add -D oxlint",
        discovery: DiscoveryStrategy::NodeModules,
    };
    assert(str_views(s.args@) =~= seq!["--lsp"@]);
    assert(str_views(s.probe_args@) =~= seq!["--version"@]);
    s
}

/// The file language ids the linter covers: those of the TypeScript
/// server.
pub open spec fn oxlint_language_set() -> Seq<Seq<char>> {
    seq!["typescript"@, "typescriptreact"@, "javascript"@, "javascriptreact"@]
}

/// The file language ids the linter covers.
pub fn oxlint_languages() -> (r: &'static [&'static str])
    ensures
        str_views(r@) == oxlint_language_set(),
{
    let r: &'static [&'static str] = &["typescript", "typescriptreact", "javascript", "javascriptreact"];
    assert(str_views(r@) =~= oxlint_language_set());
    r
}

/// Whether the linter covers files of language `language_id`.
pub fn covers_oxlint_language(language_id: &str) -> (r: bool)
    ensures
        r == oxlint_language_set().contains(language_id@),
{
    let langs = oxlint_languages();
    let mut i: usize = 0;
    while i < langs.len()
        invariant
            i <= langs.len(),
            str_views(langs@) == oxlint_language_set(),
            forall|j: int| 0 <= j < i ==> oxlint_language_set()[j] != language_id@,
        decreases langs.len() - i,
    {
        if str_eq(langs[i], language_id) {
            assert(oxlint_language_set()[i as int] == language_id@);
            return true;
        }
        i = i + 1;
    }
    false
}

/// Which language server serves files of `language_id`: one process
/// for all four JS/TS flavours, one each for Rust, Python and Go.
pub open spec fn spec_for_fields(language_id: Seq<char>) -> Option<(Seq<char>, Seq<char>, Seq<Seq<char>>, Seq<Seq<char>>, Seq<char>, DiscoveryStrategy)> {
    if oxlint_language_set().contains(language_id) {
        Some(ts_fields())
    } else if language_id == "rust"@ {
        Some(rust_fields())
    } else if language_id == "python"@ {
        Some(python_fields())
    } else if language_id == "go"@ {
        Some(go_fields())
    } else {
        None
    }
}

/// The language server for files of `language_id`, if one is wired up.
pub fn spec_for(language_id: &str) -> (r: Option<LspBinarySpec>)
    ensures
        match r {
            Some(s) => spec_for_fields(language_id@) == Some(s.fields()),
            None => spec_for_fields(language_id@) is None,
        },
{
    if covers_oxlint_language(language_id) {
        Some(ts_server())
    } else if str_eq(language_id, "rust") {
        Some(rust_server())
    } else if str_eq(language_id, "python") {
        Some(python_server())
    } else if str_eq(language_id, "go") {
        Some(go_server())
    } else {
        None
    }
}

/// The linter that runs beside the language server for `language_id`:
/// `oxlint` for the JS/TS flavours, none otherwise.
pub fn lint_spec_for(language_id: &str) -> (r: Option<LspBinarySpec>)
    ensures
        match r {
            Some(s) => oxlint_language_set().contains(language_id@) && s.fields() == oxlint_fields(),
            None => !oxlint_language_set().contains(language_id@),
        },
{
    if covers_oxlint_language(language_id) {
        Some(oxlint_linter())
    } else {
        None
    }
}

/// The npm package behind a server installed with a JS package manager.
pub open spec fn npm_package(language_id: Seq<char>) -> Option<Seq<char>> {
    if language_id == "typescript"@ {
        Some("@typescript/native-preview"@)
    } else if language_id == "oxlint"@ {
        Some("oxlint"@)
    } else if language_id == "svelte"@ {
        Some("svelte-language-server"@)
    } else {
        None
    }
}

/// The install hint to show for `spec` in a workspace whose root holds
/// a `pnpm-lock.yaml` (`has_pnpm_lock`) and/or a `package-lock.json`
/// (`has_npm_lock`): npm-distributed servers get the command of the
/// project's package manager, pnpm first; all others, and a project on
/// neither, get the spec's own hint.
pub open spec fn install_hint_spec(spec_fields: (Seq<char>, Seq<char>, Seq<Seq<char>>, Seq<Seq<char>>, Seq<char>, DiscoveryStrategy), has_pnpm_lock: bool, has_npm_lock: bool) -> Seq<char> {
    match npm_package(spec_fields.0) {
        Some(pkg) => if has_pnpm_lock {
            "pnpm -wD add "@ + pkg
        } else if has_npm_lock {
            "npm i -D "@ + pkg
        } else {
            spec_fields.4
        },
        None => spec_fields.4,
    }
}

/// Resolve the install hint for `spec`, given which lockfiles sit at
/// the workspace root.
pub fn resolve_install_hint(spec: &LspBinarySpec, has_pnpm_lock: bool, has_npm_lock: bool) -> (r: String)
    ensures
        r@ == install_hint_spec(spec.fields(), has_pnpm_lock, has_npm_lock),
{
    let pkg: Option<&str> = if str_eq(spec.language_id, "typescript") {
        Some("@typescript/native-preview")
    } else if str_eq(spec.language_id, "oxlint") {
        Some("oxlint")
    } else if str_eq(spec.language_id, "svelte") {
        Some("svelte-language-server")
    } else {
        None
    };
    match pkg {
        None => spec.install_hint.to_owned(),
        Some(p) => {
            if has_pnpm_lock {
                let mut v = chars_of("pnpm -wD add ");
                push_str_chars(&mut v, p);
                string_from_chars(v.as_slice())
            } else if has_npm_lock {
                let mut v = chars_of("npm i -D ");
                push_str_chars(&mut v, p);
                string_from_chars(v.as_slice())
            } else {
                spec.install_hint.to_owned()
            }
        },
    }
}

/// The name under which a server's log lines are collected.
pub fn log_source_for(language_id: &str) -> (r: String)
    ensures
        r@ == "lsp."@ + language_id@,
{
    let mut v = chars_of("lsp.");
    push_str_chars(&mut v, language_id);
    string_from_chars(v.as_slice())
}

/// Whether `spec` is the linter co-tenant (kept apart from the language
/// servers, so one language id can have both).
pub fn is_lint_slot(spec: &LspBinarySpec) -> (r: bool)
    ensures
        r == (spec.language_id@ == "oxlint"@),
{
    str_eq(spec.language_id, "oxlint")
}

/// How workspace paths map between this machine and the server's view.
#[derive(Debug, Clone)]
pub enum PathTranslator {
    /// The server sees the same paths as we do.
    Identity { host_root: String },
    /// The server runs in a container that mounts `host_root` at
    /// `server_root`.
    HostMount { host_root: String, server_root: String },
}

impl PathTranslator {
    /// The root the server sees.
    pub open spec fn server_root_spec(&self) -> Seq<char> {
        match self {
            PathTranslator::Identity { host_root } => host_root@,
            PathTranslator::HostMount { server_root, .. } => server_root@,
        }
    }

    /// The root on this machine.
    pub open spec fn host_root_spec(&self) -> Seq<char> {
        match self {
            PathTranslator::Identity { host_root } => host_root@,
            PathTranslator::HostMount { host_root, .. } => host_root@,
        }
    }

    /// Workspace-relative path to the absolute path the server sees.
    pub fn absolutise(&self, rel_path: &str) -> (r: String)
        ensures
            r@ == utf8_join(self.server_root_spec(), rel_path@),
    {
        match self {
            PathTranslator::Identity { host_root } => join_path(host_root.as_str(), rel_path),
            PathTranslator::HostMount { server_root, .. } => join_path(server_root.as_str(), rel_path),
        }
    }

    /// Absolute path the server sees to a forward-slash workspace-relative
    /// path; `None` for a path outside the server root.
    pub fn relativise(&self, abs: &str) -> (r: Option<String>)
        ensures
            match r {
                Some(s) => utf8_strip_prefix(abs@, self.server_root_spec()) matches Some(rel)
                    && s@ == forward_slashes(rel),
                None => utf8_strip_prefix(abs@, self.server_root_spec()) is None,
            },
    {
        let root = match self {
            PathTranslator::Identity { host_root } => host_root.as_str(),
            PathTranslator::HostMount { server_root, .. } => server_root.as_str(),
        };
        match strip_path_prefix(abs, root) {
            Some(rel) => Some(to_forward_slashes(rel.as_str())),
            None => None,
        }
    }

    /// The root the server sees (what `rootUri` points at).
    pub fn server_root(&self) -> (r: &String)
        ensures
            r@ == self.server_root_spec(),
    {
        match self {
            PathTranslator::Identity { host_root } => host_root,
            PathTranslator::HostMount { server_root, .. } => server_root,
        }
    }

    /// The root on this machine.
    pub fn host_root(&self) -> (r: &String)
        ensures
            r@ == self.host_root_spec(),
    {
        match self {
            PathTranslator::Identity { host_root } => host_root,
            PathTranslator::HostMount { host_root, .. } => host_root,
        }
    }

    /// Whether the server lives in another process namespace (so our
    /// process id must not be handed to it).
    pub fn is_remote(&self) -> (r: bool)
        ensures
            r == (self is HostMount),
    {
        match self {
            PathTranslator::Identity { .. } => false,
            PathTranslator::HostMount { .. } => true,
        }
    }
}

/// The container-side binary of `spec` when its discovery gives a bare
/// name the container's `$PATH` resolves (`CargoHome`, `GoBin`);
/// `None` for an `Identity` translator, which has no container; and the
/// strategy that needs a walk of the host filesystem otherwise.
pub enum ContainerBinary {
    NoContainer,
    Basename(String),
    /// Search the host below the mount for this layout.
    Search(DiscoveryStrategy),
}

/// The first decision of resolving `spec`'s binary inside the container.
pub fn container_binary_plan(spec: &LspBinarySpec, translator: &PathTranslator) -> (r: ContainerBinary)
    ensures
        match r {
            ContainerBinary::NoContainer => translator is Identity,
            ContainerBinary::Basename(b) => translator is HostMount
                && (spec.discovery == DiscoveryStrategy::CargoHome || spec.discovery == DiscoveryStrategy::GoBin)
                && b@ == spec.bin_name@,
            ContainerBinary::Search(d) => translator is HostMount
                && (spec.discovery == DiscoveryStrategy::NodeModules || spec.discovery == DiscoveryStrategy::PythonVenv)
                && d == spec.discovery,
        },
{
    if !translator.is_remote() {
        return ContainerBinary::NoContainer;
    }
    match spec.discovery {
        DiscoveryStrategy::CargoHome => ContainerBinary::Basename(spec.bin_name.to_owned()),
        DiscoveryStrategy::GoBin => ContainerBinary::Basename(spec.bin_name.to_owned()),
        DiscoveryStrategy::NodeModules => ContainerBinary::Search(DiscoveryStrategy::NodeModules),
        DiscoveryStrategy::PythonVenv => ContainerBinary::Search(DiscoveryStrategy::PythonVenv),
    }
}

} // verus!
