//! Where a language server's binary is looked for: the candidate paths
//! of each discovery strategy, in the order they are tried, and the
//! checks applied to what is found. Probing the filesystem, the
//! environment and `$PATH` is the caller's; it tries the candidates in
//! order and keeps the first that exists.
use vstd::prelude::*;
use crate::json::{spec_get, Json};
use crate::num::parse_unsigned_spec;
use crate::paths::{file_name, join_path, parent_path, paths_equal, strip_path_prefix, utf8_file_name, utf8_join, utf8_parent, utf8_path_eq, utf8_strip_prefix};
use crate::workspace::{chars_le, name_le};
use crate::text::{before_char, before_char_len, chars_of, forward_slashes, push_str_chars, str_eq, string_from_chars, to_forward_slashes, trim, trim_bounds, utf8_str};

verus! {

/// `dir` and its ancestors, nearest first, up to a directory without a
/// parent (`Path::ancestors`).
pub open spec fn ancestors(dir: Seq<char>) -> Seq<Seq<char>>
    decreases dir.len(),
{
    match utf8_parent(dir) {
        Some(p) => if p.len() < dir.len() {
            seq![dir] + ancestors(p)
        } else {
            seq![dir]
        },
        None => seq![dir],
    }
}

/// `dir/a/b/file`.
pub open spec fn nested(dir: Seq<char>, a: Seq<char>, b: Seq<char>, file: Seq<char>) -> Seq<char> {
    utf8_join(utf8_join(utf8_join(dir, a), b), file)
}

/// `dir/a/b/file` for every ancestor `dir` of `start`, nearest first.
pub open spec fn ancestor_candidates(start: Seq<char>, a: Seq<char>, b: Seq<char>, file: Seq<char>) -> Seq<Seq<char>> {
    ancestors(start).map_values(|d: Seq<char>| nested(d, a, b, file))
}

/// The candidates `dir/a/b/file` over the ancestors of `start`, nearest
/// first: `node_modules/.bin/<bin>` for the hoisted npm layout,
/// `.venv/bin/<bin>` for a project virtualenv.
pub fn ancestor_bin_candidates(start: &str, a: &str, b: &str, file: &str) -> (r: Vec<String>)
    ensures
        r.deep_view() == ancestor_candidates(start@, a@, b@, file@),
{
    let mut out: Vec<String> = Vec::new();
    let mut dir: String = start.to_owned();
    let ghost mut done: Seq<Seq<char>> = seq![];
    assert(out.deep_view() =~= Seq::<Seq<char>>::empty());
    loop
        invariant_except_break
            done + ancestors(dir@) == ancestors(start@),
            out.deep_view() == done.map_values(|d: Seq<char>| nested(d, a@, b@, file@)),
        ensures
            out.deep_view() == ancestors(start@).map_values(|d: Seq<char>| nested(d, a@, b@, file@)),
        decreases dir@.len(),
    {
        let x = join_path(dir.as_str(), a);
        let y = join_path(x.as_str(), b);
        let c = join_path(y.as_str(), file);
        let ghost d0 = done;
        let ghost o0 = out.deep_view();
        out.push(c);
        proof {
            done = d0.push(dir@);
            assert(out.deep_view() =~= o0.push(c@));
            assert(done.map_values(|d: Seq<char>| nested(d, a@, b@, file@)) =~= d0.map_values(
                |d: Seq<char>| nested(d, a@, b@, file@),
            ).push(nested(dir@, a@, b@, file@)));
        }
        match parent_path(dir.as_str()) {
            Some(p) => {
                assert(ancestors(dir@) =~= seq![dir@] + ancestors(p@));
                assert(d0 + ancestors(dir@) =~= done + ancestors(p@));
                dir = p;
            },
            None => {
                assert(ancestors(dir@) =~= seq![dir@]);
                assert(d0 + ancestors(dir@) =~= done);
                break;
            },
        }
    }
    out
}

/// The in-container path of a binary found on the host at
/// `host_match`: its place under the mounted `host_root`, re-rooted at
/// `server_root`; `None` when it lies outside the mount, where the
/// container cannot reach it.
pub fn container_path_of(host_match: &str, host_root: &str, server_root: &str) -> (r: Option<String>)
    ensures
        match utf8_strip_prefix(host_match@, host_root@) {
            Some(rel) => r matches Some(p) && p@ == utf8_join(server_root@, rel),
            None => r is None,
        },
{
    match strip_path_prefix(host_match, host_root) {
        Some(rel) => Some(join_path(server_root, rel.as_str())),
        None => None,
    }
}

/// Whether the bounded scan for nested `node_modules/.bin` descends into
/// the directory entry `name`: real directories only (no links), and
/// never `node_modules`, `.git` or another hidden directory.
pub open spec fn scan_descends(name: Seq<char>, is_symlink: bool, is_dir: bool) -> bool {
    &&& !is_symlink
    &&& is_dir
    &&& name != "node_modules"@
    &&& name != ".git"@
    &&& !(name.len() > 0 && name[0] == '.')
}

/// See [`scan_descends`].
pub fn scan_descends_into(name: &str, is_symlink: bool, is_dir: bool) -> (r: bool)
    ensures
        r == scan_descends(name@, is_symlink, is_dir),
{
    if is_symlink || !is_dir {
        return false;
    }
    if str_eq(name, "node_modules") || str_eq(name, ".git") {
        return false;
    }
    let cs = chars_of(name);
    !(cs.len() > 0 && cs[0] == '.')
}

/// How deep the scan for nested `node_modules/.bin` goes below the
/// workspace root.
pub const NODE_MODULES_SCAN_DEPTH: u32 = 4;

/// The file name of an npm binary: `<bin>.cmd` on Windows.
pub fn node_bin_filename(bin_name: &str, windows: bool) -> (r: String)
    ensures
        r@ == if windows {
            bin_name@ + ".cmd"@
        } else {
            bin_name@
        },
{
    if windows {
        let mut v = chars_of(bin_name);
        push_str_chars(&mut v, ".cmd");
        string_from_chars(v.as_slice())
    } else {
        bin_name.to_owned()
    }
}

/// The file name of a native binary: `<bin>.exe` on Windows.
pub open spec fn exe_name(bin_name: Seq<char>, windows: bool) -> Seq<char> {
    if windows {
        bin_name + ".exe"@
    } else {
        bin_name
    }
}

fn exe_filename(bin_name: &str, windows: bool) -> (r: String)
    ensures
        r@ == exe_name(bin_name@, windows),
{
    if windows {
        let mut v = chars_of(bin_name);
        push_str_chars(&mut v, ".exe");
        string_from_chars(v.as_slice())
    } else {
        bin_name.to_owned()
    }
}

/// Where a virtualenv keeps an installed CLI: `bin/<bin>`, or
/// `Scripts/<bin>.exe` on Windows.
pub fn python_venv_layout(bin_name: &str, windows: bool) -> (r: (&'static str, String))
    ensures
        r.0@ == (if windows {
            "Scripts"@
        } else {
            "bin"@
        }),
        r.1@ == exe_name(bin_name@, windows),
{
    if windows {
        ("Scripts", exe_filename(bin_name, true))
    } else {
        ("bin", exe_filename(bin_name, false))
    }
}

/// `$GOBIN/<bin>`, else `$GOPATH/bin/<bin>` with `$GOPATH` defaulting
/// to `$HOME/go` (then `$USERPROFILE/go`); `None` when none is set.
pub open spec fn go_bin_spec(bin: Seq<char>, gobin: Option<Seq<char>>, gopath: Option<Seq<char>>, home: Option<Seq<char>>, userprofile: Option<Seq<char>>, windows: bool) -> Option<Seq<char>> {
    let f = exe_name(bin, windows);
    match gobin {
        Some(g) => Some(utf8_join(g, f)),
        None => {
            let base = match gopath {
                Some(p) => Some(p),
                None => match home {
                    Some(h) => Some(utf8_join(h, "go"@)),
                    None => match userprofile {
                        Some(u) => Some(utf8_join(u, "go"@)),
                        None => None,
                    },
                },
            };
            match base {
                Some(b) => Some(utf8_join(utf8_join(b, "bin"@), f)),
                None => None,
            }
        },
    }
}

/// The value of an optional text.
pub open spec fn opt_text(o: Option<&str>) -> Option<Seq<char>> {
    match o {
        Some(s) => Some(s@),
        None => None,
    }
}

/// See [`go_bin_spec`]; the environment values are passed in.
pub fn go_bin_candidate(bin_name: &str, gobin: Option<&str>, gopath: Option<&str>, home: Option<&str>, userprofile: Option<&str>, windows: bool) -> (r: Option<String>)
    ensures
        match r {
            Some(p) => go_bin_spec(bin_name@, opt_text(gobin), opt_text(gopath), opt_text(home), opt_text(userprofile), windows) == Some(p@),
            None => go_bin_spec(bin_name@, opt_text(gobin), opt_text(gopath), opt_text(home), opt_text(userprofile), windows) is None,
        },
{
    let f = exe_filename(bin_name, windows);
    if let Some(g) = gobin {
        return Some(join_path(g, f.as_str()));
    }
    let base = match gopath {
        Some(p) => p.to_owned(),
        None => match home {
            Some(h) => join_path(h, "go"),
            None => match userprofile {
                Some(u) => join_path(u, "go"),
                None => {
                    return None;
                },
            },
        },
    };
    let b = join_path(base.as_str(), "bin");
    Some(join_path(b.as_str(), f.as_str()))
}

/// `$CARGO_HOME/bin/<bin>`, with `$CARGO_HOME` defaulting to
/// `$HOME/.cargo` (then `$USERPROFILE/.cargo`); `None` when none is set.
pub open spec fn cargo_bin_spec(bin: Seq<char>, cargo_home: Option<Seq<char>>, home: Option<Seq<char>>, userprofile: Option<Seq<char>>, windows: bool) -> Option<Seq<char>> {
    let base = match cargo_home {
        Some(c) => Some(c),
        None => match home {
            Some(h) => Some(utf8_join(h, ".cargo"@)),
            None => match userprofile {
                Some(u) => Some(utf8_join(u, ".cargo"@)),
                None => None,
            },
        },
    };
    match base {
        Some(b) => Some(utf8_join(utf8_join(b, "bin"@), exe_name(bin, windows))),
        None => None,
    }
}

/// See [`cargo_bin_spec`]; the environment values are passed in.
pub fn cargo_bin_candidate(bin_name: &str, cargo_home: Option<&str>, home: Option<&str>, userprofile: Option<&str>, windows: bool) -> (r: Option<String>)
    ensures
        match r {
            Some(p) => cargo_bin_spec(bin_name@, opt_text(cargo_home), opt_text(home), opt_text(userprofile), windows) == Some(p@),
            None => cargo_bin_spec(bin_name@, opt_text(cargo_home), opt_text(home), opt_text(userprofile), windows) is None,
        },
{
    let f = exe_filename(bin_name, windows);
    let base = match cargo_home {
        Some(c) => c.to_owned(),
        None => match home {
            Some(h) => join_path(h, ".cargo"),
            None => match userprofile {
                Some(u) => join_path(u, ".cargo"),
                None => {
                    return None;
                },
            },
        },
    };
    let b = join_path(base.as_str(), "bin");
    Some(join_path(b.as_str(), f.as_str()))
}

/// A link whose target is named `rustup` is a rustup proxy, which dies
/// unless the tool is an installed toolchain component.
pub fn is_rustup_link_target(target: &str) -> (r: bool)
    ensures
        r == (utf8_file_name(target@) == Some("rustup"@)),
{
    match file_name(target) {
        Some(n) => str_eq(n.as_str(), "rustup"),
        None => false,
    }
}

/// The path `rustup which <tool>` printed: its standard output, which
/// must be UTF-8, trimmed; `None` when nothing is left.
pub open spec fn rustup_which_spec(stdout: Seq<u8>) -> Option<Seq<char>> {
    if vstd::utf8::valid_utf8(stdout) {
        let t = trim(vstd::utf8::decode_utf8(stdout));
        if t.len() == 0 {
            None
        } else {
            Some(t)
        }
    } else {
        None
    }
}

/// See [`rustup_which_spec`].
pub fn rustup_which_path(stdout: &[u8]) -> (r: Option<String>)
    ensures
        match r {
            Some(p) => rustup_which_spec(stdout@) == Some(p@),
            None => rustup_which_spec(stdout@) is None,
        },
{
    let s = match utf8_str(stdout) {
        Some(s) => s,
        None => {
            return None;
        },
    };
    let cs = chars_of(s);
    let (a, b) = trim_bounds(cs.as_slice());
    if a == b {
        return None;
    }
    Some(crate::text::string_from_range(cs.as_slice(), a, b))
}

/// The major version in a `typescript/package.json` manifest: its
/// `version` text up to the first `.`, parsed as a `u64`.
pub open spec fn major_version_spec(manifest: Json) -> Option<nat> {
    match spec_get(manifest, "version"@) {
        Some(Json::Str(v)) => parse_unsigned_spec(before_char(v@, '.'), u64::MAX as nat),
        _ => None,
    }
}

/// See [`major_version_spec`].
pub fn typescript_major_version(manifest: &Json) -> (r: Option<u64>)
    ensures
        match r {
            Some(m) => major_version_spec(*manifest) == Some(m as nat),
            None => major_version_spec(*manifest) is None,
        },
{
    let v = match manifest.get("version") {
        Some(Json::Str(v)) => v,
        _ => {
            return None;
        },
    };
    let cs = chars_of(v.as_str());
    let k = before_char_len(cs.as_slice(), '.');
    let head = &cs.as_slice()[0..k];
    assert(head@ =~= cs@.take(k as int));
    crate::num::parse_unsigned(head, u64::MAX)
}

/// A `tsc` next to a `typescript` package of major version 7 or later
/// speaks LSP; earlier ones are the JavaScript compiler.
pub fn is_native_tsc(major: Option<u64>) -> (r: bool)
    ensures
        r == (major matches Some(m) && m >= 7),
{
    match major {
        Some(m) => m >= 7,
        None => false,
    }
}

// ---- oxlint workspace folders ----

/// The folder (relative to `root`, forward-slashed) a nested
/// `.oxlintrc.json` at `path` adds; `None` for another file, for the
/// root's own config, and for a path outside the root.
pub open spec fn oxlint_folder_spec(path: Seq<char>, root: Seq<char>) -> Option<Seq<char>> {
    if utf8_file_name(path) != Some(".oxlintrc.json"@) {
        None
    } else {
        match utf8_parent(path) {
            None => None,
            Some(p) => if utf8_path_eq(p, root) {
                None
            } else {
                match utf8_strip_prefix(p, root) {
                    None => None,
                    Some(rel) => if forward_slashes(rel).len() == 0 {
                        None
                    } else {
                        Some(forward_slashes(rel))
                    },
                }
            },
        }
    }
}

/// The workspace folder an entry of the config walk below `root`
/// adds: only files below the root itself (`depth` > 0) count.
pub fn oxlint_config_folder(path: &str, is_file: bool, depth: usize, root: &str) -> (r: Option<String>)
    ensures
        match r {
            Some(f) => depth > 0 && is_file && oxlint_folder_spec(path@, root@) == Some(f@),
            None => depth == 0 || !is_file || oxlint_folder_spec(path@, root@) is None,
        },
{
    if depth == 0 || !is_file {
        return None;
    }
    match file_name(path) {
        Some(n) => {
            if !str_eq(n.as_str(), ".oxlintrc.json") {
                return None;
            }
        },
        None => {
            return None;
        },
    }
    let parent = match parent_path(path) {
        Some(p) => p,
        None => {
            return None;
        },
    };
    if paths_equal(parent.as_str(), root) {
        return None;
    }
    match strip_path_prefix(parent.as_str(), root) {
        Some(rel) => {
            let n = to_forward_slashes(rel.as_str());
            if n.as_str().is_empty() {
                None
            } else {
                Some(n)
            }
        },
        None => None,
    }
}

proof fn lemma_name_le_antisym(a: Seq<char>, b: Seq<char>)
    requires
        name_le(a, b),
        name_le(b, a),
    ensures
        a == b,
    decreases a.len(),
{
    if a.len() > 0 && b.len() > 0 && a[0] == b[0] {
        lemma_name_le_antisym(a.skip(1), b.skip(1));
        assert(a =~= seq![a[0]] + a.skip(1));
        assert(b =~= seq![b[0]] + b.skip(1));
    }
}

fn strictly_before(a: &str, b: &str) -> (r: bool)
    ensures
        r == (name_le(a@, b@) && a@ != b@),
{
    let x = chars_of(a);
    let y = chars_of(b);
    chars_le(x.as_slice(), y.as_slice()) && !crate::text::chars_eq(x.as_slice(), y.as_slice())
}

/// Strictly ascending by code point (so without repeats).
pub open spec fn strictly_ascending(s: Seq<Seq<char>>) -> bool {
    forall|i: int, j: int| 0 <= i < j < s.len() ==> name_le(#[trigger] s[i], #[trigger] s[j]) && s[i] != s[j]
}

/// The workspace folders oxlint is started with: the root (`""`) and
/// every folder found, sorted, each once.
pub fn oxlint_folder_list(found: Vec<String>) -> (r: Vec<String>)
    ensures
        strictly_ascending(r.deep_view()),
        r.deep_view().to_set() == found.deep_view().to_set().insert(Seq::<char>::empty()),
{
    let mut out: Vec<String> = Vec::new();
    out.push(String::new());
    proof {
        reveal_strlit("");
    }
    assert(out.deep_view() =~= seq![Seq::<char>::empty()]);
    proof {
        let e = Seq::<char>::empty();
        assert(found.deep_view().take(0) =~= Seq::<Seq<char>>::empty());
        assert(Seq::<Seq<char>>::empty().to_set() =~= Set::<Seq<char>>::empty());
        assert(seq![e].to_set() =~= Set::<Seq<char>>::empty().insert(e)) by {
            assert(seq![e] =~= Seq::<Seq<char>>::empty().push(e));
            Seq::<Seq<char>>::empty().lemma_push_to_set_commute(e);
        }
    }
    let mut i: usize = 0;
    while i < found.len()
        invariant
            i <= found.len(),
            strictly_ascending(out.deep_view()),
            out.deep_view().to_set() == found.deep_view().take(i as int).to_set().insert(Seq::<char>::empty()),
        decreases found.len() - i,
    {
        let x = found[i].clone();
        let xs = chars_of(x.as_str());
        let ghost o0 = out.deep_view();
        let mut p: usize = 0;
        while p < out.len() && strictly_before(out[p].as_str(), x.as_str())
            invariant
                p <= out.len(),
                out.deep_view() == o0,
                xs@ == x@,
                forall|k: int| 0 <= k < p ==> name_le(#[trigger] o0[k], x@) && o0[k] != x@,
            decreases out.len() - p,
        {
            p = p + 1;
        }
        assert(found.deep_view().take(i + 1) =~= found.deep_view().take(i as int).push(found@[i as int]@));
        assert(found.deep_view()[i as int] == found@[i as int]@);
        proof {
            found.deep_view().take(i as int).lemma_push_to_set_commute(x@);
        }
        assert(found.deep_view().take(i + 1).to_set() =~= found.deep_view().take(i as int).to_set().insert(x@));
        if p < out.len() && str_eq(out[p].as_str(), x.as_str()) {
            assert(o0[p as int] == x@);
            assert(o0.to_set().contains(x@));
            assert(o0.to_set().insert(x@) =~= o0.to_set());
        } else {
            proof {
                if p < o0.len() {
                    crate::workspace::lemma_name_le_total(o0[p as int], x@);
                }
            }
            out.insert(p, x);
            let ghost s = out.deep_view();
            assert(s =~= o0.insert(p as int, x@));
            assert forall|a: int, b: int| 0 <= a < b < s.len() implies name_le(#[trigger] s[a], #[trigger] s[b]) && s[a] != s[b] by {
                if b < p {
                    assert(s[a] == o0[a] && s[b] == o0[b]);
                } else if b == p {
                    assert(s[a] == o0[a]);
                } else if a < p {
                    assert(s[a] == o0[a] && s[b] == o0[b - 1]);
                    assert(a < b - 1);
                } else if a == p {
                    assert(s[b] == o0[b - 1]);
                    if b - 1 > p {
                        crate::workspace::lemma_name_le_trans(x@, o0[p as int], o0[b - 1]);
                        if x@ == o0[b - 1] {
                            lemma_name_le_antisym(x@, o0[p as int]);
                        }
                    }
                } else {
                    assert(s[a] == o0[a - 1] && s[b] == o0[b - 1]);
                }
            }
            assert forall|y: Seq<char>| s.to_set().contains(y) <==> o0.to_set().insert(x@).contains(y) by {
                if s.to_set().contains(y) {
                    let k = choose|k: int| 0 <= k < s.len() && s[k] == y;
                    if k < p {
                        assert(o0[k] == y);
                    } else if k > p {
                        assert(o0[k - 1] == y);
                    }
                }
                if o0.to_set().contains(y) {
                    let k = choose|k: int| 0 <= k < o0.len() && o0[k] == y;
                    if k < p {
                        assert(s[k] == y);
                    } else {
                        assert(s[k + 1] == y);
                    }
                }
                if y == x@ {
                    assert(s[p as int] == y);
                }
            }
            assert(s.to_set() =~= o0.to_set().insert(x@));
        }
        i = i + 1;
    }
    assert(found.deep_view().take(found.len() as int) =~= found.deep_view());
    out
}

} // verus!
