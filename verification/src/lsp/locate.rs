//! Finding a language server's binary, as a sequence of questions about
//! the machine: does this path exist, what does `$PATH` resolve, what
//! does `rustup which` print, where does this link point, what is in
//! this directory, what does this manifest say. A search is a list of
//! checks tried in order, project-local ones first; the first check
//! that finds a binary ends it. For a server running in a container the
//! binary found on the host is re-rooted under the container's mount.
//! Asking the questions is the caller's: it answers each
//! [`LocateStep::Ask`] and hands the answer to [`Locate::advance`].
use vstd::prelude::*;
use crate::json::Json;
use crate::lsp::server::{DiscoveryStrategy, LspBinarySpec};
use crate::lsp::discovery::{
    ancestor_bin_candidates, ancestor_candidates, cargo_bin_candidate, cargo_bin_spec, exe_name, go_bin_candidate,
    go_bin_spec, node_bin_filename, opt_text, python_venv_layout, ancestors, major_version_spec, nested, rustup_which_path, rustup_which_spec, scan_descends, scan_descends_into,
    typescript_major_version, NODE_MODULES_SCAN_DEPTH,
};
use crate::lsp::translate::opt_view;
use crate::paths::{file_name, join_path, parent_path, strip_path_prefix, utf8_file_name, utf8_join, utf8_parent, utf8_strip_prefix};
use crate::text::str_eq;

verus! {

/// An entry of a directory listing.
pub struct DirChild {
    pub name: String,
    pub is_dir: bool,
    pub is_symlink: bool,
}

/// A question the search asks about the machine.
pub enum Probe {
    /// Does `path` exist?
    Exists { path: String },
    /// Where does `$PATH` resolve `bin`?
    Which { bin: String },
    /// How does `rustup which <bin>` go?
    RustupWhich { bin: String },
    /// Where does the link `path` point, if it is one?
    ReadLink { path: String },
    /// What does the directory `path` hold?
    ListDir { path: String },
    /// What does the JSON file `path` hold?
    ReadManifest { path: String },
}

/// A [`Probe`] as a value.
pub ghost enum ProbeView {
    Exists(Seq<char>),
    Which(Seq<char>),
    RustupWhich(Seq<char>),
    ReadLink(Seq<char>),
    ListDir(Seq<char>),
    ReadManifest(Seq<char>),
}

impl View for Probe {
    type V = ProbeView;

    open spec fn view(&self) -> ProbeView {
        match self {
            Probe::Exists { path } => ProbeView::Exists(path@),
            Probe::Which { bin } => ProbeView::Which(bin@),
            Probe::RustupWhich { bin } => ProbeView::RustupWhich(bin@),
            Probe::ReadLink { path } => ProbeView::ReadLink(path@),
            Probe::ListDir { path } => ProbeView::ListDir(path@),
            Probe::ReadManifest { path } => ProbeView::ReadManifest(path@),
        }
    }
}

/// The answer to a [`Probe`]. An answer of another kind than the
/// question reads as "no".
pub enum ProbeAnswer {
    /// To `Exists`.
    Exists(bool),
    /// To `Which`: the resolved path, if any.
    Found(Option<String>),
    /// To `RustupWhich`: whether it succeeded, and what it printed.
    Ran { success: bool, stdout: Vec<u8> },
    /// To `ReadLink`: the link's target; none when `path` is no link.
    LinkTarget(Option<String>),
    /// To `ListDir`: the entries, in the order the system lists them;
    /// none when the directory cannot be read.
    Listing(Option<Vec<DirChild>>),
    /// To `ReadManifest`: the file's JSON; none when it cannot be read
    /// or parsed.
    Manifest(Option<Json>),
}

/// A [`ProbeAnswer`] as a value; a listing entry is its name and
/// whether it is a directory and a link.
pub ghost enum AnswerView {
    Exists(bool),
    Found(Option<Seq<char>>),
    Ran(bool, Seq<u8>),
    LinkTarget(Option<Seq<char>>),
    Listing(Option<Seq<(Seq<char>, bool, bool)>>),
    Manifest(Option<Json>),
}

pub open spec fn children_view(cs: Seq<DirChild>) -> Seq<(Seq<char>, bool, bool)> {
    cs.map_values(|c: DirChild| (c.name@, c.is_dir, c.is_symlink))
}

impl View for ProbeAnswer {
    type V = AnswerView;

    open spec fn view(&self) -> AnswerView {
        match self {
            ProbeAnswer::Exists(b) => AnswerView::Exists(*b),
            ProbeAnswer::Found(p) => AnswerView::Found(opt_view(*p)),
            ProbeAnswer::Ran { success, stdout } => AnswerView::Ran(*success, stdout@),
            ProbeAnswer::LinkTarget(t) => AnswerView::LinkTarget(opt_view(*t)),
            ProbeAnswer::Listing(l) => AnswerView::Listing(
                match l {
                    Some(cs) => Some(children_view(cs@)),
                    None => None,
                },
            ),
            ProbeAnswer::Manifest(m) => AnswerView::Manifest(*m),
        }
    }
}

/// One check of a search.
pub enum CheckKind {
    /// `path`, if it exists.
    Exists { path: String },
    /// The first `node_modules/.bin/<filename>` in a bounded depth-first
    /// scan below `root`; with `ts7`, only when the `typescript` package
    /// beside it is major 7 or later.
    Scan { root: String, filename: String, ts7: bool },
    /// `<node_modules>/.bin/<filename>`, when it exists and the
    /// `typescript` package beside it is major 7 or later.
    Ts7At { node_modules: String, filename: String },
    /// The path `rustup which <bin>` prints.
    Rustup { bin: String },
    /// `path`, when it exists and is not a rustup proxy.
    CargoCandidate { path: String },
    /// Where `$PATH` resolves `bin`; with `reject_shim`, not a rustup
    /// proxy.
    Which { bin: String, reject_shim: bool },
}

/// A [`CheckKind`] as a value.
pub ghost enum CheckView {
    Exists(Seq<char>),
    Scan(Seq<char>, Seq<char>, bool),
    Ts7At(Seq<char>, Seq<char>),
    Rustup(Seq<char>),
    CargoCandidate(Seq<char>),
    Which(Seq<char>, bool),
}

/// A check, and whether a binary it finds outside the container's mount
/// ends the search with nothing (rather than moving on).
pub struct Check {
    pub kind: CheckKind,
    pub stop_outside: bool,
}

impl View for Check {
    type V = (CheckView, bool);

    open spec fn view(&self) -> (CheckView, bool) {
        (
            match self.kind {
                CheckKind::Exists { path } => CheckView::Exists(path@),
                CheckKind::Scan { root, filename, ts7 } => CheckView::Scan(root@, filename@, ts7),
                CheckKind::Ts7At { node_modules, filename } => CheckView::Ts7At(node_modules@, filename@),
                CheckKind::Rustup { bin } => CheckView::Rustup(bin@),
                CheckKind::CargoCandidate { path } => CheckView::CargoCandidate(path@),
                CheckKind::Which { bin, reject_shim } => CheckView::Which(bin@, reject_shim),
            },
            self.stop_outside,
        )
    }
}

pub open spec fn checks_view(cs: Seq<Check>) -> Seq<(CheckView, bool)> {
    cs.map_values(|c: Check| c@)
}

/// What the search waits for.
pub enum Phase {
    /// The first answer of the current check.
    Asking,
    /// The `typescript` manifest beside the candidate `found`.
    Manifest { found: String },
    /// The link target of the candidate `found`.
    Link { found: String },
    /// An answer of the current scan.
    Scanning,
    /// Nothing: the search is over.
    Finished,
}

/// A [`Phase`] as a value.
pub ghost enum PhaseView {
    Asking,
    Manifest(Seq<char>),
    Link(Seq<char>),
    Scanning,
    Finished,
}

/// A directory of the scan whose children are being visited: the
/// children to descend into, the next one, and the directory's depth.
pub struct Frame {
    children: Vec<String>,
    next: usize,
    depth: u32,
}

/// A [`Frame`] as a value.
pub ghost struct FrameView {
    pub children: Seq<Seq<char>>,
    pub next: int,
    pub depth: u32,
}

spec fn frames_view(fs: Seq<Frame>) -> Seq<FrameView> {
    fs.map_values(|f: Frame| FrameView { children: f.children.deep_view(), next: f.next as int, depth: f.depth })
}

/// Where a search stands between two questions.
pub struct Locate {
    checks: Vec<Check>,
    at: usize,
    mount: Option<(String, String)>,
    phase: Phase,
    frames: Vec<Frame>,
    dir: String,
    depth: u32,
    listing: bool,
}

/// A [`Locate`] as a value: the checks and the current one; the host
/// and container roots of the mount, for a containerised server; what
/// it waits for; and the scan's open directories, the directory being
/// probed, its depth and whether its listing is awaited.
pub ghost struct LocateView {
    pub checks: Seq<(CheckView, bool)>,
    pub at: int,
    pub mount: Option<(Seq<char>, Seq<char>)>,
    pub phase: PhaseView,
    pub frames: Seq<FrameView>,
    pub dir: Seq<char>,
    pub depth: u32,
    pub listing: bool,
}

impl View for Locate {
    type V = LocateView;

    closed spec fn view(&self) -> LocateView {
        LocateView {
            checks: checks_view(self.checks@),
            at: self.at as int,
            mount: match self.mount {
                Some((h, s)) => Some((h@, s@)),
                None => None,
            },
            phase: match self.phase {
                Phase::Asking => PhaseView::Asking,
                Phase::Manifest { found } => PhaseView::Manifest(found@),
                Phase::Link { found } => PhaseView::Link(found@),
                Phase::Scanning => PhaseView::Scanning,
                Phase::Finished => PhaseView::Finished,
            },
            frames: frames_view(self.frames@),
            dir: self.dir@,
            depth: self.depth,
            listing: self.listing,
        }
    }
}

/// What to do next.
pub enum LocateStep {
    /// Answer `probe` and hand the answer to [`Locate::advance`].
    Ask(Probe),
    /// The search is over: the binary, or none.
    Done(Option<String>),
}

/// A [`LocateStep`] as a value.
pub ghost enum StepView {
    Ask(ProbeView),
    Done(Option<Seq<char>>),
}

impl View for LocateStep {
    type V = StepView;

    open spec fn view(&self) -> StepView {
        match self {
            LocateStep::Ask(p) => StepView::Ask(p@),
            LocateStep::Done(r) => StepView::Done(opt_view(*r)),
        }
    }
}

/// `<dir>/node_modules/.bin/<filename>`.
pub open spec fn node_bin(dir: Seq<char>, filename: Seq<char>) -> Seq<char> {
    nested(dir, "node_modules"@, ".bin"@, filename)
}

/// `<node_modules>/.bin/<filename>`.
pub open spec fn bin_in(node_modules: Seq<char>, filename: Seq<char>) -> Seq<char> {
    utf8_join(utf8_join(node_modules, ".bin"@), filename)
}

/// `<node_modules>/typescript/package.json`.
pub open spec fn ts_manifest(node_modules: Seq<char>) -> Seq<char> {
    utf8_join(utf8_join(node_modules, "typescript"@), "package.json"@)
}

/// A search is consistent with what it waits for.
pub open spec fn locate_wf(v: LocateView) -> bool {
    &&& v.phase != PhaseView::Finished ==> 0 <= v.at < v.checks.len()
    &&& v.phase == PhaseView::Scanning ==> v.checks[v.at].0 is Scan
    &&& v.phase == PhaseView::Asking ==> !(v.checks[v.at].0 is Scan)
    &&& v.listing ==> v.depth < NODE_MODULES_SCAN_DEPTH
    &&& forall|i: int|
        0 <= i < v.frames.len() ==> #[trigger] v.frames[i].depth < NODE_MODULES_SCAN_DEPTH && 0 <= v.frames[i].next
            <= v.frames[i].children.len()
}

/// The search ends with `result`.
pub open spec fn finish(v: LocateView, result: Option<Seq<char>>) -> (LocateView, StepView) {
    (LocateView { phase: PhaseView::Finished, ..v }, StepView::Done(result))
}

/// The first question of the current check.
pub open spec fn ask_check(v: LocateView) -> (LocateView, StepView) {
    match v.checks[v.at].0 {
        CheckView::Exists(p) => (LocateView { phase: PhaseView::Asking, ..v }, StepView::Ask(ProbeView::Exists(p))),
        CheckView::Scan(root, f, _) => (
            LocateView { phase: PhaseView::Scanning, frames: seq![], dir: root, depth: 0, listing: false, ..v },
            StepView::Ask(ProbeView::Exists(node_bin(root, f))),
        ),
        CheckView::Ts7At(nm, f) => (
            LocateView { phase: PhaseView::Asking, ..v },
            StepView::Ask(ProbeView::Exists(bin_in(nm, f))),
        ),
        CheckView::Rustup(b) => (LocateView { phase: PhaseView::Asking, ..v }, StepView::Ask(ProbeView::RustupWhich(b))),
        CheckView::CargoCandidate(p) => (
            LocateView { phase: PhaseView::Asking, ..v },
            StepView::Ask(ProbeView::Exists(p)),
        ),
        CheckView::Which(b, _) => (LocateView { phase: PhaseView::Asking, ..v }, StepView::Ask(ProbeView::Which(b))),
    }
}

/// The current check found nothing: on to the next one, if any.
pub open spec fn next_check(v: LocateView) -> (LocateView, StepView) {
    let w = LocateView { at: v.at + 1, ..v };
    if w.at < w.checks.len() {
        ask_check(w)
    } else {
        finish(w, None)
    }
}

/// The current check found `p`: it is the result, re-rooted under the
/// container's mount for a containerised server. A binary outside the
/// mount ends the search with nothing or moves on, as the check says.
pub open spec fn found(v: LocateView, p: Seq<char>) -> (LocateView, StepView) {
    match v.mount {
        None => finish(v, Some(p)),
        Some((host, server)) => match utf8_strip_prefix(p, host) {
            Some(rel) => finish(v, Some(utf8_join(server, rel))),
            None => if v.checks[v.at].1 {
                finish(v, None)
            } else {
                next_check(v)
            },
        },
    }
}

/// The next directory of a depth-first scan, after the open directories
/// `frames`: the next child of the innermost directory with one left,
/// and its depth; the frames with that child taken.
pub open spec fn resume(frames: Seq<FrameView>) -> Option<(Seq<FrameView>, Seq<char>, u32)>
    decreases frames.len(),
{
    if frames.len() == 0 {
        None
    } else {
        let top = frames.last();
        if 0 <= top.next < top.children.len() {
            Some((
                frames.drop_last().push(FrameView { next: top.next + 1, ..top }),
                top.children[top.next],
                (top.depth + 1) as u32,
            ))
        } else {
            resume(frames.drop_last())
        }
    }
}

/// The file the current scan looks for.
pub open spec fn scan_filename(v: LocateView) -> Seq<char> {
    match v.checks[v.at].0 {
        CheckView::Scan(_, f, _) => f,
        _ => seq![],
    }
}

/// The scan moves on to its next directory, or ends with nothing.
pub open spec fn scan_resume(v: LocateView) -> (LocateView, StepView) {
    match resume(v.frames) {
        Some((fs, d, depth)) => (
            LocateView { frames: fs, dir: d, depth, listing: false, ..v },
            StepView::Ask(ProbeView::Exists(node_bin(d, scan_filename(v)))),
        ),
        None => next_check(LocateView { frames: seq![], ..v }),
    }
}

/// The scan found `p`; a `tsc` must then sit beside a TypeScript 7
/// package.
pub open spec fn scan_found(v: LocateView, p: Seq<char>) -> (LocateView, StepView) {
    match v.checks[v.at].0 {
        CheckView::Scan(_, _, true) => match utf8_parent(p) {
            Some(bin_dir) => match utf8_parent(bin_dir) {
                Some(nm) => (
                    LocateView { phase: PhaseView::Manifest(p), ..v },
                    StepView::Ask(ProbeView::ReadManifest(ts_manifest(nm))),
                ),
                None => next_check(v),
            },
            None => next_check(v),
        },
        _ => found(v, p),
    }
}

/// The entries of `dir` the scan descends into, as paths, in order.
pub open spec fn descend_paths(dir: Seq<char>, children: Seq<(Seq<char>, bool, bool)>) -> Seq<Seq<char>>
    decreases children.len(),
{
    if children.len() == 0 {
        seq![]
    } else {
        let rest = descend_paths(dir, children.drop_last());
        let c = children.last();
        if scan_descends(c.0, c.2, c.1) {
            rest.push(utf8_join(dir, c.0))
        } else {
            rest
        }
    }
}

/// Whether a link target is the rustup binary.
pub open spec fn rustup_target(a: AnswerView) -> bool {
    a matches AnswerView::LinkTarget(Some(t)) && utf8_file_name(t) == Some("rustup"@)
}

/// The next state and step of search `v` once its question was answered
/// with `a`.
pub open spec fn locate_transition(v: LocateView, a: AnswerView) -> (LocateView, StepView) {
    match v.phase {
        PhaseView::Asking => match v.checks[v.at].0 {
            CheckView::Exists(p) => if a == AnswerView::Exists(true) {
                found(v, p)
            } else {
                next_check(v)
            },
            CheckView::Ts7At(nm, f) => if a == AnswerView::Exists(true) {
                (
                    LocateView { phase: PhaseView::Manifest(bin_in(nm, f)), ..v },
                    StepView::Ask(ProbeView::ReadManifest(ts_manifest(nm))),
                )
            } else {
                next_check(v)
            },
            CheckView::Rustup(_) => match a {
                AnswerView::Ran(true, out) => match rustup_which_spec(out) {
                    Some(p) => found(v, p),
                    None => next_check(v),
                },
                _ => next_check(v),
            },
            CheckView::CargoCandidate(p) => if a == AnswerView::Exists(true) {
                (LocateView { phase: PhaseView::Link(p), ..v }, StepView::Ask(ProbeView::ReadLink(p)))
            } else {
                next_check(v)
            },
            CheckView::Which(_, reject_shim) => match a {
                AnswerView::Found(Some(p)) => if reject_shim {
                    (LocateView { phase: PhaseView::Link(p), ..v }, StepView::Ask(ProbeView::ReadLink(p)))
                } else {
                    found(v, p)
                },
                _ => next_check(v),
            },
            CheckView::Scan(_, _, _) => next_check(v),
        },
        PhaseView::Manifest(p) => match a {
            AnswerView::Manifest(Some(j)) => match major_version_spec(j) {
                Some(m) => if m >= 7 {
                    found(v, p)
                } else {
                    next_check(v)
                },
                None => next_check(v),
            },
            _ => next_check(v),
        },
        PhaseView::Link(p) => if rustup_target(a) {
            next_check(v)
        } else {
            found(v, p)
        },
        PhaseView::Scanning => if !v.listing {
            if a == AnswerView::Exists(true) {
                scan_found(v, node_bin(v.dir, scan_filename(v)))
            } else if v.depth >= NODE_MODULES_SCAN_DEPTH {
                scan_resume(v)
            } else {
                (LocateView { listing: true, ..v }, StepView::Ask(ProbeView::ListDir(v.dir)))
            }
        } else {
            match a {
                AnswerView::Listing(Some(children)) => scan_resume(
                    LocateView {
                        frames: v.frames.push(
                            FrameView { children: descend_paths(v.dir, children), next: 0, depth: v.depth },
                        ),
                        ..v
                    },
                ),
                _ => scan_resume(v),
            }
        },
        PhaseView::Finished => (v, StepView::Done(None)),
    }
}

/// The environment the host search reads: `$CARGO_HOME`, `$HOME`,
/// `$USERPROFILE`, `$GOBIN`, `$GOPATH`, and whether this is Windows.
pub struct LocateEnv {
    pub cargo_home: Option<String>,
    pub home: Option<String>,
    pub userprofile: Option<String>,
    pub gobin: Option<String>,
    pub gopath: Option<String>,
    pub windows: bool,
}

/// An existence check of each of `paths`, in order.
pub open spec fn exists_checks(paths: Seq<Seq<char>>, stop_outside: bool) -> Seq<(CheckView, bool)> {
    paths.map_values(|p: Seq<char>| (CheckView::Exists(p), stop_outside))
}

/// The project-local `node_modules` tiers for `file` from `start`: the
/// hoisted `node_modules/.bin` of each ancestor, nearest first, then the
/// bounded scan below `start`.
pub open spec fn node_local_plan(file: Seq<char>, start: Seq<char>, stop_outside: bool) -> Seq<(CheckView, bool)> {
    exists_checks(ancestor_candidates(start, "node_modules"@, ".bin"@, file), stop_outside) + seq![
        (CheckView::Scan(start, file, false), false),
    ]
}

/// `$PATH`, last.
pub open spec fn path_tier(bin: Seq<char>, reject_shim: bool) -> Seq<(CheckView, bool)> {
    seq![(CheckView::Which(bin, reject_shim), false)]
}

/// A check of an optional candidate.
pub open spec fn optional_check(c: Option<Seq<char>>, cargo: bool) -> Seq<(CheckView, bool)> {
    match c {
        Some(p) => seq![(if cargo { CheckView::CargoCandidate(p) } else { CheckView::Exists(p) }, false)],
        None => seq![],
    }
}

/// The checks of the host search for `bin` by `strategy` from `start`.
pub open spec fn binary_plan(
    bin: Seq<char>,
    strategy: DiscoveryStrategy,
    start: Seq<char>,
    cargo_home: Option<Seq<char>>,
    home: Option<Seq<char>>,
    userprofile: Option<Seq<char>>,
    gobin: Option<Seq<char>>,
    gopath: Option<Seq<char>>,
    windows: bool,
) -> Seq<(CheckView, bool)> {
    match strategy {
        DiscoveryStrategy::NodeModules => node_local_plan(
            if windows { bin + ".cmd"@ } else { bin },
            start,
            false,
        ) + path_tier(bin, false),
        DiscoveryStrategy::CargoHome => seq![(CheckView::Rustup(bin), false)] + optional_check(
            cargo_bin_spec(bin, cargo_home, home, userprofile, windows),
            true,
        ) + path_tier(bin, true),
        DiscoveryStrategy::PythonVenv => exists_checks(
            ancestor_candidates(start, ".venv"@, if windows { "Scripts"@ } else { "bin"@ }, exe_name(bin, windows)),
            false,
        ) + path_tier(bin, false),
        DiscoveryStrategy::GoBin => optional_check(go_bin_spec(bin, gobin, gopath, home, userprofile, windows), false)
            + path_tier(bin, false),
    }
}

/// A native `tsc` check in the `node_modules` of each ancestor of
/// `start`, nearest first.
pub open spec fn ts7_ancestor_checks(start: Seq<char>, tsc: Seq<char>) -> Seq<(CheckView, bool)> {
    ancestors(start).map_values(|d: Seq<char>| (CheckView::Ts7At(utf8_join(d, "node_modules"@), tsc), false))
}

/// The checks of the host search for a language server: TypeScript's
/// `tsgo` adds, between the project-local `tsgo` and `$PATH`, a
/// project-local native `tsc` (TypeScript 7 or later).
pub open spec fn server_plan(
    language_id: Seq<char>,
    bin: Seq<char>,
    strategy: DiscoveryStrategy,
    start: Seq<char>,
    cargo_home: Option<Seq<char>>,
    home: Option<Seq<char>>,
    userprofile: Option<Seq<char>>,
    gobin: Option<Seq<char>>,
    gopath: Option<Seq<char>>,
    windows: bool,
) -> Seq<(CheckView, bool)> {
    if language_id == "typescript"@ {
        let tsc = if windows { "tsc.cmd"@ } else { "tsc"@ };
        node_local_plan(if windows { bin + ".cmd"@ } else { bin }, start, false) + ts7_ancestor_checks(start, tsc)
            + seq![(CheckView::Scan(start, tsc, true), false)] + path_tier(bin, false)
    } else {
        binary_plan(bin, strategy, start, cargo_home, home, userprofile, gobin, gopath, windows)
    }
}

/// The checks of the search for a binary a container reaches through
/// its mount of `host_root`: the hoisted `node_modules` (a match above
/// the mount ends the search), the scan below the mount, and for
/// TypeScript a native `tsc`; or a project `.venv`. The container is
/// Linux: plain file names.
pub open spec fn container_plan(language_id: Seq<char>, bin: Seq<char>, strategy: DiscoveryStrategy, host_root: Seq<char>) -> Seq<(CheckView, bool)> {
    match strategy {
        DiscoveryStrategy::NodeModules => node_local_plan(bin, host_root, true) + if language_id == "typescript"@ {
            seq![
                (CheckView::Ts7At(utf8_join(host_root, "node_modules"@), "tsc"@), true),
                (CheckView::Scan(host_root, "tsc"@, true), false),
            ]
        } else {
            seq![]
        },
        _ => exists_checks(ancestor_candidates(host_root, ".venv"@, "bin"@, bin), true),
    }
}

/// A search over `checks` starts with the first question of the first
/// check.
pub open spec fn start_search(checks: Seq<(CheckView, bool)>, mount: Option<(Seq<char>, Seq<char>)>) -> (LocateView, StepView) {
    let v = LocateView {
        checks,
        at: 0,
        mount,
        phase: PhaseView::Asking,
        frames: seq![],
        dir: seq![],
        depth: 0,
        listing: false,
    };
    if checks.len() > 0 {
        ask_check(v)
    } else {
        finish(v, None)
    }
}

fn opt_str(o: &Option<String>) -> (r: Option<&str>)
    ensures
        opt_text(r) == opt_view(*o),
{
    match o {
        Some(s) => Some(s.as_str()),
        None => None,
    }
}

fn push_check(out: &mut Vec<Check>, kind: CheckKind, stop_outside: bool) -> (r: ())
    ensures
        checks_view(final(out)@) == checks_view(old(out)@).push((Check { kind, stop_outside })@),
{
    let ghost before = checks_view(out@);
    out.push(Check { kind, stop_outside });
    assert(checks_view(out@) =~= before.push((Check { kind, stop_outside })@));
}

fn push_exists_checks(out: &mut Vec<Check>, paths: Vec<String>, stop_outside: bool)
    ensures
        checks_view(final(out)@) == checks_view(old(out)@) + exists_checks(paths.deep_view(), stop_outside),
{
    let ghost start = checks_view(out@);
    let ghost pv = paths.deep_view();
    let mut i: usize = 0;
    while i < paths.len()
        invariant
            i <= paths.len(),
            pv == paths.deep_view(),
            checks_view(out@) == start + exists_checks(pv.take(i as int), stop_outside),
        decreases paths.len() - i,
    {
        let p = paths[i].clone();
        push_check(out, CheckKind::Exists { path: p }, stop_outside);
        assert(exists_checks(pv.take(i + 1), stop_outside) =~= exists_checks(pv.take(i as int), stop_outside).push(
            (CheckView::Exists(pv[i as int]), stop_outside),
        ));
        i = i + 1;
    }
    assert(pv.take(paths.len() as int) =~= pv);
}

fn push_ts7_ancestor_checks(out: &mut Vec<Check>, start: &str, tsc: &str)
    ensures
        checks_view(final(out)@) == checks_view(old(out)@) + ts7_ancestor_checks(start@, tsc@),
{
    let ghost base = checks_view(out@);
    let mut dir: String = start.to_owned();
    let ghost mut done: Seq<Seq<char>> = seq![];
    loop
        invariant_except_break
            done + ancestors(dir@) == ancestors(start@),
            checks_view(out@) == base + done.map_values(
                |d: Seq<char>| (CheckView::Ts7At(utf8_join(d, "node_modules"@), tsc@), false),
            ),
        ensures
            checks_view(out@) == base + ts7_ancestor_checks(start@, tsc@),
        decreases dir@.len(),
    {
        let nm = join_path(dir.as_str(), "node_modules");
        let ghost d0 = done;
        push_check(out, CheckKind::Ts7At { node_modules: nm, filename: tsc.to_owned() }, false);
        proof {
            done = d0.push(dir@);
            assert(done.map_values(|d: Seq<char>| (CheckView::Ts7At(utf8_join(d, "node_modules"@), tsc@), false))
                =~= d0.map_values(|d: Seq<char>| (CheckView::Ts7At(utf8_join(d, "node_modules"@), tsc@), false)).push(
                (CheckView::Ts7At(utf8_join(dir@, "node_modules"@), tsc@), false),
            ));
        }
        match parent_path(dir.as_str()) {
            Some(p) => {
                assert(ancestors(dir@) =~= seq![dir@] + ancestors(p@));
                assert(d0 + ancestors(dir@) =~= done + ancestors(p@));
                dir = p;
            },
            None => {
                assert(ancestors(dir@) =~= seq![dir@]);
                assert(d0 + ancestors(dir@) =~= done);
                break;
            },
        }
    }
}

fn push_node_local(out: &mut Vec<Check>, file: &str, start: &str, stop_outside: bool)
    ensures
        checks_view(final(out)@) == checks_view(old(out)@) + node_local_plan(file@, start@, stop_outside),
{
    let ghost base = checks_view(out@);
    let cands = ancestor_bin_candidates(start, "node_modules", ".bin", file);
    push_exists_checks(out, cands, stop_outside);
    let ghost mid = checks_view(out@);
    push_check(out, CheckKind::Scan { root: start.to_owned(), filename: file.to_owned(), ts7: false }, false);
    assert(checks_view(out@) =~= base + node_local_plan(file@, start@, stop_outside));
}

fn push_which(out: &mut Vec<Check>, bin: &str, reject_shim: bool)
    ensures
        checks_view(final(out)@) == checks_view(old(out)@) + path_tier(bin@, reject_shim),
{
    let ghost base = checks_view(out@);
    push_check(out, CheckKind::Which { bin: bin.to_owned(), reject_shim }, false);
    assert(checks_view(out@) =~= base + path_tier(bin@, reject_shim));
}

impl Locate {
    fn start_with(checks: Vec<Check>, mount: Option<(String, String)>) -> (r: (Locate, LocateStep))
        ensures
            locate_wf(r.0@),
            (r.0@, r.1@) == start_search(
                checks_view(checks@),
                match mount {
                    Some((h, s)) => Some((h@, s@)),
                    None => None,
                },
            ),
    {
        let mut l = Locate {
            checks,
            at: 0,
            mount,
            phase: Phase::Asking,
            frames: Vec::new(),
            dir: String::new(),
            depth: 0,
            listing: false,
        };
        assert(frames_view(l.frames@) =~= Seq::<FrameView>::empty());
        if l.checks.len() > 0 {
            let step = l.ask_check();
            (l, step)
        } else {
            let step = l.finish_with(None);
            (l, step)
        }
    }

    /// The host search for `bin` by `strategy` from `start`: see
    /// [`binary_plan`].
    pub fn for_binary(bin: &str, strategy: DiscoveryStrategy, start: &str, env: &LocateEnv) -> (r: (Locate, LocateStep))
        ensures
            locate_wf(r.0@),
            (r.0@, r.1@) == start_search(
                binary_plan(
                    bin@,
                    strategy,
                    start@,
                    opt_view(env.cargo_home),
                    opt_view(env.home),
                    opt_view(env.userprofile),
                    opt_view(env.gobin),
                    opt_view(env.gopath),
                    env.windows,
                ),
                None,
            ),
    {
        let mut checks: Vec<Check> = Vec::new();
        Self::push_binary_plan(&mut checks, bin, strategy, start, env);
        Self::start_with(checks, None)
    }

    fn push_binary_plan(out: &mut Vec<Check>, bin: &str, strategy: DiscoveryStrategy, start: &str, env: &LocateEnv)
        ensures
            checks_view(final(out)@) == checks_view(old(out)@) + binary_plan(
                bin@,
                strategy,
                start@,
                opt_view(env.cargo_home),
                opt_view(env.home),
                opt_view(env.userprofile),
                opt_view(env.gobin),
                opt_view(env.gopath),
                env.windows,
            ),
    {
        let ghost base = checks_view(out@);
        let ghost plan = binary_plan(
            bin@,
            strategy,
            start@,
            opt_view(env.cargo_home),
            opt_view(env.home),
            opt_view(env.userprofile),
            opt_view(env.gobin),
            opt_view(env.gopath),
            env.windows,
        );
        match strategy {
            DiscoveryStrategy::NodeModules => {
                let file = node_bin_filename(bin, env.windows);
                push_node_local(out, file.as_str(), start, false);
                push_which(out, bin, false);
                assert(checks_view(out@) =~= base + plan);
            },
            DiscoveryStrategy::CargoHome => {
                push_check(out, CheckKind::Rustup { bin: bin.to_owned() }, false);
                let ghost mid = checks_view(out@);
                let c = cargo_bin_candidate(
                    bin,
                    opt_str(&env.cargo_home),
                    opt_str(&env.home),
                    opt_str(&env.userprofile),
                    env.windows,
                );
                match c {
                    Some(p) => {
                        push_check(out, CheckKind::CargoCandidate { path: p }, false);
                    },
                    None => {},
                }
                push_which(out, bin, true);
                assert(checks_view(out@) =~= base + plan);
            },
            DiscoveryStrategy::PythonVenv => {
                let (sub, file) = python_venv_layout(bin, env.windows);
                let cands = ancestor_bin_candidates(start, ".venv", sub, file.as_str());
                push_exists_checks(out, cands, false);
                push_which(out, bin, false);
                assert(checks_view(out@) =~= base + plan);
            },
            DiscoveryStrategy::GoBin => {
                let c = go_bin_candidate(
                    bin,
                    opt_str(&env.gobin),
                    opt_str(&env.gopath),
                    opt_str(&env.home),
                    opt_str(&env.userprofile),
                    env.windows,
                );
                match c {
                    Some(p) => {
                        push_check(out, CheckKind::Exists { path: p }, false);
                    },
                    None => {},
                }
                push_which(out, bin, false);
                assert(checks_view(out@) =~= base + plan);
            },
        }
    }

    /// The host search for the binary of the language server `spec`
    /// from `start`: see [`server_plan`].
    pub fn for_server(spec: &LspBinarySpec, start: &str, env: &LocateEnv) -> (r: (Locate, LocateStep))
        ensures
            locate_wf(r.0@),
            (r.0@, r.1@) == start_search(
                server_plan(
                    spec.language_id@,
                    spec.bin_name@,
                    spec.discovery,
                    start@,
                    opt_view(env.cargo_home),
                    opt_view(env.home),
                    opt_view(env.userprofile),
                    opt_view(env.gobin),
                    opt_view(env.gopath),
                    env.windows,
                ),
                None,
            ),
    {
        let mut checks: Vec<Check> = Vec::new();
        if !str_eq(spec.language_id, "typescript") {
            Self::push_binary_plan(&mut checks, spec.bin_name, spec.discovery, start, env);
            proof {
                assert(checks_view(checks@) =~= Seq::<(CheckView, bool)>::empty() + binary_plan(
                    spec.bin_name@,
                    spec.discovery,
                    start@,
                    opt_view(env.cargo_home),
                    opt_view(env.home),
                    opt_view(env.userprofile),
                    opt_view(env.gobin),
                    opt_view(env.gopath),
                    env.windows,
                ));
            }
            return Self::start_with(checks, None);
        }
        let tsc = if env.windows { "tsc.cmd" } else { "tsc" };
        let file = node_bin_filename(spec.bin_name, env.windows);
        push_node_local(&mut checks, file.as_str(), start, false);
        push_ts7_ancestor_checks(&mut checks, start, tsc);
        push_check(&mut checks, CheckKind::Scan { root: start.to_owned(), filename: tsc.to_owned(), ts7: true }, false);
        push_which(&mut checks, spec.bin_name, false);
        proof {
            let tv = if env.windows { "tsc.cmd"@ } else { "tsc"@ };
            assert(tsc@ == tv);
            assert(checks_view(checks@) =~= node_local_plan(file@, start@, false) + ts7_ancestor_checks(start@, tv)
                + seq![(CheckView::Scan(start@, tv, true), false)] + path_tier(spec.bin_name@, false));
        }
        Self::start_with(checks, None)
    }

    /// The search for the binary of `spec` that a container reaches
    /// through its mount of `host_root` at `server_root`: see
    /// [`container_plan`]. Only the `node_modules` and `.venv`
    /// strategies search; the others run the bare binary name.
    pub fn in_container(spec: &LspBinarySpec, host_root: &str, server_root: &str) -> (r: (Locate, LocateStep))
        requires
            spec.discovery == DiscoveryStrategy::NodeModules || spec.discovery == DiscoveryStrategy::PythonVenv,
        ensures
            locate_wf(r.0@),
            (r.0@, r.1@) == start_search(
                container_plan(spec.language_id@, spec.bin_name@, spec.discovery, host_root@),
                Some((host_root@, server_root@)),
            ),
    {
        let mut checks: Vec<Check> = Vec::new();
        let ghost plan = container_plan(spec.language_id@, spec.bin_name@, spec.discovery, host_root@);
        match spec.discovery {
            DiscoveryStrategy::NodeModules => {
                push_node_local(&mut checks, spec.bin_name, host_root, true);
                if str_eq(spec.language_id, "typescript") {
                    let nm = join_path(host_root, "node_modules");
                    push_check(&mut checks, CheckKind::Ts7At { node_modules: nm, filename: "tsc".to_owned() }, true);
                    push_check(
                        &mut checks,
                        CheckKind::Scan { root: host_root.to_owned(), filename: "tsc".to_owned(), ts7: true },
                        false,
                    );
                }
                assert(checks_view(checks@) =~= plan);
            },
            _ => {
                let cands = ancestor_bin_candidates(host_root, ".venv", "bin", spec.bin_name);
                push_exists_checks(&mut checks, cands, true);
                assert(checks_view(checks@) =~= plan);
            },
        }
        Self::start_with(checks, Some((host_root.to_owned(), server_root.to_owned())))
    }
}

/// A containerised server is only ever handed a path under the
/// container's root: every binary found on the host is re-rooted there.
pub proof fn law_container_results_under_mount(v: LocateView, a: AnswerView)
    requires
        locate_wf(v),
        v.phase != PhaseView::Finished,
        v.mount is Some,
    ensures
        locate_transition(v, a).1 matches StepView::Done(Some(p)) ==> exists|rel: Seq<char>|
            p == utf8_join(v.mount.unwrap().1, rel),
{
    if let StepView::Done(Some(p)) = locate_transition(v, a).1 {
        let (h, sr) = v.mount.unwrap();
        match v.phase {
            PhaseView::Manifest(q) => {
                assert(p == utf8_join(sr, utf8_strip_prefix(q, h).unwrap()));
            },
            PhaseView::Link(q) => {
                assert(p == utf8_join(sr, utf8_strip_prefix(q, h).unwrap()));
            },
            PhaseView::Scanning => {
                let q = node_bin(v.dir, scan_filename(v));
                assert(p == utf8_join(sr, utf8_strip_prefix(q, h).unwrap()));
            },
            _ => {
                match v.checks[v.at].0 {
                    CheckView::Exists(q) => {
                        assert(p == utf8_join(sr, utf8_strip_prefix(q, h).unwrap()));
                    },
                    CheckView::Rustup(_) => {
                        if let AnswerView::Ran(true, out) = a {
                            let q = rustup_which_spec(out).unwrap();
                            assert(p == utf8_join(sr, utf8_strip_prefix(q, h).unwrap()));
                        }
                    },
                    CheckView::Which(_, _) => {
                        if let AnswerView::Found(Some(q)) = a {
                            assert(p == utf8_join(sr, utf8_strip_prefix(q, h).unwrap()));
                        }
                    },
                    _ => {},
                }
            },
        }
    }
}

/// A rustup proxy is never the result: a candidate whose link points at
/// `rustup` moves the search on, and a `$PATH` hit that must not be a
/// proxy is never returned before its link was read.
pub proof fn law_no_rustup_proxy(v: LocateView, a: AnswerView)
    requires
        locate_wf(v),
        v.phase != PhaseView::Finished,
    ensures
        (v.phase is Link && rustup_target(a)) ==> !(locate_transition(v, a).1 matches StepView::Done(Some(_))),
        (v.phase == PhaseView::Asking && v.checks[v.at].0 matches CheckView::Which(_, true)) ==> !(locate_transition(
            v,
            a,
        ).1 matches StepView::Done(Some(_))),
{
}

/// The scan never lists a directory at or below its depth bound.
pub proof fn law_scan_stays_shallow(v: LocateView, a: AnswerView)
    requires
        locate_wf(v),
        v.phase != PhaseView::Finished,
    ensures
        locate_transition(v, a).1 matches StepView::Ask(ProbeView::ListDir(_)) ==> locate_transition(v, a).0.depth
            < NODE_MODULES_SCAN_DEPTH,
{
}

/// The scan descends only into the real, visible directories of a
/// listing (no link, file, `node_modules` or `.git`): each directory it
/// will visit is one of the listing's entries that qualifies.
pub proof fn law_scan_descends_only_into_qualifying_entries(dir: Seq<char>, cs: Seq<(Seq<char>, bool, bool)>, i: int)
    requires
        0 <= i < descend_paths(dir, cs).len(),
    ensures
        exists|j: int|
            0 <= j < cs.len() && scan_descends(cs[j].0, cs[j].2, cs[j].1) && descend_paths(dir, cs)[i] == utf8_join(
                dir,
                cs[j].0,
            ),
    decreases cs.len(),
{
    let rest = descend_paths(dir, cs.drop_last());
    let c = cs.last();
    if i < rest.len() {
        law_scan_descends_only_into_qualifying_entries(dir, cs.drop_last(), i);
        let j = choose|j: int|
            0 <= j < cs.drop_last().len() && scan_descends(cs.drop_last()[j].0, cs.drop_last()[j].2, cs.drop_last()[j].1)
                && rest[i] == utf8_join(dir, cs.drop_last()[j].0);
        assert(cs[j] == cs.drop_last()[j]);
    } else {
        assert(scan_descends(c.0, c.2, c.1));
        assert(cs[cs.len() - 1] == c);
    }
}

/// The project's own binary always wins: `$PATH` is asked last, in every
/// host search.
pub proof fn law_path_asked_last(
    language_id: Seq<char>,
    bin: Seq<char>,
    strategy: DiscoveryStrategy,
    start: Seq<char>,
    cargo_home: Option<Seq<char>>,
    home: Option<Seq<char>>,
    userprofile: Option<Seq<char>>,
    gobin: Option<Seq<char>>,
    gopath: Option<Seq<char>>,
    windows: bool,
)
    ensures
        ({
            let plan = server_plan(language_id, bin, strategy, start, cargo_home, home, userprofile, gobin, gopath, windows);
            &&& plan.len() > 0
            &&& plan.last().0 is Which
            &&& forall|i: int| 0 <= i < plan.len() - 1 ==> !(#[trigger] plan[i].0 is Which)
        }),
{
    let plan = server_plan(language_id, bin, strategy, start, cargo_home, home, userprofile, gobin, gopath, windows);
    let body = plan.drop_last();
    assert forall|i: int| 0 <= i < plan.len() - 1 implies !(#[trigger] plan[i].0 is Which) by {
        assert(plan[i] == body[i]);
    }
}

/// The frames stay consistent when the scan resumes.
proof fn lemma_resume_wf(frames: Seq<FrameView>)
    requires
        forall|i: int|
            0 <= i < frames.len() ==> #[trigger] frames[i].depth < NODE_MODULES_SCAN_DEPTH && 0 <= frames[i].next
                <= frames[i].children.len(),
    ensures
        resume(frames) matches Some((fs, _, d)) ==> d <= NODE_MODULES_SCAN_DEPTH && forall|i: int|
            0 <= i < fs.len() ==> #[trigger] fs[i].depth < NODE_MODULES_SCAN_DEPTH && 0 <= fs[i].next
                <= fs[i].children.len(),
    decreases frames.len(),
{
    if frames.len() > 0 {
        let top = frames.last();
        if !(0 <= top.next < top.children.len()) {
            lemma_resume_wf(frames.drop_last());
        } else {
            let fs = frames.drop_last().push(FrameView { next: top.next + 1, ..top });
            assert forall|i: int| 0 <= i < fs.len() implies #[trigger] fs[i].depth < NODE_MODULES_SCAN_DEPTH && 0
                <= fs[i].next <= fs[i].children.len() by {
                if i < frames.len() - 1 {
                    assert(fs[i] == frames[i]);
                }
            }
        }
    }
}

/// Every step keeps a search consistent.
proof fn lemma_transition_wf(v: LocateView, a: AnswerView)
    requires
        locate_wf(v),
        v.phase != PhaseView::Finished,
    ensures
        locate_wf(locate_transition(v, a).0),
{
    lemma_resume_wf(v.frames);
    if v.phase == PhaseView::Scanning && v.listing {
        if let AnswerView::Listing(Some(children)) = a {
            let fs = v.frames.push(FrameView { children: descend_paths(v.dir, children), next: 0, depth: v.depth });
            assert forall|i: int| 0 <= i < fs.len() implies #[trigger] fs[i].depth < NODE_MODULES_SCAN_DEPTH && 0
                <= fs[i].next <= fs[i].children.len() by {
                if i < v.frames.len() {
                    assert(fs[i] == v.frames[i]);
                }
            }
            lemma_resume_wf(fs);
        }
    }
}

fn node_bin_path(dir: &str, filename: &str) -> (r: String)
    ensures
        r@ == node_bin(dir@, filename@),
{
    let a = join_path(dir, "node_modules");
    let b = join_path(a.as_str(), ".bin");
    join_path(b.as_str(), filename)
}

fn bin_in_path(node_modules: &str, filename: &str) -> (r: String)
    ensures
        r@ == bin_in(node_modules@, filename@),
{
    let b = join_path(node_modules, ".bin");
    join_path(b.as_str(), filename)
}

fn ts_manifest_path(node_modules: &str) -> (r: String)
    ensures
        r@ == ts_manifest(node_modules@),
{
    let t = join_path(node_modules, "typescript");
    join_path(t.as_str(), "package.json")
}

fn descend_paths_of(dir: &str, children: &Vec<DirChild>) -> (r: Vec<String>)
    ensures
        r.deep_view() == descend_paths(dir@, children_view(children@)),
{
    let ghost cv = children_view(children@);
    let mut out: Vec<String> = Vec::new();
    let mut i: usize = 0;
    while i < children.len()
        invariant
            i <= children.len(),
            cv == children_view(children@),
            out.deep_view() == descend_paths(dir@, cv.take(i as int)),
        decreases children.len() - i,
    {
        let c = &children[i];
        assert(cv.take(i + 1).drop_last() =~= cv.take(i as int));
        assert(cv.take(i + 1).last() == cv[i as int]);
        if scan_descends_into(c.name.as_str(), c.is_symlink, c.is_dir) {
            let p = join_path(dir, c.name.as_str());
            let ghost before = out.deep_view();
            out.push(p);
            assert(out.deep_view() =~= before.push(utf8_join(dir@, c.name@)));
        }
        i = i + 1;
    }
    assert(cv.take(children.len() as int) =~= cv);
    out
}

impl Locate {
    fn finish_with(&mut self, r: Option<String>) -> (s: LocateStep)
        ensures
            (final(self)@, s@) == finish(old(self)@, opt_view(r)),
    {
        self.phase = Phase::Finished;
        LocateStep::Done(r)
    }

    fn ask_check(&mut self) -> (s: LocateStep)
        requires
            old(self).at < old(self).checks.len(),
        ensures
            (final(self)@, s@) == ask_check(old(self)@),
    {
        assert(checks_view(self.checks@)[self.at as int] == self.checks@[self.at as int]@);
        match &self.checks[self.at].kind {
            CheckKind::Exists { path } => {
                let p = path.clone();
                self.phase = Phase::Asking;
                LocateStep::Ask(Probe::Exists { path: p })
            },
            CheckKind::Scan { root, filename, .. } => {
                let q = node_bin_path(root.as_str(), filename.as_str());
                let d = root.clone();
                self.phase = Phase::Scanning;
                self.frames = Vec::new();
                self.dir = d;
                self.depth = 0;
                self.listing = false;
                proof {
                    assert(frames_view(self.frames@) =~= Seq::<FrameView>::empty());
                }
                LocateStep::Ask(Probe::Exists { path: q })
            },
            CheckKind::Ts7At { node_modules, filename } => {
                let q = bin_in_path(node_modules.as_str(), filename.as_str());
                self.phase = Phase::Asking;
                LocateStep::Ask(Probe::Exists { path: q })
            },
            CheckKind::Rustup { bin } => {
                let b = bin.clone();
                self.phase = Phase::Asking;
                LocateStep::Ask(Probe::RustupWhich { bin: b })
            },
            CheckKind::CargoCandidate { path } => {
                let p = path.clone();
                self.phase = Phase::Asking;
                LocateStep::Ask(Probe::Exists { path: p })
            },
            CheckKind::Which { bin, .. } => {
                let b = bin.clone();
                self.phase = Phase::Asking;
                LocateStep::Ask(Probe::Which { bin: b })
            },
        }
    }

    fn next_check(&mut self) -> (s: LocateStep)
        requires
            old(self).at < old(self).checks.len(),
        ensures
            (final(self)@, s@) == next_check(old(self)@),
    {
        self.at = self.at + 1;
        if self.at < self.checks.len() {
            self.ask_check()
        } else {
            self.finish_with(None)
        }
    }

    fn found(&mut self, p: String) -> (s: LocateStep)
        requires
            old(self).at < old(self).checks.len(),
        ensures
            (final(self)@, s@) == found(old(self)@, p@),
    {
        let mapped = match &self.mount {
            None => {
                return self.finish_with(Some(p));
            },
            Some((host, server)) => match strip_path_prefix(p.as_str(), host.as_str()) {
                Some(rel) => Some(join_path(server.as_str(), rel.as_str())),
                None => None,
            },
        };
        match mapped {
            Some(m) => self.finish_with(Some(m)),
            None => {
                assert(checks_view(self.checks@)[self.at as int] == self.checks@[self.at as int]@);
                if self.checks[self.at].stop_outside {
                    self.finish_with(None)
                } else {
                    self.next_check()
                }
            },
        }
    }

    fn current_filename(&self) -> (f: String)
        requires
            self.at < self.checks.len(),
        ensures
            f@ == scan_filename(self@),
    {
        assert(checks_view(self.checks@)[self.at as int] == self.checks@[self.at as int]@);
        match &self.checks[self.at].kind {
            CheckKind::Scan { filename, .. } => filename.clone(),
            _ => String::new(),
        }
    }

    fn scan_resume(&mut self) -> (s: LocateStep)
        requires
            old(self).at < old(self).checks.len(),
            forall|i: int|
                0 <= i < old(self)@.frames.len() ==> #[trigger] old(self)@.frames[i].depth < NODE_MODULES_SCAN_DEPTH
                    && 0 <= old(self)@.frames[i].next <= old(self)@.frames[i].children.len(),
        ensures
            (final(self)@, s@) == scan_resume(old(self)@),
    {
        let filename = self.current_filename();
        let ghost f0 = old(self)@.frames;
        loop
            invariant_except_break
                self.at < self.checks.len(),
                self@ == (LocateView { frames: self@.frames, ..old(self)@ }),
                resume(self@.frames) == resume(f0),
                forall|i: int|
                    0 <= i < self@.frames.len() ==> #[trigger] self@.frames[i].depth < NODE_MODULES_SCAN_DEPTH && 0
                        <= self@.frames[i].next <= self@.frames[i].children.len(),
                filename@ == scan_filename(old(self)@),
                f0 == old(self)@.frames,
            ensures
                (self@, false) == (self@, false),
            decreases self.frames.len(),
        {
            let ghost fv = self@.frames;
            if self.frames.len() == 0 {
                assert(resume(fv) is None);
                let ghost w = self@;
                let r = self.next_check();
                assert(w == (LocateView { frames: seq![], ..old(self)@ })) by {
                    assert(w.frames =~= Seq::<FrameView>::empty());
                }
                return r;
            }
            let mut top = self.frames.pop().unwrap();
            assert(frames_view(self.frames@) =~= fv.drop_last());
            if top.next < top.children.len() {
                let child = top.children[top.next].clone();
                assert(top.children.deep_view()[top.next as int] == top.children@[top.next as int]@);
                top.next = top.next + 1;
                let depth = top.depth + 1;
                self.frames.push(top);
                let q = node_bin_path(child.as_str(), filename.as_str());
                self.dir = child;
                self.depth = depth;
                self.listing = false;
                proof {
                    assert(frames_view(self.frames@) =~= fv.drop_last().push(
                        FrameView { next: fv.last().next + 1, ..fv.last() },
                    ));
                }
                return LocateStep::Ask(Probe::Exists { path: q });
            }
            assert(resume(fv) == resume(fv.drop_last()));
        }
    }

    fn scan_found(&mut self, p: String) -> (s: LocateStep)
        requires
            old(self).at < old(self).checks.len(),
        ensures
            (final(self)@, s@) == scan_found(old(self)@, p@),
    {
        assert(checks_view(self.checks@)[self.at as int] == self.checks@[self.at as int]@);
        let ts7 = match &self.checks[self.at].kind {
            CheckKind::Scan { ts7, .. } => *ts7,
            _ => false,
        };
        if !ts7 {
            return self.found(p);
        }
        match parent_path(p.as_str()) {
            Some(bin_dir) => match parent_path(bin_dir.as_str()) {
                Some(nm) => {
                    let q = ts_manifest_path(nm.as_str());
                    self.phase = Phase::Manifest { found: p };
                    LocateStep::Ask(Probe::ReadManifest { path: q })
                },
                None => self.next_check(),
            },
            None => self.next_check(),
        }
    }

    fn after_scan_answer(&mut self, a: ProbeAnswer) -> (s: LocateStep)
        requires
            locate_wf(old(self)@),
            old(self)@.phase == PhaseView::Scanning,
        ensures
            (final(self)@, s@) == locate_transition(old(self)@, a@),
    {
        if !self.listing {
            let yes = match a {
                ProbeAnswer::Exists(b) => b,
                _ => false,
            };
            if yes {
                let f = self.current_filename();
                let p = node_bin_path(self.dir.as_str(), f.as_str());
                self.scan_found(p)
            } else if self.depth >= NODE_MODULES_SCAN_DEPTH {
                self.scan_resume()
            } else {
                let d = self.dir.clone();
                self.listing = true;
                LocateStep::Ask(Probe::ListDir { path: d })
            }
        } else {
            match a {
                ProbeAnswer::Listing(Some(children)) => {
                    let paths = descend_paths_of(self.dir.as_str(), &children);
                    let ghost fv = self@.frames;
                    self.frames.push(Frame { children: paths, next: 0, depth: self.depth });
                    proof {
                        assert(frames_view(self.frames@) =~= fv.push(
                            FrameView { children: descend_paths(self@.dir, children_view(children@)), next: 0, depth: self@.depth },
                        ));
                        let fs = frames_view(self.frames@);
                        assert forall|i: int| 0 <= i < fs.len() implies #[trigger] fs[i].depth < NODE_MODULES_SCAN_DEPTH
                            && 0 <= fs[i].next <= fs[i].children.len() by {
                            if i < fv.len() {
                                assert(fs[i] == fv[i]);
                            }
                        }
                    }
                    self.scan_resume()
                },
                _ => self.scan_resume(),
            }
        }
    }

    fn after_answer(&mut self, a: ProbeAnswer) -> (s: LocateStep)
        requires
            locate_wf(old(self)@),
            old(self)@.phase == PhaseView::Asking,
        ensures
            (final(self)@, s@) == locate_transition(old(self)@, a@),
    {
        assert(checks_view(self.checks@)[self.at as int] == self.checks@[self.at as int]@);
        let yes = match &a {
            ProbeAnswer::Exists(b) => *b,
            _ => false,
        };
        match &self.checks[self.at].kind {
            CheckKind::Exists { path } => {
                let p = path.clone();
                if yes {
                    self.found(p)
                } else {
                    self.next_check()
                }
            },
            CheckKind::Ts7At { node_modules, filename } => {
                let c = bin_in_path(node_modules.as_str(), filename.as_str());
                let q = ts_manifest_path(node_modules.as_str());
                if yes {
                    self.phase = Phase::Manifest { found: c };
                    LocateStep::Ask(Probe::ReadManifest { path: q })
                } else {
                    self.next_check()
                }
            },
            CheckKind::Rustup { .. } => match a {
                ProbeAnswer::Ran { success, stdout } => {
                    if success {
                        match rustup_which_path(stdout.as_slice()) {
                            Some(p) => self.found(p),
                            None => self.next_check(),
                        }
                    } else {
                        self.next_check()
                    }
                },
                _ => self.next_check(),
            },
            CheckKind::CargoCandidate { path } => {
                let p = path.clone();
                if yes {
                    let q = p.clone();
                    self.phase = Phase::Link { found: p };
                    LocateStep::Ask(Probe::ReadLink { path: q })
                } else {
                    self.next_check()
                }
            },
            CheckKind::Which { reject_shim, .. } => {
                let reject = *reject_shim;
                match a {
                    ProbeAnswer::Found(Some(p)) => {
                        if reject {
                            let q = p.clone();
                            self.phase = Phase::Link { found: p };
                            LocateStep::Ask(Probe::ReadLink { path: q })
                        } else {
                            self.found(p)
                        }
                    },
                    _ => self.next_check(),
                }
            },
            CheckKind::Scan { .. } => self.next_check(),
        }
    }

    /// Take the answer `a` to the outstanding question and say what to do
    /// next: see [`locate_transition`].
    pub fn advance(&mut self, a: ProbeAnswer) -> (s: LocateStep)
        requires
            locate_wf(old(self)@),
            old(self)@.phase != PhaseView::Finished,
        ensures
            locate_wf(final(self)@),
            (final(self)@, s@) == locate_transition(old(self)@, a@),
    {
        proof {
            lemma_transition_wf(self@, a@);
        }
        match &self.phase {
            Phase::Asking => self.after_answer(a),
            Phase::Scanning => self.after_scan_answer(a),
            Phase::Manifest { found } => {
                let p = found.clone();
                let native = match &a {
                    ProbeAnswer::Manifest(Some(j)) => match typescript_major_version(j) {
                        Some(m) => m >= 7,
                        None => false,
                    },
                    _ => false,
                };
                if native {
                    self.found(p)
                } else {
                    self.next_check()
                }
            },
            Phase::Link { found } => {
                let p = found.clone();
                let shim = match &a {
                    ProbeAnswer::LinkTarget(Some(t)) => match file_name(t.as_str()) {
                        Some(n) => str_eq(n.as_str(), "rustup"),
                        None => false,
                    },
                    _ => false,
                };
                if shim {
                    self.next_check()
                } else {
                    self.found(p)
                }
            },
            Phase::Finished => LocateStep::Done(None),
        }
    }
}

} // verus!
