//! File watching on behalf of a language server: the globs a server
//! registers through `client/registerCapability` for
//! `workspace/didChangeWatchedFiles`, what it unregisters, and which
//! changed workspace files it is told about.
//!
//! Payloads are decoded the way `serde` decodes the `lsp-types`
//! structures: a struct from an object (unknown members ignored) or
//! from an array holding exactly its fields in order, an optional
//! field absent or `null` as unset, and any malformed part failing the
//! whole payload.
use vstd::prelude::*;
use crate::json::{spec_get, Json};
use crate::lint_staged::{glob_is_match, glob_builds, globset_match, globset_builds};
use crate::lsp::server::PathTranslator;
use crate::paths::utf8_join;
use crate::text::{str_eq, utf8_len, utf8_len_at_most};

verus! {

/// The method of the registration this module handles.
pub open spec fn watched_files_method() -> Seq<char> {
    "workspace/didChangeWatchedFiles"@
}

/// The `change` bit of an LSP `WatchKind`.
pub open spec fn watches_change(kind: u8) -> bool {
    kind & 2u8 != 0u8
}

/// Whether `fluent_uri` (behind `lsp_types::Uri`) parses `s`.
pub uninterp spec fn lsp_uri_valid(s: Seq<char>) -> bool;

/// `lsp_types::Uri::from_str`, which runs the same `fluent_uri`
/// parser as `Uri`'s deserialisation; it panics on input whose UTF-8
/// encoding is longer than `i32::MAX` bytes, hence the bound. Whether it accepts `s` is named,
/// not stated.
#[verifier::external_body]
fn uri_parses(s: &str) -> (r: bool)
    requires
        utf8_len(s@) <= i32::MAX,
    ensures
        r == lsp_uri_valid(s@),
{
    s.parse::<lsp_types::Uri>().is_ok()
}

/// The `file://` URL `url::Url::from_file_path` makes of `path`
/// (`None` when it refuses, as for a relative path).
pub uninterp spec fn url_from_file_path(path: Seq<char>) -> Option<Seq<char>>;

/// `url::Url::from_file_path(path)`, rendered as text. Its result is
/// named, not stated.
#[verifier::external_body]
fn file_url(path: &str) -> (r: Option<String>)
    ensures
        match r {
            Some(u) => url_from_file_path(path@) == Some(u@),
            None => url_from_file_path(path@) is None,
        },
{
    url::Url::from_file_path(path).ok().map(|u| u.to_string())
}

// ---- decoding ----

/// A text that deserialises as an `lsp_types::Uri`.
pub open spec fn uri_text_ok(s: Seq<char>) -> bool {
    utf8_len(s) <= i32::MAX && lsp_uri_valid(s)
}

/// A value that deserialises as an `lsp_types::Uri`.
pub open spec fn uri_ok(v: Json) -> bool {
    match v {
        Json::Str(s) => uri_text_ok(s@),
        _ => false,
    }
}

/// A value that deserialises as a `WorkspaceFolder { uri, name }`.
pub open spec fn workspace_folder_ok(v: Json) -> bool {
    match v {
        Json::Object(_) => match (spec_get(v, "uri"@), spec_get(v, "name"@)) {
            (Some(u), Some(n)) => uri_ok(u) && n is Str,
            _ => false,
        },
        Json::Array(a) => a@.len() == 2 && uri_ok(a@[0]) && a@[1] is Str,
        _ => false,
    }
}

/// A value that deserialises as a relative pattern's `baseUri`: a
/// workspace folder or a URI.
pub open spec fn base_uri_ok(v: Json) -> bool {
    workspace_folder_ok(v) || uri_ok(v)
}

/// The glob of a `GlobPattern`: a string, or the `pattern` of a
/// relative pattern (whose base is the one workspace root anyway).
pub open spec fn glob_pattern_of(v: Json) -> Option<Seq<char>> {
    match v {
        Json::Str(s) => Some(s@),
        Json::Object(_) => match (spec_get(v, "baseUri"@), spec_get(v, "pattern"@)) {
            (Some(b), Some(Json::Str(p))) => if base_uri_ok(b) {
                Some(p@)
            } else {
                None
            },
            _ => None,
        },
        Json::Array(a) => if a@.len() == 2 && base_uri_ok(a@[0]) {
            match a@[1] {
                Json::Str(p) => Some(p@),
                _ => None,
            }
        } else {
            None
        },
        _ => None,
    }
}

/// An optional `WatchKind`: unset (absent or `null`) gives `Some(None)`,
/// a number of known flags (0 to 7) gives its bits, anything else fails.
pub open spec fn kind_of(v: Option<Json>) -> Option<Option<u8>> {
    match v {
        None => Some(None),
        Some(Json::Null) => Some(None),
        Some(Json::Number(Some(n))) => if 0 <= n <= 7 {
            Some(Some(n as u8))
        } else {
            None
        },
        _ => None,
    }
}

/// A `FileSystemWatcher { globPattern, kind }` as (glob, kind); an
/// unset kind is 7 (create, change and delete).
pub open spec fn watcher_of(v: Json) -> Option<(Seq<char>, u8)> {
    let parts: Option<(Json, Option<Json>)> = match v {
        Json::Object(_) => match spec_get(v, "globPattern"@) {
            Some(g) => Some((g, spec_get(v, "kind"@))),
            None => None,
        },
        Json::Array(a) => if a@.len() == 2 {
            Some((a@[0], Some(a@[1])))
        } else {
            None
        },
        _ => None,
    };
    match parts {
        Some((g, k)) => match (glob_pattern_of(g), kind_of(k)) {
            (Some(p), Some(kind)) => Some(
                (
                    p,
                    match kind {
                        Some(b) => b,
                        None => 7u8,
                    },
                ),
            ),
            _ => None,
        },
        None => None,
    }
}

/// Every item a watcher, or failure.
pub open spec fn watcher_list(items: Seq<Json>) -> Option<Seq<(Seq<char>, u8)>>
    decreases items.len(),
{
    if items.len() == 0 {
        Some(seq![])
    } else {
        match (watcher_list(items.drop_last()), watcher_of(items.last())) {
            (Some(ws), Some(w)) => Some(ws.push(w)),
            _ => None,
        }
    }
}

/// The `watchers` of `DidChangeWatchedFilesRegistrationOptions`.
pub open spec fn options_watchers(v: Json) -> Option<Seq<(Seq<char>, u8)>> {
    let list: Option<Json> = match v {
        Json::Object(_) => spec_get(v, "watchers"@),
        Json::Array(a) => if a@.len() == 1 {
            Some(a@[0])
        } else {
            None
        },
        _ => None,
    };
    match list {
        Some(Json::Array(items)) => watcher_list(items@),
        _ => None,
    }
}

/// The watchers whose glob compiles, in order.
pub open spec fn compiled_watchers(ws: Seq<(Seq<char>, u8)>) -> Seq<(Seq<char>, u8)>
    decreases ws.len(),
{
    if ws.len() == 0 {
        seq![]
    } else {
        let rest = compiled_watchers(ws.drop_last());
        if globset_builds(ws.last().0) {
            rest.push(ws.last())
        } else {
            rest
        }
    }
}

/// The patterns a registration's options give: `None` when the options
/// are missing or malformed, or when no glob compiles.
pub open spec fn registration_patterns(options: Option<Json>) -> Option<Seq<(Seq<char>, u8)>> {
    match options {
        None => None,
        Some(o) => match options_watchers(o) {
            None => None,
            Some(ws) => {
                let c = compiled_watchers(ws);
                if c.len() == 0 {
                    None
                } else {
                    Some(c)
                }
            },
        },
    }
}

/// One registration of `client/registerCapability`.
#[derive(Debug)]
pub struct Registration {
    pub id: String,
    pub method: String,
    /// `registerOptions`; `null` counts as absent.
    pub register_options: Option<Json>,
}

/// One watched glob and the events it wants (`WatchKind` bits).
#[derive(Debug, Clone)]
pub struct WatchedPattern {
    pub pattern: String,
    pub kind: u8,
}

/// The value behind an optional reference.
pub open spec fn opt_json(o: Option<&Json>) -> Option<Json> {
    match o {
        Some(x) => Some(*x),
        None => None,
    }
}

/// The view of a list of patterns.
pub open spec fn patterns_view(v: Seq<WatchedPattern>) -> Seq<(Seq<char>, u8)> {
    v.map_values(|p: WatchedPattern| (p.pattern@, p.kind))
}

fn json_uri_ok(v: &Json) -> (r: bool)
    ensures
        r == uri_ok(*v),
{
    match v {
        Json::Str(s) => {
            if utf8_len_at_most(s.as_str(), i32::MAX as usize) {
                uri_parses(s.as_str())
            } else {
                false
            }
        },
        _ => false,
    }
}

fn json_is_str(v: &Json) -> (r: bool)
    ensures
        r == (*v is Str),
{
    match v {
        Json::Str(_) => true,
        _ => false,
    }
}

fn base_uri_value_ok(v: &Json) -> (r: bool)
    ensures
        r == base_uri_ok(*v),
{
    let folder = match v {
        Json::Object(_) => match (v.get("uri"), v.get("name")) {
            (Some(u), Some(n)) => json_uri_ok(u) && json_is_str(n),
            _ => false,
        },
        Json::Array(a) => a.len() == 2 && json_uri_ok(&a[0]) && json_is_str(&a[1]),
        _ => false,
    };
    folder || json_uri_ok(v)
}

fn glob_pattern_value(v: &Json) -> (r: Option<String>)
    ensures
        match r {
            Some(p) => glob_pattern_of(*v) == Some(p@),
            None => glob_pattern_of(*v) is None,
        },
{
    match v {
        Json::Str(s) => Some(s.clone()),
        Json::Object(_) => match (v.get("baseUri"), v.get("pattern")) {
            (Some(b), Some(Json::Str(p))) => if base_uri_value_ok(b) {
                Some(p.clone())
            } else {
                None
            },
            _ => None,
        },
        Json::Array(a) => if a.len() == 2 && base_uri_value_ok(&a[0]) {
            match &a[1] {
                Json::Str(p) => Some(p.clone()),
                _ => None,
            }
        } else {
            None
        },
        _ => None,
    }
}

fn kind_value(v: Option<&Json>) -> (r: Option<Option<u8>>)
    ensures
        r == kind_of(
            match v {
                Some(x) => Some(*x),
                None => None,
            },
        ),
{
    match v {
        None => Some(None),
        Some(Json::Null) => Some(None),
        Some(Json::Number(Some(n))) => if 0 <= *n && *n <= 7 {
            Some(Some(*n as u8))
        } else {
            None
        },
        _ => None,
    }
}

fn watcher_value(v: &Json) -> (r: Option<WatchedPattern>)
    ensures
        match r {
            Some(w) => watcher_of(*v) == Some((w.pattern@, w.kind)),
            None => watcher_of(*v) is None,
        },
{
    let (g, k): (&Json, Option<&Json>) = match v {
        Json::Object(_) => match v.get("globPattern") {
            Some(g) => (g, v.get("kind")),
            None => {
                return None;
            },
        },
        Json::Array(a) => if a.len() == 2 {
            (&a[0], Some(&a[1]))
        } else {
            return None;
        },
        _ => {
            return None;
        },
    };
    match (glob_pattern_value(g), kind_value(k)) {
        (Some(p), Some(kind)) => Some(
            WatchedPattern {
                pattern: p,
                kind: match kind {
                    Some(b) => b,
                    None => 7u8,
                },
            },
        ),
        _ => None,
    }
}

proof fn lemma_compiled_push(ws: Seq<(Seq<char>, u8)>, w: (Seq<char>, u8))
    ensures
        compiled_watchers(ws.push(w)) == if globset_builds(w.0) {
            compiled_watchers(ws).push(w)
        } else {
            compiled_watchers(ws)
        },
{
    assert(ws.push(w).drop_last() =~= ws);
}

/// Compile every watcher of a `workspace/didChangeWatchedFiles`
/// registration: its id and the watchers whose glob compiles, in
/// order; `None` when the options are missing or malformed, or when no
/// glob compiles.
pub fn parse_watched_files_registration(reg: &Registration) -> (r: Option<(String, Vec<WatchedPattern>)>)
    ensures
        match r {
            Some((id, ps)) => id@ == reg.id@ && registration_patterns(reg.register_options) == Some(patterns_view(ps@)),
            None => registration_patterns(reg.register_options) is None,
        },
{
    let opts = match &reg.register_options {
        Some(o) => Some(o),
        None => None,
    };
    match compile_options(opts) {
        Some(ps) => Some((reg.id.clone(), ps)),
        None => None,
    }
}

/// The compiled watchers of a registration's options (see
/// [`registration_patterns`]); every glob kept compiles.
fn compile_options(options: Option<&Json>) -> (r: Option<Vec<WatchedPattern>>)
    ensures
        match r {
            Some(ps) => registration_patterns(opt_json(options)) == Some(patterns_view(ps@))
                && forall|k: int| 0 <= k < ps@.len() ==> globset_builds(#[trigger] ps@[k].pattern@),
            None => registration_patterns(opt_json(options)) is None,
        },
{
    let opts = match options {
        Some(o) => o,
        None => {
            return None;
        },
    };
    let list: &Json = match opts {
        Json::Object(_) => match opts.get("watchers") {
            Some(l) => l,
            None => {
                return None;
            },
        },
        Json::Array(a) => if a.len() == 1 {
            &a[0]
        } else {
            return None;
        },
        _ => {
            return None;
        },
    };
    let items = match list {
        Json::Array(items) => items,
        _ => {
            return None;
        },
    };
    assert(options_watchers(*opts) == watcher_list(items@));
    let mut out: Vec<WatchedPattern> = Vec::new();
    let ghost mut decoded: Seq<(Seq<char>, u8)> = seq![];
    let mut i: usize = 0;
    assert(items@.take(0) =~= Seq::<Json>::empty());
    while i < items.len()
        invariant
            i <= items.len(),
            options == Some(opts),
            options_watchers(*opts) == watcher_list(items@),
            watcher_list(items@.take(i as int)) == Some(decoded),
            patterns_view(out@) == compiled_watchers(decoded),
            forall|k: int| 0 <= k < out@.len() ==> globset_builds(#[trigger] out@[k].pattern@),
        decreases items.len() - i,
    {
        assert(items@.take(i + 1).drop_last() =~= items@.take(i as int));
        assert(items@.take(i + 1).last() == items@[i as int]);
        match watcher_value(&items[i]) {
            None => {
                assert(watcher_list(items@.take(i + 1)) is None);
                assert(items@.take(items.len() as int) =~= items@);
                proof {
                    lemma_watcher_list_fails_later(items@, i as int + 1);
                }
                return None;
            },
            Some(w) => {
                let ghost d0 = decoded;
                let ghost o0 = out@;
                proof {
                    decoded = d0.push((w.pattern@, w.kind));
                    lemma_compiled_push(d0, (w.pattern@, w.kind));
                }
                if glob_builds(w.pattern.as_str()) {
                    out.push(w);
                    assert(patterns_view(out@) =~= patterns_view(o0).push((w.pattern@, w.kind)));
                    assert forall|k: int| 0 <= k < out@.len() implies globset_builds(#[trigger] out@[k].pattern@) by {
                        if k < o0.len() {
                            assert(out@[k] == o0[k]);
                        }
                    }
                }
            },
        }
        i = i + 1;
    }
    assert(items@.take(items.len() as int) =~= items@);
    if out.len() == 0 {
        return None;
    }
    Some(out)
}

proof fn lemma_watcher_list_fails_later(items: Seq<Json>, n: int)
    requires
        0 <= n <= items.len(),
        watcher_list(items.take(n)) is None,
    ensures
        watcher_list(items) is None,
    decreases items.len() - n,
{
    if n < items.len() {
        assert(items.take(n + 1).drop_last() =~= items.take(n));
        lemma_watcher_list_fails_later(items, n + 1);
    } else {
        assert(items.take(n) =~= items);
    }
}


// ---- the registrations a server holds ----

/// The patterns per registration id.
pub type WatchMap = Map<Seq<char>, Seq<(Seq<char>, u8)>>;

/// The map of a list of (id, patterns) groups.
pub open spec fn groups_map(gs: Seq<(String, Vec<WatchedPattern>)>) -> WatchMap
    decreases gs.len(),
{
    if gs.len() == 0 {
        Map::empty()
    } else {
        groups_map(gs.drop_last()).insert(gs.last().0@, patterns_view(gs.last().1@))
    }
}

/// No two groups share an id.
pub open spec fn ids_distinct(gs: Seq<(String, Vec<WatchedPattern>)>) -> bool {
    forall|i: int, j: int| 0 <= i < j < gs.len() ==> gs[i].0@ != gs[j].0@
}

proof fn lemma_groups_dom(gs: Seq<(String, Vec<WatchedPattern>)>, k: Seq<char>)
    ensures
        groups_map(gs).dom().contains(k) <==> exists|i: int| 0 <= i < gs.len() && gs[i].0@ == k,
    decreases gs.len(),
{
    if gs.len() > 0 {
        lemma_groups_dom(gs.drop_last(), k);
        if groups_map(gs).dom().contains(k) && gs.last().0@ != k {
            let i = choose|i: int| 0 <= i < gs.len() - 1 && gs.drop_last()[i].0@ == k;
            assert(gs[i] == gs.drop_last()[i]);
        }
        if exists|i: int| 0 <= i < gs.len() && gs[i].0@ == k {
            let i = choose|i: int| 0 <= i < gs.len() && gs[i].0@ == k;
            if i < gs.len() - 1 {
                assert(gs.drop_last()[i] == gs[i]);
            }
        }
    }
}

proof fn lemma_groups_at(gs: Seq<(String, Vec<WatchedPattern>)>, i: int)
    requires
        ids_distinct(gs),
        0 <= i < gs.len(),
    ensures
        groups_map(gs).dom().contains(gs[i].0@),
        groups_map(gs)[gs[i].0@] == patterns_view(gs[i].1@),
    decreases gs.len(),
{
    if i < gs.len() - 1 {
        assert(gs.drop_last()[i] == gs[i]);
        lemma_groups_at(gs.drop_last(), i);
    }
}

proof fn lemma_groups_update(gs: Seq<(String, Vec<WatchedPattern>)>, i: int, g: (String, Vec<WatchedPattern>))
    requires
        ids_distinct(gs),
        0 <= i < gs.len(),
        gs[i].0@ == g.0@,
    ensures
        ids_distinct(gs.update(i, g)),
        groups_map(gs.update(i, g)) == groups_map(gs).insert(g.0@, patterns_view(g.1@)),
    decreases gs.len(),
{
    let u = gs.update(i, g);
    if i == gs.len() - 1 {
        assert(u.drop_last() =~= gs.drop_last());
        assert(groups_map(u) =~= groups_map(gs).insert(g.0@, patterns_view(g.1@)));
    } else {
        assert(u.drop_last() =~= gs.drop_last().update(i, g));
        lemma_groups_update(gs.drop_last(), i, g);
        assert(u.last() == gs.last());
        assert(gs.last().0@ != g.0@);
        assert(groups_map(u) =~= groups_map(gs).insert(g.0@, patterns_view(g.1@)));
    }
}

proof fn lemma_groups_remove(gs: Seq<(String, Vec<WatchedPattern>)>, i: int)
    requires
        ids_distinct(gs),
        0 <= i < gs.len(),
    ensures
        ids_distinct(gs.remove(i)),
        groups_map(gs.remove(i)) == groups_map(gs).remove(gs[i].0@),
    decreases gs.len(),
{
    let r = gs.remove(i);
    let k = gs[i].0@;
    if i == gs.len() - 1 {
        assert(r =~= gs.drop_last());
        lemma_groups_dom(gs.drop_last(), k);
        assert(!groups_map(gs.drop_last()).dom().contains(k)) by {
            if groups_map(gs.drop_last()).dom().contains(k) {
                let j = choose|j: int| 0 <= j < gs.drop_last().len() && gs.drop_last()[j].0@ == k;
                assert(gs[j] == gs.drop_last()[j]);
            }
        }
        assert(groups_map(r) =~= groups_map(gs).remove(k));
    } else {
        assert(r.drop_last() =~= gs.drop_last().remove(i));
        assert(gs.drop_last()[i] == gs[i]);
        lemma_groups_remove(gs.drop_last(), i);
        assert(r.last() == gs.last());
        assert(gs.last().0@ != k);
        assert(groups_map(r) =~= groups_map(gs).remove(k));
    }
}

/// Some pattern of some registration in `m` wants change events and
/// matches `path`.
pub open spec fn change_watched(m: WatchMap, path: Seq<char>) -> bool {
    exists|id: Seq<char>, j: int|
        #![trigger m[id][j]]
        m.dom().contains(id) && 0 <= j < m[id].len() && watches_change(m[id][j].1) && globset_match(m[id][j].0, path)
}

/// The watched-files registrations a server holds, by id.
pub struct WatchRegistry {
    groups: Vec<(String, Vec<WatchedPattern>)>,
}

impl WatchRegistry {
    /// The patterns per registration id.
    pub closed spec fn watched(&self) -> WatchMap {
        groups_map(self.groups@)
    }

    /// Ids are unique and every glob held compiles.
    pub closed spec fn wf(&self) -> bool {
        &&& ids_distinct(self.groups@)
        &&& forall|i: int, j: int|
            0 <= i < self.groups@.len() && 0 <= j < self.groups@[i].1@.len() ==> globset_builds(
                #[trigger] self.groups@[i].1@[j].pattern@,
            )
    }

    /// No registration.
    pub fn new() -> (r: WatchRegistry)
        ensures
            r.wf(),
            r.watched() == WatchMap::empty(),
    {
        WatchRegistry { groups: Vec::new() }
    }

    /// Whether no registration is held.
    pub fn is_empty(&self) -> (r: bool)
        requires
            self.wf(),
        ensures
            r == (self.watched().dom() == Set::<Seq<char>>::empty()),
    {
        proof {
            if self.groups@.len() > 0 {
                lemma_groups_dom(self.groups@, self.groups@[0].0@);
                assert(self.watched().dom().contains(self.groups@[0].0@));
            } else {
                assert(self.watched().dom() =~= Set::<Seq<char>>::empty());
            }
        }
        self.groups.len() == 0
    }

    fn index_of(&self, id: &str) -> (r: Option<usize>)
        requires
            self.wf(),
        ensures
            match r {
                Some(i) => i < self.groups@.len() && self.groups@[i as int].0@ == id@,
                None => !self.watched().dom().contains(id@),
            },
    {
        let mut i: usize = 0;
        while i < self.groups.len()
            invariant
                i <= self.groups@.len(),
                forall|j: int| 0 <= j < i ==> self.groups@[j].0@ != id@,
            decreases self.groups.len() - i,
        {
            if str_eq(self.groups[i].0.as_str(), id) {
                return Some(i);
            }
            i = i + 1;
        }
        proof {
            lemma_groups_dom(self.groups@, id@);
        }
        None
    }

    /// Record `patterns` under `id`, replacing what `id` held.
    pub fn register(&mut self, id: String, patterns: Vec<WatchedPattern>)
        requires
            old(self).wf(),
            forall|k: int| 0 <= k < patterns@.len() ==> globset_builds(#[trigger] patterns@[k].pattern@),
        ensures
            final(self).wf(),
            final(self).watched() == old(self).watched().insert(id@, patterns_view(patterns@)),
    {
        let g = (id, patterns);
        match self.index_of(g.0.as_str()) {
            Some(i) => {
                proof {
                    lemma_groups_update(self.groups@, i as int, g);
                }
                self.groups.set(i, g);
            },
            None => {
                proof {
                    lemma_groups_dom(self.groups@, g.0@);
                }
                let ghost g0 = self.groups@;
                self.groups.push(g);
                assert(self.groups@.drop_last() =~= g0);
            },
        }
    }

    /// Forget what `id` held.
    pub fn unregister(&mut self, id: &str)
        requires
            old(self).wf(),
        ensures
            final(self).wf(),
            final(self).watched() == old(self).watched().remove(id@),
    {
        match self.index_of(id) {
            Some(i) => {
                proof {
                    lemma_groups_remove(self.groups@, i as int);
                }
                let ghost g0 = self.groups@;
                self.groups.remove(i);
                assert forall|a: int, b: int|
                    0 <= a < self.groups@.len() && 0 <= b < self.groups@[a].1@.len() implies globset_builds(
                    #[trigger] self.groups@[a].1@[b].pattern@,
                ) by {
                    if a < i {
                        assert(self.groups@[a] == g0[a]);
                    } else {
                        assert(self.groups@[a] == g0[a + 1]);
                    }
                }
            },
            None => {
                assert(self.watched().remove(id@) =~= self.watched());
            },
        }
    }

    /// Whether a change of the workspace-relative `path` is watched:
    /// some pattern wanting change events matches it.
    pub fn watches_change_of(&self, path: &str) -> (r: bool)
        requires
            self.wf(),
        ensures
            r == change_watched(self.watched(), path@),
    {
        let mut i: usize = 0;
        while i < self.groups.len()
            invariant
                self.wf(),
                i <= self.groups@.len(),
                forall|a: int, b: int|
                    0 <= a < i && 0 <= b < self.groups@[a].1@.len() ==> !(watches_change(
                        #[trigger] self.groups@[a].1@[b].kind,
                    ) && globset_match(self.groups@[a].1@[b].pattern@, path@)),
            decreases self.groups.len() - i,
        {
            let ps = &self.groups[i].1;
            let mut j: usize = 0;
            while j < ps.len()
                invariant
                    self.wf(),
                    i < self.groups@.len(),
                    ps@ == self.groups@[i as int].1@,
                    j <= ps@.len(),
                    forall|b: int| 0 <= b < j ==> !(watches_change(#[trigger] ps@[b].kind) && globset_match(ps@[b].pattern@, path@)),
                decreases ps.len() - j,
            {
                if (ps[j].kind & 2u8) != 0u8 {
                    if glob_is_match(ps[j].pattern.as_str(), path) {
                        proof {
                            lemma_groups_at(self.groups@, i as int);
                            let id = self.groups@[i as int].0@;
                            assert(self.watched()[id][j as int] == (ps@[j as int].pattern@, ps@[j as int].kind));
                        }
                        return true;
                    }
                }
                j = j + 1;
            }
            i = i + 1;
        }
        proof {
            assert forall|id: Seq<char>, j: int|
                #![trigger self.watched()[id][j]]
                self.watched().dom().contains(id) && 0 <= j < self.watched()[id].len() implies !(watches_change(
                self.watched()[id][j].1,
            ) && globset_match(self.watched()[id][j].0, path@)) by {
                lemma_groups_dom(self.groups@, id);
                let a = choose|a: int| 0 <= a < self.groups@.len() && self.groups@[a].0@ == id;
                lemma_groups_at(self.groups@, a);
                assert(self.watched()[id][j] == (self.groups@[a].1@[j].pattern@, self.groups@[a].1@[j].kind));
            }
        }
        false
    }
}

// ---- registerCapability / unregisterCapability payloads ----

/// An optional `Value` field: absent or `null` is unset.
pub open spec fn optional_value(v: Option<Json>) -> Option<Json> {
    match v {
        Some(Json::Null) => None,
        other => other,
    }
}

/// A `Registration { id, method, registerOptions }`.
pub open spec fn registration_of(v: Json) -> Option<(Seq<char>, Seq<char>, Option<Json>)> {
    match v {
        Json::Object(_) => match (spec_get(v, "id"@), spec_get(v, "method"@)) {
            (Some(Json::Str(id)), Some(Json::Str(m))) => Some((id@, m@, optional_value(spec_get(v, "registerOptions"@)))),
            _ => None,
        },
        Json::Array(a) => if a@.len() == 3 {
            match (a@[0], a@[1]) {
                (Json::Str(id), Json::Str(m)) => Some((id@, m@, optional_value(Some(a@[2])))),
                _ => None,
            }
        } else {
            None
        },
        _ => None,
    }
}

/// An `Unregistration { id, method }`.
pub open spec fn unregistration_of(v: Json) -> Option<(Seq<char>, Seq<char>)> {
    match v {
        Json::Object(_) => match (spec_get(v, "id"@), spec_get(v, "method"@)) {
            (Some(Json::Str(id)), Some(Json::Str(m))) => Some((id@, m@)),
            _ => None,
        },
        Json::Array(a) => if a@.len() == 2 {
            match (a@[0], a@[1]) {
                (Json::Str(id), Json::Str(m)) => Some((id@, m@)),
                _ => None,
            }
        } else {
            None
        },
        _ => None,
    }
}

/// Every item decodes as a registration.
pub open spec fn all_registrations(items: Seq<Json>) -> bool {
    forall|i: int| 0 <= i < items.len() ==> (#[trigger] registration_of(items[i])) is Some
}

/// Every item decodes as an unregistration.
pub open spec fn all_unregistrations(items: Seq<Json>) -> bool {
    forall|i: int| 0 <= i < items.len() ==> (#[trigger] unregistration_of(items[i])) is Some
}

/// The list member `key` of a one-field params struct (from an object,
/// or from an array holding just that field).
pub open spec fn params_list(v: Json, key: Seq<char>) -> Option<Seq<Json>> {
    let list: Option<Json> = match v {
        Json::Object(_) => spec_get(v, key),
        Json::Array(a) => if a@.len() == 1 {
            Some(a@[0])
        } else {
            None
        },
        _ => None,
    };
    match list {
        Some(Json::Array(items)) => Some(items@),
        _ => None,
    }
}

/// The map after the decoded registrations `items`, in order: a
/// `workspace/didChangeWatchedFiles` registration whose options give
/// patterns replaces what its id held; any other is ignored.
pub open spec fn after_registrations(m: WatchMap, items: Seq<Json>) -> WatchMap
    decreases items.len(),
{
    if items.len() == 0 {
        m
    } else {
        let prev = after_registrations(m, items.drop_last());
        match registration_of(items.last()) {
            Some((id, method, options)) => if method == watched_files_method() {
                match registration_patterns(options) {
                    Some(ps) => prev.insert(id, ps),
                    None => prev,
                }
            } else {
                prev
            },
            None => prev,
        }
    }
}

/// The map after the decoded unregistrations `items`: each
/// `workspace/didChangeWatchedFiles` one forgets its id.
pub open spec fn after_unregistrations(m: WatchMap, items: Seq<Json>) -> WatchMap
    decreases items.len(),
{
    if items.len() == 0 {
        m
    } else {
        let prev = after_unregistrations(m, items.drop_last());
        match unregistration_of(items.last()) {
            Some((id, method)) => if method == watched_files_method() {
                prev.remove(id)
            } else {
                prev
            },
            None => prev,
        }
    }
}

/// What `client/registerCapability` with `params` makes of `m`: the
/// payload is taken whole or not at all.
pub open spec fn register_capability_spec(m: WatchMap, params: Json) -> WatchMap {
    match params_list(params, "registrations"@) {
        Some(items) => if all_registrations(items) {
            after_registrations(m, items)
        } else {
            m
        },
        None => m,
    }
}

/// What `client/unregisterCapability` with `params` makes of `m`.
pub open spec fn unregister_capability_spec(m: WatchMap, params: Json) -> WatchMap {
    match params_list(params, "unregisterations"@) {
        Some(items) => if all_unregistrations(items) {
            after_unregistrations(m, items)
        } else {
            m
        },
        None => m,
    }
}

fn params_list_value<'a>(v: &'a Json, key: &str) -> (r: Option<&'a Vec<Json>>)
    ensures
        match r {
            Some(items) => params_list(*v, key@) == Some(items@),
            None => params_list(*v, key@) is None,
        },
{
    let list: &Json = match v {
        Json::Object(_) => match v.get(key) {
            Some(l) => l,
            None => {
                return None;
            },
        },
        Json::Array(a) => if a.len() == 1 {
            &a[0]
        } else {
            return None;
        },
        _ => {
            return None;
        },
    };
    match list {
        Json::Array(items) => Some(items),
        _ => None,
    }
}

fn registration_value(v: &Json) -> (r: Option<(&String, &String, Option<&Json>)>)
    ensures
        match r {
            Some((id, m, o)) => registration_of(*v) == Some((id@, m@, opt_json(o))),
            None => registration_of(*v) is None,
        },
{
    match v {
        Json::Object(_) => match (v.get("id"), v.get("method")) {
            (Some(Json::Str(id)), Some(Json::Str(m))) => {
                let o = match v.get("registerOptions") {
                    Some(Json::Null) => None,
                    other => other,
                };
                Some((id, m, o))
            },
            _ => None,
        },
        Json::Array(a) => if a.len() == 3 {
            match (&a[0], &a[1]) {
                (Json::Str(id), Json::Str(m)) => {
                    let o = match &a[2] {
                        Json::Null => None,
                        x => Some(x),
                    };
                    Some((id, m, o))
                },
                _ => None,
            }
        } else {
            None
        },
        _ => None,
    }
}

fn unregistration_value(v: &Json) -> (r: Option<(&String, &String)>)
    ensures
        match r {
            Some((id, m)) => unregistration_of(*v) == Some((id@, m@)),
            None => unregistration_of(*v) is None,
        },
{
    match v {
        Json::Object(_) => match (v.get("id"), v.get("method")) {
            (Some(Json::Str(id)), Some(Json::Str(m))) => Some((id, m)),
            _ => None,
        },
        Json::Array(a) => if a.len() == 2 {
            match (&a[0], &a[1]) {
                (Json::Str(id), Json::Str(m)) => Some((id, m)),
                _ => None,
            }
        } else {
            None
        },
        _ => None,
    }
}

impl WatchRegistry {
    /// Apply a `client/registerCapability` request: every
    /// `workspace/didChangeWatchedFiles` registration whose watchers
    /// compile replaces what its id held; other methods are ignored; a
    /// malformed payload changes nothing.
    pub fn register_capability(&mut self, params: &Json)
        requires
            old(self).wf(),
        ensures
            final(self).wf(),
            final(self).watched() == register_capability_spec(old(self).watched(), *params),
    {
        let items = match params_list_value(params, "registrations") {
            Some(items) => items,
            None => {
                return;
            },
        };
        let mut i: usize = 0;
        while i < items.len()
            invariant
                i <= items.len(),
                self.wf(),
                self.watched() == old(self).watched(),
                params_list(*params, "registrations"@) == Some(items@),
                forall|j: int| 0 <= j < i ==> (#[trigger] registration_of(items@[j])) is Some,
            decreases items.len() - i,
        {
            if registration_value(&items[i]).is_none() {
                assert(!all_registrations(items@));
                return;
            }
            i = i + 1;
        }
        let ghost m0 = self.watched();
        let mut i: usize = 0;
        assert(items@.take(0) =~= Seq::<Json>::empty());
        while i < items.len()
            invariant
                self.wf(),
                i <= items.len(),
                self.watched() == after_registrations(m0, items@.take(i as int)),
            decreases items.len() - i,
        {
            assert(items@.take(i + 1).drop_last() =~= items@.take(i as int));
            assert(items@.take(i + 1).last() == items@[i as int]);
            match registration_value(&items[i]) {
                Some((id, method, options)) => {
                    if str_eq(method.as_str(), "workspace/didChangeWatchedFiles") {
                        match compile_options(options) {
                            Some(ps) => {
                                self.register(id.clone(), ps);
                            },
                            None => {},
                        }
                    }
                },
                None => {},
            }
            i = i + 1;
        }
        assert(items@.take(items.len() as int) =~= items@);
    }

    /// Apply a `client/unregisterCapability` request: every
    /// `workspace/didChangeWatchedFiles` unregistration forgets its id;
    /// a malformed payload changes nothing.
    pub fn unregister_capability(&mut self, params: &Json)
        requires
            old(self).wf(),
        ensures
            final(self).wf(),
            final(self).watched() == unregister_capability_spec(old(self).watched(), *params),
    {
        let items = match params_list_value(params, "unregisterations") {
            Some(items) => items,
            None => {
                return;
            },
        };
        let mut i: usize = 0;
        while i < items.len()
            invariant
                i <= items.len(),
                self.wf(),
                self.watched() == old(self).watched(),
                params_list(*params, "unregisterations"@) == Some(items@),
                forall|j: int| 0 <= j < i ==> (#[trigger] unregistration_of(items@[j])) is Some,
            decreases items.len() - i,
        {
            if unregistration_value(&items[i]).is_none() {
                assert(!all_unregistrations(items@));
                return;
            }
            i = i + 1;
        }
        let ghost m0 = self.watched();
        let mut i: usize = 0;
        assert(items@.take(0) =~= Seq::<Json>::empty());
        while i < items.len()
            invariant
                self.wf(),
                i <= items.len(),
                self.watched() == after_unregistrations(m0, items@.take(i as int)),
            decreases items.len() - i,
        {
            assert(items@.take(i + 1).drop_last() =~= items@.take(i as int));
            assert(items@.take(i + 1).last() == items@[i as int]);
            match unregistration_value(&items[i]) {
                Some((id, method)) => {
                    if str_eq(method.as_str(), "workspace/didChangeWatchedFiles") {
                        self.unregister(id.as_str());
                    }
                },
                None => {},
            }
            i = i + 1;
        }
        assert(items@.take(items.len() as int) =~= items@);
    }
}

// ---- telling the server what changed ----

/// The URI the server is told for the absolute path `abs`: its
/// `file://` URL, or `file:///` when no URL or URI can be made of it.
pub open spec fn file_uri_spec(abs: Seq<char>) -> Seq<char> {
    match url_from_file_path(abs) {
        Some(u) => if uri_text_ok(u) {
            u
        } else {
            "file:///"@
        },
        None => "file:///"@,
    }
}

/// The URIs of the changed workspace-relative `paths` whose change is
/// watched, in order; each path is joined onto the server's root.
pub open spec fn changed_uris(m: WatchMap, server_root: Seq<char>, paths: Seq<Seq<char>>) -> Seq<Seq<char>>
    decreases paths.len(),
{
    if paths.len() == 0 {
        seq![]
    } else {
        let prev = changed_uris(m, server_root, paths.drop_last());
        if change_watched(m, paths.last()) {
            prev.push(file_uri_spec(utf8_join(server_root, paths.last())))
        } else {
            prev
        }
    }
}

pub(crate) fn file_uri(abs: &str) -> (r: String)
    ensures
        r@ == file_uri_spec(abs@),
{
    match file_url(abs) {
        Some(u) => {
            if utf8_len_at_most(u.as_str(), i32::MAX as usize) && uri_parses(u.as_str()) {
                u
            } else {
                "file:///".to_owned()
            }
        },
        None => "file:///".to_owned(),
    }
}

impl WatchRegistry {
    /// The URIs of a batch of changed workspace-relative `paths` the
    /// server asked to hear about (change events only), in order.
    pub fn changed_file_uris(&self, translator: &PathTranslator, paths: &[String]) -> (r: Vec<String>)
        requires
            self.wf(),
        ensures
            r.deep_view() == changed_uris(self.watched(), translator.server_root_spec(), paths.deep_view()),
    {
        let mut out: Vec<String> = Vec::new();
        let mut i: usize = 0;
        assert(paths.deep_view().take(0) =~= Seq::<Seq<char>>::empty());
        while i < paths.len()
            invariant
                self.wf(),
                i <= paths.len(),
                out.deep_view() == changed_uris(self.watched(), translator.server_root_spec(), paths.deep_view().take(i as int)),
            decreases paths.len() - i,
        {
            let ghost o0 = out.deep_view();
            assert(paths.deep_view().take(i + 1).drop_last() =~= paths.deep_view().take(i as int));
            assert(paths.deep_view().take(i + 1).last() == paths@[i as int]@);
            if self.watches_change_of(paths[i].as_str()) {
                let abs = translator.absolutise(paths[i].as_str());
                let u = file_uri(abs.as_str());
                out.push(u);
                assert(out.deep_view() =~= o0.push(u@));
            }
            i = i + 1;
        }
        assert(paths.deep_view().take(paths.len() as int) =~= paths.deep_view());
        out
    }
}

/// One `FileEvent` of a `workspace/didChangeWatchedFiles` notification:
/// `{"uri": uri, "type": 2}` (changed).
pub open spec fn change_event_ok(e: Json, uri: Seq<char>) -> bool {
    match e {
        Json::Object(ms) => {
            &&& ms@.len() == 2
            &&& ms@[0].0@ == "uri"@
            &&& (ms@[0].1 matches Json::Str(u) && u@ == uri)
            &&& ms@[1].0@ == "type"@
            &&& ms@[1].1 == Json::Number(Some(2))
        },
        _ => false,
    }
}

/// `{"changes": events}` with one change event per URI of `uris`.
pub open spec fn changes_params_ok(r: Json, uris: Seq<Seq<char>>) -> bool {
    match r {
        Json::Object(ms) => {
            &&& ms@.len() == 1
            &&& ms@[0].0@ == "changes"@
            &&& match ms@[0].1 {
                Json::Array(a) => a@.len() == uris.len() && forall|i: int|
                    0 <= i < uris.len() ==> change_event_ok(#[trigger] a@[i], uris[i]),
                _ => false,
            }
        },
        _ => false,
    }
}

/// The params of a `workspace/didChangeWatchedFiles` notification
/// reporting `uris` as changed: `{"changes": [event, ...]}`.
pub fn did_change_watched_files_params(uris: &[String]) -> (r: Json)
    ensures
        changes_params_ok(r, uris.deep_view()),
{
    let mut events: Vec<Json> = Vec::new();
    let mut i: usize = 0;
    while i < uris.len()
        invariant
            i <= uris.len(),
            events@.len() == i,
            forall|k: int| 0 <= k < i ==> change_event_ok(#[trigger] events@[k], uris@[k]@),
        decreases uris.len() - i,
    {
        let e = Json::Object(vec![("uri".to_owned(), Json::Str(uris[i].clone())), ("type".to_owned(), Json::Number(Some(2)))]);
        proof {
            reveal_strlit("uri");
            reveal_strlit("type");
        }
        events.push(e);
        i = i + 1;
    }
    proof {
        reveal_strlit("changes");
    }
    let r = Json::Object(vec![("changes".to_owned(), Json::Array(events))]);
    assert(forall|k: int| 0 <= k < uris@.len() ==> uris.deep_view()[k] == uris@[k]@);
    r
}

// ---- laws ----

/// A watcher that names no kind wants change events: its kind is 7
/// (create, change and delete).
pub proof fn law_default_kind_watches_change(w: Json)
    requires
        w is Object,
        spec_get(w, "globPattern"@) matches Some(g) && glob_pattern_of(g) is Some,
        spec_get(w, "kind"@) is None,
    ensures
        watcher_of(w) matches Some(x) && x.1 == 7u8 && watches_change(x.1),
{
    assert(watches_change(7u8)) by (bit_vector);
}

/// A server that registered no watchers is told of no change.
pub proof fn law_no_watchers_no_events(server_root: Seq<char>, paths: Seq<Seq<char>>)
    ensures
        changed_uris(WatchMap::empty(), server_root, paths) == Seq::<Seq<char>>::empty(),
    decreases paths.len(),
{
    if paths.len() > 0 {
        law_no_watchers_no_events(server_root, paths.drop_last());
    }
}

/// Unregistering an id the server never registered changes nothing;
/// unregistering after registering forgets what was registered.
pub proof fn law_unregister_forgets(m: WatchMap, id: Seq<char>, ps: Seq<(Seq<char>, u8)>)
    ensures
        !m.dom().contains(id) ==> m.remove(id) == m,
        m.insert(id, ps).remove(id) == m.remove(id),
{
    assert(!m.dom().contains(id) ==> m.remove(id) =~= m);
    assert(m.insert(id, ps).remove(id) =~= m.remove(id));
}

} // verus!
