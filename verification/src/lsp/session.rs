//! The per-server session state and decisions of the LSP layer: which
//! documents are open at which version, how a server notification is
//! routed, and the workspace facts sent with `initialize`. Sending and
//! receiving is the caller's.
use vstd::prelude::*;
use crate::json::{spec_get, Json};
use crate::lsp::server::PathTranslator;
use crate::lsp::translate::{file_path_of_uri, url_file_path};
use crate::lsp::watch::{file_uri, file_uri_spec};
use crate::paths::{file_name, utf8_file_name, utf8_join, utf8_strip_prefix};
use crate::text::{forward_slashes, str_eq};

verus! {

// ---- open documents ----

/// The versions of a list of (path, version) pairs, by path.
pub open spec fn versions_map(ds: Seq<(String, i32)>) -> Map<Seq<char>, i32>
    decreases ds.len(),
{
    if ds.len() == 0 {
        Map::empty()
    } else {
        versions_map(ds.drop_last()).insert(ds.last().0@, ds.last().1)
    }
}

/// No path occurs twice.
pub open spec fn paths_distinct(ds: Seq<(String, i32)>) -> bool {
    forall|i: int, j: int| 0 <= i < j < ds.len() ==> ds[i].0@ != ds[j].0@
}

proof fn lemma_versions_dom(ds: Seq<(String, i32)>, k: Seq<char>)
    ensures
        versions_map(ds).dom().contains(k) <==> exists|i: int| 0 <= i < ds.len() && ds[i].0@ == k,
    decreases ds.len(),
{
    if ds.len() > 0 {
        lemma_versions_dom(ds.drop_last(), k);
        if versions_map(ds).dom().contains(k) && ds.last().0@ != k {
            let i = choose|i: int| 0 <= i < ds.len() - 1 && ds.drop_last()[i].0@ == k;
            assert(ds[i] == ds.drop_last()[i]);
        }
        if exists|i: int| 0 <= i < ds.len() && ds[i].0@ == k {
            let i = choose|i: int| 0 <= i < ds.len() && ds[i].0@ == k;
            if i < ds.len() - 1 {
                assert(ds.drop_last()[i] == ds[i]);
            }
        }
    }
}

proof fn lemma_versions_at(ds: Seq<(String, i32)>, i: int)
    requires
        paths_distinct(ds),
        0 <= i < ds.len(),
    ensures
        versions_map(ds).dom().contains(ds[i].0@),
        versions_map(ds)[ds[i].0@] == ds[i].1,
    decreases ds.len(),
{
    if i < ds.len() - 1 {
        assert(ds.drop_last()[i] == ds[i]);
        lemma_versions_at(ds.drop_last(), i);
    }
}

proof fn lemma_versions_update(ds: Seq<(String, i32)>, i: int, d: (String, i32))
    requires
        paths_distinct(ds),
        0 <= i < ds.len(),
        ds[i].0@ == d.0@,
    ensures
        paths_distinct(ds.update(i, d)),
        versions_map(ds.update(i, d)) == versions_map(ds).insert(d.0@, d.1),
    decreases ds.len(),
{
    let u = ds.update(i, d);
    if i == ds.len() - 1 {
        assert(u.drop_last() =~= ds.drop_last());
        assert(versions_map(u) =~= versions_map(ds).insert(d.0@, d.1));
    } else {
        assert(u.drop_last() =~= ds.drop_last().update(i, d));
        lemma_versions_update(ds.drop_last(), i, d);
        assert(u.last() == ds.last());
        assert(versions_map(u) =~= versions_map(ds).insert(d.0@, d.1));
    }
}

proof fn lemma_versions_remove(ds: Seq<(String, i32)>, i: int)
    requires
        paths_distinct(ds),
        0 <= i < ds.len(),
    ensures
        paths_distinct(ds.remove(i)),
        versions_map(ds.remove(i)) == versions_map(ds).remove(ds[i].0@),
    decreases ds.len(),
{
    let r = ds.remove(i);
    let k = ds[i].0@;
    if i == ds.len() - 1 {
        assert(r =~= ds.drop_last());
        lemma_versions_dom(ds.drop_last(), k);
        assert(!versions_map(ds.drop_last()).dom().contains(k)) by {
            if versions_map(ds.drop_last()).dom().contains(k) {
                let j = choose|j: int| 0 <= j < ds.drop_last().len() && ds.drop_last()[j].0@ == k;
                assert(ds[j] == ds.drop_last()[j]);
            }
        }
        assert(versions_map(r) =~= versions_map(ds).remove(k));
    } else {
        assert(r.drop_last() =~= ds.drop_last().remove(i));
        assert(ds.drop_last()[i] == ds[i]);
        lemma_versions_remove(ds.drop_last(), i);
        assert(r.last() == ds.last());
        assert(versions_map(r) =~= versions_map(ds).remove(k));
    }
}

/// What to send for a document handed to a server.
#[derive(Debug, Clone, Copy, PartialEq, Eq, Structural)]
pub enum DocSync {
    /// `textDocument/didOpen` at this version (the first hand-over).
    Open { version: i32 },
    /// `textDocument/didChange` with the full text at this version.
    Change { version: i32 },
}

/// The version a sync sends.
pub open spec fn sync_version(s: DocSync) -> i32 {
    match s {
        DocSync::Open { version } => version,
        DocSync::Change { version } => version,
    }
}

/// The documents a server has open, by workspace-relative path, with
/// the version last sent.
pub struct DocTable {
    docs: Vec<(String, i32)>,
}

impl DocTable {
    /// The version last sent, by path.
    pub closed spec fn versions(&self) -> Map<Seq<char>, i32> {
        versions_map(self.docs@)
    }

    /// Each path once.
    pub closed spec fn wf(&self) -> bool {
        paths_distinct(self.docs@)
    }

    /// No document open.
    pub fn new() -> (t: DocTable)
        ensures
            t.wf(),
            t.versions() == Map::<Seq<char>, i32>::empty(),
    {
        DocTable { docs: Vec::new() }
    }

    fn index_of(&self, path: &str) -> (r: Option<usize>)
        requires
            self.wf(),
        ensures
            match r {
                Some(i) => i < self.docs@.len() && self.docs@[i as int].0@ == path@,
                None => !self.versions().dom().contains(path@),
            },
    {
        let mut i: usize = 0;
        while i < self.docs.len()
            invariant
                i <= self.docs@.len(),
                forall|j: int| 0 <= j < i ==> self.docs@[j].0@ != path@,
            decreases self.docs.len() - i,
        {
            if str_eq(self.docs[i].0.as_str(), path) {
                return Some(i);
            }
            i = i + 1;
        }
        proof {
            lemma_versions_dom(self.docs@, path@);
        }
        None
    }

    /// The version last sent for `path`, if it is open.
    pub fn version_of(&self, path: &str) -> (r: Option<i32>)
        requires
            self.wf(),
        ensures
            match r {
                Some(v) => self.versions().dom().contains(path@) && self.versions()[path@] == v,
                None => !self.versions().dom().contains(path@),
            },
    {
        match self.index_of(path) {
            Some(i) => {
                proof {
                    lemma_versions_at(self.docs@, i as int);
                }
                Some(self.docs[i].1)
            },
            None => None,
        }
    }

    /// Hand `path` to the server: opened at version 1 the first time,
    /// else changed at the next version.
    pub fn open_or_change(&mut self, path: &str) -> (r: DocSync)
        requires
            old(self).wf(),
            old(self).versions().dom().contains(path@) ==> old(self).versions()[path@] < i32::MAX,
        ensures
            final(self).wf(),
            old(self).versions().dom().contains(path@) ==> r == (DocSync::Change {
                version: (old(self).versions()[path@] + 1) as i32,
            }),
            !old(self).versions().dom().contains(path@) ==> r == (DocSync::Open { version: 1 }),
            final(self).versions() == old(self).versions().insert(path@, sync_version(r)),
    {
        match self.index_of(path) {
            Some(i) => {
                proof {
                    lemma_versions_at(self.docs@, i as int);
                }
                let v = self.docs[i].1 + 1;
                let d = (self.docs[i].0.clone(), v);
                proof {
                    lemma_versions_update(self.docs@, i as int, d);
                }
                self.docs.set(i, d);
                DocSync::Change { version: v }
            },
            None => {
                proof {
                    lemma_versions_dom(self.docs@, path@);
                }
                let ghost d0 = self.docs@;
                self.docs.push((path.to_owned(), 1));
                assert(self.docs@.drop_last() =~= d0);
                DocSync::Open { version: 1 }
            },
        }
    }

    /// Forget `path`; whether it was open (only then is
    /// `textDocument/didClose` sent).
    pub fn close(&mut self, path: &str) -> (was_open: bool)
        requires
            old(self).wf(),
        ensures
            final(self).wf(),
            was_open == old(self).versions().dom().contains(path@),
            final(self).versions() == old(self).versions().remove(path@),
    {
        match self.index_of(path) {
            Some(i) => {
                proof {
                    lemma_versions_remove(self.docs@, i as int);
                    lemma_versions_at(self.docs@, i as int);
                }
                self.docs.remove(i);
                true
            },
            None => {
                assert(self.versions().remove(path@) =~= self.versions());
                false
            },
        }
    }

    /// The open paths (whose diagnostics a refresh re-pulls).
    pub fn open_paths(&self) -> (r: Vec<String>)
        requires
            self.wf(),
        ensures
            r.deep_view().to_set() == self.versions().dom(),
            r@.len() == self.versions().dom().len(),
    {
        let mut out: Vec<String> = Vec::new();
        let mut i: usize = 0;
        while i < self.docs.len()
            invariant
                i <= self.docs@.len(),
                out.deep_view() == self.docs@.take(i as int).map_values(|d: (String, i32)| d.0@),
            decreases self.docs.len() - i,
        {
            out.push(self.docs[i].0.clone());
            assert(self.docs@.take(i + 1).map_values(|d: (String, i32)| d.0@) =~= self.docs@.take(i as int).map_values(
                |d: (String, i32)| d.0@,
            ).push(self.docs@[i as int].0@));
            i = i + 1;
        }
        let ghost keys = self.docs@.map_values(|d: (String, i32)| d.0@);
        assert(self.docs@.take(self.docs@.len() as int) =~= self.docs@);
        assert(out.deep_view() == keys);
        assert forall|k: Seq<char>| keys.to_set().contains(k) <==> self.versions().dom().contains(k) by {
            lemma_versions_dom(self.docs@, k);
            if keys.to_set().contains(k) {
                let i = choose|i: int| 0 <= i < keys.len() && keys[i] == k;
                assert(self.docs@[i].0@ == k);
            }
            if self.versions().dom().contains(k) {
                let i = choose|i: int| 0 <= i < self.docs@.len() && self.docs@[i].0@ == k;
                assert(keys[i] == k);
            }
        }
        assert(keys.to_set() =~= self.versions().dom());
        proof {
            assert(keys.no_duplicates()) by {
                assert forall|a: int, b: int| 0 <= a < keys.len() && 0 <= b < keys.len() && a != b implies keys[a] != keys[b] by {
                    if a < b {
                        assert(self.docs@[a].0@ != self.docs@[b].0@);
                    } else {
                        assert(self.docs@[b].0@ != self.docs@[a].0@);
                    }
                }
            }
            keys.unique_seq_to_set();
        }
        out
    }
}

// ---- server notifications ----

/// What the session does with a notification from the server.
#[derive(Debug, Clone, Copy, PartialEq, Eq, Structural)]
pub enum NotificationRoute {
    /// Translate and forward the pushed diagnostics.
    PublishDiagnostics,
    /// Record watched-file registrations.
    RegisterCapability,
    /// Forget watched-file registrations.
    UnregisterCapability,
    /// Re-pull diagnostics for every open document.
    RefreshDiagnostics,
    /// Anything else is dropped.
    Ignore,
}

/// Route a server notification by its method.
pub fn route_notification(method: &str) -> (r: NotificationRoute)
    ensures
        r == if method@ == "textDocument/publishDiagnostics"@ {
            NotificationRoute::PublishDiagnostics
        } else if method@ == "client/registerCapability"@ {
            NotificationRoute::RegisterCapability
        } else if method@ == "client/unregisterCapability"@ {
            NotificationRoute::UnregisterCapability
        } else if method@ == "workspace/diagnostic/refresh"@ {
            NotificationRoute::RefreshDiagnostics
        } else {
            NotificationRoute::Ignore
        },
{
    if str_eq(method, "textDocument/publishDiagnostics") {
        NotificationRoute::PublishDiagnostics
    } else if str_eq(method, "client/registerCapability") {
        NotificationRoute::RegisterCapability
    } else if str_eq(method, "client/unregisterCapability") {
        NotificationRoute::UnregisterCapability
    } else if str_eq(method, "workspace/diagnostic/refresh") {
        NotificationRoute::RefreshDiagnostics
    } else {
        NotificationRoute::Ignore
    }
}

// ---- paths and URIs ----

/// The URI of the workspace-relative `rel` as the server sees it.
pub fn relative_to_uri(translator: &PathTranslator, rel: &str) -> (r: String)
    ensures
        r@ == file_uri_spec(utf8_join(translator.server_root_spec(), rel@)),
{
    let abs = translator.absolutise(rel);
    file_uri(abs.as_str())
}

/// The workspace-relative path of a URI the server names: its file
/// path under the server's root, forward-slashed; `None` for a URI
/// that is no file path or lies outside the root.
pub open spec fn uri_relative_spec(server_root: Seq<char>, uri: Seq<char>) -> Option<Seq<char>> {
    match url_file_path(uri) {
        Some(p) => match utf8_strip_prefix(p, server_root) {
            Some(rel) => Some(forward_slashes(rel)),
            None => None,
        },
        None => None,
    }
}

/// See [`uri_relative_spec`].
pub fn uri_to_relative(translator: &PathTranslator, uri: &str) -> (r: Option<String>)
    ensures
        match r {
            Some(s) => uri_relative_spec(translator.server_root_spec(), uri@) == Some(s@),
            None => uri_relative_spec(translator.server_root_spec(), uri@) is None,
        },
{
    match file_path_of_uri(uri) {
        Some(p) => translator.relativise(p.as_str()),
        None => None,
    }
}

// ---- initialize ----

/// The name of a workspace folder: the last component of its path, or
/// `workspace` when it has none.
pub open spec fn folder_name(abs: Seq<char>) -> Seq<char> {
    match utf8_file_name(abs) {
        Some(n) => n,
        None => "workspace"@,
    }
}

/// The server-side path of a workspace folder given relative to the
/// root (empty or `.` is the root itself).
pub open spec fn folder_path(server_root: Seq<char>, rel: Seq<char>) -> Seq<char> {
    if rel.len() == 0 || rel == "."@ {
        server_root
    } else {
        utf8_join(server_root, rel)
    }
}

/// The `(uri, name)` of the folder `rel`.
pub open spec fn folder_spec(server_root: Seq<char>, rel: Seq<char>) -> (Seq<char>, Seq<char>) {
    (file_uri_spec(folder_path(server_root, rel)), folder_name(folder_path(server_root, rel)))
}

/// The `(uri, name)` of each workspace folder sent with `initialize`,
/// in order; the root alone when none is given (an empty list reads to
/// some servers as "no folders at all").
pub open spec fn folders_spec(server_root: Seq<char>, rels: Seq<Seq<char>>) -> Seq<(Seq<char>, Seq<char>)> {
    if rels.len() == 0 {
        seq![(file_uri_spec(server_root), folder_name(server_root))]
    } else {
        rels.map_values(|rel: Seq<char>| folder_spec(server_root, rel))
    }
}

fn folder_of(translator: &PathTranslator, rel: &str) -> (r: (String, String))
    ensures
        (r.0@, r.1@) == folder_spec(translator.server_root_spec(), rel@),
{
    let abs = if rel.is_empty() || str_eq(rel, ".") {
        translator.server_root().clone()
    } else {
        translator.absolutise(rel)
    };
    let name = match file_name(abs.as_str()) {
        Some(n) => n,
        None => "workspace".to_owned(),
    };
    (file_uri(abs.as_str()), name)
}

/// The workspace folders sent with `initialize`.
pub fn workspace_folders_plan(translator: &PathTranslator, rels: &[String]) -> (r: Vec<(String, String)>)
    ensures
        r@.map_values(|f: (String, String)| (f.0@, f.1@)) == folders_spec(translator.server_root_spec(), rels.deep_view()),
{
    let mut out: Vec<(String, String)> = Vec::new();
    if rels.len() == 0 {
        let root = translator.server_root();
        let name = match file_name(root.as_str()) {
            Some(n) => n,
            None => "workspace".to_owned(),
        };
        out.push((file_uri(root.as_str()), name));
        assert(out@.map_values(|f: (String, String)| (f.0@, f.1@)) =~= folders_spec(
            translator.server_root_spec(),
            rels.deep_view(),
        ));
        return out;
    }
    let mut i: usize = 0;
    while i < rels.len()
        invariant
            i <= rels.len(),
            rels.len() > 0,
            out@.map_values(|f: (String, String)| (f.0@, f.1@)) == rels.deep_view().take(i as int).map_values(
                |rel: Seq<char>| folder_spec(translator.server_root_spec(), rel),
            ),
        decreases rels.len() - i,
    {
        let r = rels[i].as_str();
        let f = folder_of(translator, r);
        assert((f.0@, f.1@) == folder_spec(translator.server_root_spec(), rels@[i as int]@));
        let ghost o0 = out@;
        assert(rels.deep_view().take(i + 1) =~= rels.deep_view().take(i as int).push(rels@[i as int]@));
        out.push(f);
        assert(out@ =~= o0.push(f));
        assert(rels.deep_view()[i as int] == rels@[i as int]@);
        proof {
            let root = translator.server_root_spec();
            let om = out@.map_values(|f: (String, String)| (f.0@, f.1@));
            let prev = o0.map_values(|f: (String, String)| (f.0@, f.1@));
            let tm = rels.deep_view().take(i + 1).map_values(|rel: Seq<char>| folder_spec(root, rel));
            let tp = rels.deep_view().take(i as int).map_values(|rel: Seq<char>| folder_spec(root, rel));
            assert(prev == tp);
            assert(rels.deep_view().len() == rels@.len());
            assert(tp.len() == i);
            assert(prev.len() == o0.len());
            assert(o0.len() == i);
            assert forall|j: int| 0 <= j < om.len() implies om[j] == tm[j] by {
                if j < i {
                    assert(out@[j] == o0[j]);
                    assert(om[j] == prev[j]);
                    assert(tm[j] == tp[j]);
                } else {
                    assert(out@[j] == f);
                }
            }
            assert(om =~= tm);
        }
        i = i + 1;
    }
    assert(rels.deep_view().take(rels.len() as int) =~= rels.deep_view());
    out
}

/// The process id sent with `initialize`: ours on this machine, none
/// for a server in another process namespace (its parent-died watchdog
/// would kill it at once).
pub fn initialize_process_id(translator: &PathTranslator, own_pid: u32) -> (r: Option<u32>)
    ensures
        r == if translator is HostMount {
            None
        } else {
            Some(own_pid)
        },
{
    if translator.is_remote() {
        None
    } else {
        Some(own_pid)
    }
}

/// Whether an `initialize` result advertises
/// `capabilities.completionProvider.resolveProvider: true` (unset
/// reads as false).
pub open spec fn resolve_provider_spec(result: Json) -> bool {
    match spec_get(result, "capabilities"@) {
        Some(c) => match spec_get(c, "completionProvider"@) {
            Some(p) => spec_get(p, "resolveProvider"@) == Some(Json::Bool(true)),
            None => false,
        },
        None => false,
    }
}

/// See [`resolve_provider_spec`].
pub fn completion_resolve_support(result: &Json) -> (r: bool)
    ensures
        r == resolve_provider_spec(*result),
{
    match result.get("capabilities") {
        Some(c) => match c.get("completionProvider") {
            Some(p) => match p.get("resolveProvider") {
                Some(Json::Bool(b)) => *b,
                _ => false,
            },
            None => false,
        },
        None => false,
    }
}

} // verus!
