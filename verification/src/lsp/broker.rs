//! The broker's decisions: whether a language's server is reused,
//! started, retried on the host, or recorded as unavailable, and which
//! servers a diagnostics refresh reaches. The processes, locks and
//! events are the caller's.
use vstd::prelude::*;
use crate::lsp::server::{covers_oxlint_language, oxlint_language_set, PathTranslator};
use crate::lsp::spawn::LspSpawner;
use crate::text::str_eq;

verus! {

/// Where a server may be started: the broker's own spawner, or the host
/// when that is a container.
#[derive(Debug, Clone, Copy, PartialEq, Eq, Structural)]
pub enum Route {
    Primary,
    Fallback,
}

/// What the broker holds for a language.
#[derive(Debug, Clone, Copy, PartialEq, Eq, Structural)]
pub enum SlotState {
    Missing,
    ReadyAlive,
    ReadyDead,
    NotAvailable,
}

/// How starting a server on one route went.
#[derive(Debug, Clone, Copy, PartialEq, Eq, Structural)]
pub enum SpawnResult {
    Ready,
    /// No binary, or its probe failed: try elsewhere.
    Unavailable,
    /// It was found but failed to start.
    Failed,
}

/// What the broker does next.
#[derive(Debug, Clone, Copy, PartialEq, Eq, Structural)]
pub enum EnsureAction {
    /// Hand out the running server.
    UseExisting,
    /// The language is recorded as unavailable: no server.
    NoServer,
    /// Start a server on `route`; `respawn` when a dead one is dropped
    /// first.
    Spawn { route: Route, respawn: bool },
    /// Record the started server and hand it out.
    StoreReady { route: Route },
    /// Record the language as unavailable, report it crashed, and fail.
    StoreCrashed { route: Route },
    /// Record the language as unavailable and report the install hint.
    StoreNotAvailable,
}

/// The action for what the broker holds for a language: a live server
/// is reused, a dead one replaced, an unavailable language left alone,
/// and a missing one started on the primary route.
pub fn on_slot(slot: SlotState) -> (a: EnsureAction)
    ensures
        a == match slot {
            SlotState::ReadyAlive => EnsureAction::UseExisting,
            SlotState::ReadyDead => EnsureAction::Spawn { route: Route::Primary, respawn: true },
            SlotState::NotAvailable => EnsureAction::NoServer,
            SlotState::Missing => EnsureAction::Spawn { route: Route::Primary, respawn: false },
        },
{
    match slot {
        SlotState::ReadyAlive => EnsureAction::UseExisting,
        SlotState::ReadyDead => EnsureAction::Spawn { route: Route::Primary, respawn: true },
        SlotState::NotAvailable => EnsureAction::NoServer,
        SlotState::Missing => EnsureAction::Spawn { route: Route::Primary, respawn: false },
    }
}

/// The action after starting on `route` gave `result`: a started server
/// is stored, a failure is stored as a crash, and an unavailable binary
/// moves on to the host fallback when there is one, else records the
/// language as unavailable.
pub fn after_spawn(route: Route, result: SpawnResult, has_fallback: bool) -> (a: EnsureAction)
    ensures
        a == match result {
            SpawnResult::Ready => EnsureAction::StoreReady { route },
            SpawnResult::Failed => EnsureAction::StoreCrashed { route },
            SpawnResult::Unavailable => if route == Route::Primary && has_fallback {
                EnsureAction::Spawn { route: Route::Fallback, respawn: false }
            } else {
                EnsureAction::StoreNotAvailable
            },
        },
{
    match result {
        SpawnResult::Ready => EnsureAction::StoreReady { route },
        SpawnResult::Failed => EnsureAction::StoreCrashed { route },
        SpawnResult::Unavailable => if route == Route::Primary && has_fallback {
            EnsureAction::Spawn { route: Route::Fallback, respawn: false }
        } else {
            EnsureAction::StoreNotAvailable
        },
    }
}

/// The host route a container broker falls back to: the local spawner
/// over the same host root; none for a local broker.
pub fn fallback_route(spawner: &LspSpawner, translator: &PathTranslator) -> (r: Option<(LspSpawner, PathTranslator)>)
    ensures
        match spawner {
            LspSpawner::Local => r is None,
            LspSpawner::DockerExec { .. } => r matches Some(p) && p.0 is Local && p.1 is Identity
                && p.1.host_root_spec() == translator.host_root_spec(),
        },
{
    match spawner {
        LspSpawner::Local => None,
        LspSpawner::DockerExec { .. } => {
            let host_root = translator.host_root().clone();
            Some((LspSpawner::Local, PathTranslator::Identity { host_root }))
        },
    }
}

/// The language-id list `filter` names `lang`.
pub open spec fn filter_names(filter: Seq<Seq<char>>, lang: Seq<char>) -> bool {
    filter.contains(lang)
}

fn filter_contains(filter: &[String], lang: &str) -> (r: bool)
    ensures
        r == filter_names(filter.deep_view(), lang@),
{
    let mut i: usize = 0;
    while i < filter.len()
        invariant
            i <= filter.len(),
            forall|j: int| 0 <= j < i ==> filter.deep_view()[j] != lang@,
        decreases filter.len() - i,
    {
        if str_eq(filter[i].as_str(), lang) {
            assert(filter.deep_view()[i as int] == lang@);
            return true;
        }
        i = i + 1;
    }
    false
}

/// Whether a diagnostics refresh limited to `filter` (all servers when
/// `None`) reaches the language server of `lang`.
pub fn refresh_reaches_server(lang: &str, filter: Option<&[String]>) -> (r: bool)
    ensures
        r == match filter {
            None => true,
            Some(f) => filter_names(f.deep_view(), lang@),
        },
{
    match filter {
        None => true,
        Some(f) => filter_contains(f, lang),
    }
}

/// Whether a diagnostics refresh limited to `filter` reaches the linter
/// slot `lint_name`: only `oxlint`, and only when the filter names one
/// of the languages it covers.
pub fn refresh_reaches_linter(lint_name: &str, filter: Option<&[String]>) -> (r: bool)
    ensures
        filter is None ==> r,
        filter matches Some(f) ==> (r <==> (lint_name@ == "oxlint"@ && exists|i: int|
            0 <= i < f.deep_view().len() && oxlint_language_set().contains(#[trigger] f.deep_view()[i]))),
{
    match filter {
        None => true,
        Some(f) => {
            if !str_eq(lint_name, "oxlint") {
                return false;
            }
            assert(f.deep_view().len() == f@.len());
            let mut i: usize = 0;
            while i < f.len()
                invariant
                    i <= f.len(),
                    f.deep_view().len() == f@.len(),
                    lint_name@ == "oxlint"@,
                    filter == Some(f),
                    forall|j: int| 0 <= j < i ==> !oxlint_language_set().contains(#[trigger] f.deep_view()[j]),
                decreases f.len() - i,
            {
                assert(f.deep_view()[i as int] == f[i as int]@);
                if covers_oxlint_language(f[i].as_str()) {
                    assert(oxlint_language_set().contains(f.deep_view()[i as int]));
                    assert(0 <= i < f.deep_view().len());
                    assert(exists|k: int| 0 <= k < f.deep_view().len() && oxlint_language_set().contains(#[trigger] f.deep_view()[k]));
                    assert(filter matches Some(g) && g == f);
                    return true;
                }
                i = i + 1;
            }
            false
        },
    }
}

} // verus!
