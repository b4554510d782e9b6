//! The outcome of one `git` invocation, as the library reads it: what
//! it printed, whether it succeeded, why it did not start.
use vstd::prelude::*;
use vstd::utf8::{decode_utf8, valid_utf8};
use crate::blame::{lossy_utf8, utf8_lossy};
use crate::error::{Failure, MoonError};
use crate::lsp::translate::opt_view;
use crate::text::{chars_of, push_str_chars, string_from_chars, string_from_range, trim, trim_bounds, utf8_str};

verus! {

/// How one `git` invocation went.
pub enum GitRun {
    /// The process could not be started; `error` says why.
    NotLaunched { error: String },
    /// The process ran: whether it succeeded, its exit code (-1 when it
    /// had none), and what it printed.
    Exited { success: bool, code: i32, stdout: Vec<u8>, stderr: Vec<u8> },
}

/// A [`GitRun`] as a value.
pub ghost enum GitRunView {
    NotLaunched(Seq<char>),
    Exited(bool, i32, Seq<u8>, Seq<u8>),
}

impl View for GitRun {
    type V = GitRunView;

    open spec fn view(&self) -> GitRunView {
        match self {
            GitRun::NotLaunched { error } => GitRunView::NotLaunched(error@),
            GitRun::Exited { success, code, stdout, stderr } => GitRunView::Exited(*success, *code, stdout@, stderr@),
        }
    }
}

/// The trimmed text a successful call printed, when it is UTF-8.
pub open spec fn printed(run: GitRunView) -> Option<Seq<char>> {
    match run {
        GitRunView::Exited(success, _, out, _) => if success && valid_utf8(out) {
            Some(trim(decode_utf8(out)))
        } else {
            None
        },
        _ => None,
    }
}

/// [`printed`], when not empty: a name `git` resolved.
pub open spec fn printed_name(run: GitRunView) -> Option<Seq<char>> {
    match printed(run) {
        Some(t) => if t.len() > 0 {
            Some(t)
        } else {
            None
        },
        None => None,
    }
}

/// [`printed`], or nothing.
pub open spec fn printed_or_empty(run: GitRunView) -> Seq<char> {
    match printed(run) {
        Some(t) => t,
        None => seq![],
    }
}

pub open spec fn succeeded(run: GitRunView) -> bool {
    run matches GitRunView::Exited(true, _, _, _)
}

/// `<what> failed to launch: <error>`.
pub open spec fn launch_failure(what: Seq<char>, error: Seq<char>) -> Failure {
    Failure::IoError(what + " failed to launch: "@ + error)
}

/// `bytes` decoded leniently and trimmed.
pub(crate) fn lossy_trimmed(bytes: &[u8]) -> (r: String)
    ensures
        r@ == trim(lossy_utf8(bytes@)),
{
    let s = utf8_lossy(bytes);
    let cs = chars_of(s.as_str());
    let (a, b) = trim_bounds(cs.as_slice());
    string_from_range(cs.as_slice(), a, b)
}

pub(crate) fn printed_text(run: &GitRun) -> (r: Option<String>)
    ensures
        opt_view(r) == printed(run@),
{
    match run {
        GitRun::Exited { success, stdout, .. } => {
            if !*success {
                return None;
            }
            match utf8_str(stdout.as_slice()) {
                Some(s) => {
                    let cs = chars_of(s);
                    let (a, b) = trim_bounds(cs.as_slice());
                    Some(string_from_range(cs.as_slice(), a, b))
                },
                None => None,
            }
        },
        GitRun::NotLaunched { .. } => None,
    }
}

pub(crate) fn printed_name_of(run: &GitRun) -> (r: Option<String>)
    ensures
        opt_view(r) == printed_name(run@),
{
    match printed_text(run) {
        Some(t) => if chars_of(t.as_str()).len() > 0 {
            Some(t)
        } else {
            None
        },
        None => None,
    }
}

pub(crate) fn printed_or_empty_of(run: &GitRun) -> (r: String)
    ensures
        r@ == printed_or_empty(run@),
{
    match printed_text(run) {
        Some(t) => t,
        None => String::new(),
    }
}

pub(crate) fn launch_error(what: &str, error: &str) -> (r: MoonError)
    ensures
        r@ == launch_failure(what@, error@),
{
    let mut m = chars_of(what);
    push_str_chars(&mut m, " failed to launch: ");
    push_str_chars(&mut m, error);
    MoonError::IoError(string_from_chars(m.as_slice()))
}

pub(crate) fn args2(a: &str, b: &str) -> (r: Vec<String>)
    ensures
        r.deep_view() == seq![a@, b@],
{
    let mut v: Vec<String> = Vec::new();
    v.push(a.to_owned());
    v.push(b.to_owned());
    assert(v.deep_view() =~= seq![a@, b@]);
    v
}

pub(crate) fn args3(a: &str, b: &str, c: &str) -> (r: Vec<String>)
    ensures
        r.deep_view() == seq![a@, b@, c@],
{
    let mut v: Vec<String> = Vec::new();
    v.push(a.to_owned());
    v.push(b.to_owned());
    v.push(c.to_owned());
    assert(v.deep_view() =~= seq![a@, b@, c@]);
    v
}

pub(crate) fn args4(a: &str, b: &str, c: &str, d: &str) -> (r: Vec<String>)
    ensures
        r.deep_view() == seq![a@, b@, c@, d@],
{
    let mut v: Vec<String> = Vec::new();
    v.push(a.to_owned());
    v.push(b.to_owned());
    v.push(c.to_owned());
    v.push(d.to_owned());
    assert(v.deep_view() =~= seq![a@, b@, c@, d@]);
    v
}

} // verus!
