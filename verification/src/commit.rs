//! The decisions around `git commit` from the SCM panel: the arguments
//! it runs with, how its failures read, and what the success toast
//! says. Running git is the caller's.
use vstd::prelude::*;
use crate::error::{Failure, MoonError};
use crate::num::{i64_chars, signed_decimal};
use crate::text::{chars_of, contains_seq, lines, lines_of, push_chars, push_str_chars, string_from_chars, trim, trim_bounds};

verus! {

/// What a commit reports: the new head's short name and its subject.
#[derive(Debug)]
pub struct GitCommitResult {
    pub short_sha: String,
    pub summary: String,
}

/// The arguments after `git commit`: an amend keeps the head's message
/// when `message` is empty (`--no-edit`) and replaces it otherwise; a
/// plain commit always passes `-m <message>`.
pub open spec fn commit_args_spec(message: Seq<char>, amend: bool) -> Seq<Seq<char>> {
    if amend {
        if message.len() == 0 {
            seq!["--amend"@, "--no-edit"@]
        } else {
            seq!["--amend"@, "-m"@, message]
        }
    } else {
        seq!["-m"@, message]
    }
}

/// The arguments `git commit` runs with.
pub fn commit_args(message: &str, amend: bool) -> (r: Vec<String>)
    ensures
        r.deep_view() == commit_args_spec(message@, amend),
{
    let mut out: Vec<String> = Vec::new();
    let empty = chars_of(message).len() == 0;
    if amend {
        out.push("--amend".to_owned());
        if empty {
            out.push("--no-edit".to_owned());
        } else {
            out.push("-m".to_owned());
            out.push(message.to_owned());
        }
    } else {
        out.push("-m".to_owned());
        out.push(message.to_owned());
    }
    assert(out.deep_view() =~= commit_args_spec(message@, amend));
    out
}

/// `<what> exited <code>: <detail>`.
pub open spec fn exit_message(what: Seq<char>, code: i32, detail: Seq<char>) -> Seq<char> {
    what + " exited "@ + signed_decimal(code as int) + ": "@ + detail
}

fn exit_text(what: &str, code: i32, detail: &[char]) -> (r: String)
    ensures
        r@ == exit_message(what@, code, detail@),
{
    let mut v = chars_of(what);
    push_str_chars(&mut v, " exited ");
    let c = i64_chars(code as i64);
    push_chars(&mut v, c.as_slice());
    push_str_chars(&mut v, ": ");
    push_chars(&mut v, detail);
    string_from_chars(v.as_slice())
}

/// The error of a failed `git commit` whose output was `stdout` and
/// (trimmed) `stderr`, exiting with `code`: "nothing to commit" when
/// stdout says so; otherwise the exit, with stderr (or stdout when
/// stderr is empty) trimmed.
pub open spec fn commit_failure_view(stdout: Seq<char>, stderr: Seq<char>, code: i32) -> Failure {
    if contains_seq(stdout, "nothing to commit"@) {
        Failure::InvalidArgument("nothing to commit"@)
    } else {
        Failure::IoError(exit_message("git commit"@, code, trim(if stderr.len() == 0 { stdout } else { stderr })))
    }
}

/// The error of a failed `git commit`: see [`commit_failure_view`].
pub fn commit_failure(stdout: &str, stderr: &str, code: i32) -> (r: MoonError)
    ensures
        r@ == commit_failure_view(stdout@, stderr@, code),
{
    if crate::text::str_contains(stdout, "nothing to commit") {
        return MoonError::InvalidArgument("nothing to commit".to_owned());
    }
    let se = chars_of(stderr);
    let combined = if se.len() == 0 { chars_of(stdout) } else { se };
    let (a, b) = trim_bounds(combined.as_slice());
    let detail = &combined.as_slice()[a..b];
    assert(detail@ =~= combined@.subrange(a as int, b as int));
    MoonError::IoError(exit_text("git commit", code, detail))
}

/// The error of a `git add -A` that exited with `code` and (trimmed)
/// `stderr`.
pub fn stage_failure(stderr: &str, code: i32) -> (r: MoonError)
    ensures
        r matches MoonError::IoError(m) && m@ == exit_message("git add"@, code, stderr@),
{
    let se = chars_of(stderr);
    MoonError::IoError(exit_text("git add", code, se.as_slice()))
}

/// The error of a `git restore` that exited with `code`: its trimmed
/// stderr.
pub fn restore_failure(stderr: &str, code: i32) -> (r: MoonError)
    ensures
        r matches MoonError::IoError(m) && m@ == exit_message("git restore"@, code, trim(stderr@)),
{
    let se = chars_of(stderr);
    let (a, b) = trim_bounds(se.as_slice());
    let detail = &se.as_slice()[a..b];
    assert(detail@ =~= se@.subrange(a as int, b as int));
    MoonError::IoError(exit_text("git restore", code, detail))
}

/// The error of a `git switch -c` that exited with `code`: its trimmed
/// stderr, or its trimmed stdout when stderr is empty.
pub fn switch_failure(stdout: &str, stderr: &str, code: i32) -> (r: MoonError)
    ensures
        r matches MoonError::IoError(m) && m@ == exit_message(
            "git switch -c"@,
            code,
            if stderr@.len() == 0 { stdout@ } else { stderr@ },
        ),
{
    let se = chars_of(stderr);
    let combined = if se.len() == 0 { chars_of(stdout) } else { se };
    MoonError::IoError(exit_text("git switch -c", code, combined.as_slice()))
}

/// The subject a commit message records: its first line, trimmed.
pub open spec fn subject_of(message: Seq<char>) -> Seq<char> {
    if lines(message).len() == 0 {
        seq![]
    } else {
        trim(lines(message)[0])
    }
}

/// The subject of the commit just made from `message`.
pub fn commit_subject(message: &str) -> (r: String)
    ensures
        r@ == subject_of(message@),
{
    let ls = lines_of(message);
    if ls.len() == 0 {
        return String::new();
    }
    assert(ls.deep_view()[0] == ls[0]@);
    let cs = chars_of(ls[0].as_str());
    let (a, b) = trim_bounds(cs.as_slice());
    crate::text::string_from_range(cs.as_slice(), a, b)
}

/// Whether the toast should echo the head's recorded subject (an amend
/// without a new message) rather than the message given.
pub fn echo_head_subject(message: &str, amend: bool) -> (r: bool)
    ensures
        r == (amend && message@.len() == 0),
{
    amend && chars_of(message).len() == 0
}

/// The refusal of an empty branch name.
pub fn check_branch_name(branch: &str) -> (r: Result<(), MoonError>)
    ensures
        r is Ok <==> branch@.len() > 0,
        r matches Err(MoonError::InvalidArgument(m)) ==> m@ == "branch name is empty"@,
        r is Err ==> r matches Err(MoonError::InvalidArgument(_)),
{
    if chars_of(branch).len() == 0 {
        return Err(MoonError::InvalidArgument("branch name is empty".to_owned()));
    }
    Ok(())
}

/// Where a failed commit on a new branch rolls back to: the previous
/// branch, else the previous head commit.
pub fn rollback_target<'a>(previous_ref: Option<&'a str>, previous_sha: Option<&'a str>) -> (r: Option<&'a str>)
    ensures
        r == match previous_ref {
            Some(p) => Some(p),
            None => previous_sha,
        },
{
    match previous_ref {
        Some(p) => Some(p),
        None => previous_sha,
    }
}

} // verus!
