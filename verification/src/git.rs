//! Pure pieces of the git integration: URL and ref handling, and the
//! parsers of git's machine-readable outputs.
use vstd::prelude::*;
use vstd::string::StringSliceAdditionalSpecFns;
use crate::error::MoonError;
use crate::text::{
    before_char, char_index, chars_of, find_char, has_prefix, push_chars, push_str_chars,
    starts_with, string_from_chars, trim_end_char, trim_end_char_len, trim_end_str,
    trim_end_str_len,
};

verus! {

/// `b` is a byte a branch name may keep verbatim in a URL path:
/// ASCII alphanumerics and `-_.~/`.
pub open spec fn is_url_safe_byte(b: u8) -> bool {
    (0x30 <= b && b <= 0x39) || (0x41 <= b && b <= 0x5a) || (0x61 <= b && b <= 0x7a) || b == 0x2d
        || b == 0x5f || b == 0x2e || b == 0x7e || b == 0x2f
}

/// Upper-case hex digit of a value below sixteen.
pub open spec fn hex_upper(d: u8) -> char {
    if d < 10 {
        (d + 0x30) as char
    } else {
        (d - 10 + 0x41) as char
    }
}

/// The encoding of one byte: itself when safe, else `%XX`.
pub open spec fn encode_byte(b: u8) -> Seq<char> {
    if is_url_safe_byte(b) {
        seq![b as char]
    } else {
        seq!['%', hex_upper(b / 16), hex_upper(b % 16)]
    }
}

/// Percent-encoding of `bytes`, one byte at a time.
pub open spec fn encode_bytes(bytes: Seq<u8>) -> Seq<char>
    decreases bytes.len(),
{
    if bytes.len() == 0 {
        seq![]
    } else {
        encode_bytes(bytes.drop_last()) + encode_byte(bytes.last())
    }
}

fn hex_digit(d: u8) -> (c: char)
    requires
        d < 16,
    ensures
        c == hex_upper(d),
{
    if d < 10 {
        (d + 0x30) as char
    } else {
        (d - 10 + 0x41) as char
    }
}

/// Percent-encode a branch name for a URL path segment. Every byte of
/// its UTF-8 encoding outside `[A-Za-z0-9-_.~/]` becomes `%XX`.
pub fn encode_branch_segment(branch: &str) -> (out: String)
    ensures
        out@ == encode_bytes(branch.spec_bytes()),
{
    let bytes = branch.as_bytes();
    let mut out: Vec<char> = Vec::new();
    let mut i: usize = 0;
    assert(bytes@.take(0) =~= Seq::<u8>::empty());
    while i < bytes.len()
        invariant
            i <= bytes.len(),
            bytes@ == branch.spec_bytes(),
            out@ == encode_bytes(bytes@.take(i as int)),
        decreases bytes.len() - i,
    {
        let b = bytes[i];
        let safe = (0x30 <= b && b <= 0x39) || (0x41 <= b && b <= 0x5a) || (0x61 <= b && b <= 0x7a)
            || b == 0x2d || b == 0x5f || b == 0x2e || b == 0x7e || b == 0x2f;
        if safe {
            out.push(b as char);
        } else {
            out.push('%');
            out.push(hex_digit(b / 16));
            out.push(hex_digit(b % 16));
        }
        assert(bytes@.take(i + 1).drop_last() =~= bytes@.take(i as int));
        assert(bytes@.take(i + 1).last() == b);
        assert(out@ =~= encode_bytes(bytes@.take(i + 1)));
        i = i + 1;
    }
    assert(bytes@.take(bytes.len() as int) =~= bytes@);
    string_from_chars(out.as_slice())
}

/// `c` is an ASCII hex digit.
pub open spec fn is_hex_digit(c: char) -> bool {
    ('0' <= c && c <= '9') || ('a' <= c && c <= 'f') || ('A' <= c && c <= 'F')
}

/// A rev git may be asked to show: `HEAD` or a 40-digit hex SHA.
pub open spec fn safe_rev(rev: Seq<char>) -> bool {
    rev == "HEAD"@ || (rev.len() == 40 && forall|i: int| 0 <= i < 40 ==> is_hex_digit(#[trigger] rev[i]))
}

/// Whether `rev` is `HEAD` or a 40-character hex SHA: the only revs
/// the diff view ever legitimately asks for.
pub fn is_safe_rev(rev: &str) -> (r: bool)
    ensures
        r == safe_rev(rev@),
{
    let cs = chars_of(rev);
    let head = chars_of("HEAD");
    if crate::text::chars_eq(cs.as_slice(), head.as_slice()) {
        return true;
    }
    if cs.len() != 40 {
        return false;
    }
    let mut i: usize = 0;
    while i < 40
        invariant
            cs@ == rev@,
            rev@ != "HEAD"@,
            cs.len() == 40,
            i <= 40,
            forall|j: int| 0 <= j < i ==> is_hex_digit(#[trigger] cs@[j]),
        decreases 40 - i,
    {
        let c = cs[i];
        if !(('0' <= c && c <= '9') || ('a' <= c && c <= 'f') || ('A' <= c && c <= 'F')) {
            assert(!is_hex_digit(cs@[i as int]));
            return false;
        }
        i = i + 1;
    }
    true
}

/// `https://github.com/<owner_repo>` with trailing `/` and `.git` trimmed.
pub open spec fn github_web_url_spec(owner_repo: Seq<char>) -> Seq<char> {
    "https://github.com/"@ + trim_end_str(trim_end_char(owner_repo, '/'), ".git"@)
}

/// The GitHub web URL of an `owner/repo` path.
pub fn github_web_url(owner_repo: &[char]) -> (out: String)
    ensures
        out@ == github_web_url_spec(owner_repo@),
{
    let k1 = trim_end_char_len(owner_repo, '/');
    let dotgit = chars_of(".git");
    let k2 = trim_end_str_len(&owner_repo[0..k1], dotgit.as_slice());
    assert(owner_repo@.subrange(0, k1 as int) =~= owner_repo@.take(k1 as int));
    let mut v: Vec<char> = chars_of("https://github.com/");
    push_chars(&mut v, &owner_repo[0..k2]);
    assert(owner_repo@.subrange(0, k1 as int).take(k2 as int) =~= owner_repo@.subrange(0, k2 as int));
    string_from_chars(v.as_slice())
}

/// What [`normalize_remote_url`] makes of `raw`: the GitHub web URL for
/// GitHub remotes in SCP-style SSH, `ssh://`, `https://` or `http://`
/// form, `None` for anything else.
pub open spec fn github_remote_spec(raw: Seq<char>) -> Option<Seq<char>> {
    if has_prefix(raw, "git@"@) && char_index(raw.skip(4), ':') is Some && raw.skip(4).take(
        char_index(raw.skip(4), ':')->0,
    ) == "github.com"@ {
        Some(github_web_url_spec(raw.skip(4).skip(char_index(raw.skip(4), ':')->0 + 1)))
    } else {
        let after_scp = if has_prefix(raw, "ssh://"@) {
            let r0 = raw.skip(6);
            let rest = if has_prefix(r0, "git@"@) { r0.skip(4) } else { r0 };
            match char_index(rest, '/') {
                Some(i) => if rest.take(i) == "github.com"@ {
                    Some(github_web_url_spec(rest.skip(i + 1)))
                } else {
                    None
                },
                None => None,
            }
        } else {
            None
        };
        if after_scp is Some {
            after_scp
        } else if has_prefix(raw, "https://"@) || has_prefix(raw, "http://"@) {
            let rest = if has_prefix(raw, "https://"@) { raw.skip(8) } else { raw.skip(7) };
            match char_index(rest, '/') {
                Some(i) => if rest.take(i) == "github.com"@ {
                    Some(github_web_url_spec(rest.skip(i + 1)))
                } else {
                    None
                },
                None => None,
            }
        } else {
            None
        }
    }
}

/// `host/path` split at the first `/` when `host` is `github.com`.
fn github_after_host(rest: &[char]) -> (r: Option<String>)
    ensures
        match r {
            Some(u) => char_index(rest@, '/') matches Some(i) && rest@.take(i) == "github.com"@
                && u@ == github_web_url_spec(rest@.skip(i + 1)),
            None => !(char_index(rest@, '/') matches Some(i) && rest@.take(i) == "github.com"@),
        },
{
    match find_char(rest, '/') {
        Some(i) => {
            let gh = chars_of("github.com");
            assert(rest@.subrange(0, i as int) =~= rest@.take(i as int));
            if crate::text::chars_eq(&rest[0..i], gh.as_slice()) {
                assert(rest@.subrange(i + 1, rest@.len() as int) =~= rest@.skip(i + 1));
                Some(github_web_url(&rest[i + 1..rest.len()]))
            } else {
                None
            }
        },
        None => None,
    }
}

/// Normalise a remote URL to the GitHub web URL of its repository;
/// `None` for hosts other than `github.com` and for unknown shapes.
pub fn normalize_remote_url(raw: &str) -> (r: Option<String>)
    ensures
        match r {
            Some(u) => github_remote_spec(raw@) == Some(u@),
            None => github_remote_spec(raw@) is None,
        },
{
    let cs = chars_of(raw);
    let git_at = chars_of("git@");
    let ssh = chars_of("ssh://");
    let https = chars_of("https://");
    let http = chars_of("http://");
    assert(git_at@.len() == 4 && ssh@.len() == 6 && https@.len() == 8 && http@.len() == 7) by {
        reveal_strlit("git@");
        reveal_strlit("ssh://");
        reveal_strlit("https://");
        reveal_strlit("http://");
    }
    if starts_with(cs.as_slice(), git_at.as_slice()) {
        let rest = &cs.as_slice()[4..cs.len()];
        assert(rest@ =~= cs@.skip(4));
        if let Some(i) = find_char(rest, ':') {
            let gh = chars_of("github.com");
            assert(rest@.subrange(0, i as int) =~= rest@.take(i as int));
            if crate::text::chars_eq(&rest[0..i], gh.as_slice()) {
                assert(rest@.subrange(i + 1, rest@.len() as int) =~= rest@.skip(i + 1));
                return Some(github_web_url(&rest[i + 1..rest.len()]));
            }
        }
    }
    if starts_with(cs.as_slice(), ssh.as_slice()) {
        let r0 = &cs.as_slice()[6..cs.len()];
        assert(r0@ =~= cs@.skip(6));
        let rest = if starts_with(r0, git_at.as_slice()) {
            assert(r0@.subrange(4, r0@.len() as int) =~= r0@.skip(4));
            &r0[4..r0.len()]
        } else {
            r0
        };
        if let Some(u) = github_after_host(rest) {
            return Some(u);
        }
    }
    let is_https = starts_with(cs.as_slice(), https.as_slice());
    if is_https || starts_with(cs.as_slice(), http.as_slice()) {
        let skip: usize = if is_https { 8 } else { 7 };
        let rest = &cs.as_slice()[skip..cs.len()];
        assert(rest@ =~= cs@.skip(skip as int));
        return github_after_host(rest);
    }
    None
}

/// The trimmed text of a command's output, when not empty.
pub open spec fn trimmed_nonempty(s: Seq<char>) -> Option<Seq<char>> {
    if crate::text::trim(s).len() == 0 {
        None
    } else {
        Some(crate::text::trim(s))
    }
}

/// The trimmed text of `stdout`, or `None` when nothing is left.
pub fn trimmed_output(stdout: &str) -> (r: Option<String>)
    ensures
        match r {
            Some(t) => trimmed_nonempty(stdout@) == Some(t@),
            None => trimmed_nonempty(stdout@) is None,
        },
{
    let cs = chars_of(stdout);
    let (a, b) = crate::text::trim_bounds(cs.as_slice());
    if a == b {
        return None;
    }
    Some(crate::text::string_from_range(cs.as_slice(), a, b))
}

/// What `git rev-list --count --left-right HEAD...@{u}` reports: its
/// first two words as `u32` (ahead, behind), else `(0, 0)`.
pub open spec fn ahead_behind_spec(s: Seq<char>) -> (u32, u32) {
    let w = crate::format::words(s);
    if w.len() >= 2 {
        match (
            crate::num::parse_unsigned_spec(w[0], u32::MAX as nat),
            crate::num::parse_unsigned_spec(w[1], u32::MAX as nat),
        ) {
            (Some(a), Some(b)) => (a as u32, b as u32),
            _ => (0, 0),
        }
    } else {
        (0, 0)
    }
}

/// Read the ahead/behind counts of `git rev-list --count --left-right`.
pub fn parse_ahead_behind(stdout: &str) -> (r: (u32, u32))
    ensures
        r == ahead_behind_spec(stdout@),
{
    let w = crate::format::parse_command(stdout);
    if w.len() < 2 {
        return (0, 0);
    }
    let c0 = chars_of(w[0].as_str());
    let c1 = chars_of(w[1].as_str());
    assert(w.deep_view()[0] == w[0]@ && w.deep_view()[1] == w[1]@);
    match (crate::num::parse_unsigned(c0.as_slice(), u32::MAX as u64), crate::num::parse_unsigned(c1.as_slice(), u32::MAX as u64)) {
        (Some(a), Some(b)) => (a as u32, b as u32),
        _ => (0, 0),
    }
}

/// What `git rev-list --count` reports, as `u32`, or 0.
pub open spec fn count_spec(s: Seq<char>) -> u32 {
    match crate::num::parse_unsigned_spec(crate::text::trim(s), u32::MAX as nat) {
        Some(n) => n as u32,
        None => 0,
    }
}

/// Read the count of `git rev-list --count`; 0 when it does not parse.
pub fn parse_count(stdout: &str) -> (r: u32)
    ensures
        r == count_spec(stdout@),
{
    let cs = chars_of(stdout);
    let (a, b) = crate::text::trim_bounds(cs.as_slice());
    let t = &cs.as_slice()[a..b];
    assert(t@ =~= cs@.subrange(a as int, b as int));
    match crate::num::parse_unsigned(t, u32::MAX as u64) {
        Some(n) => n as u32,
        None => 0,
    }
}

/// The GitHub "open a pull request" URL for `branch` on the repo whose
/// web URL is `base`.
pub fn pr_create_url(base: &str, branch: &str) -> (r: String)
    ensures
        r@ == base@ + "/pull/new/"@ + encode_bytes(branch.spec_bytes()),
{
    let mut v = chars_of(base);
    push_str_chars(&mut v, "/pull/new/");
    let enc = encode_branch_segment(branch);
    push_str_chars(&mut v, enc.as_str());
    string_from_chars(v.as_slice())
}

/// The local name of a remote-tracking ref: what follows its first
/// `/` (`origin/main` is `main`), or the whole ref.
pub open spec fn local_branch_of(remote_ref: Seq<char>) -> Seq<char> {
    match char_index(remote_ref, '/') {
        Some(i) => remote_ref.skip(i + 1),
        None => remote_ref,
    }
}

/// Whether the "behind the default branch" count is worth asking git
/// for: only with a default remote ref and a checked-out branch that is
/// not the default branch itself.
pub fn default_branch_behind_needed(remote_ref: Option<&str>, name: Option<&str>) -> (r: bool)
    ensures
        r == match (remote_ref, name) {
            (Some(rr), Some(n)) => local_branch_of(rr@) != n@,
            _ => false,
        },
{
    match (remote_ref, name) {
        (Some(rr), Some(n)) => {
            let cs = chars_of(rr);
            let local: Vec<char> = match find_char(cs.as_slice(), '/') {
                Some(i) => {
                    let mut v: Vec<char> = Vec::new();
                    push_chars(&mut v, &cs.as_slice()[i + 1..cs.len()]);
                    assert(v@ =~= cs@.skip(i + 1));
                    v
                },
                None => cs,
            };
            let nc = chars_of(n);
            !crate::text::chars_eq(local.as_slice(), nc.as_slice())
        },
        _ => false,
    }
}

/// Whether the branch diff against the default branch is suppressed:
/// HEAD is the branch the default remote ref tracks (`origin/main`
/// when on `main`); a ref without `/` never suppresses.
pub open spec fn on_default_branch(default_ref: Seq<char>, head: Seq<char>) -> bool {
    match char_index(default_ref, '/') {
        Some(i) => default_ref.skip(i + 1) == head,
        None => false,
    }
}

/// See [`on_default_branch`].
pub fn diff_suppressed_on_default(default_ref: &str, head: &str) -> (r: bool)
    ensures
        r == on_default_branch(default_ref@, head@),
{
    let cs = chars_of(default_ref);
    match find_char(cs.as_slice(), '/') {
        Some(i) => {
            let tail = &cs.as_slice()[i + 1..cs.len()];
            assert(tail@ =~= cs@.skip(i + 1));
            let h = chars_of(head);
            crate::text::chars_eq(tail, h.as_slice())
        },
        None => false,
    }
}

/// A branch to switch to: a local branch, or a pull request checked
/// out through `gh`.
#[derive(Debug, Clone)]
pub enum BranchSwitchTarget {
    Local { name: String },
    Pr { number: u32 },
}

/// How a switch runs: the program, its arguments, the label its
/// errors carry, and whether it runs in the workspace directory (`gh`
/// has no `-C`) rather than naming it with `git -C <root>`.
#[derive(Debug)]
pub struct SwitchCommand {
    pub program: String,
    pub args: Vec<String>,
    pub label: String,
    pub in_root_dir: bool,
}

/// The command of a switch in the workspace `root`: `git -C <root>
/// switch <name>` (the name trimmed, and refused when empty) or
/// `gh pr checkout <number>` run in `root`.
pub fn branch_switch_command(root: &str, target: &BranchSwitchTarget) -> (r: Result<SwitchCommand, MoonError>)
    ensures
        match target {
            BranchSwitchTarget::Local { name } => if crate::text::trim(name@).len() == 0 {
                r matches Err(MoonError::InvalidArgument(m)) && m@ == "branch name is empty"@
            } else {
                r matches Ok(c) && c.program@ == "git"@ && !c.in_root_dir && c.args.deep_view() == seq![
                    "-C"@,
                    root@,
                    "switch"@,
                    crate::text::trim(name@),
                ] && c.label@ == "git switch "@ + crate::text::trim(name@)
            },
            BranchSwitchTarget::Pr { number } => r matches Ok(c) && c.program@ == "gh"@ && c.in_root_dir
                && c.args.deep_view() == seq!["pr"@, "checkout"@, crate::num::decimal(*number as nat)]
                && c.label@ == "gh pr checkout "@ + crate::num::decimal(*number as nat),
        },
{
    match target {
        BranchSwitchTarget::Local { name } => {
            let t = match trimmed_output(name.as_str()) {
                Some(t) => t,
                None => {
                    return Err(MoonError::InvalidArgument("branch name is empty".to_owned()));
                },
            };
            let mut label = chars_of("git switch ");
            push_str_chars(&mut label, t.as_str());
            let mut args: Vec<String> = Vec::new();
            args.push("-C".to_owned());
            args.push(root.to_owned());
            args.push("switch".to_owned());
            args.push(t);
            assert(args.deep_view() =~= seq!["-C"@, root@, "switch"@, crate::text::trim(name@)]);
            Ok(SwitchCommand { program: "git".to_owned(), args, label: string_from_chars(label.as_slice()), in_root_dir: false })
        },
        BranchSwitchTarget::Pr { number } => {
            let digits = crate::num::decimal_chars(*number as u64);
            let mut label = chars_of("gh pr checkout ");
            push_chars(&mut label, digits.as_slice());
            let mut args: Vec<String> = Vec::new();
            args.push("pr".to_owned());
            args.push("checkout".to_owned());
            args.push(string_from_chars(digits.as_slice()));
            assert(args.deep_view() =~= seq!["pr"@, "checkout"@, crate::num::decimal(*number as nat)]);
            Ok(SwitchCommand { program: "gh".to_owned(), args, label: string_from_chars(label.as_slice()), in_root_dir: true })
        },
    }
}

/// What a failed command reports: its trimmed stderr, else its trimmed
/// stdout, else `exit <code>`.
pub open spec fn failure_detail(stdout: Seq<char>, stderr: Seq<char>, code: i32) -> Seq<char> {
    if crate::text::trim(stderr).len() > 0 {
        crate::text::trim(stderr)
    } else if crate::text::trim(stdout).len() > 0 {
        crate::text::trim(stdout)
    } else {
        "exit "@ + crate::num::signed_decimal(code as int)
    }
}

/// The error of a `label`ed command that exited unsuccessfully with
/// `code` (`-1` when killed by a signal).
pub fn command_failure(label: &str, stdout: &str, stderr: &str, code: i32) -> (r: MoonError)
    ensures
        r matches MoonError::IoError(m) && m@ == label@ + ": "@ + failure_detail(stdout@, stderr@, code),
{
    let mut m = chars_of(label);
    push_str_chars(&mut m, ": ");
    match trimmed_output(stderr) {
        Some(e) => push_str_chars(&mut m, e.as_str()),
        None => match trimmed_output(stdout) {
            Some(o) => push_str_chars(&mut m, o.as_str()),
            None => {
                push_str_chars(&mut m, "exit ");
                let c = crate::num::i64_chars(code as i64);
                push_chars(&mut m, c.as_slice());
            },
        },
    }
    MoonError::IoError(string_from_chars(m.as_slice()))
}

} // verus!
