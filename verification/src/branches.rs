//! The branch switcher's rows: local branches from `git for-each-ref`
//! and open pull requests from `gh pr list --json`.
use vstd::prelude::*;
use vstd::multiset::Multiset;
use crate::blame::{lossy_utf8, utf8_lossy};
use crate::git_run::{lossy_trimmed, printed, printed_text, GitRun, GitRunView};
use crate::text::trim;
use crate::json::{get_str, or_empty, spec_as_u64, spec_get, string_or_empty, Json};
use crate::text::{char_index, chars_of, contains_seq, find_char, lines, lines_of, str_contains, str_eq, string_from_chars, string_from_range};
use crate::time::{format_iso8601_relative, iso_seconds, parse_iso8601_utc, relative_spec};

verus! {

/// One row of the branch switcher.
#[derive(Debug, Clone)]
pub enum BranchListEntry {
    Local { name: String, last_commit_subject: String, committer_date_relative: String, is_current: bool },
    Pr {
        number: u32,
        title: String,
        author: String,
        head_ref: String,
        is_draft: bool,
        updated_at_relative: String,
    },
}

/// A row as text.
pub ghost enum BranchRow {
    Local { name: Seq<char>, last_commit_subject: Seq<char>, committer_date_relative: Seq<char>, is_current: bool },
    Pr {
        number: u32,
        title: Seq<char>,
        author: Seq<char>,
        head_ref: Seq<char>,
        is_draft: bool,
        updated_at_relative: Seq<char>,
    },
}

impl View for BranchListEntry {
    type V = BranchRow;

    open spec fn view(&self) -> BranchRow {
        match self {
            BranchListEntry::Local { name, last_commit_subject, committer_date_relative, is_current } => BranchRow::Local {
                name: name@,
                last_commit_subject: last_commit_subject@,
                committer_date_relative: committer_date_relative@,
                is_current: *is_current,
            },
            BranchListEntry::Pr { number, title, author, head_ref, is_draft, updated_at_relative } => BranchRow::Pr {
                number: *number,
                title: title@,
                author: author@,
                head_ref: head_ref@,
                is_draft: *is_draft,
                updated_at_relative: updated_at_relative@,
            },
        }
    }
}

/// A boolean member, `false` when missing or not a boolean.
pub open spec fn flag(v: Json, key: Seq<char>) -> bool {
    match spec_get(v, key) {
        Some(Json::Bool(b)) => b,
        _ => false,
    }
}

/// The author login of an item, empty when missing.
pub open spec fn author_login(item: Json) -> Seq<char> {
    match spec_get(item, "author"@) {
        Some(a) => or_empty(get_str(a, "login"@)),
        None => Seq::empty(),
    }
}

/// The row of one `gh pr list` item seen at `now`, with its `updatedAt`
/// in Unix seconds; `None` when it lacks a `u64` number, a title or a
/// head ref name. The number saturates at `u32::MAX`.
pub open spec fn gh_pr_row(item: Json, now: int) -> Option<(BranchRow, Option<int>)> {
    match (spec_get(item, "number"@), get_str(item, "title"@), get_str(item, "headRefName"@)) {
        (Some(n), Some(title), Some(head_ref)) => match spec_as_u64(n) {
            Some(number) => {
                let updated = or_empty(get_str(item, "updatedAt"@));
                Some((
                    BranchRow::Pr {
                        number: if number > u32::MAX { u32::MAX } else { number as u32 },
                        title,
                        author: author_login(item),
                        head_ref,
                        is_draft: flag(item, "isDraft"@),
                        updated_at_relative: or_empty(relative_spec(updated, now)),
                    },
                    iso_seconds(updated),
                ))
            },
            None => None,
        },
        _ => None,
    }
}

/// The rows of the items `items`, in order, skipping malformed ones.
pub open spec fn gh_pr_rows(items: Seq<Json>, now: int) -> Seq<(BranchRow, Option<int>)>
    decreases items.len(),
{
    if items.len() == 0 {
        seq![]
    } else {
        let own = match gh_pr_row(items.last(), now) {
            Some(r) => seq![r],
            None => seq![],
        };
        gh_pr_rows(items.drop_last(), now) + own
    }
}

/// The view of a row paired with its timestamp.
pub open spec fn stamped_view(v: Seq<(BranchListEntry, Option<i64>)>) -> Seq<(BranchRow, Option<int>)> {
    v.map_values(|r: (BranchListEntry, Option<i64>)| (r.0@, match r.1 {
        Some(t) => Some(t as int),
        None => None,
    }))
}

fn gh_pr_row_of(item: &Json, now_secs: i64) -> (r: Option<(BranchListEntry, Option<i64>)>)
    ensures
        match r {
            Some(row) => gh_pr_row(*item, now_secs as int) == Some(
                (row.0@, match row.1 {
                    Some(t) => Some(t as int),
                    None => None,
                }),
            ),
            None => gh_pr_row(*item, now_secs as int) is None,
        },
{
    let number = match item.get("number") {
        Some(n) => match n.as_u64() {
            Some(v) => v,
            None => {
                return None;
            },
        },
        None => {
            return None;
        },
    };
    let title = match item.get_str("title") {
        Some(t) => t,
        None => {
            return None;
        },
    };
    let head_ref = match item.get_str("headRefName") {
        Some(h) => h,
        None => {
            return None;
        },
    };
    let is_draft = match item.get("isDraft") {
        Some(d) => match d.as_bool() {
            Some(b) => b,
            None => false,
        },
        None => false,
    };
    let updated_at = string_or_empty(item.get_str("updatedAt"));
    let author = match item.get("author") {
        Some(a) => string_or_empty(a.get_str("login")),
        None => String::new(),
    };
    let updated_at_unix = parse_iso8601_utc(updated_at.as_str());
    let updated_at_relative = match format_iso8601_relative(updated_at.as_str(), now_secs) {
        Some(s) => s,
        None => String::new(),
    };
    let n: u32 = if number > u32::MAX as u64 { u32::MAX } else { number as u32 };
    let entry = BranchListEntry::Pr {
        number: n,
        title: title.to_owned(),
        author,
        head_ref: head_ref.to_owned(),
        is_draft,
        updated_at_relative,
    };
    Some((entry, updated_at_unix))
}

/// The rows of a `gh pr list --json number,title,headRefName,isDraft,
/// updatedAt,author` reply seen at `now_secs`, each with its
/// `updatedAt` in Unix seconds; empty when the reply is not an array.
pub fn parse_gh_pr_list(value: &Json, now_secs: i64) -> (out: Vec<(BranchListEntry, Option<i64>)>)
    ensures
        stamped_view(out@) == match *value {
            Json::Array(a) => gh_pr_rows(a@, now_secs as int),
            _ => seq![],
        },
{
    let mut out: Vec<(BranchListEntry, Option<i64>)> = Vec::new();
    if let Json::Array(a) = value {
        let mut i: usize = 0;
        assert(a@.take(0) =~= Seq::<Json>::empty());
        assert(stamped_view(out@) =~= seq![]);
        while i < a.len()
            invariant
                i <= a.len(),
                stamped_view(out@) == gh_pr_rows(a@.take(i as int), now_secs as int),
            decreases a.len() - i,
        {
            let ghost before = out@;
            if let Some(row) = gh_pr_row_of(&a[i], now_secs) {
                out.push(row);
                assert(out@ =~= before.push(row));
            }
            assert(a@.take(i + 1).drop_last() =~= a@.take(i as int));
            assert(a@.take(i + 1).last() == a@[i as int]);
            assert(stamped_view(out@) =~= gh_pr_rows(a@.take(i + 1), now_secs as int));
            i = i + 1;
        }
        assert(a@.take(a.len() as int) =~= a@);
    } else {
        assert(stamped_view(out@) =~= seq![]);
    }
    out
}

/// The `url` of the first element of a `gh pr list --json url` reply,
/// unless missing, not a string, or empty.
pub open spec fn gh_pr_url(value: Json) -> Option<Seq<char>> {
    match value {
        Json::Array(a) => if a@.len() == 0 {
            None
        } else {
            match get_str(a@[0], "url"@) {
                Some(u) => if u.len() == 0 {
                    None
                } else {
                    Some(u)
                },
                None => None,
            }
        },
        _ => None,
    }
}

/// The URL of the open pull request a `gh pr list --head <branch>
/// --json url --limit 1` reply names, if any.
pub fn parse_gh_pr_url(value: &Json) -> (r: Option<String>)
    ensures
        match r {
            Some(s) => gh_pr_url(*value) == Some(s@),
            None => gh_pr_url(*value) is None,
        },
{
    let arr = match value.as_array() {
        Some(a) => a,
        None => {
            return None;
        },
    };
    if arr.len() == 0 {
        return None;
    }
    let url = match arr[0].get_str("url") {
        Some(u) => u,
        None => {
            return None;
        },
    };
    let cs = chars_of(url);
    if cs.len() == 0 {
        return None;
    }
    Some(url.to_owned())
}

/// The row of one line of `git for-each-ref --format=%(refname:short)%00
/// %(committerdate:relative)%00%(subject)` output: name, date and the
/// rest as subject, split at the first two zero characters (a missing
/// subject is empty); `None` for a line without a zero character or
/// with an empty name. `current` is the checked-out branch.
pub open spec fn local_branch_row(line: Seq<char>, current: Option<Seq<char>>) -> Option<BranchRow> {
    match char_index(line, '\0') {
        None => None,
        Some(i) => {
            let name = line.take(i);
            let rest = line.skip(i + 1);
            let date = match char_index(rest, '\0') {
                Some(j) => rest.take(j),
                None => rest,
            };
            let subject = match char_index(rest, '\0') {
                Some(j) => rest.skip(j + 1),
                None => Seq::empty(),
            };
            if name.len() == 0 {
                None
            } else {
                Some(BranchRow::Local {
                    name,
                    last_commit_subject: subject,
                    committer_date_relative: date,
                    is_current: current == Some(name),
                })
            }
        },
    }
}

/// The rows of the lines `ls`, in order, skipping malformed ones.
pub open spec fn local_branch_rows(ls: Seq<Seq<char>>, current: Option<Seq<char>>) -> Seq<BranchRow>
    decreases ls.len(),
{
    if ls.len() == 0 {
        seq![]
    } else {
        let own = match local_branch_row(ls.last(), current) {
            Some(r) => seq![r],
            None => seq![],
        };
        local_branch_rows(ls.drop_last(), current) + own
    }
}

/// The views of a list of rows.
pub open spec fn rows_view(v: Seq<BranchListEntry>) -> Seq<BranchRow> {
    v.map_values(|e: BranchListEntry| e@)
}

fn local_branch_row_of(line: &str, current: Option<&str>) -> (r: Option<BranchListEntry>)
    ensures
        match r {
            Some(e) => local_branch_row(line@, match current {
                Some(c) => Some(c@),
                None => None,
            }) == Some(e@),
            None => local_branch_row(line@, match current {
                Some(c) => Some(c@),
                None => None,
            }) is None,
        },
{
    let cs = chars_of(line);
    let i = match find_char(cs.as_slice(), '\0') {
        Some(i) => i,
        None => {
            return None;
        },
    };
    if i == 0 {
        return None;
    }
    let rest = &cs.as_slice()[i + 1..cs.len()];
    assert(rest@ =~= cs@.skip(i + 1));
    let (date, subject) = match find_char(rest, '\0') {
        Some(j) => (string_from_range(rest, 0, j), string_from_range(rest, j + 1, rest.len())),
        None => (string_from_range(rest, 0, rest.len()), String::new()),
    };
    proof {
        assert(rest@.subrange(0, rest@.len() as int) =~= rest@);
        if let Some(j) = char_index(rest@, '\0') {
            assert(rest@.subrange(0, j) =~= rest@.take(j));
            assert(rest@.subrange(j + 1, rest@.len() as int) =~= rest@.skip(j + 1));
        }
    }
    let name = string_from_range(cs.as_slice(), 0, i);
    assert(cs@.subrange(0, i as int) =~= cs@.take(i as int));
    let is_current = match current {
        Some(c) => str_eq(c, name.as_str()),
        None => false,
    };
    Some(BranchListEntry::Local { name, last_commit_subject: subject, committer_date_relative: date, is_current })
}

/// The local-branch rows of `git for-each-ref` output `stdout`, in
/// order; `current` is the checked-out branch, if any.
pub fn parse_branch_list_local(stdout: &str, current: Option<&str>) -> (out: Vec<BranchListEntry>)
    ensures
        rows_view(out@) == local_branch_rows(lines(stdout@), match current {
            Some(c) => Some(c@),
            None => None,
        }),
{
    let ls = lines_of(stdout);
    let ghost cur = match current {
        Some(c) => Some(c@),
        None => None,
    };
    let mut out: Vec<BranchListEntry> = Vec::new();
    let mut i: usize = 0;
    assert(ls.deep_view().take(0) =~= Seq::<Seq<char>>::empty());
    assert(rows_view(out@) =~= seq![]);
    while i < ls.len()
        invariant
            i <= ls.len(),
            ls.deep_view() == lines(stdout@),
            cur == match current {
                Some(c) => Some(c@),
                None => None,
            },
            rows_view(out@) == local_branch_rows(ls.deep_view().take(i as int), cur),
        decreases ls.len() - i,
    {
        let ghost before = out@;
        let line = ls[i].as_str();
        assert(line@ == ls.deep_view()[i as int]);
        let r = local_branch_row_of(line, current);
        if let Some(row) = r {
            out.push(row);
            assert(out@ =~= before.push(row));
            assert(rows_view(out@) =~= rows_view(before).push(row@));
        }
        assert(ls.deep_view().take(i + 1).drop_last() =~= ls.deep_view().take(i as int));
        assert(ls.deep_view().take(i + 1).last() == ls[i as int]@);
        assert(rows_view(out@) =~= local_branch_rows(ls.deep_view().take(i + 1), cur));
        i = i + 1;
    }
    assert(ls.deep_view().take(ls.len() as int) =~= ls.deep_view());
    out
}

/// Whether the PR section could be filled, and if not, why.
#[derive(Debug, Clone, PartialEq, Eq)]
pub enum PrListStatus {
    Listed,
    NotGithub,
    GhMissing,
    GhNotAuthed,
    Failed { detail: String },
}

/// `s` with ASCII letters lowered (`str::to_ascii_lowercase`).
pub open spec fn ascii_lower(s: Seq<char>) -> Seq<char> {
    s.map_values(|c: char| if 'A' <= c && c <= 'Z' { ((c as u32) + 32) as char } else { c })
}

fn to_ascii_lower(s: &str) -> (r: Vec<char>)
    ensures
        r@ == ascii_lower(s@),
{
    let cs = chars_of(s);
    let mut out: Vec<char> = Vec::new();
    let mut i: usize = 0;
    while i < cs.len()
        invariant
            i <= cs.len(),
            cs@ == s@,
            out@ == ascii_lower(s@).take(i as int),
        decreases cs.len() - i,
    {
        let c = cs[i];
        let l = if 'A' <= c && c <= 'Z' {
            let b: u8 = (c as u32) as u8;
            (b + 32) as char
        } else {
            c
        };
        out.push(l);
        assert(ascii_lower(s@).take(i + 1) =~= ascii_lower(s@).take(i as int).push(l));
        i = i + 1;
    }
    assert(ascii_lower(s@).take(cs.len() as int) =~= ascii_lower(s@));
    out
}

/// A failed `gh pr list` whose stderr (already trimmed) says the user
/// is not logged in reads as not authenticated; any other failure
/// carries its stderr.
pub open spec fn gh_failure_is_auth(stderr: Seq<char>) -> bool {
    let lower = ascii_lower(stderr);
    contains_seq(lower, "not logged into"@) || contains_seq(lower, "gh auth login"@) || contains_seq(
        lower,
        "authentication"@,
    )
}

/// The status of a `gh pr list` that exited non-zero with `stderr`.
pub fn gh_failure_status(stderr: &str) -> (r: PrListStatus)
    ensures
        gh_failure_is_auth(stderr@) ==> r == PrListStatus::GhNotAuthed,
        !gh_failure_is_auth(stderr@) ==> (r matches PrListStatus::Failed { detail } && detail@ == stderr@),
{
    let lower = to_ascii_lower(stderr);
    let l = lower.as_slice();
    let a = chars_of("not logged into");
    let b = chars_of("gh auth login");
    let c = chars_of("authentication");
    if crate::text::contains_chars(l, a.as_slice()) || crate::text::contains_chars(l, b.as_slice())
        || crate::text::contains_chars(l, c.as_slice()) {
        PrListStatus::GhNotAuthed
    } else {
        PrListStatus::Failed { detail: stderr.to_owned() }
    }
}

/// The status of two PR queries run together: `Ok` when either
/// succeeded, their shared status when both failed alike, and the
/// first query's otherwise.
pub open spec fn reconciled_status(a: PrListStatus, b: PrListStatus) -> PrListStatus {
    if a == PrListStatus::Listed || b == PrListStatus::Listed {
        PrListStatus::Listed
    } else {
        a
    }
}

/// Combine the statuses of the two queries of the "participating"
/// scope.
pub fn reconcile_pr_status(a: PrListStatus, b: PrListStatus) -> (r: PrListStatus)
    ensures
        r == reconciled_status(a, b),
{
    match (&a, &b) {
        (PrListStatus::Listed, _) => PrListStatus::Listed,
        (_, PrListStatus::Listed) => PrListStatus::Listed,
        _ => a,
    }
}

/// `a` may sort before `b` newest-first: a later timestamp first, and
/// rows without a timestamp last.
pub open spec fn newer_or_same(a: Option<int>, b: Option<int>) -> bool {
    match (a, b) {
        (_, None) => true,
        (None, Some(_)) => false,
        (Some(x), Some(y)) => x >= y,
    }
}

/// The rows are ordered newest first.
pub open spec fn newest_first(s: Seq<(BranchRow, Option<int>)>) -> bool {
    forall|i: int, j: int| 0 <= i < j < s.len() ==> newer_or_same(#[trigger] s[i].1, #[trigger] s[j].1)
}

/// A timestamp as an integer.
pub open spec fn stamp(t: Option<i64>) -> Option<int> {
    match t {
        Some(x) => Some(x as int),
        None => None,
    }
}

fn is_newer_or_same(a: Option<i64>, b: Option<i64>) -> (r: bool)
    ensures
        r == newer_or_same(stamp(a), stamp(b)),
{
    match (a, b) {
        (_, None) => true,
        (None, Some(_)) => false,
        (Some(x), Some(y)) => x >= y,
    }
}

/// Order `rows` newest first by their timestamps, rows without one
/// last.
pub fn sort_newest_first(rows: Vec<(BranchListEntry, Option<i64>)>) -> (out: Vec<(BranchListEntry, Option<i64>)>)
    ensures
        newest_first(stamped_view(out@)),
        stamped_view(out@).to_multiset() == stamped_view(rows@).to_multiset(),
{
    broadcast use vstd::seq_lib::group_to_multiset_ensures, vstd::multiset::group_multiset_axioms, vstd::multiset::group_multiset_properties;
    let ghost all = stamped_view(rows@).to_multiset();
    let mut out: Vec<(BranchListEntry, Option<i64>)> = Vec::new();
    let mut rest = rows;
    assert(stamped_view(out@).to_multiset() =~= Multiset::empty());
    while rest.len() > 0
        invariant
            newest_first(stamped_view(out@)),
            stamped_view(out@).to_multiset().add(stamped_view(rest@).to_multiset()) == all,
        decreases rest.len(),
    {
        let ghost old_rest = rest@;
        let x = match rest.pop() {
            Some(x) => x,
            None => {
                return out;
            },
        };
        assert(old_rest =~= rest@.push(x));
        assert(stamped_view(old_rest) =~= stamped_view(rest@).push((x.0@, stamp(x.1))));
        let mut p: usize = 0;
        while p < out.len() && !is_newer_or_same(x.1, out[p].1)
            invariant
                p <= out.len(),
                forall|k: int| 0 <= k < p ==> !newer_or_same(stamp(x.1), #[trigger] stamped_view(out@)[k].1),
            decreases out.len() - p,
        {
            assert(stamped_view(out@)[p as int].1 == stamp(out@[p as int].1));
            p = p + 1;
        }
        let ghost old_out = stamped_view(out@);
        let ghost vx = (x.0@, stamp(x.1));
        out.insert(p, x);
        assert(stamped_view(out@) =~= old_out.insert(p as int, vx));
        proof {
            let s = stamped_view(out@);
            if p < old_out.len() {
                assert(newer_or_same(vx.1, old_out[p as int].1));
            }
            assert forall|i: int, j: int| 0 <= i < j < s.len() implies newer_or_same(#[trigger] s[i].1, #[trigger] s[j].1) by {
                if i < p && j < p {
                    assert(s[i] == old_out[i] && s[j] == old_out[j]);
                } else if i < p && j == p {
                    assert(!newer_or_same(vx.1, old_out[i].1));
                } else if i < p {
                    assert(s[i] == old_out[i] && s[j] == old_out[j - 1]);
                    assert(i < j - 1 || i == j - 1);
                } else if i == p {
                    assert(s[j] == old_out[j - 1]);
                    assert(newer_or_same(vx.1, old_out[p as int].1));
                    if j - 1 > p {
                        assert(newer_or_same(old_out[p as int].1, old_out[j - 1].1));
                    }
                } else {
                    assert(s[i] == old_out[i - 1] && s[j] == old_out[j - 1]);
                }
            }
        }
        proof {
            vstd::seq_lib::to_multiset_insert(old_out, p as int, vx);
            vstd::seq_lib::to_multiset_build(stamped_view(rest@), vx);
        }
        assert(stamped_view(out@).to_multiset() == old_out.to_multiset().insert(vx));
        assert(stamped_view(old_rest).to_multiset() == stamped_view(rest@).to_multiset().insert(vx));
        assert(stamped_view(out@).to_multiset().add(stamped_view(rest@).to_multiset()) =~= old_out.to_multiset().add(stamped_view(old_rest).to_multiset()));
    }
    assert(stamped_view(rest@) =~= seq![]);
    assert(stamped_view(rest@).to_multiset() =~= Multiset::empty());
    assert(stamped_view(out@).to_multiset() =~= stamped_view(out@).to_multiset().add(Multiset::empty()));
    out
}

/// The PR number of a row; `None` for a local branch.
pub open spec fn row_number(r: BranchRow) -> Option<u32> {
    match r {
        BranchRow::Pr { number, .. } => Some(number),
        BranchRow::Local { .. } => None,
    }
}

/// `s` holds a PR row numbered `n`.
pub open spec fn has_number(s: Seq<(BranchRow, Option<int>)>, n: u32) -> bool {
    exists|k: int| 0 <= k < s.len() && row_number(#[trigger] s[k].0) == Some(n)
}

/// The PR rows of `s`, each number kept once, at its first occurrence;
/// local-branch rows dropped.
pub open spec fn first_per_number(s: Seq<(BranchRow, Option<int>)>) -> Seq<(BranchRow, Option<int>)>
    decreases s.len(),
{
    if s.len() == 0 {
        seq![]
    } else {
        let own = match row_number(s.last().0) {
            Some(n) => if has_number(s.drop_last(), n) {
                seq![]
            } else {
                seq![s.last()]
            },
            None => seq![],
        };
        first_per_number(s.drop_last()) + own
    }
}

fn entry_number(e: &BranchListEntry) -> (r: Option<u32>)
    ensures
        r == row_number(e@),
{
    match e {
        BranchListEntry::Pr { number, .. } => Some(*number),
        BranchListEntry::Local { .. } => None,
    }
}

/// Keep the first row of each PR number, in order, dropping local rows.
pub fn dedupe_pr_rows(rows: Vec<(BranchListEntry, Option<i64>)>) -> (out: Vec<(BranchListEntry, Option<i64>)>)
    ensures
        stamped_view(out@) == first_per_number(stamped_view(rows@)),
{
    let ghost all = stamped_view(rows@);
    let mut reversed: Vec<(BranchListEntry, Option<i64>)> = Vec::new();
    let mut rest = rows;
    assert(stamped_view(reversed@).reverse() =~= seq![]);
    assert(stamped_view(rest@) + stamped_view(reversed@).reverse() =~= all);
    while rest.len() > 0
        invariant
            stamped_view(rest@) + stamped_view(reversed@).reverse() == all,
        decreases rest.len(),
    {
        let ghost r0 = rest@;
        let x = rest.pop().unwrap();
        let ghost v0 = stamped_view(reversed@);
        reversed.push(x);
        assert(r0 =~= rest@.push(x));
        assert(stamped_view(reversed@) =~= v0.push((x.0@, stamp(x.1))));
        assert(stamped_view(reversed@).reverse() =~= seq![(x.0@, stamp(x.1))] + v0.reverse());
        assert(stamped_view(r0) =~= stamped_view(rest@).push((x.0@, stamp(x.1))));
        assert(stamped_view(rest@) + stamped_view(reversed@).reverse() =~= stamped_view(r0) + v0.reverse());
    }
    assert(stamped_view(rest@) =~= seq![]);
    assert(stamped_view(reversed@).reverse() =~= all);
    let mut out: Vec<(BranchListEntry, Option<i64>)> = Vec::new();
    let mut seen: Vec<u32> = Vec::new();
    let ghost mut done: Seq<(BranchRow, Option<int>)> = seq![];
    assert(done + stamped_view(reversed@).reverse() =~= all);
    assert(stamped_view(out@) =~= first_per_number(done));
    while reversed.len() > 0
        invariant
            done + stamped_view(reversed@).reverse() == all,
            stamped_view(out@) == first_per_number(done),
            forall|n: u32| seen@.contains(n) <==> has_number(done, n),
        decreases reversed.len(),
    {
        let ghost r0 = stamped_view(reversed@);
        let x = reversed.pop().unwrap();
        let ghost vx = (x.0@, stamp(x.1));
        assert(r0 =~= stamped_view(reversed@).push(vx));
        assert(r0.reverse() =~= seq![vx] + stamped_view(reversed@).reverse());
        let ghost d0 = done;
        proof {
            done = done.push(vx);
        }
        assert(done.drop_last() =~= d0);
        assert(done.last() == vx);
        assert(done + stamped_view(reversed@).reverse() =~= d0 + r0.reverse());
        assert forall|m: u32| has_number(done, m) <==> (has_number(d0, m) || row_number(vx.0) == Some(m)) by {
            if has_number(done, m) {
                let j = choose|j: int| 0 <= j < done.len() && row_number(#[trigger] done[j].0) == Some(m);
                if j < d0.len() {
                    assert(done[j] == d0[j]);
                }
            }
            if has_number(d0, m) {
                let j = choose|j: int| 0 <= j < d0.len() && row_number(#[trigger] d0[j].0) == Some(m);
                assert(done[j] == d0[j]);
            }
            if row_number(vx.0) == Some(m) {
                assert(done[d0.len() as int] == vx);
            }
        }
        let ghost s0 = seen@;
        match entry_number(&x.0) {
            Some(n) => {
                let mut k: usize = 0;
                let mut found = false;
                while k < seen.len()
                    invariant
                        k <= seen.len(),
                        found == exists|j: int| 0 <= j < k && seen@[j] == n,
                    decreases seen.len() - k,
                {
                    if seen[k] == n {
                        found = true;
                    }
                    k = k + 1;
                }
                assert(found == seen@.contains(n));
                if !found {
                    let ghost o0 = stamped_view(out@);
                    out.push(x);
                    assert(stamped_view(out@) =~= o0.push(vx));
                    seen.push(n);
                    assert forall|m: u32| seen@.contains(m) <==> (s0.contains(m) || m == n) by {
                        if seen@.contains(m) {
                            let j = choose|j: int| 0 <= j < seen@.len() && seen@[j] == m;
                            if j < s0.len() {
                                assert(s0[j] == m);
                            }
                        }
                        if s0.contains(m) {
                            let j = choose|j: int| 0 <= j < s0.len() && s0[j] == m;
                            assert(seen@[j] == m);
                        }
                        if m == n {
                            assert(seen@[s0.len() as int] == n);
                        }
                    }
                }
            },
            None => {},
        }
    }
    assert(stamped_view(reversed@) =~= seq![]);
    assert(done =~= all);
    out
}

/// Most rows the PR section shows.
pub const BRANCH_LIST_PR_CAP: usize = 30;

/// The rows of the "participating" PR scope from its two queries
/// (`involves:@me`, then `review-requested:@me`): each PR once, as the
/// first query to list it has it, newest first, at most
/// `BRANCH_LIST_PR_CAP`.
pub fn participating_rows(
    involves: Vec<(BranchListEntry, Option<i64>)>,
    review: Vec<(BranchListEntry, Option<i64>)>,
) -> (out: Vec<(BranchListEntry, Option<i64>)>)
    ensures
        exists|full: Seq<(BranchRow, Option<int>)>|
            {
                &&& newest_first(full)
                &&& full.to_multiset() == first_per_number(stamped_view(involves@) + stamped_view(review@)).to_multiset()
                &&& stamped_view(out@) == full.take(
                    if full.len() < BRANCH_LIST_PR_CAP { full.len() as int } else { BRANCH_LIST_PR_CAP as int },
                )
            },
{
    let ghost both = stamped_view(involves@) + stamped_view(review@);
    let mut all = involves;
    let mut more = review;
    let ghost a0 = all@;
    let ghost m0 = more@;
    all.append(&mut more);
    assert(stamped_view(all@) =~= both);
    let unique = dedupe_pr_rows(all);
    let mut sorted = sort_newest_first(unique);
    let ghost full = stamped_view(sorted@);
    if sorted.len() > BRANCH_LIST_PR_CAP {
        sorted.truncate(BRANCH_LIST_PR_CAP);
    }
    assert(stamped_view(sorted@) =~= full.take(
        if full.len() < BRANCH_LIST_PR_CAP { full.len() as int } else { BRANCH_LIST_PR_CAP as int },
    ));
    sorted
}

/// Most local branches the branch list shows.
pub const BRANCH_LIST_LOCAL_CAP: usize = 20;

/// How long one `gh pr list` may run, in seconds.
pub const GH_PR_LIST_TIMEOUT_SECS: u64 = 30;

/// The `git` arguments that list local branches, most recently
/// committed first, `BRANCH_LIST_LOCAL_CAP` at most, one NUL-separated
/// `name, relative date, subject` line each.
pub open spec fn branch_list_local_args_spec() -> Seq<Seq<char>> {
    seq![
        "for-each-ref"@,
        "--sort=-committerdate"@,
        "--count=20"@,
        "--format=%(refname:short)%00%(committerdate:relative)%00%(subject)"@,
        "refs/heads"@,
    ]
}

/// The arguments of the local-branch listing.
pub fn branch_list_local_args() -> (r: Vec<String>)
    ensures
        r.deep_view() == branch_list_local_args_spec(),
{
    let mut v: Vec<String> = Vec::new();
    v.push("for-each-ref".to_owned());
    v.push("--sort=-committerdate".to_owned());
    v.push("--count=20".to_owned());
    v.push("--format=%(refname:short)%00%(committerdate:relative)%00%(subject)".to_owned());
    v.push("refs/heads".to_owned());
    assert(v.deep_view() =~= branch_list_local_args_spec());
    v
}

/// The local-branch rows from the two `git` calls behind them: the
/// current branch (`symbolic-ref --quiet --short HEAD`) and the listing.
/// No rows when the listing failed.
pub open spec fn local_rows_spec(current: GitRunView, listing: GitRunView) -> Seq<BranchRow> {
    match listing {
        GitRunView::Exited(true, _, out, _) => local_branch_rows(lines(lossy_utf8(out)), printed(current)),
        _ => seq![],
    }
}

/// The local-branch section of the branch list.
pub fn local_branch_section(current: &GitRun, listing: &GitRun) -> (out: Vec<BranchListEntry>)
    ensures
        rows_view(out@) == local_rows_spec(current@, listing@),
{
    match listing {
        GitRun::Exited { success, stdout, .. } => {
            if !*success {
                return Vec::new();
            }
            let text = utf8_lossy(stdout.as_slice());
            let cur = printed_text(current);
            match &cur {
                Some(c) => parse_branch_list_local(text.as_str(), Some(c.as_str())),
                None => parse_branch_list_local(text.as_str(), None),
            }
        },
        GitRun::NotLaunched { .. } => Vec::new(),
    }
}

/// The `gh pr list` arguments: the first `BRANCH_LIST_PR_CAP` PRs with
/// the fields the rows need; `search` when given, else the open ones.
pub open spec fn gh_pr_list_args_spec(search: Option<Seq<char>>) -> Seq<Seq<char>> {
    seq!["pr"@, "list"@, "--limit"@, "30"@, "--json"@, "number,title,headRefName,isDraft,updatedAt,author"@]
        + match search {
        Some(q) => seq!["--search"@, q],
        None => seq!["--state"@, "open"@],
    }
}

/// The arguments of one `gh pr list` query.
pub fn gh_pr_list_args(search: Option<&str>) -> (r: Vec<String>)
    ensures
        r.deep_view() == gh_pr_list_args_spec(match search {
            Some(q) => Some(q@),
            None => None,
        }),
{
    let mut v: Vec<String> = Vec::new();
    v.push("pr".to_owned());
    v.push("list".to_owned());
    v.push("--limit".to_owned());
    v.push("30".to_owned());
    v.push("--json".to_owned());
    v.push("number,title,headRefName,isDraft,updatedAt,author".to_owned());
    match search {
        Some(q) => {
            v.push("--search".to_owned());
            v.push(q.to_owned());
        },
        None => {
            v.push("--state".to_owned());
            v.push("open".to_owned());
        },
    }
    assert(v.deep_view() =~= gh_pr_list_args_spec(match search {
        Some(q) => Some(q@),
        None => None,
    }));
    v
}

/// How one `gh pr list` went.
pub enum GhRun {
    /// `gh` could not be started: not installed, or another reason.
    SpawnFailed { not_found: bool, error: String },
    /// Waiting for it failed.
    WaitFailed { error: String },
    /// It ran past `GH_PR_LIST_TIMEOUT_SECS`.
    TimedOut,
    /// It ran; `reply` is its stdout read as JSON, when it was JSON.
    Exited { success: bool, stderr: Vec<u8>, reply: Option<Json> },
}

/// The failure text of a `gh pr list` run that failed without exiting.
pub open spec fn pr_query_detail(run: GhRun) -> Seq<char> {
    match run {
        GhRun::SpawnFailed { error, .. } => error@,
        GhRun::WaitFailed { error } => "gh pr list: "@ + error@,
        GhRun::TimedOut => "gh pr list: timed out after 30s"@,
        _ => seq![],
    }
}

/// The rows and status of one `gh pr list` query, seen at `now_secs`.
pub fn pr_query_result(run: &GhRun, now_secs: i64) -> (r: (Vec<(BranchListEntry, Option<i64>)>, PrListStatus))
    ensures
        (*run) is Exited && (*run)->Exited_success ==> stamped_view(r.0@) == match (*run)->Exited_reply {
            Some(Json::Array(a)) => gh_pr_rows(a@, now_secs as int),
            _ => seq![],
        } && r.1 == PrListStatus::Listed,
        !((*run) is Exited && (*run)->Exited_success) ==> r.0@.len() == 0,
        *run matches GhRun::SpawnFailed { not_found, .. } ==> (not_found <==> r.1 == PrListStatus::GhMissing),
        (*run matches GhRun::SpawnFailed { not_found, .. } && !not_found) || (*run) is WaitFailed || (*run) is TimedOut
            ==> (r.1 matches PrListStatus::Failed { detail } && detail@ == pr_query_detail(*run)),
        (*run) is Exited && !(*run)->Exited_success && gh_failure_is_auth(trim(lossy_utf8((*run)->Exited_stderr@)))
            ==> r.1 == PrListStatus::GhNotAuthed,
        (*run) is Exited && !(*run)->Exited_success && !gh_failure_is_auth(trim(lossy_utf8((*run)->Exited_stderr@)))
            ==> (r.1 matches PrListStatus::Failed { detail } && detail@ == trim(lossy_utf8((*run)->Exited_stderr@))),
{
    match run {
        GhRun::SpawnFailed { not_found, error } => {
            if *not_found {
                (Vec::new(), PrListStatus::GhMissing)
            } else {
                (Vec::new(), PrListStatus::Failed { detail: error.clone() })
            }
        },
        GhRun::WaitFailed { error } => {
            let mut m = chars_of("gh pr list: ");
            crate::text::push_str_chars(&mut m, error.as_str());
            (Vec::new(), PrListStatus::Failed { detail: string_from_chars(m.as_slice()) })
        },
        GhRun::TimedOut => (Vec::new(), PrListStatus::Failed { detail: "gh pr list: timed out after 30s".to_owned() }),
        GhRun::Exited { success, stderr, reply } => {
            if *success {
                let rows = match reply {
                    Some(j) => parse_gh_pr_list(j, now_secs),
                    None => Vec::new(),
                };
                (rows, PrListStatus::Listed)
            } else {
                let se = lossy_trimmed(stderr.as_slice());
                (Vec::new(), gh_failure_status(se.as_str()))
            }
        },
    }
}

impl BranchListEntry {
    /// A copy of the row.
    pub fn clone_entry(&self) -> (r: BranchListEntry)
        ensures
            r@ == self@,
    {
        match self {
            BranchListEntry::Local { name, last_commit_subject, committer_date_relative, is_current } => BranchListEntry::Local {
                name: name.clone(),
                last_commit_subject: last_commit_subject.clone(),
                committer_date_relative: committer_date_relative.clone(),
                is_current: *is_current,
            },
            BranchListEntry::Pr { number, title, author, head_ref, is_draft, updated_at_relative } => BranchListEntry::Pr {
                number: *number,
                title: title.clone(),
                author: author.clone(),
                head_ref: head_ref.clone(),
                is_draft: *is_draft,
                updated_at_relative: updated_at_relative.clone(),
            },
        }
    }
}

/// The rows without their timestamps, in order.
pub fn entries_of(rows: Vec<(BranchListEntry, Option<i64>)>) -> (out: Vec<BranchListEntry>)
    ensures
        rows_view(out@) == stamped_view(rows@).map_values(|p: (BranchRow, Option<int>)| p.0),
{
    let ghost full = stamped_view(rows@);
    let mut out: Vec<BranchListEntry> = Vec::new();
    let mut i: usize = 0;
    while i < rows.len()
        invariant
            i <= rows.len(),
            full == stamped_view(rows@),
            rows_view(out@) =~= full.take(i as int).map_values(|p: (BranchRow, Option<int>)| p.0),
        decreases rows.len() - i,
    {
        let e = rows[i].0.clone_entry();
        let ghost before = rows_view(out@);
        out.push(e);
        assert(rows_view(out@) =~= before.push(full[i as int].0));
        assert(full.take(i + 1).map_values(|p: (BranchRow, Option<int>)| p.0) =~= full.take(i as int).map_values(
            |p: (BranchRow, Option<int>)| p.0,
        ).push(full[i as int].0));
        i = i + 1;
    }
    assert(full.take(rows.len() as int) =~= full);
    out
}

/// The rows of the "all open PRs" scope from its one query: newest
/// first.
pub fn all_scope_rows(rows: Vec<(BranchListEntry, Option<i64>)>) -> (out: Vec<BranchListEntry>)
    ensures
        exists|sorted: Seq<(BranchRow, Option<int>)>|
            {
                &&& newest_first(sorted)
                &&& sorted.to_multiset() == stamped_view(rows@).to_multiset()
                &&& rows_view(out@) == sorted.map_values(|p: (BranchRow, Option<int>)| p.0)
            },
{
    let sorted = sort_newest_first(rows);
    entries_of(sorted)
}

} // verus!
