//! The `git diff --stat` style summary handed to the model: stat
//! changes as git reports them, untracked files spliced in as extra
//! stat lines, and one totals line covering both.
use vstd::prelude::*;
use crate::num::{decimal, decimal_chars, is_digit, parse_unsigned, parse_unsigned_spec};
use crate::text::{is_whitespace, occurs_at, trim_end};
use crate::text::{
    char_utf8_width, chars_of, contains_chars, contains_seq, has_suffix, push_chars,
    push_str_chars, split_char, split_chars, string_from_chars, trim, trim_bounds, trim_end_char,
    trim_end_char_len, trim_start, utf8_len, utf8_width,
};

verus! {

/// One untracked file of the summary: its path and its line count,
/// `None` for a binary file.
#[derive(Debug)]
pub struct UntrackedSummary {
    pub path: String,
    pub lines: Option<usize>,
}

/// `line` is git's totals line: after leading whitespace it starts
/// with a digit and says `file changed` or `files changed`.
pub open spec fn is_totals_line(line: Seq<char>) -> bool {
    let t = trim_start(line);
    t.len() > 0 && is_digit(t[0]) && (contains_seq(t, "file changed"@) || contains_seq(t, "files changed"@))
}

/// Whether `line` is git's totals line.
pub fn looks_like_summary_totals(line: &[char]) -> (r: bool)
    ensures
        r == is_totals_line(line@),
{
    let (a, _b) = trim_bounds(line);
    let t = &line[a..line.len()];
    assert(t@ =~= line@.skip(a as int));
    if t.len() == 0 || !('0' <= t[0] && t[0] <= '9') {
        return false;
    }
    let one = chars_of("file changed");
    let many = chars_of("files changed");
    contains_chars(t, one.as_slice()) || contains_chars(t, many.as_slice())
}

/// Index of the last `c` in `s`.
pub open spec fn last_char_index(s: Seq<char>, c: char) -> Option<int>
    decreases s.len(),
{
    if s.len() == 0 {
        None
    } else if s.last() == c {
        Some(s.len() - 1)
    } else {
        last_char_index(s.drop_last(), c)
    }
}

pub fn rfind_char(cs: &[char], c: char) -> (r: Option<usize>)
    ensures
        match r {
            Some(i) => last_char_index(cs@, c) == Some(i as int) && i < cs.len(),
            None => last_char_index(cs@, c) is None,
        },
{
    let mut k = cs.len();
    assert(cs@.take(k as int) =~= cs@);
    while k > 0
        invariant
            k <= cs.len(),
            last_char_index(cs@, c) == last_char_index(cs@.take(k as int), c),
        decreases k,
    {
        if cs[k - 1] == c {
            return Some(k - 1);
        }
        assert(cs@.take(k as int).drop_last() =~= cs@.take(k - 1));
        k = k - 1;
    }
    None
}

/// Per-file entries and the totals line of a raw `git diff --stat`.
pub open spec fn split_summary(stat: Seq<char>) -> (Seq<char>, Seq<char>) {
    if stat.len() == 0 {
        (seq![], seq![])
    } else {
        let t = trim_end_char(stat, '\n');
        match last_char_index(t, '\n') {
            None => if is_totals_line(t) { (seq![], t) } else { (t, seq![]) },
            Some(k) => if is_totals_line(t.skip(k + 1)) { (t.take(k), t.skip(k + 1)) } else { (t, seq![]) },
        }
    }
}

/// Split the raw stat output into the per-file entries and the trailing
/// totals line (empty when there is none).
pub fn split_diff_summary(stat: &str) -> (r: (String, String))
    ensures
        (r.0@, r.1@) == split_summary(stat@),
{
    let cs = chars_of(stat);
    if cs.len() == 0 {
        return (String::new(), String::new());
    }
    let n = trim_end_char_len(cs.as_slice(), '\n');
    let t = &cs.as_slice()[0..n];
    assert(t@ =~= cs@.take(n as int));
    match rfind_char(t, '\n') {
        None => {
            if looks_like_summary_totals(t) {
                (String::new(), string_from_chars(t))
            } else {
                (string_from_chars(t), String::new())
            }
        },
        Some(k) => {
            let last = &t[k + 1..n];
            assert(last@ =~= t@.skip(k + 1));
            if looks_like_summary_totals(last) {
                let head = &t[0..k];
                assert(head@ =~= t@.take(k as int));
                (string_from_chars(head), string_from_chars(last))
            } else {
                (string_from_chars(t), String::new())
            }
        },
    }
}

/// `n` plus signs.
pub open spec fn plus_bar(n: nat) -> Seq<char> {
    Seq::new(n, |i: int| '+')
}

/// The stat line of an untracked file.
pub open spec fn untracked_stat_line(path: Seq<char>, lines: Option<usize>) -> Seq<char> {
    match lines {
        None => " "@ + path + " | Bin 0 -> ? bytes"@,
        Some(l) => " "@ + path + " | "@ + decimal(l as nat) + " "@ + plus_bar(if l < 50 { l as nat } else { 50 }),
    }
}

/// Render one untracked file as a `git diff --stat` line, with a bar of
/// at most fifty `+`.
pub fn format_untracked_stat_line(entry: &UntrackedSummary) -> (out: String)
    ensures
        out@ == untracked_stat_line(entry.path@, entry.lines),
{
    let mut v: Vec<char> = chars_of(" ");
    push_str_chars(&mut v, entry.path.as_str());
    match entry.lines {
        None => {
            push_str_chars(&mut v, " | Bin 0 -> ? bytes");
        },
        Some(l) => {
            push_str_chars(&mut v, " | ");
            let d = decimal_chars(l as u64);
            push_chars(&mut v, d.as_slice());
            push_str_chars(&mut v, " ");
            let bar: usize = if l < 50 { l } else { 50 };
            let ghost base = v@;
            let mut i: usize = 0;
            while i < bar
                invariant
                    i <= bar,
                    v@ == base + plus_bar(i as nat),
                decreases bar - i,
            {
                v.push('+');
                assert(plus_bar(i as nat).push('+') =~= plus_bar((i + 1) as nat));
                i = i + 1;
            }
        },
    }
    string_from_chars(v.as_slice())
}

/// The count a totals chunk states, with which of the three counts it
/// is: 0 files, 1 insertions, 2 deletions.
pub open spec fn totals_chunk(chunk: Seq<char>) -> Option<(u8, nat)> {
    let t = trim(chunk);
    match crate::text::char_index(t, ' ') {
        Some(k) => match parse_unsigned_spec(t.take(k), usize::MAX as nat) {
            Some(n) => if contains_seq(t, "file"@) {
                Some((0u8, n))
            } else if contains_seq(t, "insertion"@) {
                Some((1u8, n))
            } else if contains_seq(t, "deletion"@) {
                Some((2u8, n))
            } else {
                None
            },
            None => None,
        },
        None => None,
    }
}

/// `(files, insertions, deletions)` of the chunks, a later chunk of a
/// kind overriding an earlier one.
pub open spec fn totals_of(chunks: Seq<Seq<char>>) -> (nat, nat, nat)
    decreases chunks.len(),
{
    if chunks.len() == 0 {
        (0, 0, 0)
    } else {
        let (f, i, d) = totals_of(chunks.drop_last());
        match totals_chunk(chunks.last()) {
            Some((0u8, n)) => (n, i, d),
            Some((1u8, n)) => (f, n, d),
            Some((2u8, n)) => (f, i, n),
            _ => (f, i, d),
        }
    }
}

/// `(files, insertions, deletions)` of a totals line.
pub open spec fn totals_spec(line: Seq<char>) -> (nat, nat, nat) {
    totals_of(split_char(line, ','))
}

fn chunk_count(chunk: &[char]) -> (r: Option<(u8, usize)>)
    ensures
        match r {
            Some((k, n)) => totals_chunk(chunk@) == Some((k, n as nat)),
            None => totals_chunk(chunk@) is None,
        },
{
    let (a, b) = trim_bounds(chunk);
    let t = &chunk[a..b];
    assert(t@ =~= chunk@.subrange(a as int, b as int));
    let k = match crate::text::find_char(t, ' ') {
        Some(k) => k,
        None => {
            return None;
        },
    };
    let n = match parse_unsigned(&t[0..k], usize::MAX as u64) {
        Some(n) => n as usize,
        None => {
            return None;
        },
    };
    assert(t@.subrange(0, k as int) =~= t@.take(k as int));
    let file = chars_of("file");
    let ins = chars_of("insertion");
    let del = chars_of("deletion");
    if contains_chars(t, file.as_slice()) {
        Some((0, n))
    } else if contains_chars(t, ins.as_slice()) {
        Some((1, n))
    } else if contains_chars(t, del.as_slice()) {
        Some((2, n))
    } else {
        None
    }
}

/// Pull `(files, insertions, deletions)` out of git's totals line;
/// counts that are missing or do not parse are zero.
pub fn parse_totals_line(line: &str) -> (r: (usize, usize, usize))
    ensures
        (r.0 as nat, r.1 as nat, r.2 as nat) == totals_spec(line@),
{
    let cs = chars_of(line);
    let chunks = split_chars(cs.as_slice(), ',');
    let ghost all = chunks@.map_values(|v: Vec<char>| v@);
    let mut files: usize = 0;
    let mut insertions: usize = 0;
    let mut deletions: usize = 0;
    let mut i: usize = 0;
    assert(all.take(0) =~= Seq::<Seq<char>>::empty());
    while i < chunks.len()
        invariant
            i <= chunks.len(),
            all == chunks@.map_values(|v: Vec<char>| v@),
            all.len() == chunks.len(),
            (files as nat, insertions as nat, deletions as nat) == totals_of(all.take(i as int)),
        decreases chunks.len() - i,
    {
        match chunk_count(chunks[i].as_slice()) {
            Some((0, n)) => {
                files = n;
            },
            Some((1, n)) => {
                insertions = n;
            },
            Some((2, n)) => {
                deletions = n;
            },
            _ => {},
        }
        assert(all.take(i + 1).drop_last() =~= all.take(i as int));
        assert(all.take(i + 1).last() == chunks@[i as int]@);
        i = i + 1;
    }
    assert(all.take(chunks.len() as int) =~= all);
    (files, insertions, deletions)
}

/// Sum of the untracked line counts, a binary file counting zero.
pub open spec fn untracked_lines(u: Seq<UntrackedSummary>) -> nat
    decreases u.len(),
{
    if u.len() == 0 {
        0
    } else {
        untracked_lines(u.drop_last()) + match u.last().lines {
            Some(l) => l as nat,
            None => 0,
        }
    }
}

/// `n` followed by `one` when `n` is one, else by `many`.
pub open spec fn counted(n: nat, one: Seq<char>, many: Seq<char>) -> Seq<char> {
    decimal(n) + " "@ + if n == 1 { one } else { many }
}

/// The totals line covering `files` files, `ins` insertions and `del`
/// deletions; empty when there are no files.
pub open spec fn totals_text(files: nat, ins: nat, del: nat) -> Seq<char> {
    if files == 0 {
        seq![]
    } else {
        " "@ + counted(files, "file"@, "files"@) + " changed"@ + (if ins > 0 {
            ", "@ + counted(ins, "insertion(+)"@, "insertions(+)"@)
        } else {
            seq![]
        }) + (if del > 0 {
            ", "@ + counted(del, "deletion(-)"@, "deletions(-)"@)
        } else {
            seq![]
        })
    }
}

fn push_counted(v: &mut Vec<char>, n: usize, one: &str, many: &str)
    ensures
        final(v)@ == old(v)@ + counted(n as nat, one@, many@),
{
    let d = decimal_chars(n as u64);
    push_chars(v, d.as_slice());
    push_str_chars(v, " ");
    if n == 1 {
        push_str_chars(v, one);
    } else {
        push_str_chars(v, many);
    }
}

/// One totals line covering the stat totals `prior_totals` and the
/// untracked files, in the shape git itself prints.
pub fn reconcile_totals_line(prior_totals: &str, untracked: &[UntrackedSummary]) -> (out: String)
    requires
        totals_spec(prior_totals@).0 + untracked@.len() <= usize::MAX,
        totals_spec(prior_totals@).1 + untracked_lines(untracked@) <= usize::MAX,
    ensures
        out@ == totals_text(
            totals_spec(prior_totals@).0 + untracked@.len(),
            totals_spec(prior_totals@).1 + untracked_lines(untracked@),
            totals_spec(prior_totals@).2,
        ),
{
    let (mut files, mut insertions, deletions) = parse_totals_line(prior_totals);
    let ghost f0 = files as nat;
    let ghost i0 = insertions as nat;
    let mut i: usize = 0;
    assert(untracked@.take(0) =~= Seq::<UntrackedSummary>::empty());
    while i < untracked.len()
        invariant
            i <= untracked.len(),
            f0 == totals_spec(prior_totals@).0,
            i0 == totals_spec(prior_totals@).1,
            f0 + untracked@.len() <= usize::MAX,
            i0 + untracked_lines(untracked@) <= usize::MAX,
            files == f0 + i,
            insertions == i0 + untracked_lines(untracked@.take(i as int)),
        decreases untracked.len() - i,
    {
        assert(untracked@.take(i + 1).drop_last() =~= untracked@.take(i as int));
        proof {
            lemma_untracked_lines_prefix(untracked@, i as int + 1);
        }
        files = files + 1;
        match untracked[i].lines {
            Some(l) => {
                insertions = insertions + l;
            },
            None => {},
        }
        i = i + 1;
    }
    assert(untracked@.take(untracked.len() as int) =~= untracked@);
    if files == 0 {
        return String::new();
    }
    let mut v: Vec<char> = chars_of(" ");
    push_counted(&mut v, files, "file", "files");
    push_str_chars(&mut v, " changed");
    if insertions > 0 {
        push_str_chars(&mut v, ", ");
        push_counted(&mut v, insertions, "insertion(+)", "insertions(+)");
    }
    if deletions > 0 {
        push_str_chars(&mut v, ", ");
        push_counted(&mut v, deletions, "deletion(-)", "deletions(-)");
    }
    string_from_chars(v.as_slice())
}

proof fn lemma_untracked_lines_prefix(u: Seq<UntrackedSummary>, k: int)
    requires
        0 <= k <= u.len(),
    ensures
        untracked_lines(u.take(k)) <= untracked_lines(u),
    decreases u.len() - k,
{
    if k < u.len() {
        lemma_untracked_lines_prefix(u, k + 1);
        assert(u.take(k + 1).drop_last() =~= u.take(k));
    } else {
        assert(u.take(k) =~= u);
    }
}

/// The stat lines of the untracked files, each followed by `\n`.
pub open spec fn untracked_block(u: Seq<UntrackedSummary>) -> Seq<char>
    decreases u.len(),
{
    if u.len() == 0 {
        seq![]
    } else {
        untracked_block(u.drop_last()) + untracked_stat_line(u.last().path@, u.last().lines) + seq!['\n']
    }
}

/// What [`merge_diff_summary`] makes of the stat summary and the
/// untracked files.
pub open spec fn merged_summary(stat: Seq<char>, u: Seq<UntrackedSummary>) -> Seq<char> {
    if stat.len() == 0 && u.len() == 0 {
        seq![]
    } else {
        let (entries, prior) = split_summary(stat);
        let head = if entries.len() > 0 && entries.last() != '\n' { entries.push('\n') } else { entries };
        let (f, i, d) = totals_spec(prior);
        let totals = totals_text(f + u.len(), i + untracked_lines(u), d);
        head + untracked_block(u) + if totals.len() > 0 { totals.push('\n') } else { seq![] }
    }
}

/// Splice the untracked files into the stat stat output and replace
/// its totals line by one covering both; empty when both are empty.
pub fn merge_diff_summary(stat: &str, untracked: &[UntrackedSummary]) -> (out: String)
    requires
        totals_spec(split_summary(stat@).1).0 + untracked@.len() <= usize::MAX,
        totals_spec(split_summary(stat@).1).1 + untracked_lines(untracked@) <= usize::MAX,
    ensures
        out@ == merged_summary(stat@, untracked@),
{
    if stat.unicode_len() == 0 && untracked.len() == 0 {
        return String::new();
    }
    let (entries, prior) = split_diff_summary(stat);
    let mut v: Vec<char> = chars_of(entries.as_str());
    let n = v.len();
    if n > 0 && v[n - 1] != '\n' {
        v.push('\n');
    }
    let ghost head = v@;
    let mut i: usize = 0;
    assert(untracked@.take(0) =~= Seq::<UntrackedSummary>::empty());
    while i < untracked.len()
        invariant
            i <= untracked.len(),
            v@ == head + untracked_block(untracked@.take(i as int)),
        decreases untracked.len() - i,
    {
        let line = format_untracked_stat_line(&untracked[i]);
        push_str_chars(&mut v, line.as_str());
        v.push('\n');
        assert(untracked@.take(i + 1).drop_last() =~= untracked@.take(i as int));
        assert(untracked@.take(i + 1).last() == untracked@[i as int]);
        i = i + 1;
    }
    assert(untracked@.take(untracked.len() as int) =~= untracked@);
    let totals = reconcile_totals_line(prior.as_str(), untracked);
    if totals.unicode_len() > 0 {
        push_str_chars(&mut v, totals.as_str());
        v.push('\n');
    }
    string_from_chars(v.as_slice())
}

/// Longest prefix length of `s` whose UTF-8 encoding fits in `cap` bytes.
pub open spec fn fits_prefix(s: Seq<char>, cap: nat, k: int) -> bool {
    0 <= k <= s.len() && utf8_len(s.take(k)) <= cap && (k == s.len() || utf8_len(s.take(k + 1)) > cap)
}

/// `text` capped at `cap` UTF-8 bytes, cut back to a character
/// boundary and marked `\n[truncated]` when it was cut.
pub fn cap_summary_at_char_boundary(text: String, cap: usize) -> (out: String)
    ensures
        utf8_len(text@) <= cap ==> out@ == text@,
        utf8_len(text@) > cap ==> exists|k: int| #[trigger] fits_prefix(text@, cap as nat, k) && out@ == text@.take(k) + "\n[truncated]"@,
{
    let cs = chars_of(text.as_str());
    let mut k: usize = 0;
    let mut bytes: usize = 0;
    assert(cs@.take(0) =~= Seq::<char>::empty());
    while k < cs.len() && bytes <= cap && cap - bytes >= char_utf8_width(cs[k])
        invariant
            k <= cs.len(),
            bytes as nat == utf8_len(cs@.take(k as int)),
            bytes <= cap,
        decreases cs.len() - k,
    {
        assert(cs@.take(k + 1).drop_last() =~= cs@.take(k as int));
        bytes = bytes + char_utf8_width(cs[k]);
        k = k + 1;
    }
    if k == cs.len() {
        assert(cs@.take(k as int) =~= cs@);
        return text;
    }
    assert(cs@.take(k + 1).drop_last() =~= cs@.take(k as int));
    proof {
        crate::text::lemma_utf8_len_mono(cs@, k as int + 1);
        assert(fits_prefix(text@, cap as nat, k as int));
    }
    let mut v: Vec<char> = Vec::new();
    push_chars(&mut v, &cs.as_slice()[0..k]);
    push_str_chars(&mut v, "\n[truncated]");
    assert(cs@.subrange(0, k as int) =~= cs@.take(k as int));
    string_from_chars(v.as_slice())
}

// ---- the recomputed totals line reads back ----

/// `p` does not occur in `s` when no place where it would fit starts
/// with its first character.
proof fn lemma_not_occurs(s: Seq<char>, p: Seq<char>)
    requires
        p.len() > 0,
        forall|i: int| 0 <= i && i + p.len() <= s.len() ==> #[trigger] s[i] != p[0],
    ensures
        !contains_seq(s, p),
{
    if contains_seq(s, p) {
        let i = choose|i: int| #[trigger] occurs_at(s, p, i);
        assert(s.subrange(i, i + p.len())[0] == s[i]);
    }
}

/// Splitting `a`, `c`, `b` at `c`, where `a` has no `c`, gives `a` and
/// then the pieces of `b`.
proof fn lemma_split_first(a: Seq<char>, b: Seq<char>, c: char)
    requires
        forall|j: int| 0 <= j < a.len() ==> a[j] != c,
    ensures
        split_char(a + seq![c] + b, c) == seq![a] + split_char(b, c),
{
    let s = a + seq![c] + b;
    assert forall|j: int| 0 <= j < a.len() implies s[j] != c by {
        assert(s[j] == a[j]);
    }
    crate::text::lemma_char_index_found(s, c, a.len() as int);
    assert(s.take(a.len() as int) =~= a);
    assert(s.skip(a.len() as int + 1) =~= b);
}

/// A text without `c` is one piece.
proof fn lemma_split_none(a: Seq<char>, c: char)
    requires
        forall|j: int| 0 <= j < a.len() ==> a[j] != c,
    ensures
        split_char(a, c) == seq![a],
{
    crate::text::lemma_char_index_absent(a, c);
}

/// A count chunk ` <n> <word>` reads as `n`, trimmed of its leading
/// space, when `word` neither starts nor ends with whitespace.
proof fn lemma_count_chunk(n: nat, word: Seq<char>)
    requires
        word.len() > 0,
        !is_whitespace(word[0]),
        !is_whitespace(word.last()),
        n <= usize::MAX,
    ensures
        ({
            let t = decimal(n) + " "@ + word;
            &&& trim(" "@ + t) == t
            &&& crate::text::char_index(t, ' ') == Some(decimal(n).len() as int)
            &&& parse_unsigned_spec(t.take(decimal(n).len() as int), usize::MAX as nat) == Some(n)
        }),
{
    reveal_strlit(" ");
    crate::num::lemma_decimal_digits(n);
    let d = decimal(n);
    let t = d + " "@ + word;
    assert(is_digit(d[0]));
    assert(t[0] == d[0]);
    assert((" "@ + t).skip(1) =~= t);
    assert(trim_start(t) == t);
    assert(trim_start(" "@ + t) == t);
    assert(t.last() == word.last());
    assert(trim_end(t) == t);
    assert forall|j: int| 0 <= j < d.len() implies t[j] != ' ' by {
        assert(t[j] == d[j]);
        assert(is_digit(d[j]));
    }
    assert(t[d.len() as int] == ' ');
    crate::text::lemma_char_index_found(t, ' ', d.len() as int);
    assert(t.take(d.len() as int) =~= d);
}

/// ` <n> <word>` holds no `p` when `p` starts with neither a digit nor a
/// space and no place in `word` where `p` would fit starts with `p`'s
/// first character.
proof fn lemma_chunk_lacks(n: nat, word: Seq<char>, p: Seq<char>)
    requires
        p.len() > 0,
        !is_digit(p[0]),
        p[0] != ' ',
        forall|j: int| 0 <= j && j + p.len() <= word.len() ==> #[trigger] word[j] != p[0],
    ensures
        !contains_seq(decimal(n) + " "@ + word, p),
{
    reveal_strlit(" ");
    crate::num::lemma_decimal_digits(n);
    let d = decimal(n);
    let t = d + " "@ + word;
    assert forall|i: int| 0 <= i && i + p.len() <= t.len() implies #[trigger] t[i] != p[0] by {
        if i < d.len() {
            assert(t[i] == d[i]);
            assert(is_digit(d[i]));
        } else if i == d.len() {
            assert(t[i] == ' ');
        } else {
            assert(t[i] == word[i - d.len() - 1]);
        }
    }
    lemma_not_occurs(t, p);
}

/// ` <n> <word>` holds `p` when `word` starts with `p`.
proof fn lemma_chunk_has(n: nat, word: Seq<char>, p: Seq<char>)
    requires
        p.len() <= word.len(),
        word.take(p.len() as int) == p,
    ensures
        contains_seq(decimal(n) + " "@ + word, p),
        contains_seq(decimal(n) + " "@ + word + " changed"@, p),
{
    reveal_strlit(" ");
    let d = decimal(n);
    let t = d + " "@ + word;
    let k: int = d.len() as int + 1;
    assert(t.subrange(k, k + p.len()) =~= p);
    assert(occurs_at(t, p, k));
    let u = t + " changed"@;
    assert(u.subrange(k, k + p.len()) =~= p);
    assert(occurs_at(u, p, k));
}

/// No comma in ` <n> <word>`, for a word without one.
proof fn lemma_chunk_no_comma(n: nat, word: Seq<char>)
    requires
        forall|j: int| 0 <= j < word.len() ==> #[trigger] word[j] != ',',
    ensures
        forall|j: int| 0 <= j < (" "@ + (decimal(n) + " "@ + word)).len() ==> #[trigger] (" "@ + (decimal(n) + " "@
            + word))[j] != ',',
{
    reveal_strlit(" ");
    crate::num::lemma_decimal_digits(n);
    let d = decimal(n);
    let c = " "@ + (d + " "@ + word);
    assert forall|j: int| 0 <= j < c.len() implies #[trigger] c[j] != ',' by {
        if 1 <= j < d.len() + 1 {
            assert(c[j] == d[j - 1]);
            assert(is_digit(d[j - 1]));
        } else if j > d.len() + 1 {
            assert(c[j] == word[j - d.len() - 2]);
        }
    }
}

/// The words of the totals line.
proof fn lemma_totals_words()
    ensures
        forall|j: int| 0 <= j < ("files changed"@).len() ==> #[trigger] ("files changed"@)[j] != ',',
        forall|j: int| 0 <= j < ("file changed"@).len() ==> #[trigger] ("file changed"@)[j] != ',',
        forall|j: int| 0 <= j < ("insertion(+)"@).len() ==> #[trigger] ("insertion(+)"@)[j] != ',' && ("insertion(+)"@)[j] != 'f',
        forall|j: int| 0 <= j < ("insertions(+)"@).len() ==> #[trigger] ("insertions(+)"@)[j] != ',' && ("insertions(+)"@)[j] != 'f',
        forall|j: int| 0 <= j < ("deletion(-)"@).len() ==> #[trigger] ("deletion(-)"@)[j] != ',' && ("deletion(-)"@)[j] != 'f' && (j <= 3 ==> ("deletion(-)"@)[j] != 'i'),
        forall|j: int| 0 <= j < ("deletions(-)"@).len() ==> #[trigger] ("deletions(-)"@)[j] != ',' && ("deletions(-)"@)[j] != 'f' && (j <= 3 ==> ("deletions(-)"@)[j] != 'i'),
        ("file"@).len() == 4 && ("file"@)[0] == 'f',
        ("insertion"@).len() == 9 && ("insertion"@)[0] == 'i',
        ("deletion"@).len() == 8,
        ("deletion(-)"@).len() == 11 && ("deletions(-)"@).len() == 12,
        ("files changed"@).take(4) == "file"@ && ("file changed"@).take(4) == "file"@,
        ("files changed"@).take(13) == "files changed"@ && ("file changed"@).take(12) == "file changed"@,
        ("insertion(+)"@).take(9) == "insertion"@ && ("insertions(+)"@).take(9) == "insertion"@,
        ("deletion(-)"@).take(8) == "deletion"@ && ("deletions(-)"@).take(8) == "deletion"@,
        ("file changed"@).len() == 12 && ("file changed"@)[0] == 'f' && ("file changed"@).last() == 'd',
        ("files changed"@).len() == 13 && ("files changed"@)[0] == 'f' && ("files changed"@).last() == 'd',
        ("insertion(+)"@).len() == 12 && ("insertion(+)"@)[0] == 'i' && ("insertion(+)"@).last() == ')',
        ("insertions(+)"@).len() == 13 && ("insertions(+)"@)[0] == 'i' && ("insertions(+)"@).last() == ')',
        ("deletion(-)"@)[0] == 'd' && ("deletion(-)"@).last() == ')',
        ("deletions(-)"@)[0] == 'd' && ("deletions(-)"@).last() == ')',
{
    reveal_strlit("files changed");
    reveal_strlit("file changed");
    reveal_strlit("insertion(+)");
    reveal_strlit("insertions(+)");
    reveal_strlit("deletion(-)");
    reveal_strlit("deletions(-)");
    reveal_strlit("file");
    reveal_strlit("insertion");
    reveal_strlit("deletion");
    assert(("files changed"@).take(4) =~= "file"@);
    assert(("file changed"@).take(4) =~= "file"@);
    assert(("files changed"@).take(13) =~= "files changed"@);
    assert(("file changed"@).take(12) =~= "file changed"@);
    assert(("insertion(+)"@).take(9) =~= "insertion"@);
    assert(("insertions(+)"@).take(9) =~= "insertion"@);
    assert(("deletion(-)"@).take(8) =~= "deletion"@);
    assert(("deletions(-)"@).take(8) =~= "deletion"@);
}

/// The chunks of the totals line for counts with at least one file,
/// and its text as those chunks joined by commas.
spec fn totals_chunks(files: nat, ins: nat, del: nat) -> Seq<Seq<char>> {
    let c1 = " "@ + (decimal(files) + " "@ + if files == 1 { "file changed"@ } else { "files changed"@ });
    let c2 = " "@ + (decimal(ins) + " "@ + if ins == 1 { "insertion(+)"@ } else { "insertions(+)"@ });
    let c3 = " "@ + (decimal(del) + " "@ + if del == 1 { "deletion(-)"@ } else { "deletions(-)"@ });
    seq![c1] + (if ins > 0 { seq![c2] } else { seq![] }) + (if del > 0 { seq![c3] } else { seq![] })
}

spec fn file_word(files: nat) -> Seq<char> {
    if files == 1 { "file changed"@ } else { "files changed"@ }
}

spec fn ins_chunk(ins: nat) -> Seq<char> {
    " "@ + (decimal(ins) + " "@ + if ins == 1 { "insertion(+)"@ } else { "insertions(+)"@ })
}

spec fn del_chunk(del: nat) -> Seq<char> {
    " "@ + (decimal(del) + " "@ + if del == 1 { "deletion(-)"@ } else { "deletions(-)"@ })
}

/// The totals line, as its chunks joined by commas.
proof fn lemma_totals_shape(files: nat, ins: nat, del: nat)
    requires
        files > 0,
    ensures
        totals_text(files, ins, del) == " "@ + (decimal(files) + " "@ + file_word(files)) + (if ins > 0 {
            seq![','] + ins_chunk(ins)
        } else {
            seq![]
        }) + (if del > 0 {
            seq![','] + del_chunk(del)
        } else {
            seq![]
        }),
{
    reveal_strlit(" ");
    reveal_strlit(", ");
    reveal_strlit(" changed");
    reveal_strlit("file");
    reveal_strlit("files");
    reveal_strlit("file changed");
    reveal_strlit("files changed");
    assert(" "@ + counted(files, "file"@, "files"@) + " changed"@ =~= " "@ + (decimal(files) + " "@ + file_word(files)));
    assert(ins > 0 ==> ", "@ + counted(ins, "insertion(+)"@, "insertions(+)"@) =~= seq![','] + ins_chunk(ins));
    assert(del > 0 ==> ", "@ + counted(del, "deletion(-)"@, "deletions(-)"@) =~= seq![','] + del_chunk(del));
}

#[verifier::rlimit(40)]
proof fn lemma_totals_split(files: nat, ins: nat, del: nat)
    requires
        files > 0,
    ensures
        split_char(totals_text(files, ins, del), ',') == totals_chunks(files, ins, del),
{
    lemma_totals_shape(files, ins, del);
    lemma_totals_words();
    let c1 = " "@ + (decimal(files) + " "@ + file_word(files));
    let c2 = ins_chunk(ins);
    let c3 = del_chunk(del);
    let text = totals_text(files, ins, del);
    lemma_chunk_no_comma(files, file_word(files));
    lemma_chunk_no_comma(ins, if ins == 1 { "insertion(+)"@ } else { "insertions(+)"@ });
    lemma_chunk_no_comma(del, if del == 1 { "deletion(-)"@ } else { "deletions(-)"@ });
    if ins > 0 && del > 0 {
        assert(text =~= c1 + seq![','] + (c2 + seq![','] + c3));
        lemma_split_first(c1, c2 + seq![','] + c3, ',');
        lemma_split_first(c2, c3, ',');
        lemma_split_none(c3, ',');
    } else if ins > 0 {
        assert(text =~= c1 + seq![','] + c2);
        lemma_split_first(c1, c2, ',');
        lemma_split_none(c2, ',');
    } else if del > 0 {
        assert(text =~= c1 + seq![','] + c3);
        lemma_split_first(c1, c3, ',');
        lemma_split_none(c3, ',');
    } else {
        assert(text =~= c1);
        lemma_split_none(c1, ',');
    }
    assert(split_char(text, ',') =~= totals_chunks(files, ins, del));
}

proof fn lemma_totals_chunk_values(files: nat, ins: nat, del: nat)
    requires
        files <= usize::MAX,
        ins <= usize::MAX,
        del <= usize::MAX,
    ensures
        totals_chunk(" "@ + (decimal(files) + " "@ + if files == 1 { "file changed"@ } else { "files changed"@ }))
            == Some((0u8, files)),
        totals_chunk(" "@ + (decimal(ins) + " "@ + if ins == 1 { "insertion(+)"@ } else { "insertions(+)"@ }))
            == Some((1u8, ins)),
        totals_chunk(" "@ + (decimal(del) + " "@ + if del == 1 { "deletion(-)"@ } else { "deletions(-)"@ }))
            == Some((2u8, del)),
{
    lemma_totals_words();
    let w1 = if files == 1 { "file changed"@ } else { "files changed"@ };
    let w2 = if ins == 1 { "insertion(+)"@ } else { "insertions(+)"@ };
    let w3 = if del == 1 { "deletion(-)"@ } else { "deletions(-)"@ };
    lemma_count_chunk(files, w1);
    lemma_count_chunk(ins, w2);
    lemma_count_chunk(del, w3);
    lemma_chunk_has(files, w1, "file"@);
    lemma_chunk_has(ins, w2, "insertion"@);
    lemma_chunk_has(del, w3, "deletion"@);
    lemma_chunk_lacks(ins, w2, "file"@);
    lemma_chunk_lacks(del, w3, "file"@);
    lemma_chunk_lacks(del, w3, "insertion"@);
}

/// The recomputed totals line reads back: for any counts with at least
/// one file, [`totals_text`] is a totals line, and reading it gives back
/// the files, insertions and deletions it was made from (absent
/// insertions or deletions read as zero). With no file there is no line.
pub proof fn law_totals_line_reads_back(files: nat, ins: nat, del: nat)
    requires
        files <= usize::MAX,
        ins <= usize::MAX,
        del <= usize::MAX,
    ensures
        files == 0 ==> totals_text(files, ins, del).len() == 0,
        files > 0 ==> totals_spec(totals_text(files, ins, del)) == (files, ins, del),
        files > 0 ==> is_totals_line(totals_text(files, ins, del)),
{
    if files == 0 {
        return;
    }
    lemma_totals_split(files, ins, del);
    lemma_totals_chunk_values(files, ins, del);
    let pieces = totals_chunks(files, ins, del);
    reveal_with_fuel(totals_of, 4);
    if ins > 0 && del > 0 {
        assert(pieces.drop_last().drop_last().drop_last() =~= Seq::<Seq<char>>::empty());
    } else if ins > 0 || del > 0 {
        assert(pieces.drop_last().drop_last() =~= Seq::<Seq<char>>::empty());
    } else {
        assert(pieces.drop_last() =~= Seq::<Seq<char>>::empty());
    }
    lemma_totals_is_line(files, ins, del);
}

proof fn lemma_totals_is_line(files: nat, ins: nat, del: nat)
    requires
        files > 0,
    ensures
        is_totals_line(totals_text(files, ins, del)),
{
    reveal_strlit(" ");
    lemma_totals_shape(files, ins, del);
    lemma_totals_words();
    crate::num::lemma_decimal_digits(files);
    let w = file_word(files);
    let rest = (if ins > 0 { seq![','] + ins_chunk(ins) } else { seq![] }) + (if del > 0 {
        seq![','] + del_chunk(del)
    } else {
        seq![]
    });
    let text = totals_text(files, ins, del);
    let t = decimal(files) + " "@ + w + rest;
    assert(text =~= " "@ + t);
    assert(text.skip(1) =~= t);
    assert(text[0] == ' ');
    assert(t[0] == decimal(files)[0]);
    assert(trim_start(t) == t);
    assert(trim_start(text) == t);
    let k: int = decimal(files).len() as int + 1;
    assert(t.subrange(k, k + w.len()) =~= w);
    assert(occurs_at(t, w, k));
}
} // verus!
