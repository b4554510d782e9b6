//! Character-level helpers shared by the text transforms of the library.
use vstd::prelude::*;

verus! {

broadcast use vstd::string::group_string_axioms;

/// Appends one character to a `String` (`String::push`).
/// Trusted: the new contents are the old contents followed by `c`.
#[verifier::external_body]
pub(crate) fn push_char(s: &mut String, c: char)
    ensures
        final(s)@ == old(s)@.push(c),
{
    s.push(c);
}

/// The characters of `s`, in order.
pub fn chars_of(s: &str) -> (out: Vec<char>)
    ensures
        out@ == s@,
{
    let mut out: Vec<char> = Vec::new();
    for c in it: s.chars()
        invariant
            it.seq() == s@,
            out@ == it.seq().take(it.index() as int),
    {
        out.push(c);
    }
    out
}

/// A `String` holding exactly the characters `cs`.
pub fn string_from_chars(cs: &[char]) -> (out: String)
    ensures
        out@ == cs@,
{
    let mut out = String::new();
    let mut i: usize = 0;
    while i < cs.len()
        invariant
            i <= cs.len(),
            out@ == cs@.take(i as int),
        decreases cs.len() - i,
    {
        push_char(&mut out, cs[i]);
        assert(cs@.take(i as int).push(cs@[i as int]) =~= cs@.take(i + 1));
        i = i + 1;
    }
    assert(cs@.take(cs.len() as int) =~= cs@);
    out
}

/// Appends every character of `cs` to `out`.
pub fn push_chars(out: &mut Vec<char>, cs: &[char])
    ensures
        final(out)@ == old(out)@ + cs@,
{
    let mut i: usize = 0;
    while i < cs.len()
        invariant
            i <= cs.len(),
            out@ == old(out)@ + cs@.take(i as int),
        decreases cs.len() - i,
    {
        out.push(cs[i]);
        assert(cs@.take(i as int).push(cs@[i as int]) =~= cs@.take(i + 1));
        i = i + 1;
    }
    assert(cs@.take(cs.len() as int) =~= cs@);
}

/// Appends every character of `s` to `out`.
pub fn push_str_chars(out: &mut Vec<char>, s: &str)
    ensures
        final(out)@ == old(out)@ + s@,
{
    let cs = chars_of(s);
    push_chars(out, cs.as_slice());
}

/// Whether two character sequences are equal.
pub fn chars_eq(a: &[char], b: &[char]) -> (r: bool)
    ensures
        r == (a@ == b@),
{
    if a.len() != b.len() {
        return false;
    }
    let mut i: usize = 0;
    while i < a.len()
        invariant
            a.len() == b.len(),
            i <= a.len(),
            forall|j: int| 0 <= j < i ==> a@[j] == b@[j],
        decreases a.len() - i,
    {
        if a[i] != b[i] {
            return false;
        }
        i = i + 1;
    }
    assert(a@ =~= b@);
    true
}

/// Whether two strings hold the same characters.
pub fn str_eq(a: &str, b: &str) -> (r: bool)
    ensures
        r == (a@ == b@),
{
    let ca = chars_of(a);
    let cb = chars_of(b);
    chars_eq(ca.as_slice(), cb.as_slice())
}

/// Unicode `White_Space`, the set `char::is_whitespace` tests.
pub open spec fn is_whitespace(c: char) -> bool {
    let u = c as u32;
    (0x9 <= u && u <= 0xd) || u == 0x20 || u == 0x85 || u == 0xa0 || u == 0x1680 || (0x2000 <= u
        && u <= 0x200a) || u == 0x2028 || u == 0x2029 || u == 0x202f || u == 0x205f || u == 0x3000
}

/// Whether `c` is Unicode whitespace (`char::is_whitespace`).
pub fn char_is_whitespace(c: char) -> (r: bool)
    ensures
        r == is_whitespace(c),
{
    let u = c as u32;
    (0x9 <= u && u <= 0xd) || u == 0x20 || u == 0x85 || u == 0xa0 || u == 0x1680 || (0x2000 <= u
        && u <= 0x200a) || u == 0x2028 || u == 0x2029 || u == 0x202f || u == 0x205f || u == 0x3000
}

/// `s` without its leading whitespace (`str::trim_start`).
pub open spec fn trim_start(s: Seq<char>) -> Seq<char>
    decreases s.len(),
{
    if s.len() > 0 && is_whitespace(s[0]) {
        trim_start(s.skip(1))
    } else {
        s
    }
}

/// `s` without its trailing whitespace (`str::trim_end`).
pub open spec fn trim_end(s: Seq<char>) -> Seq<char>
    decreases s.len(),
{
    if s.len() > 0 && is_whitespace(s.last()) {
        trim_end(s.drop_last())
    } else {
        s
    }
}

/// `s` without leading and trailing whitespace (`str::trim`).
pub open spec fn trim(s: Seq<char>) -> Seq<char> {
    trim_end(trim_start(s))
}

/// `s` without its trailing run of `c` (`str::trim_end_matches(c)`).
pub open spec fn trim_end_char(s: Seq<char>, c: char) -> Seq<char>
    decreases s.len(),
{
    if s.len() > 0 && s.last() == c {
        trim_end_char(s.drop_last(), c)
    } else {
        s
    }
}

/// `s` without its leading run of `c` (`str::trim_start_matches(c)`).
pub open spec fn trim_start_char(s: Seq<char>, c: char) -> Seq<char>
    decreases s.len(),
{
    if s.len() > 0 && s[0] == c {
        trim_start_char(s.skip(1), c)
    } else {
        s
    }
}

/// Index of the first non-whitespace character of `cs` at or after `from`.
fn skip_whitespace(cs: &[char], from: usize) -> (i: usize)
    requires
        from <= cs.len(),
    ensures
        from <= i <= cs.len(),
        trim_start(cs@.skip(from as int)) == cs@.skip(i as int),
{
    let mut i = from;
    while i < cs.len() && char_is_whitespace(cs[i])
        invariant
            from <= i <= cs.len(),
            trim_start(cs@.skip(from as int)) == trim_start(cs@.skip(i as int)),
        decreases cs.len() - i,
    {
        assert(cs@.skip(i as int).skip(1) =~= cs@.skip(i + 1));
        i = i + 1;
    }
    i
}

/// Bounds `(a, b)` of `trim(cs)` inside `cs`.
pub fn trim_bounds(cs: &[char]) -> (r: (usize, usize))
    ensures
        r.0 <= r.1 <= cs.len(),
        trim(cs@) == cs@.subrange(r.0 as int, r.1 as int),
        trim_start(cs@) == cs@.skip(r.0 as int),
{
    assert(cs@.skip(0) =~= cs@);
    let a = skip_whitespace(cs, 0);
    let mut b = cs.len();
    assert(cs@.skip(a as int) =~= cs@.subrange(a as int, b as int));
    while b > a && char_is_whitespace(cs[b - 1])
        invariant
            a <= b <= cs.len(),
            trim(cs@) == trim_end(cs@.subrange(a as int, b as int)),
        decreases b,
    {
        assert(cs@.subrange(a as int, b as int).drop_last() =~= cs@.subrange(a as int, b - 1));
        b = b - 1;
    }
    (a, b)
}

/// Length of `s` once its trailing run of `c` is dropped.
pub fn trim_end_char_len(cs: &[char], c: char) -> (k: usize)
    ensures
        k <= cs.len(),
        trim_end_char(cs@, c) == cs@.take(k as int),
{
    let mut k = cs.len();
    assert(cs@.take(k as int) =~= cs@);
    while k > 0 && cs[k - 1] == c
        invariant
            k <= cs.len(),
            trim_end_char(cs@, c) == trim_end_char(cs@.take(k as int), c),
        decreases k,
    {
        assert(cs@.take(k as int).drop_last() =~= cs@.take(k - 1));
        k = k - 1;
    }
    k
}

/// A `String` holding `cs[from..to]`.
pub fn string_from_range(cs: &[char], from: usize, to: usize) -> (out: String)
    requires
        from <= to <= cs.len(),
    ensures
        out@ == cs@.subrange(from as int, to as int),
{
    let mut v: Vec<char> = Vec::new();
    push_chars(&mut v, &cs[from..to]);
    string_from_chars(v.as_slice())
}

/// Number of characters before the first `\n` of `s` (or `s.len()`).
pub open spec fn line_len(s: Seq<char>) -> nat
    decreases s.len(),
{
    if s.len() == 0 || s[0] == '\n' {
        0
    } else {
        1 + line_len(s.skip(1))
    }
}

/// `s` without one trailing `\r`.
pub open spec fn strip_cr(s: Seq<char>) -> Seq<char> {
    if s.len() > 0 && s.last() == '\r' {
        s.drop_last()
    } else {
        s
    }
}

/// The lines of `s`, as `str::lines` yields them: split at `\n`, one
/// `\r` before a `\n` dropped, no empty line after a final `\n`.
pub open spec fn lines(s: Seq<char>) -> Seq<Seq<char>>
    decreases s.len(),
{
    if s.len() == 0 {
        seq![]
    } else if line_len(s) == s.len() {
        seq![s]
    } else {
        proof {
            lemma_line_len_bound(s);
        }
        seq![strip_cr(s.take(line_len(s) as int))] + lines(s.skip(line_len(s) as int + 1))
    }
}

pub proof fn lemma_line_len_bound(s: Seq<char>)
    ensures
        line_len(s) <= s.len(),
        line_len(s) < s.len() ==> s[line_len(s) as int] == '\n',
        forall|j: int| 0 <= j < line_len(s) ==> s[j] != '\n',
    decreases s.len(),
{
    if s.len() > 0 && s[0] != '\n' {
        lemma_line_len_bound(s.skip(1));
        assert forall|j: int| 0 <= j < line_len(s) implies s[j] != '\n' by {
            if j > 0 {
                assert(s[j] == s.skip(1)[j - 1]);
            }
        }
    }
}

proof fn lemma_line_len_of(s: Seq<char>, k: int)
    requires
        0 <= k <= s.len(),
        k == s.len() || s[k] == '\n',
        forall|j: int| 0 <= j < k ==> s[j] != '\n',
    ensures
        line_len(s) == k,
    decreases k,
{
    if k > 0 {
        assert forall|j: int| 0 <= j < k - 1 implies s.skip(1)[j] != '\n' by {
            assert(s.skip(1)[j] == s[j + 1]);
        }
        lemma_line_len_of(s.skip(1), k - 1);
    }
}

/// The lines of `text` (`str::lines`), each as a `String`.
pub fn lines_of(text: &str) -> (out: Vec<String>)
    ensures
        out.deep_view() == lines(text@),
{
    let cs = chars_of(text);
    let mut out: Vec<String> = Vec::new();
    let mut start: usize = 0;
    assert(cs@.skip(0) =~= cs@);
    assert(out.deep_view() + lines(cs@) =~= lines(cs@));
    while start < cs.len()
        invariant
            start <= cs.len(),
            cs@ == text@,
            out.deep_view() + lines(cs@.skip(start as int)) == lines(cs@),
        decreases cs.len() - start,
    {
        let ghost rest = cs@.skip(start as int);
        let ghost before = out.deep_view();
        let mut j = start;
        while j < cs.len() && cs[j] != '\n'
            invariant
                start <= j <= cs.len(),
                forall|k: int| start <= k < j ==> cs@[k] != '\n',
            decreases cs.len() - j,
        {
            j = j + 1;
        }
        proof {
            lemma_line_len_of(rest, j - start);
        }
        let mut end = j;
        if j < cs.len() && end > start && cs[end - 1] == '\r' {
            end = end - 1;
        }
        let line = string_from_range(cs.as_slice(), start, end);
        out.push(line);
        proof {
            if j == cs.len() {
                assert(rest.take(line_len(rest) as int) =~= rest);
                assert(line@ =~= rest);
            } else {
                assert(rest.take(line_len(rest) as int) =~= cs@.subrange(start as int, j as int));
                assert(line@ =~= strip_cr(cs@.subrange(start as int, j as int)));
            }
            assert(out.deep_view() =~= before.push(line@));
        }
        if j == cs.len() {
            assert(cs@.skip(j as int).len() == 0);
            assert(out.deep_view() + lines(cs@.skip(j as int)) =~= before + lines(rest));
            start = j;
        } else {
            assert(rest.skip(line_len(rest) as int + 1) =~= cs@.skip(j + 1));
            assert(out.deep_view() + lines(cs@.skip(j + 1)) =~= before + lines(rest));
            start = j + 1;
        }
    }
    assert(cs@.skip(start as int).len() == 0);
    assert(out.deep_view() + lines(cs@.skip(start as int)) =~= out.deep_view());
    out
}

/// `parts` joined with `sep` between consecutive parts.
pub open spec fn join(parts: Seq<Seq<char>>, sep: Seq<char>) -> Seq<char>
    decreases parts.len(),
{
    if parts.len() == 0 {
        seq![]
    } else if parts.len() == 1 {
        parts[0]
    } else {
        join(parts.drop_last(), sep) + sep + parts.last()
    }
}

/// `parts[from..to]` joined with `sep`, as characters.
pub fn join_range(parts: &[String], from: usize, to: usize, sep: &str) -> (out: Vec<char>)
    requires
        from <= to <= parts.len(),
    ensures
        out@ == join(parts.deep_view().subrange(from as int, to as int), sep@),
{
    let mut out: Vec<char> = Vec::new();
    let mut i = from;
    let ghost dv = parts.deep_view();
    assert(dv.subrange(from as int, from as int) =~= Seq::<Seq<char>>::empty());
    while i < to
        invariant
            from <= i <= to <= parts.len(),
            dv == parts.deep_view(),
            out@ == join(dv.subrange(from as int, i as int), sep@),
        decreases to - i,
    {
        let ghost prev = dv.subrange(from as int, i as int);
        if i > from {
            push_str_chars(&mut out, sep);
        }
        push_str_chars(&mut out, parts[i].as_str());
        let ghost next = dv.subrange(from as int, i + 1);
        assert(next.drop_last() =~= prev);
        assert(next.last() == parts[i as int]@);
        if i == from {
            assert(next.len() == 1);
            assert(out@ =~= next[0]);
        }
        i = i + 1;
    }
    out
}

/// Index of the first `c` in `s`.
pub open spec fn char_index(s: Seq<char>, c: char) -> Option<int>
    decreases s.len(),
{
    if s.len() == 0 {
        None
    } else if s[0] == c {
        Some(0)
    } else {
        match char_index(s.skip(1), c) {
            Some(i) => Some(i + 1),
            None => None,
        }
    }
}

/// `s` up to its first `c` (all of `s` when there is none): what
/// `s.split(c).next()` yields.
pub open spec fn before_char(s: Seq<char>, c: char) -> Seq<char> {
    match char_index(s, c) {
        Some(i) => s.take(i),
        None => s,
    }
}

/// `p` is a prefix of `s`.
pub open spec fn has_prefix(s: Seq<char>, p: Seq<char>) -> bool {
    s.len() >= p.len() && s.take(p.len() as int) == p
}

/// `p` is a suffix of `s`.
pub open spec fn has_suffix(s: Seq<char>, p: Seq<char>) -> bool {
    s.len() >= p.len() && s.skip(s.len() - p.len()) == p
}

/// `s` without its trailing repetitions of a non-empty `p`
/// (`str::trim_end_matches(p)`).
pub open spec fn trim_end_str(s: Seq<char>, p: Seq<char>) -> Seq<char>
    decreases s.len(),
{
    if p.len() > 0 && has_suffix(s, p) {
        trim_end_str(s.take(s.len() - p.len()), p)
    } else {
        s
    }
}

pub proof fn lemma_char_index_found(s: Seq<char>, c: char, i: int)
    requires
        0 <= i < s.len(),
        s[i] == c,
        forall|j: int| 0 <= j < i ==> s[j] != c,
    ensures
        char_index(s, c) == Some(i),
    decreases i,
{
    if i > 0 {
        assert forall|j: int| 0 <= j < i - 1 implies s.skip(1)[j] != c by {
            assert(s.skip(1)[j] == s[j + 1]);
        }
        lemma_char_index_found(s.skip(1), c, i - 1);
    }
}

pub proof fn lemma_char_index_absent(s: Seq<char>, c: char)
    requires
        forall|j: int| 0 <= j < s.len() ==> s[j] != c,
    ensures
        char_index(s, c) is None,
    decreases s.len(),
{
    if s.len() > 0 {
        assert forall|j: int| 0 <= j < s.len() - 1 implies s.skip(1)[j] != c by {
            assert(s.skip(1)[j] == s[j + 1]);
        }
        lemma_char_index_absent(s.skip(1), c);
    }
}

/// Index of the first `c` in `cs`.
pub fn find_char(cs: &[char], c: char) -> (r: Option<usize>)
    ensures
        match r {
            Some(i) => char_index(cs@, c) == Some(i as int) && i < cs.len(),
            None => char_index(cs@, c) is None,
        },
{
    let mut i: usize = 0;
    while i < cs.len()
        invariant
            i <= cs.len(),
            forall|j: int| 0 <= j < i ==> cs@[j] != c,
        decreases cs.len() - i,
    {
        if cs[i] == c {
            proof {
                lemma_char_index_found(cs@, c, i as int);
            }
            return Some(i);
        }
        i = i + 1;
    }
    proof {
        lemma_char_index_absent(cs@, c);
    }
    None
}

/// The length of `before_char(cs, c)`.
pub fn before_char_len(cs: &[char], c: char) -> (k: usize)
    ensures
        k <= cs.len(),
        before_char(cs@, c) == cs@.take(k as int),
{
    match find_char(cs, c) {
        Some(i) => i,
        None => {
            assert(cs@.take(cs.len() as int) =~= cs@);
            cs.len()
        },
    }
}

/// Whether `p` is a prefix of `cs`.
pub fn starts_with(cs: &[char], p: &[char]) -> (r: bool)
    ensures
        r == has_prefix(cs@, p@),
{
    if cs.len() < p.len() {
        return false;
    }
    let r = chars_eq(&cs[0..p.len()], p);
    assert(cs@.subrange(0, p.len() as int) =~= cs@.take(p.len() as int));
    r
}

/// Whether `p` is a suffix of `cs`.
pub fn ends_with(cs: &[char], p: &[char]) -> (r: bool)
    ensures
        r == has_suffix(cs@, p@),
{
    if cs.len() < p.len() {
        return false;
    }
    let r = chars_eq(&cs[cs.len() - p.len()..cs.len()], p);
    assert(cs@.subrange(cs.len() - p.len(), cs.len() as int) =~= cs@.skip(cs.len() - p.len()));
    r
}

/// Length of `trim_end_str(cs, p)`.
pub fn trim_end_str_len(cs: &[char], p: &[char]) -> (k: usize)
    ensures
        k <= cs.len(),
        trim_end_str(cs@, p@) == cs@.take(k as int),
{
    let mut k = cs.len();
    assert(cs@.take(k as int) =~= cs@);
    if p.len() == 0 {
        return k;
    }
    while k >= p.len() && ends_with(&cs[0..k], p)
        invariant
            k <= cs.len(),
            p.len() > 0,
            trim_end_str(cs@, p@) == trim_end_str(cs@.take(k as int), p@),
        decreases k,
    {
        assert(cs@.subrange(0, k as int) =~= cs@.take(k as int));
        assert(cs@.take(k as int).take(k - p.len()) =~= cs@.take(k - p.len()));
        k = k - p.len();
    }
    assert(cs@.subrange(0, k as int) =~= cs@.take(k as int));
    k
}

/// `p` occurs in `s` at index `i`.
pub open spec fn occurs_at(s: Seq<char>, p: Seq<char>, i: int) -> bool {
    0 <= i && i + p.len() <= s.len() && s.subrange(i, i + p.len()) == p
}

/// `p` occurs somewhere in `s` (`str::contains`).
pub open spec fn contains_seq(s: Seq<char>, p: Seq<char>) -> bool {
    exists|i: int| #[trigger] occurs_at(s, p, i)
}

/// Whether `p` occurs in `cs`.
pub fn contains_chars(cs: &[char], p: &[char]) -> (r: bool)
    ensures
        r == contains_seq(cs@, p@),
{
    if p.len() > cs.len() {
        assert forall|i: int| !#[trigger] occurs_at(cs@, p@, i) by {}
        return false;
    }
    if p.len() == 0 {
        assert(cs@.subrange(0, 0) =~= p@);
        assert(occurs_at(cs@, p@, 0));
        return true;
    }
    let mut i: usize = 0;
    while i <= cs.len() - p.len()
        invariant
            0 < p.len() <= cs.len(),
            i <= cs.len() - p.len() + 1,
            forall|j: int| 0 <= j < i ==> !#[trigger] occurs_at(cs@, p@, j),
        decreases cs.len() - p.len() + 1 - i,
    {
        if chars_eq(&cs[i..i + p.len()], p) {
            assert(occurs_at(cs@, p@, i as int));
            return true;
        }
        i = i + 1;
    }
    assert forall|j: int| !#[trigger] occurs_at(cs@, p@, j) by {
        if 0 <= j && j + p.len() <= cs.len() {
            assert(j < i);
        }
    }
    false
}

/// Whether the text `s` holds `p`.
pub fn str_contains(s: &str, p: &str) -> (r: bool)
    ensures
        r == contains_seq(s@, p@),
{
    let a = chars_of(s);
    let b = chars_of(p);
    contains_chars(a.as_slice(), b.as_slice())
}

/// The pieces of `s` between occurrences of `c` (`str::split(c)`):
/// always at least one piece.
pub open spec fn split_char(s: Seq<char>, c: char) -> Seq<Seq<char>>
    decreases s.len(),
{
    match char_index(s, c) {
        Some(i) => {
            proof {
                lemma_char_index_bound(s, c);
            }
            seq![s.take(i)] + split_char(s.skip(i + 1), c)
        },
        None => seq![s],
    }
}

pub proof fn lemma_char_index_bound(s: Seq<char>, c: char)
    ensures
        char_index(s, c) matches Some(i) ==> 0 <= i < s.len() && s[i] == c && forall|j: int| 0 <= j < i ==> s[j] != c,
        char_index(s, c) is None ==> forall|j: int| 0 <= j < s.len() ==> s[j] != c,
    decreases s.len(),
{
    if s.len() > 0 {
        lemma_char_index_bound(s.skip(1), c);
        if s[0] != c {
            assert forall|j: int| 0 <= j < s.len() && s[j] == c implies (char_index(s.skip(1), c) matches Some(k) && k + 1 <= j) by {
                assert(s.skip(1)[j - 1] == s[j]);
            }
        }
    }
}

/// The pieces of `cs` split at `c`.
pub fn split_chars(cs: &[char], c: char) -> (out: Vec<Vec<char>>)
    ensures
        out@.map_values(|v: Vec<char>| v@) == split_char(cs@, c),
{
    let mut out: Vec<Vec<char>> = Vec::new();
    let mut start: usize = 0;
    assert(cs@.skip(0) =~= cs@);
    assert(out@.map_values(|v: Vec<char>| v@) + split_char(cs@, c) =~= split_char(cs@, c));
    loop
        invariant
            start <= cs.len(),
            out@.map_values(|v: Vec<char>| v@) + split_char(cs@.skip(start as int), c) == split_char(cs@, c),
        decreases cs.len() - start,
    {
        let rest = &cs[start..cs.len()];
        assert(rest@ =~= cs@.skip(start as int));
        let ghost before = out@.map_values(|v: Vec<char>| v@);
        match find_char(rest, c) {
            Some(i) => {
                let mut piece: Vec<char> = Vec::new();
                push_chars(&mut piece, &rest[0..i]);
                assert(piece@ =~= rest@.take(i as int));
                out.push(piece);
                assert(rest@.skip(i + 1) =~= cs@.skip(start + i + 1));
                assert(out@.map_values(|v: Vec<char>| v@) =~= before.push(rest@.take(i as int)));
                assert(out@.map_values(|v: Vec<char>| v@) + split_char(cs@.skip(start + i + 1), c) =~= before + split_char(rest@, c));
                start = start + i + 1;
            },
            None => {
                let mut piece: Vec<char> = Vec::new();
                push_chars(&mut piece, rest);
                out.push(piece);
                assert(out@.map_values(|v: Vec<char>| v@) =~= before + split_char(rest@, c));
                return out;
            },
        }
    }
}

/// Bytes of the UTF-8 encoding of `c`.
pub open spec fn utf8_width(c: char) -> nat {
    let u = c as u32;
    if u < 0x80 {
        1
    } else if u < 0x800 {
        2
    } else if u < 0x10000 {
        3
    } else {
        4
    }
}

/// Bytes of the UTF-8 encoding of `s`.
pub open spec fn utf8_len(s: Seq<char>) -> nat
    decreases s.len(),
{
    if s.len() == 0 {
        0
    } else {
        utf8_len(s.drop_last()) + utf8_width(s.last())
    }
}

pub fn char_utf8_width(c: char) -> (w: usize)
    ensures
        w == utf8_width(c),
{
    let u = c as u32;
    if u < 0x80 {
        1
    } else if u < 0x800 {
        2
    } else if u < 0x10000 {
        3
    } else {
        4
    }
}

pub proof fn lemma_utf8_len_mono(s: Seq<char>, k: int)
    requires
        0 <= k <= s.len(),
    ensures
        utf8_len(s.take(k)) <= utf8_len(s),
    decreases s.len() - k,
{
    if k < s.len() {
        lemma_utf8_len_mono(s, k + 1);
        assert(s.take(k + 1).drop_last() =~= s.take(k));
    } else {
        assert(s.take(k) =~= s);
    }
}

/// Whether the UTF-8 encoding of `s` takes at most `cap` bytes.
pub fn utf8_len_at_most(s: &str, cap: usize) -> (r: bool)
    ensures
        r == (utf8_len(s@) <= cap),
{
    let cs = chars_of(s);
    let mut k: usize = 0;
    let mut bytes: usize = 0;
    assert(cs@.take(0) =~= Seq::<char>::empty());
    while k < cs.len()
        invariant
            k <= cs.len(),
            cs@ == s@,
            bytes <= cap,
            bytes as nat == utf8_len(cs@.take(k as int)),
        decreases cs.len() - k,
    {
        let w = char_utf8_width(cs[k]);
        assert(cs@.take(k + 1).drop_last() =~= cs@.take(k as int));
        if cap - bytes < w {
            proof {
                lemma_utf8_len_mono(cs@, k + 1);
            }
            return false;
        }
        bytes = bytes + w;
        k = k + 1;
    }
    assert(cs@.take(k as int) =~= cs@);
    true
}

/// Decodes UTF-8 bytes (`std::str::from_utf8`).
/// Trusted: succeeds exactly on valid UTF-8, and then yields the
/// decoded characters.
#[verifier::external_body]
pub(crate) fn utf8_str(bytes: &[u8]) -> (r: Option<&str>)
    ensures
        r is Some <==> vstd::utf8::valid_utf8(bytes@),
        r matches Some(s) ==> s@ == vstd::utf8::decode_utf8(bytes@),
{
    std::str::from_utf8(bytes).ok()
}

pub proof fn lemma_utf8_len_prefixes(s: Seq<char>, a: int, b: int)
    requires
        0 <= a <= b <= s.len(),
    ensures
        utf8_len(s.take(a)) <= utf8_len(s.take(b)),
{
    lemma_utf8_len_mono(s.take(b), a);
    assert(s.take(b).take(a) =~= s.take(a));
}

/// `s` with every `\\` turned into `/`.
pub open spec fn forward_slashes(s: Seq<char>) -> Seq<char> {
    s.map_values(|c: char| if c == '\\' { '/' } else { c })
}

pub fn to_forward_slashes(s: &str) -> (r: String)
    ensures
        r@ == forward_slashes(s@),
{
    let cs = chars_of(s);
    let mut out: Vec<char> = Vec::new();
    let mut i: usize = 0;
    while i < cs.len()
        invariant
            i <= cs.len(),
            cs@ == s@,
            out@ == forward_slashes(s@).take(i as int),
        decreases cs.len() - i,
    {
        let c = cs[i];
        out.push(if c == '\\' { '/' } else { c });
        assert(forward_slashes(s@).take(i + 1) =~= forward_slashes(s@).take(i as int).push(if c == '\\' { '/' } else { c }));
        i = i + 1;
    }
    assert(forward_slashes(s@).take(cs.len() as int) =~= forward_slashes(s@));
    string_from_chars(out.as_slice())
}

} // verus!
