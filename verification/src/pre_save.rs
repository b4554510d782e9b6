//! Pre-save text transforms driven by `.editorconfig`.
//!
//! Each transform is a pure function of `(text, ec)`. The default
//! pipeline is: line endings, then trailing-whitespace trimming (when
//! enabled), then the final newline.
use vstd::prelude::*;
use crate::editorconfig::{EditorConfig, EndOfLine};
use crate::text::{chars_of, push_chars, string_from_chars};

verus! {

// ---------------------------------------------------------------
// Model
// ---------------------------------------------------------------

/// `\n` or `\r`.
pub open spec fn is_line_break(c: char) -> bool {
    c == '\n' || c == '\r'
}

/// A space or a tab: what trailing-whitespace trimming removes.
pub open spec fn is_blank(c: char) -> bool {
    c == ' ' || c == '\t'
}

/// The separator text of an end-of-line setting.
pub open spec fn eol_text(e: EndOfLine) -> Seq<char> {
    match e {
        EndOfLine::Lf => seq!['\n'],
        EndOfLine::Crlf => seq!['\r', '\n'],
        EndOfLine::Cr => seq!['\r'],
    }
}

/// Every `\r\n` and every lone `\r` becomes `\n` (scanning left to right).
pub open spec fn lf_normalized(s: Seq<char>) -> Seq<char>
    decreases s.len(),
{
    if s.len() == 0 {
        s
    } else if s[0] == '\r' && s.len() >= 2 && s[1] == '\n' {
        seq!['\n'] + lf_normalized(s.skip(2))
    } else if s[0] == '\r' {
        seq!['\n'] + lf_normalized(s.skip(1))
    } else {
        seq![s[0]] + lf_normalized(s.skip(1))
    }
}

/// Every `\n` of `s` replaced by `sep`.
pub open spec fn with_separator(s: Seq<char>, sep: Seq<char>) -> Seq<char>
    decreases s.len(),
{
    if s.len() == 0 {
        s
    } else if s[0] == '\n' {
        sep + with_separator(s.skip(1), sep)
    } else {
        seq![s[0]] + with_separator(s.skip(1), sep)
    }
}

/// What [`ensure_line_endings`] makes of `s`.
pub open spec fn line_endings_spec(s: Seq<char>, eol: Option<EndOfLine>) -> Seq<char> {
    match eol {
        None => s,
        Some(e) => with_separator(lf_normalized(s), eol_text(e)),
    }
}

/// `s` holds only blanks up to its first line break (or its end).
pub open spec fn blank_to_line_end(s: Seq<char>) -> bool
    decreases s.len(),
{
    s.len() == 0 || is_line_break(s[0]) || (is_blank(s[0]) && blank_to_line_end(s.skip(1)))
}

/// `s` without the blanks that end each of its lines: a blank is
/// dropped exactly when only blanks follow it up to the line's end.
pub open spec fn trimmed(s: Seq<char>) -> Seq<char>
    decreases s.len(),
{
    if s.len() == 0 {
        s
    } else if is_blank(s[0]) && blank_to_line_end(s) {
        trimmed(s.skip(1))
    } else {
        seq![s[0]] + trimmed(s.skip(1))
    }
}

/// `s` without its trailing run of `\n` / `\r`.
pub open spec fn strip_breaks(s: Seq<char>) -> Seq<char>
    decreases s.len(),
{
    if s.len() > 0 && is_line_break(s.last()) {
        strip_breaks(s.drop_last())
    } else {
        s
    }
}

/// Separator appended by [`ensure_final_newline`].
pub open spec fn final_separator(eol: Option<EndOfLine>) -> Seq<char> {
    match eol {
        Some(EndOfLine::Crlf) => seq!['\r', '\n'],
        Some(EndOfLine::Cr) => seq!['\r'],
        _ => seq!['\n'],
    }
}

/// What [`ensure_final_newline`] makes of `s`.
pub open spec fn final_newline_spec(s: Seq<char>, insert: bool, eol: Option<EndOfLine>) -> Seq<char> {
    if insert {
        strip_breaks(s) + final_separator(eol)
    } else {
        strip_breaks(s)
    }
}

/// What [`apply_pipeline`] makes of `s`.
pub open spec fn pipeline_spec(s: Seq<char>, eol: Option<EndOfLine>, trim: bool, insert: bool) -> Seq<char> {
    let e = line_endings_spec(s, eol);
    let t = if trim { trimmed(e) } else { e };
    final_newline_spec(t, insert, eol)
}

// ---------------------------------------------------------------
// Transforms
// ---------------------------------------------------------------

fn normalize_to_lf(cs: &Vec<char>) -> (out: Vec<char>)
    ensures
        out@ == lf_normalized(cs@),
{
    let mut out: Vec<char> = Vec::new();
    let mut i: usize = 0;
    assert(cs@.skip(0) =~= cs@);
    assert(out@ + lf_normalized(cs@) =~= lf_normalized(cs@));
    while i < cs.len()
        invariant
            i <= cs.len(),
            out@ + lf_normalized(cs@.skip(i as int)) == lf_normalized(cs@),
        decreases cs.len() - i,
    {
        let ghost rest = cs@.skip(i as int);
        let ghost before = out@;
        let c = cs[i];
        if c == '\r' && i + 1 < cs.len() && cs[i + 1] == '\n' {
            out.push('\n');
            assert(rest.skip(2) =~= cs@.skip(i + 2));
            assert(out@ + lf_normalized(cs@.skip(i + 2)) =~= before + lf_normalized(rest));
            i = i + 2;
        } else {
            if c == '\r' {
                out.push('\n');
            } else {
                out.push(c);
            }
            assert(rest.skip(1) =~= cs@.skip(i + 1));
            assert(out@ + lf_normalized(cs@.skip(i + 1)) =~= before + lf_normalized(rest));
            i = i + 1;
        }
    }
    assert(cs@.skip(i as int) =~= Seq::<char>::empty());
    assert(out@ + lf_normalized(cs@.skip(i as int)) =~= out@);
    out
}

fn expand_separators(cs: &Vec<char>, sep: &[char]) -> (out: Vec<char>)
    ensures
        out@ == with_separator(cs@, sep@),
{
    let mut out: Vec<char> = Vec::new();
    let mut i: usize = 0;
    assert(cs@.skip(0) =~= cs@);
    assert(out@ + with_separator(cs@, sep@) =~= with_separator(cs@, sep@));
    while i < cs.len()
        invariant
            i <= cs.len(),
            out@ + with_separator(cs@.skip(i as int), sep@) == with_separator(cs@, sep@),
        decreases cs.len() - i,
    {
        let ghost rest = cs@.skip(i as int);
        let ghost before = out@;
        if cs[i] == '\n' {
            push_chars(&mut out, sep);
        } else {
            out.push(cs[i]);
        }
        assert(rest.skip(1) =~= cs@.skip(i + 1));
        assert(out@ + with_separator(cs@.skip(i + 1), sep@) =~= before + with_separator(rest, sep@));
        i = i + 1;
    }
    assert(cs@.skip(i as int) =~= Seq::<char>::empty());
    assert(out@ + with_separator(cs@.skip(i as int), sep@) =~= out@);
    out
}

fn eol_chars(e: EndOfLine) -> (out: Vec<char>)
    ensures
        out@ == eol_text(e),
{
    let mut out: Vec<char> = Vec::new();
    match e {
        EndOfLine::Lf => {
            out.push('\n');
        },
        EndOfLine::Crlf => {
            out.push('\r');
            out.push('\n');
        },
        EndOfLine::Cr => {
            out.push('\r');
        },
    }
    assert(out@ =~= eol_text(e));
    out
}

/// Normalize line endings to `ec.end_of_line`. When `end_of_line` is
/// `None` the original separators are preserved.
pub fn ensure_line_endings(text: &str, ec: &EditorConfig) -> (out: String)
    ensures
        out@ == line_endings_spec(text@, ec.end_of_line),
{
    match ec.end_of_line {
        None => text.to_owned(),
        Some(e) => {
            let cs = chars_of(text);
            let lf = normalize_to_lf(&cs);
            let sep = eol_chars(e);
            let out = expand_separators(&lf, sep.as_slice());
            string_from_chars(out.as_slice())
        },
    }
}

proof fn lemma_trimmed_blank_prefix(p: Seq<char>, r: Seq<char>)
    requires
        forall|j: int| 0 <= j < p.len() ==> is_blank(#[trigger] p[j]),
    ensures
        blank_to_line_end(p + r) == blank_to_line_end(r),
        trimmed(p + r) == (if blank_to_line_end(r) { trimmed(r) } else { p + trimmed(r) }),
    decreases p.len(),
{
    if p.len() == 0 {
        assert(p + r =~= r);
    } else {
        let p1 = p.skip(1);
        assert((p + r).skip(1) =~= p1 + r);
        assert((p + r)[0] == p[0]);
        lemma_trimmed_blank_prefix(p1, r);
        if !blank_to_line_end(r) {
            assert(p + trimmed(r) =~= seq![p[0]] + (p1 + trimmed(r)));
        }
    }
}

fn trim_chars(cs: &Vec<char>) -> (out: Vec<char>)
    ensures
        out@ == trimmed(cs@),
{
    let mut out: Vec<char> = Vec::new();
    let mut pending: Vec<char> = Vec::new();
    let mut i: usize = 0;
    assert(pending@ + cs@.skip(0) =~= cs@);
    assert(out@ + trimmed(cs@) =~= trimmed(cs@));
    while i < cs.len()
        invariant
            i <= cs.len(),
            forall|j: int| 0 <= j < pending@.len() ==> is_blank(#[trigger] pending@[j]),
            out@ + trimmed(pending@ + cs@.skip(i as int)) == trimmed(cs@),
        decreases cs.len() - i,
    {
        let ghost rest = cs@.skip(i as int);
        let ghost p = pending@;
        let ghost before = out@;
        let c = cs[i];
        assert(rest.skip(1) =~= cs@.skip(i + 1));
        assert(rest =~= seq![c] + cs@.skip(i + 1));
        if c == ' ' || c == '\t' {
            pending.push(c);
            assert(p + rest =~= pending@ + cs@.skip(i + 1));
        } else {
            proof {
                lemma_trimmed_blank_prefix(p, rest);
            }
            if c != '\n' && c != '\r' {
                push_chars(&mut out, pending.as_slice());
            }
            out.push(c);
            pending = Vec::new();
            assert(pending@ + cs@.skip(i + 1) =~= cs@.skip(i + 1));
            if c != '\n' && c != '\r' {
                assert(out@ + trimmed(cs@.skip(i + 1)) =~= before + (p + trimmed(rest)));
            } else {
                assert(out@ + trimmed(cs@.skip(i + 1)) =~= before + trimmed(rest));
            }
        }
        i = i + 1;
    }
    proof {
        let p = pending@;
        assert(cs@.skip(i as int) =~= Seq::<char>::empty());
        lemma_trimmed_blank_prefix(p, Seq::<char>::empty());
        assert(p + Seq::<char>::empty() =~= p);
        assert(out@ + Seq::<char>::empty() =~= out@);
    }
    out
}

/// Strip trailing whitespace (spaces and tabs) from every line. Line
/// separators (`\n`, `\r\n`, `\r`) are preserved; the trailing run
/// after the last separator is trimmed too.
pub fn trim_trailing_whitespace(text: &str) -> (out: String)
    ensures
        out@ == trimmed(text@),
{
    let cs = chars_of(text);
    let t = trim_chars(&cs);
    string_from_chars(t.as_slice())
}

fn final_separator_chars(eol: Option<EndOfLine>) -> (out: Vec<char>)
    ensures
        out@ == final_separator(eol),
{
    match eol {
        Some(EndOfLine::Crlf) => eol_chars(EndOfLine::Crlf),
        Some(EndOfLine::Cr) => eol_chars(EndOfLine::Cr),
        _ => eol_chars(EndOfLine::Lf),
    }
}

fn strip_breaks_len(cs: &Vec<char>) -> (k: usize)
    ensures
        k <= cs.len(),
        strip_breaks(cs@) == cs@.take(k as int),
{
    let mut k: usize = cs.len();
    assert(cs@.take(k as int) =~= cs@);
    while k > 0 && (cs[k - 1] == '\n' || cs[k - 1] == '\r')
        invariant
            k <= cs.len(),
            strip_breaks(cs@) == strip_breaks(cs@.take(k as int)),
        decreases k,
    {
        assert(cs@.take(k as int).drop_last() =~= cs@.take(k - 1));
        k = k - 1;
    }
    k
}

/// Honor `insert_final_newline`: when set, the text ends with exactly
/// one separator (`ec.end_of_line`'s, else `\n`); when unset, every
/// trailing separator is stripped.
pub fn ensure_final_newline(text: &str, ec: &EditorConfig) -> (out: String)
    ensures
        out@ == final_newline_spec(text@, ec.insert_final_newline, ec.end_of_line),
{
    let cs = chars_of(text);
    let k = strip_breaks_len(&cs);
    let mut out: Vec<char> = Vec::new();
    push_chars(&mut out, &cs.as_slice()[0..k]);
    assert(out@ =~= cs@.take(k as int));
    if ec.insert_final_newline {
        let sep = final_separator_chars(ec.end_of_line);
        push_chars(&mut out, sep.as_slice());
    }
    string_from_chars(out.as_slice())
}

/// Apply the default pipeline: line endings, then trailing-whitespace
/// trimming when `ec.trim_trailing_whitespace`, then the final newline.
pub fn apply_pipeline(text: &str, ec: &EditorConfig) -> (out: String)
    ensures
        out@ == pipeline_spec(text@, ec.end_of_line, ec.trim_trailing_whitespace, ec.insert_final_newline),
{
    let mut out = ensure_line_endings(text, ec);
    if ec.trim_trailing_whitespace {
        out = trim_trailing_whitespace(out.as_str());
    }
    ensure_final_newline(out.as_str(), ec)
}


// ---------------------------------------------------------------
// Laws
// ---------------------------------------------------------------

/// `s` holds no carriage return.
pub open spec fn no_cr(s: Seq<char>) -> bool {
    forall|j: int| 0 <= j < s.len() ==> #[trigger] s[j] != '\r'
}

/// Every character of `s` is a line break.
pub open spec fn all_breaks(s: Seq<char>) -> bool {
    forall|j: int| 0 <= j < s.len() ==> is_line_break(#[trigger] s[j])
}

proof fn lemma_cons_no_cr(c: char, r: Seq<char>)
    requires
        c != '\r',
        no_cr(r),
    ensures
        no_cr(seq![c] + r),
{
    assert forall|j: int| 0 <= j < (seq![c] + r).len() implies #[trigger] (seq![c] + r)[j] != '\r' by {
        if j > 0 {
            assert((seq![c] + r)[j] == r[j - 1]);
        }
    }
}

proof fn lemma_lf_normalized_no_cr(s: Seq<char>)
    ensures
        no_cr(lf_normalized(s)),
    decreases s.len(),
{
    if s.len() == 0 {
    } else if s[0] == '\r' && s.len() >= 2 && s[1] == '\n' {
        lemma_lf_normalized_no_cr(s.skip(2));
        lemma_cons_no_cr('\n', lf_normalized(s.skip(2)));
    } else {
        lemma_lf_normalized_no_cr(s.skip(1));
        if s[0] == '\r' {
            lemma_cons_no_cr('\n', lf_normalized(s.skip(1)));
        } else {
            lemma_cons_no_cr(s[0], lf_normalized(s.skip(1)));
        }
    }
}

proof fn lemma_lf_normalized_fixes_no_cr(n: Seq<char>)
    requires
        no_cr(n),
    ensures
        lf_normalized(n) == n,
    decreases n.len(),
{
    if n.len() > 0 {
        assert(n[0] != '\r');
        lemma_lf_normalized_fixes_no_cr(n.skip(1));
        assert(seq![n[0]] + n.skip(1) =~= n);
    }
}

proof fn lemma_with_separator_first(n: Seq<char>, t: Seq<char>)
    requires
        n.len() > 0,
        n[0] != '\n',
    ensures
        with_separator(n, t).len() > 0,
        with_separator(n, t)[0] == n[0],
{
    assert((seq![n[0]] + with_separator(n.skip(1), t))[0] == n[0]);
}

proof fn lemma_lf_undoes_separator(n: Seq<char>, e: EndOfLine)
    requires
        no_cr(n),
    ensures
        lf_normalized(with_separator(n, eol_text(e))) == n,
    decreases n.len(),
{
    let t = eol_text(e);
    if n.len() == 0 {
    } else {
        let n1 = n.skip(1);
        let w1 = with_separator(n1, t);
        lemma_lf_undoes_separator(n1, e);
        let w = with_separator(n, t);
        if n[0] == '\n' {
            assert(w == t + w1);
            match e {
                EndOfLine::Lf => {
                    assert(w =~= seq!['\n'] + w1);
                    assert(w.skip(1) =~= w1);
                },
                EndOfLine::Crlf => {
                    assert(w =~= seq!['\r', '\n'] + w1);
                    assert(w.skip(2) =~= w1);
                },
                EndOfLine::Cr => {
                    assert(w =~= seq!['\r'] + w1);
                    assert(w.skip(1) =~= w1);
                    if n1.len() > 0 {
                        if n1[0] == '\n' {
                            assert(with_separator(n1, t) == t + with_separator(n1.skip(1), t));
                            assert(w1[0] == '\r');
                        } else {
                            lemma_with_separator_first(n1, t);
                            assert(n1[0] == n[1]);
                        }
                        assert(w[1] == w1[0]);
                    }
                },
            }
            assert(seq!['\n'] + n1 =~= n);
        } else {
            assert(n[0] != '\r');
            assert(w == seq![n[0]] + w1);
            assert(w.skip(1) =~= w1);
            assert(seq![n[0]] + n1 =~= n);
        }
    }
}

/// Normalising line endings twice gives what normalising once gave.
pub proof fn law_line_endings_idempotent(s: Seq<char>, eol: Option<EndOfLine>)
    ensures
        line_endings_spec(line_endings_spec(s, eol), eol) == line_endings_spec(s, eol),
{
    if let Some(e) = eol {
        lemma_lf_normalized_no_cr(s);
        lemma_lf_undoes_separator(lf_normalized(s), e);
    }
}

proof fn lemma_blank_to_line_end_trimmed(r: Seq<char>)
    ensures
        blank_to_line_end(trimmed(r)) == blank_to_line_end(r),
    decreases r.len(),
{
    if r.len() > 0 {
        let r1 = r.skip(1);
        lemma_blank_to_line_end_trimmed(r1);
        if !(is_blank(r[0]) && blank_to_line_end(r)) {
            let t = seq![r[0]] + trimmed(r1);
            assert(t.skip(1) =~= trimmed(r1));
            assert(t[0] == r[0]);
        }
    }
}

/// Trimming trailing whitespace twice gives what trimming once gave.
pub proof fn law_trim_idempotent(s: Seq<char>)
    ensures
        trimmed(trimmed(s)) == trimmed(s),
    decreases s.len(),
{
    if s.len() > 0 {
        let s1 = s.skip(1);
        law_trim_idempotent(s1);
        if !(is_blank(s[0]) && blank_to_line_end(s)) {
            let t = seq![s[0]] + trimmed(s1);
            assert(t.skip(1) =~= trimmed(s1));
            assert(t[0] == s[0]);
            lemma_blank_to_line_end_trimmed(s1);
            assert(blank_to_line_end(t) == (is_line_break(s[0]) || (is_blank(s[0]) && blank_to_line_end(trimmed(s1)))));
        }
    }
}

proof fn lemma_strip_breaks_fixed(s: Seq<char>)
    requires
        s.len() == 0 || !is_line_break(s.last()),
    ensures
        strip_breaks(s) == s,
{
}

proof fn lemma_strip_breaks_shape(s: Seq<char>)
    ensures
        strip_breaks(s).len() <= s.len(),
        strip_breaks(s) == s.take(strip_breaks(s).len() as int),
        all_breaks(s.skip(strip_breaks(s).len() as int)),
        strip_breaks(s).len() == 0 || !is_line_break(strip_breaks(s).last()),
    decreases s.len(),
{
    if s.len() > 0 && is_line_break(s.last()) {
        let d = s.drop_last();
        lemma_strip_breaks_shape(d);
        let k = strip_breaks(d).len() as int;
        assert(d.take(k) =~= s.take(k));
        assert forall|j: int| 0 <= j < s.skip(k).len() implies is_line_break(#[trigger] s.skip(k)[j]) by {
            if k + j < s.len() - 1 {
                assert(s.skip(k)[j] == d.skip(k)[j]);
            }
        }
    } else {
        assert(s.take(s.len() as int) =~= s);
        assert(s.skip(s.len() as int) =~= Seq::<char>::empty());
    }
}

proof fn lemma_strip_breaks_append_breaks(a: Seq<char>, b: Seq<char>)
    requires
        all_breaks(b),
    ensures
        strip_breaks(a + b) == strip_breaks(a),
    decreases b.len(),
{
    if b.len() == 0 {
        assert(a + b =~= a);
    } else {
        assert((a + b).last() == b.last());
        assert(is_line_break(b[b.len() - 1]));
        assert((a + b).drop_last() =~= a + b.drop_last());
        assert forall|j: int| 0 <= j < b.drop_last().len() implies is_line_break(#[trigger] b.drop_last()[j]) by {
            assert(b.drop_last()[j] == b[j]);
        }
        lemma_strip_breaks_append_breaks(a, b.drop_last());
    }
}

proof fn lemma_strip_breaks_idempotent(s: Seq<char>)
    ensures
        strip_breaks(strip_breaks(s)) == strip_breaks(s),
{
    lemma_strip_breaks_shape(s);
    lemma_strip_breaks_fixed(strip_breaks(s));
}

proof fn lemma_final_separator_breaks(eol: Option<EndOfLine>)
    ensures
        all_breaks(final_separator(eol)),
        final_separator(eol).len() > 0,
{
    let f = final_separator(eol);
    assert forall|j: int| 0 <= j < f.len() implies is_line_break(#[trigger] f[j]) by {
    }
}

/// Ensuring the final newline twice gives what ensuring it once gave.
pub proof fn law_final_newline_idempotent(s: Seq<char>, insert: bool, eol: Option<EndOfLine>)
    ensures
        final_newline_spec(final_newline_spec(s, insert, eol), insert, eol) == final_newline_spec(s, insert, eol),
{
    lemma_strip_breaks_idempotent(s);
    if insert {
        lemma_final_separator_breaks(eol);
        lemma_strip_breaks_append_breaks(strip_breaks(s), final_separator(eol));
    }
}

proof fn lemma_trimmed_concat(a: Seq<char>, b: Seq<char>)
    requires
        b.len() == 0 || is_line_break(b[0]),
    ensures
        blank_to_line_end(a + b) == blank_to_line_end(a),
        trimmed(a + b) == trimmed(a) + trimmed(b),
    decreases a.len(),
{
    if a.len() == 0 {
        assert(a + b =~= b);
        assert(trimmed(a) + trimmed(b) =~= trimmed(b));
    } else {
        let a1 = a.skip(1);
        assert((a + b).skip(1) =~= a1 + b);
        assert((a + b)[0] == a[0]);
        lemma_trimmed_concat(a1, b);
        if !(is_blank(a[0]) && blank_to_line_end(a)) {
            assert(seq![a[0]] + (trimmed(a1) + trimmed(b)) =~= (seq![a[0]] + trimmed(a1)) + trimmed(b));
        }
    }
}

proof fn lemma_trimmed_break_prefix(t: Seq<char>, x: Seq<char>)
    requires
        all_breaks(t),
    ensures
        trimmed(t + x) == t + trimmed(x),
    decreases t.len(),
{
    if t.len() == 0 {
        assert(t + x =~= x);
        assert(t + trimmed(x) =~= trimmed(x));
    } else {
        let t1 = t.skip(1);
        assert(is_line_break(t[0]));
        assert((t + x)[0] == t[0]);
        assert((t + x).skip(1) =~= t1 + x);
        assert forall|j: int| 0 <= j < t1.len() implies is_line_break(#[trigger] t1[j]) by {
            assert(t1[j] == t[j + 1]);
        }
        lemma_trimmed_break_prefix(t1, x);
        assert(seq![t[0]] + (t1 + trimmed(x)) =~= t + trimmed(x));
    }
}

proof fn lemma_trimmed_strip_breaks(x: Seq<char>)
    requires
        trimmed(x) == x,
    ensures
        trimmed(strip_breaks(x)) == strip_breaks(x),
{
    lemma_strip_breaks_shape(x);
    let k = strip_breaks(x).len() as int;
    let a = strip_breaks(x);
    let b = x.skip(k);
    assert(a + b =~= x);
    if b.len() > 0 {
        assert(is_line_break(b[0]));
    }
    lemma_trimmed_concat(a, b);
    lemma_trimmed_break_prefix(b, Seq::<char>::empty());
    assert(b + Seq::<char>::empty() =~= b);
    assert(trimmed(a) + b == a + b);
    assert((trimmed(a) + b).take(trimmed(a).len() as int) =~= trimmed(a));
    assert(trimmed(a).len() == a.len());
    assert((a + b).take(a.len() as int) =~= a);
}

proof fn lemma_with_separator_concat(a: Seq<char>, b: Seq<char>, t: Seq<char>)
    ensures
        with_separator(a + b, t) == with_separator(a, t) + with_separator(b, t),
    decreases a.len(),
{
    if a.len() == 0 {
        assert(a + b =~= b);
        assert(with_separator(a, t) + with_separator(b, t) =~= with_separator(b, t));
    } else {
        let a1 = a.skip(1);
        assert((a + b).skip(1) =~= a1 + b);
        assert((a + b)[0] == a[0]);
        lemma_with_separator_concat(a1, b, t);
        if a[0] == '\n' {
            assert(t + (with_separator(a1, t) + with_separator(b, t)) =~= (t + with_separator(a1, t)) + with_separator(b, t));
        } else {
            assert(seq![a[0]] + (with_separator(a1, t) + with_separator(b, t)) =~= (seq![a[0]] + with_separator(a1, t)) + with_separator(b, t));
        }
    }
}

proof fn lemma_blank_to_line_end_with_separator(n: Seq<char>, e: EndOfLine)
    requires
        no_cr(n),
    ensures
        blank_to_line_end(with_separator(n, eol_text(e))) == blank_to_line_end(n),
    decreases n.len(),
{
    let t = eol_text(e);
    if n.len() > 0 {
        let w = with_separator(n, t);
        let n1 = n.skip(1);
        if n[0] == '\n' {
            assert(w == t + with_separator(n1, t));
            assert(w[0] == t[0]);
        } else {
            assert(w == seq![n[0]] + with_separator(n1, t));
            assert(w[0] == n[0]);
            assert(w.skip(1) =~= with_separator(n1, t));
            assert(no_cr(n1)) by {
                assert forall|j: int| 0 <= j < n1.len() implies #[trigger] n1[j] != '\r' by {
                    assert(n1[j] == n[j + 1]);
                }
            }
            lemma_blank_to_line_end_with_separator(n1, e);
        }
    }
}

proof fn lemma_no_cr_skip(n: Seq<char>, k: int)
    requires
        no_cr(n),
        0 <= k <= n.len(),
    ensures
        no_cr(n.skip(k)),
        no_cr(n.take(k)),
{
    assert forall|j: int| 0 <= j < n.skip(k).len() implies #[trigger] n.skip(k)[j] != '\r' by {
        assert(n.skip(k)[j] == n[j + k]);
    }
    assert forall|j: int| 0 <= j < n.take(k).len() implies #[trigger] n.take(k)[j] != '\r' by {
        assert(n.take(k)[j] == n[j]);
    }
}

proof fn lemma_eol_text_breaks(e: EndOfLine)
    ensures
        all_breaks(eol_text(e)),
        eol_text(e).len() > 0,
        eol_text(e) == final_separator(Some(e)),
{
    let t = eol_text(e);
    assert forall|j: int| 0 <= j < t.len() implies is_line_break(#[trigger] t[j]) by {
    }
}

proof fn lemma_trimmed_with_separator(n: Seq<char>, e: EndOfLine)
    requires
        no_cr(n),
    ensures
        trimmed(with_separator(n, eol_text(e))) == with_separator(trimmed(n), eol_text(e)),
        no_cr(trimmed(n)),
    decreases n.len(),
{
    let t = eol_text(e);
    if n.len() > 0 {
        let n1 = n.skip(1);
        lemma_no_cr_skip(n, 1);
        lemma_trimmed_with_separator(n1, e);
        let w1 = with_separator(n1, t);
        let w = with_separator(n, t);
        lemma_eol_text_breaks(e);
        if n[0] == '\n' {
            assert(w == t + w1);
            lemma_trimmed_break_prefix(t, w1);
            assert(trimmed(n) == seq!['\n'] + trimmed(n1));
            assert((seq!['\n'] + trimmed(n1))[0] == '\n');
            assert((seq!['\n'] + trimmed(n1)).skip(1) =~= trimmed(n1));
            lemma_cons_no_cr('\n', trimmed(n1));
        } else {
            assert(w == seq![n[0]] + w1);
            assert(w[0] == n[0]);
            assert(w.skip(1) =~= w1);
            lemma_blank_to_line_end_with_separator(n, e);
            if is_blank(n[0]) && blank_to_line_end(n) {
            } else {
                let tn = seq![n[0]] + trimmed(n1);
                assert(tn[0] == n[0]);
                assert(tn.skip(1) =~= trimmed(n1));
                lemma_cons_no_cr(n[0], trimmed(n1));
            }
        }
    }
}

proof fn lemma_with_separator_all_breaks(s: Seq<char>, e: EndOfLine)
    requires
        all_breaks(s),
        no_cr(s),
    ensures
        all_breaks(with_separator(s, eol_text(e))),
    decreases s.len(),
{
    let t = eol_text(e);
    lemma_eol_text_breaks(e);
    if s.len() > 0 {
        let s1 = s.skip(1);
        assert(is_line_break(s[0]) && s[0] != '\r');
        assert forall|j: int| 0 <= j < s1.len() implies is_line_break(#[trigger] s1[j]) && s1[j] != '\r' by {
            assert(s1[j] == s[j + 1]);
        }
        lemma_with_separator_all_breaks(s1, e);
        let w1 = with_separator(s1, t);
        let w = t + w1;
        assert forall|j: int| 0 <= j < w.len() implies is_line_break(#[trigger] w[j]) by {
            if j >= t.len() {
                assert(w[j] == w1[j - t.len()]);
            }
        }
    }
}

proof fn lemma_strip_breaks_with_separator(m: Seq<char>, e: EndOfLine)
    requires
        no_cr(m),
    ensures
        strip_breaks(with_separator(m, eol_text(e))) == with_separator(strip_breaks(m), eol_text(e)),
{
    let t = eol_text(e);
    lemma_strip_breaks_shape(m);
    let k = strip_breaks(m).len() as int;
    let a = strip_breaks(m);
    let b = m.skip(k);
    assert(a + b =~= m);
    lemma_no_cr_skip(m, k);
    lemma_with_separator_concat(a, b, t);
    lemma_with_separator_all_breaks(b, e);
    lemma_strip_breaks_append_breaks(with_separator(a, t), with_separator(b, t));
    if a.len() > 0 {
        let d = a.drop_last();
        assert(d + seq![a.last()] =~= a);
        lemma_with_separator_concat(d, seq![a.last()], t);
        assert(seq![a.last()].skip(1) =~= Seq::<char>::empty());
        assert(with_separator(seq![a.last()], t) == seq![a.last()] + with_separator(Seq::<char>::empty(), t));
        assert(with_separator(seq![a.last()], t) =~= seq![a.last()]);
        let wa = with_separator(a, t);
        assert(wa.last() == a.last());
        lemma_strip_breaks_fixed(wa);
    }
}

proof fn lemma_no_cr_append(a: Seq<char>, b: Seq<char>)
    requires
        no_cr(a),
        no_cr(b),
    ensures
        no_cr(a + b),
{
    assert forall|j: int| 0 <= j < (a + b).len() implies #[trigger] (a + b)[j] != '\r' by {
        if j >= a.len() {
            assert((a + b)[j] == b[j - a.len()]);
        }
    }
}

/// Running the save pipeline twice gives what running it once gave:
/// saving an already-saved file never changes it.
pub proof fn law_pipeline_idempotent(s: Seq<char>, eol: Option<EndOfLine>, trim: bool, insert: bool)
    ensures
        pipeline_spec(pipeline_spec(s, eol, trim, insert), eol, trim, insert) == pipeline_spec(s, eol, trim, insert),
{
    let nl = seq!['\n'];
    assert(all_breaks(nl)) by {
        assert forall|j: int| 0 <= j < nl.len() implies is_line_break(#[trigger] nl[j]) by {}
    }
    match eol {
        None => {
            let x = if trim { trimmed(s) } else { s };
            if trim {
                law_trim_idempotent(s);
            }
            let p = pipeline_spec(s, eol, trim, insert);
            assert(p == final_newline_spec(x, insert, eol));
            lemma_strip_breaks_idempotent(x);
            if trim {
                lemma_trimmed_strip_breaks(x);
                if insert {
                    lemma_trimmed_concat(strip_breaks(x), nl);
                    lemma_trimmed_break_prefix(nl, Seq::<char>::empty());
                    assert(nl + Seq::<char>::empty() =~= nl);
                }
            }
            if insert {
                lemma_strip_breaks_append_breaks(strip_breaks(x), nl);
            }
        },
        Some(e) => {
            let t = eol_text(e);
            lemma_eol_text_breaks(e);
            let n = lf_normalized(s);
            lemma_lf_normalized_no_cr(s);
            if trim {
                lemma_trimmed_with_separator(n, e);
                law_trim_idempotent(n);
            }
            let m = if trim { trimmed(n) } else { n };
            assert(no_cr(m));
            lemma_strip_breaks_with_separator(m, e);
            let sm = strip_breaks(m);
            lemma_strip_breaks_shape(m);
            lemma_no_cr_skip(m, sm.len() as int);
            assert(no_cr(sm));
            assert(no_cr(nl)) by {
                assert forall|j: int| 0 <= j < nl.len() implies #[trigger] nl[j] != '\r' by {}
            }
            lemma_no_cr_append(sm, nl);
            let q = if insert { sm + nl } else { sm };
            assert(no_cr(q));
            lemma_with_separator_concat(sm, nl, t);
            assert(nl.skip(1) =~= Seq::<char>::empty());
            assert(with_separator(nl, t) == t + with_separator(Seq::<char>::empty(), t));
            assert(with_separator(nl, t) =~= t);
            let p = pipeline_spec(s, eol, trim, insert);
            assert(p == with_separator(q, t));
            // Second run.
            lemma_lf_undoes_separator(q, e);
            assert(line_endings_spec(p, eol) == p);
            lemma_strip_breaks_idempotent(m);
            if insert {
                lemma_strip_breaks_append_breaks(sm, nl);
            }
            assert(strip_breaks(q) == sm);
            if trim {
                lemma_trimmed_with_separator(q, e);
                lemma_trimmed_strip_breaks(m);
                if insert {
                    lemma_trimmed_concat(sm, nl);
                    lemma_trimmed_break_prefix(nl, Seq::<char>::empty());
                    assert(nl + Seq::<char>::empty() =~= nl);
                }
                assert(trimmed(q) == q);
                assert(trimmed(p) == p);
            }
            lemma_strip_breaks_with_separator(q, e);
        },
    }
}

} // verus!
