//! The unified-diff text handed to the model: untracked files rendered
//! as `new file` patches, and the size cap of the combined patch.
use vstd::prelude::*;
use crate::num::{decimal, decimal_chars};
use crate::summary::{fits_prefix, last_char_index};
use crate::text::{
    char_utf8_width, chars_of, push_chars, push_str_chars, split_char, split_chars,
    string_from_chars, utf8_len, utf8_str,
};

verus! {

/// Bytes inspected for a NUL when deciding whether content is binary.
pub const BINARY_PROBE: usize = 8000;

/// A NUL byte within the first [`BINARY_PROBE`] bytes.
pub open spec fn is_binary(bytes: Seq<u8>) -> bool {
    exists|i: int| 0 <= i < bytes.len() && i < BINARY_PROBE && #[trigger] bytes[i] == 0
}

/// Cheap heuristic: a NUL byte in the first 8000 bytes means binary.
pub fn looks_binary(bytes: &[u8]) -> (r: bool)
    ensures
        r == is_binary(bytes@),
{
    let n = if bytes.len() < BINARY_PROBE { bytes.len() } else { BINARY_PROBE };
    let mut i: usize = 0;
    while i < n
        invariant
            n <= bytes.len(),
            n <= BINARY_PROBE,
            i <= n,
            forall|j: int| 0 <= j < i ==> bytes@[j] != 0,
        decreases n - i,
    {
        if bytes[i] == 0 {
            return true;
        }
        i = i + 1;
    }
    false
}

/// Number of `\n` bytes in `bytes`.
pub open spec fn newline_count(bytes: Seq<u8>) -> nat
    decreases bytes.len(),
{
    if bytes.len() == 0 {
        0
    } else {
        newline_count(bytes.drop_last()) + if bytes.last() == 10 { 1nat } else { 0nat }
    }
}

proof fn lemma_newline_count_le(bytes: Seq<u8>)
    ensures
        newline_count(bytes) <= bytes.len(),
    decreases bytes.len(),
{
    if bytes.len() > 0 {
        lemma_newline_count_le(bytes.drop_last());
    }
}

/// Line count `git diff --stat` reports for a text file: one per `\n`,
/// plus one for a final line without `\n`.
pub open spec fn text_line_count(bytes: Seq<u8>) -> nat {
    let nl = newline_count(bytes);
    if bytes.len() > 0 && bytes.last() != 10 { nl + 1 } else { nl }
}

/// The summary line count of an untracked file: `None` when binary.
pub fn untracked_line_count(bytes: &[u8]) -> (r: Option<usize>)
    ensures
        is_binary(bytes@) ==> r is None,
        !is_binary(bytes@) ==> r == Some(text_line_count(bytes@) as usize),
{
    if looks_binary(bytes) {
        return None;
    }
    let mut count: usize = 0;
    let mut i: usize = 0;
    assert(bytes@.take(0) =~= Seq::<u8>::empty());
    while i < bytes.len()
        invariant
            i <= bytes.len(),
            count == newline_count(bytes@.take(i as int)),
            count <= i,
        decreases bytes.len() - i,
    {
        assert(bytes@.take(i + 1).drop_last() =~= bytes@.take(i as int));
        if bytes[i] == 10 {
            count = count + 1;
        }
        i = i + 1;
    }
    assert(bytes@.take(bytes.len() as int) =~= bytes@);
    let extra: usize = if bytes.len() > 0 && bytes[bytes.len() - 1] != 10 { 1 } else { 0 };
    proof {
        if extra == 1 {
            lemma_newline_count_le(bytes@.drop_last());
        }
    }
    Some(count + extra)
}

/// The `diff --git` header of a new file.
pub open spec fn new_file_header(p: Seq<char>) -> Seq<char> {
    "diff --git a/"@ + p + " b/"@ + p + "\nnew file mode 100644\nindex 0000000..0000000\n"@
}

/// The `+` lines of a patch body.
pub open spec fn added_lines(ls: Seq<Seq<char>>) -> Seq<char>
    decreases ls.len(),
{
    if ls.len() == 0 {
        seq![]
    } else {
        added_lines(ls.drop_last()) + "+"@ + ls.last() + "\n"@
    }
}

/// The `new file` patch of a file whose decoded text is `text`.
pub open spec fn text_patch(p: Seq<char>, text: Seq<char>) -> Seq<char> {
    if text.len() == 0 {
        new_file_header(p) + "--- /dev/null\n+++ b/"@ + p + "\n"@
    } else {
        let trailing = text.last() == '\n';
        let body = if trailing { split_char(text.drop_last(), '\n') } else { split_char(text, '\n') };
        new_file_header(p) + "--- /dev/null\n+++ b/"@ + p + "\n@@ -0,0 +1,"@ + decimal(body.len()) + " @@\n"@
            + added_lines(body) + if trailing { seq![] } else { "\\ No newline at end of file\n"@ }
    }
}

/// The `new file` patch of an untracked file with content `bytes`.
pub open spec fn new_file_patch(p: Seq<char>, bytes: Seq<u8>) -> Seq<char> {
    if is_binary(bytes) || !vstd::utf8::valid_utf8(bytes) {
        new_file_header(p) + "Binary files /dev/null and b/"@ + p + " differ\n"@
    } else {
        text_patch(p, vstd::utf8::decode_utf8(bytes))
    }
}

/// Render an untracked file as a `git diff`-shaped `new file` entry, so
/// the model sees it the way it sees a tracked change. Binary and
/// non-UTF-8 content gets git's `Binary files ... differ` line.
pub fn synthesise_new_file_patch(rel_path: &str, bytes: &[u8]) -> (out: String)
    ensures
        out@ == new_file_patch(rel_path@, bytes@),
{
    let mut out: Vec<char> = chars_of("diff --git a/");
    push_str_chars(&mut out, rel_path);
    push_str_chars(&mut out, " b/");
    push_str_chars(&mut out, rel_path);
    push_str_chars(&mut out, "\nnew file mode 100644\nindex 0000000..0000000\n");
    let text = if looks_binary(bytes) {
        None
    } else {
        utf8_str(bytes)
    };
    let text = match text {
        None => {
            push_str_chars(&mut out, "Binary files /dev/null and b/");
            push_str_chars(&mut out, rel_path);
            push_str_chars(&mut out, " differ\n");
            return string_from_chars(out.as_slice());
        },
        Some(t) => t,
    };
    let cs = chars_of(text);
    push_str_chars(&mut out, "--- /dev/null\n+++ b/");
    push_str_chars(&mut out, rel_path);
    if cs.len() == 0 {
        push_str_chars(&mut out, "\n");
        return string_from_chars(out.as_slice());
    }
    let trailing = cs[cs.len() - 1] == '\n';
    let body_src = if trailing { &cs.as_slice()[0..cs.len() - 1] } else { cs.as_slice() };
    assert(trailing ==> body_src@ =~= cs@.drop_last());
    let body = split_chars(body_src, '\n');
    let ghost bv = body@.map_values(|v: Vec<char>| v@);
    push_str_chars(&mut out, "\n@@ -0,0 +1,");
    let d = decimal_chars(body.len() as u64);
    push_chars(&mut out, d.as_slice());
    push_str_chars(&mut out, " @@\n");
    let ghost head = out@;
    let mut i: usize = 0;
    assert(bv.take(0) =~= Seq::<Seq<char>>::empty());
    while i < body.len()
        invariant
            i <= body.len(),
            bv == body@.map_values(|v: Vec<char>| v@),
            out@ == head + added_lines(bv.take(i as int)),
        decreases body.len() - i,
    {
        push_str_chars(&mut out, "+");
        push_chars(&mut out, body[i].as_slice());
        push_str_chars(&mut out, "\n");
        assert(bv.take(i + 1).drop_last() =~= bv.take(i as int));
        assert(bv.take(i + 1).last() == body@[i as int]@);
        i = i + 1;
    }
    assert(bv.take(body.len() as int) =~= bv);
    if !trailing {
        push_str_chars(&mut out, "\\ No newline at end of file\n");
    }
    string_from_chars(out.as_slice())
}

/// The mark a cut patch ends with.
pub open spec fn truncation_marker() -> Seq<char> {
    "... (diff truncated)\n"@
}

/// The UTF-8 length of [`truncation_marker`].
pub const TRUNCATION_MARKER_LEN: usize = 21;

/// The UTF-8 length of a concatenation is the sum of the lengths.
pub proof fn lemma_utf8_len_concat(a: Seq<char>, b: Seq<char>)
    ensures
        utf8_len(a + b) == utf8_len(a) + utf8_len(b),
    decreases b.len(),
{
    if b.len() == 0 {
        assert(a + b =~= a);
    } else {
        lemma_utf8_len_concat(a, b.drop_last());
        assert((a + b).drop_last() =~= a + b.drop_last());
        assert((a + b).last() == b.last());
    }
}

/// The mark is ASCII, one byte per character.
proof fn lemma_marker_len()
    ensures
        utf8_len(truncation_marker()) == TRUNCATION_MARKER_LEN,
{
    reveal_strlit("... (diff truncated)\n");
    let m = truncation_marker();
    assert(m.len() == 21);
    assert forall|i: int| 0 <= i < m.len() implies (#[trigger] m[i] as u32) < 0x80 by {}
    lemma_ascii_len(m);
}

/// A text of ASCII characters takes one byte per character.
proof fn lemma_ascii_len(s: Seq<char>)
    requires
        forall|i: int| 0 <= i < s.len() ==> (#[trigger] s[i] as u32) < 0x80,
    ensures
        utf8_len(s) == s.len(),
    decreases s.len(),
{
    if s.len() > 0 {
        let t = s.drop_last();
        assert forall|i: int| 0 <= i < t.len() implies (#[trigger] t[i] as u32) < 0x80 by {
            assert(t[i] == s[i]);
        }
        lemma_ascii_len(t);
    }
}

/// What [`cap_patch_at_newline`] makes of `s`, given the character
/// count `k` of the longest prefix that leaves room for the mark: that
/// prefix up to and including its last newline (all of it when it has
/// none), then the mark.
pub open spec fn capped_patch(s: Seq<char>, k: int) -> Seq<char> {
    let cut = match last_char_index(s.take(k), '\n') {
        Some(j) => j + 1,
        None => k,
    };
    s.take(cut) + truncation_marker()
}

/// The number of characters of the longest prefix of `cs` that takes
/// at most `budget` UTF-8 bytes.
fn fitting_chars(cs: &[char], budget: usize) -> (k: usize)
    ensures
        fits_prefix(cs@, budget as nat, k as int),
{
    let mut k: usize = 0;
    let mut bytes: usize = 0;
    assert(cs@.take(0) =~= Seq::<char>::empty());
    while k < cs.len() && budget - bytes >= char_utf8_width(cs[k])
        invariant
            k <= cs.len(),
            bytes as nat == utf8_len(cs@.take(k as int)),
            bytes <= budget,
        decreases cs.len() - k,
    {
        assert(cs@.take(k + 1).drop_last() =~= cs@.take(k as int));
        bytes = bytes + char_utf8_width(cs[k]);
        k = k + 1;
    }
    if k < cs.len() {
        assert(cs@.take(k + 1).drop_last() =~= cs@.take(k as int));
    }
    k
}

/// Cap the combined patch at `cap` UTF-8 bytes. A patch that fits is
/// kept whole. Otherwise it is cut just past its last newline that
/// leaves room for the `... (diff truncated)` mark (or hard, at a
/// character boundary, when there is none), and the mark is appended,
/// so that the result is at most `cap` bytes; a `cap` too small for the
/// mark itself leaves nothing.
pub fn cap_patch_at_newline(combined: String, cap: usize) -> (out: String)
    ensures
        utf8_len(combined@) <= cap ==> out@ == combined@,
        utf8_len(combined@) > cap && cap < TRUNCATION_MARKER_LEN ==> out@.len() == 0,
        utf8_len(combined@) > cap && cap >= TRUNCATION_MARKER_LEN ==> exists|k: int|
            #[trigger] fits_prefix(combined@, (cap - TRUNCATION_MARKER_LEN) as nat, k) && out@ == capped_patch(
                combined@,
                k,
            ),
        utf8_len(out@) <= cap,
{
    let cs = chars_of(combined.as_str());
    let whole = fitting_chars(cs.as_slice(), cap);
    if whole == cs.len() {
        assert(cs@.take(whole as int) =~= cs@);
        return combined;
    }
    proof {
        crate::text::lemma_utf8_len_mono(cs@, whole as int + 1);
    }
    if cap < TRUNCATION_MARKER_LEN {
        return String::new();
    }
    let budget = cap - TRUNCATION_MARKER_LEN;
    let k = fitting_chars(cs.as_slice(), budget);
    let prefix = &cs.as_slice()[0..k];
    assert(prefix@ =~= cs@.take(k as int));
    let cut = match crate::summary::rfind_char(prefix, '\n') {
        Some(j) => j + 1,
        None => k,
    };
    let mut v: Vec<char> = Vec::new();
    push_chars(&mut v, &cs.as_slice()[0..cut]);
    assert(cs@.subrange(0, cut as int) =~= cs@.take(cut as int));
    push_str_chars(&mut v, "... (diff truncated)\n");
    let out = string_from_chars(v.as_slice());
    proof {
        assert(fits_prefix(combined@, budget as nat, k as int));
        crate::text::lemma_utf8_len_prefixes(cs@, cut as int, k as int);
        lemma_utf8_len_concat(cs@.take(cut as int), truncation_marker());
        lemma_marker_len();
        assert(out@ == capped_patch(combined@, k as int));
        assert(fits_prefix(combined@, (cap - TRUNCATION_MARKER_LEN) as nat, k as int));
    }
    out
}

} // verus!
