//! LSP's byte framing: a `Content-Length: <N>` header block ended by an
//! empty line, then `N` bytes of JSON. Reading the stream is the
//! caller's; the library decides what each header line means and
//! writes the header of an outgoing message.
use vstd::prelude::*;
use crate::num::{decimal, decimal_chars, parse_unsigned, parse_unsigned_spec};
use crate::text::{chars_of, has_prefix, push_chars, push_str_chars, starts_with, string_from_chars, trim, trim_bounds};

verus! {

/// `s` without its trailing run of `\r` and `\n`.
pub open spec fn strip_line_end(s: Seq<char>) -> Seq<char>
    decreases s.len(),
{
    if s.len() > 0 && (s.last() == '\r' || s.last() == '\n') {
        strip_line_end(s.drop_last())
    } else {
        s
    }
}

/// What one header line says.
#[derive(Debug, PartialEq, Eq, Structural)]
pub enum HeaderLine {
    /// The empty line that ends the header block.
    End,
    /// `Content-Length: <n>`.
    Length(usize),
    /// A `Content-Length:` line whose value is not a `usize`.
    BadLength,
    /// Any other header (`Content-Type`, vendor extensions): ignored.
    Other,
}

/// The meaning of a header line, line ending (CRLF or LF) included.
pub open spec fn header_line_spec(line: Seq<char>) -> HeaderLine {
    let t = strip_line_end(line);
    if t.len() == 0 {
        HeaderLine::End
    } else if has_prefix(t, "Content-Length:"@) {
        match parse_unsigned_spec(trim(t.skip(15)), usize::MAX as nat) {
            Some(n) => HeaderLine::Length(n as usize),
            None => HeaderLine::BadLength,
        }
    } else {
        HeaderLine::Other
    }
}

/// Classify one header line as read from the stream.
pub fn classify_header_line(line: &str) -> (r: HeaderLine)
    ensures
        r == header_line_spec(line@),
{
    let cs = chars_of(line);
    let mut k = cs.len();
    assert(cs@.take(k as int) =~= cs@);
    while k > 0 && (cs[k - 1] == '\r' || cs[k - 1] == '\n')
        invariant
            k <= cs.len(),
            strip_line_end(cs@) == strip_line_end(cs@.take(k as int)),
        decreases k,
    {
        assert(cs@.take(k as int).drop_last() =~= cs@.take(k - 1));
        k = k - 1;
    }
    let t = &cs.as_slice()[0..k];
    assert(t@ =~= cs@.take(k as int));
    if k == 0 {
        return HeaderLine::End;
    }
    let prefix = chars_of("Content-Length:");
    proof {
        reveal_strlit("Content-Length:");
    }
    if !starts_with(t, prefix.as_slice()) {
        return HeaderLine::Other;
    }
    let rest = &t[15..k];
    assert(rest@ =~= t@.skip(15));
    let (a, b) = trim_bounds(rest);
    let value = &rest[a..b];
    assert(value@ =~= rest@.subrange(a as int, b as int));
    match parse_unsigned(value, usize::MAX as u64) {
        Some(n) => HeaderLine::Length(n as usize),
        None => HeaderLine::BadLength,
    }
}

/// Where reading a header block stands after one more line.
#[derive(Debug, PartialEq, Eq, Structural)]
pub enum HeaderStep {
    /// Keep reading; the `Content-Length` seen so far, if any.
    Continue(Option<usize>),
    /// The block has ended; read this many payload bytes.
    Payload(usize),
    /// The block ended without a `Content-Length`.
    MissingLength,
    /// A `Content-Length` whose value does not parse.
    BadLength,
}

/// One step of reading a header block: `seen` is the last
/// `Content-Length` read so far.
pub open spec fn header_step_spec(seen: Option<usize>, line: Seq<char>) -> HeaderStep {
    match header_line_spec(line) {
        HeaderLine::End => match seen {
            Some(n) => HeaderStep::Payload(n),
            None => HeaderStep::MissingLength,
        },
        HeaderLine::Length(n) => HeaderStep::Continue(Some(n)),
        HeaderLine::BadLength => HeaderStep::BadLength,
        HeaderLine::Other => HeaderStep::Continue(seen),
    }
}

/// Advance the reading of a header block by the line `line`.
pub fn header_step(seen: Option<usize>, line: &str) -> (r: HeaderStep)
    ensures
        r == header_step_spec(seen, line@),
{
    match classify_header_line(line) {
        HeaderLine::End => match seen {
            Some(n) => HeaderStep::Payload(n),
            None => HeaderStep::MissingLength,
        },
        HeaderLine::Length(n) => HeaderStep::Continue(Some(n)),
        HeaderLine::BadLength => HeaderStep::BadLength,
        HeaderLine::Other => HeaderStep::Continue(seen),
    }
}

/// The header block written before a payload of `len` bytes.
pub open spec fn frame_header_spec(len: nat) -> Seq<char> {
    "Content-Length: "@ + decimal(len) + "\r\n\r\n"@
}

/// The header block of an outgoing message whose payload is `len` bytes.
pub fn frame_header(len: usize) -> (out: String)
    ensures
        out@ == frame_header_spec(len as nat),
{
    let mut v = chars_of("Content-Length: ");
    let d = decimal_chars(len as u64);
    push_chars(&mut v, d.as_slice());
    push_str_chars(&mut v, "\r\n\r\n");
    string_from_chars(v.as_slice())
}

/// The first line of the header block written for `len` bytes.
pub open spec fn length_line(len: nat) -> Seq<char> {
    "Content-Length: "@ + decimal(len) + "\r\n"@
}

/// A header block written for a payload of `n` bytes reads back as `n`:
/// it is its `Content-Length` line followed by the empty line, the first
/// line sets the length whatever was seen before, and the empty line
/// then ends the block with a payload of `n` bytes.
pub proof fn law_frame_header_reads_back(n: usize, seen: Option<usize>)
    ensures
        frame_header_spec(n as nat) == length_line(n as nat) + "\r\n"@,
        header_step_spec(seen, length_line(n as nat)) == HeaderStep::Continue(Some(n)),
        header_step_spec(Some(n), "\r\n"@) == HeaderStep::Payload(n),
{
    reveal_strlit("Content-Length: ");
    reveal_strlit("Content-Length:");
    reveal_strlit("\r\n");
    reveal_strlit("\r\n\r\n");
    let d = decimal(n as nat);
    crate::num::lemma_decimal_digits(n as nat);
    assert(frame_header_spec(n as nat) =~= length_line(n as nat) + "\r\n"@);
    let line = length_line(n as nat);
    let x = "Content-Length: "@ + d;
    assert(crate::num::is_digit(d.last()));
    assert(line.drop_last() =~= x + seq!['\r']);
    assert(line.drop_last().drop_last() =~= x);
    assert(x.last() == d.last());
    assert(strip_line_end(line.drop_last().drop_last()) == x);
    assert(line.last() == '\n');
    assert(line.drop_last().last() == '\r');
    assert(strip_line_end(line.drop_last()) == x);
    assert(strip_line_end(line) == x);
    assert(x.take(15) =~= "Content-Length:"@);
    assert(has_prefix(x, "Content-Length:"@));
    let rest = x.skip(15);
    assert(rest =~= seq![' '] + d);
    assert(crate::text::is_whitespace(' '));
    assert(rest.skip(1) =~= d);
    assert(crate::num::is_digit(d[0]));
    assert(crate::text::trim_start(d) == d);
    assert(crate::text::trim_start(rest) == d);
    assert(crate::text::trim_end(d) == d);
    assert(trim(rest) == d);
    assert(d[0] != '+');
    assert(parse_unsigned_spec(d, usize::MAX as nat) == Some(n as nat));
    let e = "\r\n"@;
    assert(e.drop_last().drop_last() =~= Seq::<char>::empty());
    assert(e.last() == '\n');
    assert(e.drop_last().last() == '\r');
    assert(strip_line_end(e.drop_last().drop_last()) == Seq::<char>::empty());
    assert(strip_line_end(e.drop_last()) == Seq::<char>::empty());
    assert(strip_line_end(e) == Seq::<char>::empty());
}

} // verus!
