//! Sweep-style next-edit prompts for a local llama.cpp server: the
//! request is built from a fixed window of lines around the caret
//! (ten above, the caret's line, ten below) and the model's reply is
//! fitted back onto that window.
use vstd::prelude::*;
use crate::error::MoonError;
use crate::text::{
    chars_of, join, join_range, lines, lines_of, push_chars, push_str_chars, string_from_chars,
    string_from_range, trim, trim_bounds, trim_end_char, trim_end_char_len,
};

verus! {

/// Lines above and below the caret line in the prompt window.
pub const WINDOW_RADIUS: usize = 10;

/// How a next-edit server answered the health probe.
#[derive(Clone, Copy, Debug, PartialEq, Eq, Structural)]
pub enum NextEditProbeKind {
    Ready,
    ModelLoading,
    Unreachable,
    Error,
}

/// Outcome of a health probe, with the server's text when it gave one.
#[derive(Debug)]
pub struct NextEditProbeResult {
    pub kind: NextEditProbeKind,
    pub detail: Option<String>,
}

/// Parameters of one completion request.
#[derive(Debug)]
pub struct NextEditCompleteParams {
    pub base_url: String,
    pub relative_path: String,
    pub cursor_line: u32,
    pub document_text: String,
    /// The file as of `HEAD`; `None` uses the document itself.
    pub head_text: Option<String>,
}

/// The model's replacement for lines `from_line..=to_line`.
#[derive(Debug)]
pub struct NextEditCompleteResult {
    pub replacement: String,
    pub from_line: u32,
    pub to_line: u32,
}

/// Everything the HTTP call of a completion needs, and what fitting
/// the reply back onto the document needs.
#[derive(Debug)]
pub struct CompletionRequest {
    /// `<base>/completion`.
    pub url: String,
    pub prompt: String,
    pub from_line: usize,
    pub to_line: usize,
    /// A document line follows the window.
    pub line_after_window: bool,
}

pub open spec fn nl() -> Seq<char> {
    seq!['\n']
}

/// `base` trimmed of surrounding whitespace and of trailing `/`, or
/// `None` when nothing is left after trimming whitespace.
pub open spec fn normalized_base_url(base: Seq<char>) -> Option<Seq<char>> {
    if trim(base).len() == 0 {
        None
    } else {
        Some(trim_end_char(trim(base), '/'))
    }
}

/// Trim the configured base URL; an empty one is refused.
pub fn normalize_base_url(base: &str) -> (r: Result<String, MoonError>)
    ensures
        match r {
            Ok(u) => normalized_base_url(base@) == Some(u@),
            Err(e) => normalized_base_url(base@) is None && e is InvalidArgument,
        },
{
    let cs = chars_of(base);
    let (a, b) = trim_bounds(cs.as_slice());
    if a == b {
        return Err(MoonError::InvalidArgument("next-edit base URL is empty".to_string()));
    }
    let t = &cs.as_slice()[a..b];
    let k = trim_end_char_len(t, '/');
    assert(t@ == cs@.subrange(a as int, b as int));
    Ok(string_from_range(t, 0, k))
}

/// `s[i]` and `s[i + 1]` are both dots.
pub open spec fn dot_pair_at(s: Seq<char>, i: int) -> bool {
    0 <= i && i + 1 < s.len() && s[i] == '.' && s[i + 1] == '.'
}

/// `s` holds two consecutive dots.
pub open spec fn has_dot_dot(s: Seq<char>) -> bool {
    exists|i: int| #[trigger] dot_pair_at(s, i)
}

/// A workspace-relative path must be non-empty and must not hold `..`.
pub fn validate_relative_path(path: &str) -> (r: Result<(), MoonError>)
    ensures
        r is Ok <==> (path@.len() > 0 && !has_dot_dot(path@)),
        r matches Err(e) ==> e is InvalidArgument,
{
    let cs = chars_of(path);
    if cs.len() == 0 {
        return Err(MoonError::InvalidArgument("relative path is empty".to_string()));
    }
    let mut i: usize = 0;
    while i + 1 < cs.len()
        invariant
            cs@ == path@,
            i < cs.len(),
            forall|j: int| 0 <= j < i ==> !#[trigger] dot_pair_at(cs@, j),
        decreases cs.len() - i,
    {
        if cs[i] == '.' && cs[i + 1] == '.' {
            assert(dot_pair_at(cs@, i as int));
            return Err(MoonError::InvalidArgument("relative path must not contain '..'".to_string()));
        }
        i = i + 1;
    }
    assert forall|j: int| !#[trigger] dot_pair_at(cs@, j) by {
        if 0 <= j && j + 1 < cs@.len() {
            assert(j < i);
        }
    }
    Ok(())
}

/// The document's lines (`str::lines`).
pub fn doc_lines(text: &str) -> (out: Vec<String>)
    ensures
        out.deep_view() == lines(text@),
{
    lines_of(text)
}

/// First and last line of the window around `center` in a document of
/// `n` lines; `None` for an empty document.
pub open spec fn window_bounds(n: int, center: int) -> Option<(int, int)> {
    if n == 0 {
        None
    } else {
        let c = if center < n - 1 { center } else { n - 1 };
        let start = if c >= WINDOW_RADIUS { c - WINDOW_RADIUS } else { 0 };
        let end = if c + WINDOW_RADIUS < n - 1 { c + WINDOW_RADIUS } else { n - 1 };
        Some((start, end))
    }
}

/// The window of lines around `center` (clamped to the document).
pub fn line_window(lines: &[String], center: usize) -> (r: Option<(usize, usize)>)
    ensures
        match r {
            None => window_bounds(lines.len() as int, center as int) is None,
            Some((s, e)) => window_bounds(lines.len() as int, center as int) == Some((s as int, e as int)),
        },
{
    if lines.len() == 0 {
        return None;
    }
    let max_idx = lines.len() - 1;
    let c = if center < max_idx { center } else { max_idx };
    let start = if c >= WINDOW_RADIUS { c - WINDOW_RADIUS } else { 0 };
    let end = if c < max_idx && max_idx - c > WINDOW_RADIUS { c + WINDOW_RADIUS } else { max_idx };
    Some((start, end))
}

/// Lines `start..=end` joined with `\n`.
pub fn window_text(lines: &[String], start: usize, end: usize) -> (out: String)
    requires
        start <= end < lines.len(),
    ensures
        out@ == join(lines.deep_view().subrange(start as int, end + 1), nl()),
{
    proof {
        reveal_strlit("\n");
        assert("\n"@ =~= nl());
    }
    let cs = join_range(lines, start, end + 1, "\n");
    string_from_chars(cs.as_slice())
}

/// The prompt text for one file window.
pub open spec fn prompt_text(path: Seq<char>, original: Seq<char>, current: Seq<char>) -> Seq<char> {
    "<|file_sep|>original/"@ + path + nl() + original + "\n<|file_sep|>current/"@ + path + nl()
        + current + "\n<|file_sep|>updated/"@ + path + nl()
}

/// Sweep-style prompt: `original` / `current` / `updated` blocks for one file window.
pub fn build_prompt(relative_path: &str, original_window: &str, current_window: &str) -> (out: String)
    ensures
        out@ == prompt_text(relative_path@, original_window@, current_window@),
{
    let mut s: Vec<char> = Vec::new();
    push_str_chars(&mut s, "<|file_sep|>original/");
    push_str_chars(&mut s, relative_path);
    s.push('\n');
    push_str_chars(&mut s, original_window);
    push_str_chars(&mut s, "\n<|file_sep|>current/");
    push_str_chars(&mut s, relative_path);
    s.push('\n');
    push_str_chars(&mut s, current_window);
    push_str_chars(&mut s, "\n<|file_sep|>updated/");
    push_str_chars(&mut s, relative_path);
    s.push('\n');
    proof {
        assert(s@ =~= prompt_text(relative_path@, original_window@, current_window@));
    }
    string_from_chars(s.as_slice())
}

/// `text` cut to its first `expected` lines when it has more, then
/// given a final `\n` when `needs_sep` and it lacks one.
pub open spec fn fitted_replacement(text: Seq<char>, expected: int, needs_sep: bool) -> Seq<char> {
    let ls = lines(text);
    let t = if ls.len() > expected { join(ls.take(expected), nl()) } else { text };
    if needs_sep && !(t.len() > 0 && t.last() == '\n') {
        t.push('\n')
    } else {
        t
    }
}

/// Cap the line count; keep a trailing separator when the window is
/// not at the end of the file, so the next document line is not merged
/// into the last predicted one.
pub fn normalize_model_replacement(text: String, expected_lines: usize, needs_trailing_line_sep: bool) -> (out: String)
    ensures
        out@ == fitted_replacement(text@, expected_lines as int, needs_trailing_line_sep),
{
    let ls = lines_of(text.as_str());
    let mut cs: Vec<char> = if ls.len() > expected_lines {
        proof {
            reveal_strlit("\n");
            assert("\n"@ =~= nl());
            assert(ls.deep_view().subrange(0, expected_lines as int) =~= lines(text@).take(expected_lines as int));
        }
        join_range(ls.as_slice(), 0, expected_lines, "\n")
    } else {
        chars_of(text.as_str())
    };
    let n = cs.len();
    if needs_trailing_line_sep && !(n > 0 && cs[n - 1] == '\n') {
        cs.push('\n');
    }
    string_from_chars(cs.as_slice())
}

/// The `original` window: lines `start..=end` of the `HEAD` text,
/// an empty line standing in for each index past its end.
pub open spec fn original_window_lines(orig: Seq<Seq<char>>, start: int, end: int) -> Seq<Seq<char>> {
    Seq::new((end - start + 1) as nat, |k: int| if start + k < orig.len() { orig[start + k] } else { Seq::empty() })
}

fn padded_window(orig: &Vec<String>, start: usize, end: usize) -> (out: Vec<char>)
    requires
        start <= end < usize::MAX,
    ensures
        out@ == join(original_window_lines(orig.deep_view(), start as int, end as int), nl()),
{
    proof {
        reveal_strlit("\n");
    }
    let ghost full = original_window_lines(orig.deep_view(), start as int, end as int);
    let mut out: Vec<char> = Vec::new();
    let mut i = start;
    while i <= end
        invariant
            start <= i <= end + 1,
            end < usize::MAX,
            full == original_window_lines(orig.deep_view(), start as int, end as int),
            out@ == join(full.take(i - start), nl()),
        decreases end + 1 - i,
    {
        let ghost prev = full.take(i - start);
        if i > start {
            out.push('\n');
        }
        if i < orig.len() {
            push_str_chars(&mut out, orig[i].as_str());
        }
        let ghost next = full.take(i + 1 - start);
        assert(next.drop_last() =~= prev);
        assert(next.last() == full[i - start]);
        if i == start {
            assert(out@ =~= next[0]);
        } else {
            assert(out@ =~= join(prev, nl()) + nl() + next.last());
        }
        i = i + 1;
    }
    assert(full.take(end + 1 - start) =~= full);
    out
}

/// What [`plan_completion`] sends for `params`, when it accepts them.
pub open spec fn completion_plan(
    base: Seq<char>,
    path: Seq<char>,
    cursor: int,
    doc: Seq<char>,
    head: Option<Seq<char>>,
) -> Option<(Seq<char>, Seq<char>, int, int, bool)> {
    let cur = lines(doc);
    match (normalized_base_url(base), window_bounds(cur.len() as int, cursor)) {
        (Some(b), Some((start, end))) => {
            if path.len() == 0 || has_dot_dot(path) {
                None
            } else {
                let orig = match head {
                    Some(h) => lines(h),
                    None => cur,
                };
                let original = join(original_window_lines(orig, start, end), nl());
                let current = join(cur.subrange(start, end + 1), nl());
                Some((b + "/completion"@, prompt_text(path, original, current), start, end, end + 1 < cur.len()))
            }
        },
        _ => None,
    }
}

/// Validate `params` and build the completion request: the base URL,
/// the relative path and the document are checked in that order.
pub fn plan_completion(params: &NextEditCompleteParams) -> (r: Result<CompletionRequest, MoonError>)
    ensures
        match r {
            Ok(q) => completion_plan(
                params.base_url@,
                params.relative_path@,
                params.cursor_line as int,
                params.document_text@,
                match params.head_text {
                    Some(h) => Some(h@),
                    None => None,
                },
            ) == Some((q.url@, q.prompt@, q.from_line as int, q.to_line as int, q.line_after_window))
                && q.from_line <= q.to_line < usize::MAX,
            Err(e) => completion_plan(
                params.base_url@,
                params.relative_path@,
                params.cursor_line as int,
                params.document_text@,
                match params.head_text {
                    Some(h) => Some(h@),
                    None => None,
                },
            ) is None && e is InvalidArgument,
        },
{
    let base = normalize_base_url(params.base_url.as_str())?;
    validate_relative_path(params.relative_path.as_str())?;
    let cursor = params.cursor_line as usize;
    let cur_lines = doc_lines(params.document_text.as_str());
    let (start, end) = match line_window(cur_lines.as_slice(), cursor) {
        Some(w) => w,
        None => {
            return Err(MoonError::InvalidArgument("empty document".to_string()));
        },
    };
    let orig_lines = match &params.head_text {
        Some(h) => doc_lines(h.as_str()),
        None => doc_lines(params.document_text.as_str()),
    };
    let original = padded_window(&orig_lines, start, end);
    let current = window_text(cur_lines.as_slice(), start, end);
    let original_s = string_from_chars(original.as_slice());
    let prompt = build_prompt(params.relative_path.as_str(), original_s.as_str(), current.as_str());
    let mut url: Vec<char> = chars_of(base.as_str());
    push_str_chars(&mut url, "/completion");
    let url = string_from_chars(url.as_slice());
    Ok(CompletionRequest {
        url,
        prompt,
        from_line: start,
        to_line: end,
        line_after_window: end + 1 < cur_lines.len(),
    })
}

/// Fit the model's reply onto the planned window.
pub fn finish_completion(req: &CompletionRequest, content: String) -> (r: NextEditCompleteResult)
    requires
        req.from_line <= req.to_line < usize::MAX,
    ensures
        r.replacement@ == fitted_replacement(content@, req.to_line - req.from_line + 1, req.line_after_window),
        r.from_line == req.from_line as u32,
        r.to_line == req.to_line as u32,
{
    let window_line_count = req.to_line - req.from_line + 1;
    let replacement = normalize_model_replacement(content, window_line_count, req.line_after_window);
    NextEditCompleteResult {
        replacement,
        from_line: req.from_line as u32,
        to_line: req.to_line as u32,
    }
}

/// The health-check URL for `base_url`, or the probe result reporting
/// why the base URL is refused.
pub fn probe_plan(base_url: &str) -> (r: Result<String, NextEditProbeResult>)
    ensures
        match r {
            Ok(u) => normalized_base_url(base_url@) matches Some(b) && u@ == b + "/health"@,
            Err(p) => normalized_base_url(base_url@) is None && p.kind == NextEditProbeKind::Error
                && p.detail is Some,
        },
{
    match normalize_base_url(base_url) {
        Ok(b) => {
            let mut u = chars_of(b.as_str());
            push_str_chars(&mut u, "/health");
            Ok(string_from_chars(u.as_slice()))
        },
        Err(e) => Err(NextEditProbeResult { kind: NextEditProbeKind::Error, detail: Some(e.message()) }),
    }
}

/// Probe result for a request that never got a response: a timeout or
/// a refused connection means the server is unreachable.
pub fn probe_failed_request(timeout_or_connect: bool, detail: String) -> (r: NextEditProbeResult)
    ensures
        r.kind == (if timeout_or_connect { NextEditProbeKind::Unreachable } else { NextEditProbeKind::Error }),
        r.detail == Some(detail),
{
    let kind = if timeout_or_connect { NextEditProbeKind::Unreachable } else { NextEditProbeKind::Error };
    NextEditProbeResult { kind, detail: Some(detail) }
}

/// Probe result for an HTTP response: `503` while the model loads,
/// success for any `2xx`, an error otherwise.
pub fn probe_response(status: u16, body: Option<String>) -> (r: NextEditProbeResult)
    ensures
        status == 503 ==> r.kind == NextEditProbeKind::ModelLoading && r.detail == body,
        200 <= status <= 299 ==> r.kind == NextEditProbeKind::Ready && r.detail is None,
        status != 503 && !(200 <= status <= 299) ==> r.kind == NextEditProbeKind::Error && r.detail == body,
{
    if status == 503 {
        NextEditProbeResult { kind: NextEditProbeKind::ModelLoading, detail: body }
    } else if 200 <= status && status <= 299 {
        NextEditProbeResult { kind: NextEditProbeKind::Ready, detail: None }
    } else {
        NextEditProbeResult { kind: NextEditProbeKind::Error, detail: body }
    }
}

/// The window around the cursor lies in the document, holds the
/// (clamped) cursor line, and spans at most `2 * WINDOW_RADIUS + 1`
/// lines; it is that wide whenever the document leaves room on both
/// sides.
pub proof fn law_window_in_document(n: int, center: int)
    requires
        n > 0,
        center >= 0,
    ensures
        window_bounds(n, center) matches Some((s, e)) && {
            let c = if center < n - 1 { center } else { n - 1 };
            &&& 0 <= s <= c <= e < n
            &&& e - s <= 2 * WINDOW_RADIUS
            &&& (WINDOW_RADIUS <= c && c + WINDOW_RADIUS < n) ==> e - s == 2 * WINDOW_RADIUS
        },
{
}

} // verus!
