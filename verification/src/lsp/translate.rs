//! Translation between the server's LSP shapes (as read off the wire)
//! and the shapes the editor UI consumes.
use vstd::prelude::*;
use crate::num::{i64_chars, signed_decimal};
use crate::paths::{strip_path_prefix, utf8_strip_prefix};
use crate::text::{chars_of, forward_slashes, push_chars, push_str_chars, string_from_chars, to_forward_slashes, trim, trim_bounds};

verus! {

/// What `url::Url::parse` then `Url::to_file_path` give for `uri`: the
/// file path it names (as text), or `None` when it is no URL or names
/// no local file.
pub uninterp spec fn url_file_path(uri: Seq<char>) -> Option<Seq<char>>;

/// `url::Url::parse(uri)` and then `Url::to_file_path`, the path
/// rendered as text. Its result is named, not stated.
#[verifier::external_body]
pub(crate) fn file_path_of_uri(uri: &str) -> (r: Option<String>)
    ensures
        match r {
            Some(p) => url_file_path(uri@) == Some(p@),
            None => url_file_path(uri@) is None,
        },
{
    match url::Url::parse(uri) {
        Ok(u) => u.to_file_path().ok().map(|p| p.to_string_lossy().into_owned()),
        Err(_) => None,
    }
}

/// A zero-based line and UTF-16 column.
#[derive(Debug, Clone, Copy, PartialEq, Eq, Structural)]
pub struct LspPosition {
    pub line: u32,
    pub character: u32,
}

/// A span between two positions.
#[derive(Debug, Clone, Copy, PartialEq, Eq, Structural)]
pub struct LspRange {
    pub start: LspPosition,
    pub end: LspPosition,
}

/// Diagnostic severity as the UI shows it.
#[derive(Debug, Clone, Copy, PartialEq, Eq, Structural)]
pub enum LspSeverity {
    Error,
    Warning,
    Info,
    Hint,
}

/// The UI severity of an LSP severity number: 1 error, 2 warning,
/// 3 information, 4 hint; an unset severity is an error, an unknown
/// one information.
pub open spec fn severity_spec(s: Option<i32>) -> LspSeverity {
    match s {
        None => LspSeverity::Error,
        Some(n) => if n == 1 {
            LspSeverity::Error
        } else if n == 2 {
            LspSeverity::Warning
        } else if n == 3 {
            LspSeverity::Info
        } else if n == 4 {
            LspSeverity::Hint
        } else {
            LspSeverity::Info
        },
    }
}

/// Map an LSP severity number to the UI's.
pub fn severity(s: Option<i32>) -> (r: LspSeverity)
    ensures
        r == severity_spec(s),
{
    match s {
        None => LspSeverity::Error,
        Some(n) => if n == 1 {
            LspSeverity::Error
        } else if n == 2 {
            LspSeverity::Warning
        } else if n == 3 {
            LspSeverity::Info
        } else if n == 4 {
            LspSeverity::Hint
        } else {
            LspSeverity::Info
        },
    }
}

/// The LSP number of a UI severity.
pub fn severity_code(s: LspSeverity) -> (r: i32)
    ensures
        r == match s {
            LspSeverity::Error => 1i32,
            LspSeverity::Warning => 2i32,
            LspSeverity::Info => 3i32,
            LspSeverity::Hint => 4i32,
        },
        severity_spec(Some(r)) == s,
{
    match s {
        LspSeverity::Error => 1,
        LspSeverity::Warning => 2,
        LspSeverity::Info => 3,
        LspSeverity::Hint => 4,
    }
}

/// A diagnostic code as a server sends it.
#[derive(Debug, Clone)]
pub enum NumberOrString {
    Number(i32),
    String(String),
}

/// A diagnostic as a server sends it (the fields the UI reads).
#[derive(Debug, Clone)]
pub struct ServerDiagnostic {
    pub range: LspRange,
    pub severity: Option<i32>,
    pub message: String,
    pub source: Option<String>,
    pub code: Option<NumberOrString>,
}

/// A diagnostic as the UI shows it.
#[derive(Debug, Clone)]
pub struct LspDiagnostic {
    pub range: LspRange,
    pub severity: LspSeverity,
    pub message: String,
    pub source: Option<String>,
    pub code: Option<String>,
}

/// An optional text as a value.
pub open spec fn opt_view(o: Option<String>) -> Option<Seq<char>> {
    match o {
        Some(s) => Some(s@),
        None => None,
    }
}

/// The code as text: a number in decimal, a string as is.
pub open spec fn code_text(c: NumberOrString) -> Seq<char> {
    match c {
        NumberOrString::Number(n) => signed_decimal(n as int),
        NumberOrString::String(s) => s@,
    }
}

fn clone_opt(o: &Option<String>) -> (r: Option<String>)
    ensures
        opt_view(r) == opt_view(*o),
{
    match o {
        Some(s) => Some(s.clone()),
        None => None,
    }
}

/// `r` is the UI form of the server diagnostic `d`: same range,
/// message and source, the severity mapped, the code as text.
pub open spec fn ui_diagnostic_of(d: ServerDiagnostic, r: LspDiagnostic) -> bool {
    &&& r.range == d.range
    &&& r.severity == severity_spec(d.severity)
    &&& r.message@ == d.message@
    &&& opt_view(r.source) == opt_view(d.source)
    &&& opt_view(r.code) == match d.code {
        Some(c) => Some(code_text(c)),
        None => None,
    }
}

/// `r` is the server form of the UI diagnostic `d`: same range, message
/// and source, the severity as its LSP number, the code as a string.
pub open spec fn server_diagnostic_of(d: LspDiagnostic, r: ServerDiagnostic) -> bool {
    &&& r.range == d.range
    &&& r.severity == Some(
        match d.severity {
            LspSeverity::Error => 1i32,
            LspSeverity::Warning => 2i32,
            LspSeverity::Info => 3i32,
            LspSeverity::Hint => 4i32,
        },
    )
    &&& r.message@ == d.message@
    &&& opt_view(r.source) == opt_view(d.source)
    &&& match r.code {
        Some(NumberOrString::String(s)) => d.code matches Some(c) && s@ == c@,
        Some(NumberOrString::Number(_)) => false,
        None => d.code is None,
    }
}

/// A UI diagnostic sent back to its server (a code-action request names
/// the diagnostics it is about) and translated again is the diagnostic
/// it was: range, severity, message, source and code all survive.
pub proof fn law_diagnostic_round_trip(d: LspDiagnostic, s: ServerDiagnostic, r: LspDiagnostic)
    requires
        server_diagnostic_of(d, s),
        ui_diagnostic_of(s, r),
    ensures
        r.range == d.range,
        r.severity == d.severity,
        r.message@ == d.message@,
        opt_view(r.source) == opt_view(d.source),
        opt_view(r.code) == opt_view(d.code),
{
}

/// Translate a server diagnostic for the UI.
pub fn diagnostic(d: &ServerDiagnostic) -> (r: LspDiagnostic)
    ensures
        ui_diagnostic_of(*d, r),
{
    let code = match &d.code {
        Some(NumberOrString::Number(n)) => {
            let v = i64_chars(*n as i64);
            Some(string_from_chars(v.as_slice()))
        },
        Some(NumberOrString::String(s)) => Some(s.clone()),
        None => None,
    };
    LspDiagnostic {
        range: d.range,
        severity: severity(d.severity),
        message: d.message.clone(),
        source: clone_opt(&d.source),
        code,
    }
}

/// The server shape of a UI diagnostic, as sent back in a code-action
/// request: the code as a string, the severity as its number.
pub fn to_lsp_diagnostic(d: &LspDiagnostic) -> (r: ServerDiagnostic)
    ensures
        server_diagnostic_of(*d, r),
{
    let code = match &d.code {
        Some(c) => Some(NumberOrString::String(c.clone())),
        None => None,
    };
    ServerDiagnostic {
        range: d.range,
        severity: Some(severity_code(d.severity)),
        message: d.message.clone(),
        source: clone_opt(&d.source),
        code,
    }
}

/// How a markup text is written.
#[derive(Debug, Clone, Copy, PartialEq, Eq, Structural)]
pub enum MarkupKind {
    PlainText,
    Markdown,
}

/// A hover fragment: Markdown, or code in a language.
#[derive(Debug, Clone)]
pub enum MarkedString {
    Text(String),
    LanguageString { language: String, value: String },
}

/// What a hover reply holds.
#[derive(Debug, Clone)]
pub enum HoverContents {
    Scalar(MarkedString),
    Array(Vec<MarkedString>),
    Markup { kind: MarkupKind, value: String },
}

/// A fenced code block: `` ```<lang>\n<value>\n``` ``.
pub open spec fn fenced(lang: Seq<char>, value: Seq<char>) -> Seq<char> {
    "```"@ + lang + "\n"@ + value + "\n```"@
}

/// A fragment as Markdown: code goes in a fenced block of its language.
pub open spec fn marked_text(m: MarkedString) -> Seq<char> {
    match m {
        MarkedString::Text(t) => t@,
        MarkedString::LanguageString { language, value } => fenced(language@, value@),
    }
}

/// Fragments as Markdown, separated by horizontal rules.
pub open spec fn joined_fragments(items: Seq<MarkedString>) -> Seq<char>
    decreases items.len(),
{
    if items.len() == 0 {
        seq![]
    } else if items.len() == 1 {
        marked_text(items[0])
    } else {
        joined_fragments(items.drop_last()) + "\n\n---\n\n"@ + marked_text(items.last())
    }
}

/// Joining fragments keeps every one of them, in order: the text of two
/// runs of fragments, one after the other, is the text of the first run,
/// a horizontal rule, and the text of the second.
pub proof fn law_fragments_concatenate(a: Seq<MarkedString>, b: Seq<MarkedString>)
    requires
        a.len() > 0,
        b.len() > 0,
    ensures
        joined_fragments(a + b) == joined_fragments(a) + "\n\n---\n\n"@ + joined_fragments(b),
    decreases b.len(),
{
    let ab = a + b;
    assert(ab.last() == b.last());
    if b.len() == 1 {
        assert(ab.drop_last() =~= a);
    } else {
        assert(ab.drop_last() =~= a + b.drop_last());
        law_fragments_concatenate(a, b.drop_last());
        let sep = "\n\n---\n\n"@;
        assert(joined_fragments(ab) =~= joined_fragments(a) + sep + joined_fragments(b)) by {
            assert(joined_fragments(ab) == joined_fragments(a + b.drop_last()) + sep + marked_text(
                b.last(),
            ));
            assert(joined_fragments(b) == joined_fragments(b.drop_last()) + sep + marked_text(
                b.last(),
            ));
        }
    }
}

/// A hover of fragments shows each of them as Markdown, with a horizontal
/// rule between neighbours: one fragment is its own text, and a list of
/// two or more is its first fragment, a rule, then the rest.
pub proof fn law_hover_array_shows_every_fragment(items: Seq<MarkedString>)
    requires
        items.len() > 0,
    ensures
        items.len() == 1 ==> joined_fragments(items) == marked_text(items[0]),
        items.len() >= 2 ==> joined_fragments(items) == marked_text(items[0]) + "\n\n---\n\n"@
            + joined_fragments(items.drop_first()),
        items.len() == 2 ==> joined_fragments(items) == marked_text(items[0]) + "\n\n---\n\n"@
            + marked_text(items[1]),
{
    if items.len() >= 2 {
        let head = seq![items[0]];
        assert(head + items.drop_first() =~= items);
        law_fragments_concatenate(head, items.drop_first());
        assert(joined_fragments(head) == marked_text(items[0]));
        if items.len() == 2 {
            assert(joined_fragments(items.drop_first()) == marked_text(items[1]));
        }
    }
}

/// Markup as Markdown: plain text goes in an unlabelled fenced block.
pub open spec fn markup_text(kind: MarkupKind, value: Seq<char>) -> Seq<char> {
    match kind {
        MarkupKind::Markdown => value,
        MarkupKind::PlainText => fenced(Seq::empty(), value),
    }
}

/// Every flavour of hover contents as one Markdown text.
pub open spec fn hover_text(c: HoverContents) -> Seq<char> {
    match c {
        HoverContents::Scalar(m) => marked_text(m),
        HoverContents::Array(items) => joined_fragments(items@),
        HoverContents::Markup { kind, value } => markup_text(kind, value@),
    }
}

fn fenced_chars(out: &mut Vec<char>, lang: &str, value: &str)
    ensures
        final(out)@ == old(out)@ + fenced(lang@, value@),
{
    push_str_chars(out, "```");
    push_str_chars(out, lang);
    push_str_chars(out, "\n");
    push_str_chars(out, value);
    push_str_chars(out, "\n```");
}

fn marked_chars(out: &mut Vec<char>, m: &MarkedString)
    ensures
        final(out)@ == old(out)@ + marked_text(*m),
{
    match m {
        MarkedString::Text(t) => push_str_chars(out, t.as_str()),
        MarkedString::LanguageString { language, value } => fenced_chars(out, language.as_str(), value.as_str()),
    }
}

/// Normalise hover contents into one Markdown text.
pub fn hover_contents(c: &HoverContents) -> (r: String)
    ensures
        r@ == hover_text(*c),
{
    let mut out: Vec<char> = Vec::new();
    match c {
        HoverContents::Scalar(m) => marked_chars(&mut out, m),
        HoverContents::Array(items) => {
            let mut i: usize = 0;
            assert(items@.take(0) =~= Seq::<MarkedString>::empty());
            while i < items.len()
                invariant
                    i <= items.len(),
                    out@ == joined_fragments(items@.take(i as int)),
                decreases items.len() - i,
            {
                if i > 0 {
                    push_str_chars(&mut out, "\n\n---\n\n");
                }
                marked_chars(&mut out, &items[i]);
                let ghost t = items@.take(i + 1);
                assert(t.drop_last() =~= items@.take(i as int));
                assert(t.last() == items@[i as int]);
                if i == 0 {
                    assert(t.len() == 1);
                    assert(out@ =~= joined_fragments(t));
                }
                i = i + 1;
            }
            assert(items@.take(items.len() as int) =~= items@);
        },
        HoverContents::Markup { kind, value } => match kind {
            MarkupKind::Markdown => push_str_chars(&mut out, value.as_str()),
            MarkupKind::PlainText => {
                proof {
                    reveal_strlit("");
                }
                fenced_chars(&mut out, "", value.as_str());
            },
        },
    }
    string_from_chars(out.as_slice())
}

/// A hover as the UI shows it.
#[derive(Debug, Clone)]
pub struct LspHover {
    pub contents: String,
    pub range: Option<LspRange>,
}

/// Translate a hover reply; `None` when its text is blank.
pub fn hover(contents: &HoverContents, range: Option<LspRange>) -> (r: Option<LspHover>)
    ensures
        match r {
            Some(h) => trim(hover_text(*contents)).len() > 0 && h.contents@ == trim(hover_text(*contents))
                && h.range == range,
            None => trim(hover_text(*contents)).len() == 0,
        },
{
    let body = hover_contents(contents);
    let cs = chars_of(body.as_str());
    let (a, b) = trim_bounds(cs.as_slice());
    if a == b {
        return None;
    }
    Some(LspHover { contents: crate::text::string_from_range(cs.as_slice(), a, b), range })
}

/// An edit as the UI applies it.
#[derive(Debug, Clone)]
pub struct LspTextEdit {
    pub range: LspRange,
    pub new_text: String,
}

/// The edit a completion carries: a plain edit, or separate insert and
/// replace ranges.
#[derive(Debug, Clone)]
pub enum CompletionTextEdit {
    Edit { range: LspRange, new_text: String },
    InsertAndReplace { insert: LspRange, replace: LspRange, new_text: String },
}

/// The edit committing a completion applies: for an insert-or-replace
/// edit, the replace range (the in-flight token is rewritten).
pub fn completion_primary_edit(e: &CompletionTextEdit) -> (r: LspTextEdit)
    ensures
        match e {
            CompletionTextEdit::Edit { range, new_text } => r.range == range && r.new_text@ == new_text@,
            CompletionTextEdit::InsertAndReplace { replace, new_text, .. } => r.range == replace
                && r.new_text@ == new_text@,
        },
{
    match e {
        CompletionTextEdit::Edit { range, new_text } => LspTextEdit { range: *range, new_text: new_text.clone() },
        CompletionTextEdit::InsertAndReplace { replace, new_text, .. } => LspTextEdit {
            range: *replace,
            new_text: new_text.clone(),
        },
    }
}

/// Kinds of completion items the UI knows.
#[derive(Debug, Clone, Copy, PartialEq, Eq, Structural)]
pub enum LspCompletionKind {
    Text,
    Method,
    Function,
    Constructor,
    Field,
    Variable,
    Class,
    Interface,
    Module,
    Property,
    Unit,
    Value,
    Enum,
    Keyword,
    Snippet,
    Color,
    File,
    Reference,
    Folder,
    EnumMember,
    Constant,
    Struct,
    Event,
    Operator,
    TypeParameter,
}

/// The UI kind of an LSP completion kind number (1 to 25, in the
/// order of the LSP specification); any other number is text.
pub open spec fn completion_kind_spec(k: i32) -> LspCompletionKind {
    if k == 2 {
        LspCompletionKind::Method
    } else if k == 3 {
        LspCompletionKind::Function
    } else if k == 4 {
        LspCompletionKind::Constructor
    } else if k == 5 {
        LspCompletionKind::Field
    } else if k == 6 {
        LspCompletionKind::Variable
    } else if k == 7 {
        LspCompletionKind::Class
    } else if k == 8 {
        LspCompletionKind::Interface
    } else if k == 9 {
        LspCompletionKind::Module
    } else if k == 10 {
        LspCompletionKind::Property
    } else if k == 11 {
        LspCompletionKind::Unit
    } else if k == 12 {
        LspCompletionKind::Value
    } else if k == 13 {
        LspCompletionKind::Enum
    } else if k == 14 {
        LspCompletionKind::Keyword
    } else if k == 15 {
        LspCompletionKind::Snippet
    } else if k == 16 {
        LspCompletionKind::Color
    } else if k == 17 {
        LspCompletionKind::File
    } else if k == 18 {
        LspCompletionKind::Reference
    } else if k == 19 {
        LspCompletionKind::Folder
    } else if k == 20 {
        LspCompletionKind::EnumMember
    } else if k == 21 {
        LspCompletionKind::Constant
    } else if k == 22 {
        LspCompletionKind::Struct
    } else if k == 23 {
        LspCompletionKind::Event
    } else if k == 24 {
        LspCompletionKind::Operator
    } else if k == 25 {
        LspCompletionKind::TypeParameter
    } else {
        LspCompletionKind::Text
    }
}

/// The number the LSP specification gives a completion kind
/// (`CompletionItemKind`): Text is 1, Method 2, Function 3, and so on in
/// the specification's order up to TypeParameter, 25.
pub open spec fn lsp_kind_number(c: LspCompletionKind) -> int {
    match c {
        LspCompletionKind::Text => 1,
        LspCompletionKind::Method => 2,
        LspCompletionKind::Function => 3,
        LspCompletionKind::Constructor => 4,
        LspCompletionKind::Field => 5,
        LspCompletionKind::Variable => 6,
        LspCompletionKind::Class => 7,
        LspCompletionKind::Interface => 8,
        LspCompletionKind::Module => 9,
        LspCompletionKind::Property => 10,
        LspCompletionKind::Unit => 11,
        LspCompletionKind::Value => 12,
        LspCompletionKind::Enum => 13,
        LspCompletionKind::Keyword => 14,
        LspCompletionKind::Snippet => 15,
        LspCompletionKind::Color => 16,
        LspCompletionKind::File => 17,
        LspCompletionKind::Reference => 18,
        LspCompletionKind::Folder => 19,
        LspCompletionKind::EnumMember => 20,
        LspCompletionKind::Constant => 21,
        LspCompletionKind::Struct => 22,
        LspCompletionKind::Event => 23,
        LspCompletionKind::Operator => 24,
        LspCompletionKind::TypeParameter => 25,
    }
}

/// Map an LSP completion kind number to the UI's kind.
pub fn completion_kind(k: i32) -> (r: LspCompletionKind)
    ensures
        r == completion_kind_spec(k),
        1 <= k <= 25 ==> lsp_kind_number(r) == k,
        !(1 <= k <= 25) ==> r == LspCompletionKind::Text,
{
    if k == 2 {
        LspCompletionKind::Method
    } else if k == 3 {
        LspCompletionKind::Function
    } else if k == 4 {
        LspCompletionKind::Constructor
    } else if k == 5 {
        LspCompletionKind::Field
    } else if k == 6 {
        LspCompletionKind::Variable
    } else if k == 7 {
        LspCompletionKind::Class
    } else if k == 8 {
        LspCompletionKind::Interface
    } else if k == 9 {
        LspCompletionKind::Module
    } else if k == 10 {
        LspCompletionKind::Property
    } else if k == 11 {
        LspCompletionKind::Unit
    } else if k == 12 {
        LspCompletionKind::Value
    } else if k == 13 {
        LspCompletionKind::Enum
    } else if k == 14 {
        LspCompletionKind::Keyword
    } else if k == 15 {
        LspCompletionKind::Snippet
    } else if k == 16 {
        LspCompletionKind::Color
    } else if k == 17 {
        LspCompletionKind::File
    } else if k == 18 {
        LspCompletionKind::Reference
    } else if k == 19 {
        LspCompletionKind::Folder
    } else if k == 20 {
        LspCompletionKind::EnumMember
    } else if k == 21 {
        LspCompletionKind::Constant
    } else if k == 22 {
        LspCompletionKind::Struct
    } else if k == 23 {
        LspCompletionKind::Event
    } else if k == 24 {
        LspCompletionKind::Operator
    } else if k == 25 {
        LspCompletionKind::TypeParameter
    } else {
        LspCompletionKind::Text
    }
}

/// The kind map follows the LSP specification's numbering: every number
/// from 1 to 25 gives the kind the specification numbers so, and every
/// other number gives text.
pub proof fn law_completion_kind_numbering(k: i32)
    ensures
        1 <= k <= 25 ==> lsp_kind_number(completion_kind_spec(k)) == k,
        !(1 <= k <= 25) ==> completion_kind_spec(k) == LspCompletionKind::Text,
        k == 1 ==> completion_kind_spec(k) == LspCompletionKind::Text,
        k == 2 ==> completion_kind_spec(k) == LspCompletionKind::Method,
        k == 3 ==> completion_kind_spec(k) == LspCompletionKind::Function,
        k == 4 ==> completion_kind_spec(k) == LspCompletionKind::Constructor,
        k == 5 ==> completion_kind_spec(k) == LspCompletionKind::Field,
        k == 6 ==> completion_kind_spec(k) == LspCompletionKind::Variable,
        k == 7 ==> completion_kind_spec(k) == LspCompletionKind::Class,
        k == 8 ==> completion_kind_spec(k) == LspCompletionKind::Interface,
        k == 9 ==> completion_kind_spec(k) == LspCompletionKind::Module,
        k == 10 ==> completion_kind_spec(k) == LspCompletionKind::Property,
        k == 11 ==> completion_kind_spec(k) == LspCompletionKind::Unit,
        k == 12 ==> completion_kind_spec(k) == LspCompletionKind::Value,
        k == 13 ==> completion_kind_spec(k) == LspCompletionKind::Enum,
        k == 14 ==> completion_kind_spec(k) == LspCompletionKind::Keyword,
        k == 15 ==> completion_kind_spec(k) == LspCompletionKind::Snippet,
        k == 16 ==> completion_kind_spec(k) == LspCompletionKind::Color,
        k == 17 ==> completion_kind_spec(k) == LspCompletionKind::File,
        k == 18 ==> completion_kind_spec(k) == LspCompletionKind::Reference,
        k == 19 ==> completion_kind_spec(k) == LspCompletionKind::Folder,
        k == 20 ==> completion_kind_spec(k) == LspCompletionKind::EnumMember,
        k == 21 ==> completion_kind_spec(k) == LspCompletionKind::Constant,
        k == 22 ==> completion_kind_spec(k) == LspCompletionKind::Struct,
        k == 23 ==> completion_kind_spec(k) == LspCompletionKind::Event,
        k == 24 ==> completion_kind_spec(k) == LspCompletionKind::Operator,
        k == 25 ==> completion_kind_spec(k) == LspCompletionKind::TypeParameter,
{
}

/// A prepare-rename reply.
#[derive(Debug, Clone)]
pub enum PrepareRenameResponse {
    Range(LspRange),
    RangeWithPlaceholder { range: LspRange, placeholder: String },
    DefaultBehavior(bool),
}

/// What the UI renames.
#[derive(Debug, Clone)]
pub struct LspPrepareRename {
    pub range: LspRange,
    pub placeholder: String,
}

/// The empty range at the start of the document.
pub open spec fn origin_range() -> LspRange {
    LspRange { start: LspPosition { line: 0, character: 0 }, end: LspPosition { line: 0, character: 0 } }
}

/// Translate a prepare-rename reply: a bare range takes the word under
/// the cursor as placeholder; "default behaviour" gives that word at
/// the document start; a declined default gives nothing.
pub fn prepare_rename_response(resp: &PrepareRenameResponse, fallback_word: &str) -> (r: Option<LspPrepareRename>)
    ensures
        match resp {
            PrepareRenameResponse::Range(rg) => r matches Some(p) && p.range == rg && p.placeholder@ == fallback_word@,
            PrepareRenameResponse::RangeWithPlaceholder { range, placeholder } => r matches Some(p) && p.range
                == range && p.placeholder@ == placeholder@,
            PrepareRenameResponse::DefaultBehavior(b) => if *b {
                r matches Some(p) && p.range == origin_range() && p.placeholder@ == fallback_word@
            } else {
                r is None
            },
        },
{
    match resp {
        PrepareRenameResponse::Range(rg) => Some(LspPrepareRename { range: *rg, placeholder: fallback_word.to_owned() }),
        PrepareRenameResponse::RangeWithPlaceholder { range, placeholder } => Some(
            LspPrepareRename { range: *range, placeholder: placeholder.clone() },
        ),
        PrepareRenameResponse::DefaultBehavior(b) => if *b {
            Some(
                LspPrepareRename {
                    range: LspRange {
                        start: LspPosition { line: 0, character: 0 },
                        end: LspPosition { line: 0, character: 0 },
                    },
                    placeholder: fallback_word.to_owned(),
                },
            )
        } else {
            None
        },
    }
}

/// Where a URI the server names lies: `(workspace-relative path, "")`
/// for a local file under `root`, `("", uri)` for anything else.
pub open spec fn resolved_uri(uri: Seq<char>, root: Seq<char>) -> (Seq<char>, Seq<char>) {
    match url_file_path(uri) {
        Some(p) => match utf8_strip_prefix(p, root) {
            Some(rel) => (forward_slashes(rel), Seq::empty()),
            None => (Seq::empty(), uri),
        },
        None => (Seq::empty(), uri),
    }
}

/// Resolve a URI the server names against the workspace `root`.
pub fn resolve_uri(uri: &str, root: &str) -> (r: (String, String))
    ensures
        (r.0@, r.1@) == resolved_uri(uri@, root@),
{
    match file_path_of_uri(uri) {
        Some(p) => match strip_path_prefix(p.as_str(), root) {
            Some(rel) => (to_forward_slashes(rel.as_str()), String::new()),
            None => (String::new(), uri.to_owned()),
        },
        None => (String::new(), uri.to_owned()),
    }
}

/// A location a server names.
#[derive(Debug, Clone)]
pub struct Location {
    pub uri: String,
    pub range: LspRange,
}

/// A location link a server names: the whole target and the span of
/// its identifier.
#[derive(Debug, Clone)]
pub struct LocationLink {
    pub target_uri: String,
    pub target_range: LspRange,
    pub target_selection_range: LspRange,
}

/// A go-to-definition reply.
#[derive(Debug, Clone)]
pub enum GotoDefinitionResponse {
    Scalar(Location),
    Array(Vec<Location>),
    Link(Vec<LocationLink>),
}

/// A jump target as the UI takes it: a workspace-relative path, or an
/// external URI (exactly one of the two is non-empty).
#[derive(Debug, Clone)]
pub struct LspLocation {
    pub path: String,
    pub range: LspRange,
    pub external_uri: String,
}

/// The UI target of a location.
pub open spec fn location_spec(uri: Seq<char>, range: LspRange, root: Seq<char>) -> (Seq<char>, LspRange, Seq<char>) {
    let (path, ext) = resolved_uri(uri, root);
    (path, range, ext)
}

/// The view of a UI location.
pub open spec fn location_view(l: LspLocation) -> (Seq<char>, LspRange, Seq<char>) {
    (l.path@, l.range, l.external_uri@)
}

fn location(uri: &str, range: LspRange, root: &str) -> (r: LspLocation)
    ensures
        location_view(r) == location_spec(uri@, range, root@),
{
    let (path, external_uri) = resolve_uri(uri, root);
    LspLocation { path, range, external_uri }
}

/// The jump target of a go-to-definition reply: its first location
/// (a link jumps to its identifier span); `None` when it lists none.
pub open spec fn definition_spec(resp: GotoDefinitionResponse, root: Seq<char>) -> Option<(Seq<char>, LspRange, Seq<char>)> {
    match resp {
        GotoDefinitionResponse::Scalar(l) => Some(location_spec(l.uri@, l.range, root)),
        GotoDefinitionResponse::Array(ls) => if ls@.len() == 0 {
            None
        } else {
            Some(location_spec(ls@[0].uri@, ls@[0].range, root))
        },
        GotoDefinitionResponse::Link(ls) => if ls@.len() == 0 {
            None
        } else {
            Some(location_spec(ls@[0].target_uri@, ls@[0].target_selection_range, root))
        },
    }
}

/// A reply of location links jumps like a reply of plain locations: a
/// non-empty list of links gives the target the same list of locations
/// would, each link taken as its target URI and the span of its
/// identifier; the first link decides, and its identifier span is the
/// range jumped to.
pub proof fn law_links_jump_like_locations(ls: Vec<LocationLink>, root: Seq<char>)
    requires
        ls@.len() > 0,
    ensures
        definition_spec(GotoDefinitionResponse::Link(ls), root) == definition_spec(
            GotoDefinitionResponse::Scalar(
                (Location { uri: ls@[0].target_uri, range: ls@[0].target_selection_range }),
            ),
            root,
        ),
        definition_spec(GotoDefinitionResponse::Link(ls), root) is Some,
        definition_spec(GotoDefinitionResponse::Link(ls), root).unwrap().1
            == ls@[0].target_selection_range,
        (definition_spec(GotoDefinitionResponse::Link(ls), root).unwrap().0, definition_spec(
            GotoDefinitionResponse::Link(ls),
            root,
        ).unwrap().2) == resolved_uri(ls@[0].target_uri@, root),
{
}

/// Translate a go-to-definition reply against the workspace `root`.
pub fn definition_response(resp: &GotoDefinitionResponse, root: &str) -> (r: Option<LspLocation>)
    ensures
        match r {
            Some(l) => definition_spec(*resp, root@) == Some(location_view(l)),
            None => definition_spec(*resp, root@) is None,
        },
        ((*resp) is Link && (*resp)->Link_0@.len() > 0) ==> (r is Some && r.unwrap().range == (
        *resp)->Link_0@[0].target_selection_range && (r.unwrap().path@, r.unwrap().external_uri@)
            == resolved_uri((*resp)->Link_0@[0].target_uri@, root@)),
{
    match resp {
        GotoDefinitionResponse::Scalar(l) => Some(location(l.uri.as_str(), l.range, root)),
        GotoDefinitionResponse::Array(ls) => if ls.len() == 0 {
            None
        } else {
            Some(location(ls[0].uri.as_str(), ls[0].range, root))
        },
        GotoDefinitionResponse::Link(ls) => if ls.len() == 0 {
            None
        } else {
            Some(location(ls[0].target_uri.as_str(), ls[0].target_selection_range, root))
        },
    }
}

/// The views of a list of edits.
pub open spec fn edits_view(v: Seq<LspTextEdit>) -> Seq<(LspRange, Seq<char>)> {
    v.map_values(|e: LspTextEdit| (e.range, e.new_text@))
}

fn copy_edits(v: &Vec<LspTextEdit>) -> (r: Vec<LspTextEdit>)
    ensures
        edits_view(r@) == edits_view(v@),
{
    let mut out: Vec<LspTextEdit> = Vec::new();
    let mut i: usize = 0;
    while i < v.len()
        invariant
            i <= v.len(),
            edits_view(out@) == edits_view(v@).take(i as int),
        decreases v.len() - i,
    {
        let e = LspTextEdit { range: v[i].range, new_text: v[i].new_text.clone() };
        let ghost o0 = edits_view(out@);
        out.push(e);
        assert(edits_view(out@) =~= o0.push((e.range, e.new_text@)));
        assert(edits_view(v@).take(i + 1) =~= edits_view(v@).take(i as int).push((v@[i as int].range, v@[i as int].new_text@)));
        i = i + 1;
    }
    assert(edits_view(v@).take(v.len() as int) =~= edits_view(v@));
    out
}

/// The edits of one document a server asks for.
#[derive(Debug, Clone)]
pub struct TextDocumentEdit {
    pub uri: String,
    pub edits: Vec<LspTextEdit>,
}

/// The document changes of a workspace edit: edits per document, or
/// resource operations (create, rename, delete), which are not applied.
#[derive(Debug, Clone)]
pub enum DocumentChanges {
    Edits(Vec<TextDocumentEdit>),
    Operations,
}

/// A workspace edit as a server sends it.
#[derive(Debug, Clone)]
pub struct WorkspaceEdit {
    pub changes: Option<Vec<TextDocumentEdit>>,
    pub document_changes: Option<DocumentChanges>,
}

/// The edits of one file, as the UI applies them.
#[derive(Debug, Clone)]
pub struct LspDocumentEdit {
    pub path: String,
    pub edits: Vec<LspTextEdit>,
}

/// A workspace edit as the UI applies it.
#[derive(Debug, Clone)]
pub struct LspWorkspaceEdit {
    pub document_edits: Vec<LspDocumentEdit>,
}

/// The view of a document edit.
pub open spec fn doc_edit_view(d: LspDocumentEdit) -> (Seq<char>, Seq<(LspRange, Seq<char>)>) {
    (d.path@, edits_view(d.edits@))
}

/// The views of a list of document edits.
pub open spec fn doc_edits_view(v: Seq<LspDocumentEdit>) -> Seq<(Seq<char>, Seq<(LspRange, Seq<char>)>)> {
    v.map_values(|d: LspDocumentEdit| doc_edit_view(d))
}

/// The document edits of `docs` that land on files under `root`, in
/// order; edits of other documents are dropped.
pub open spec fn local_doc_edits(docs: Seq<TextDocumentEdit>, root: Seq<char>) -> Seq<(Seq<char>, Seq<(LspRange, Seq<char>)>)>
    decreases docs.len(),
{
    if docs.len() == 0 {
        seq![]
    } else {
        let d = docs.last();
        let path = resolved_uri(d.uri@, root).0;
        let own = if path.len() == 0 {
            seq![]
        } else {
            seq![(path, edits_view(d.edits@))]
        };
        local_doc_edits(docs.drop_last(), root) + own
    }
}

fn push_local_edits(out: &mut Vec<LspDocumentEdit>, docs: &Vec<TextDocumentEdit>, root: &str)
    ensures
        doc_edits_view(final(out)@) == doc_edits_view(old(out)@) + local_doc_edits(docs@, root@),
{
    let ghost base = doc_edits_view(out@);
    let mut i: usize = 0;
    assert(docs@.take(0) =~= Seq::<TextDocumentEdit>::empty());
    assert(doc_edits_view(out@) =~= base + local_doc_edits(docs@.take(0), root@));
    while i < docs.len()
        invariant
            i <= docs.len(),
            doc_edits_view(out@) == base + local_doc_edits(docs@.take(i as int), root@),
        decreases docs.len() - i,
    {
        let (path, _ext) = resolve_uri(docs[i].uri.as_str(), root);
        let ghost o0 = doc_edits_view(out@);
        let pc = chars_of(path.as_str());
        if pc.len() > 0 {
            let edits = copy_edits(&docs[i].edits);
            let d = LspDocumentEdit { path, edits };
            out.push(d);
            assert(doc_edits_view(out@) =~= o0.push(doc_edit_view(d)));
        }
        assert(docs@.take(i + 1).drop_last() =~= docs@.take(i as int));
        assert(docs@.take(i + 1).last() == docs@[i as int]);
        assert(doc_edits_view(out@) =~= base + local_doc_edits(docs@.take(i + 1), root@));
        i = i + 1;
    }
    assert(docs@.take(docs.len() as int) =~= docs@);
}

/// The UI edits of a workspace edit: the `changes` documents, then the
/// `documentChanges` edits, each kept only for files under `root`.
pub open spec fn workspace_edit_spec(edit: WorkspaceEdit, root: Seq<char>) -> Seq<(Seq<char>, Seq<(LspRange, Seq<char>)>)> {
    let first = match edit.changes {
        Some(c) => local_doc_edits(c@, root),
        None => seq![],
    };
    let second = match edit.document_changes {
        Some(DocumentChanges::Edits(e)) => local_doc_edits(e@, root),
        _ => seq![],
    };
    first + second
}

/// Flatten a workspace edit into per-file edits under `root`.
pub fn workspace_edit(edit: &WorkspaceEdit, root: &str) -> (r: LspWorkspaceEdit)
    ensures
        doc_edits_view(r.document_edits@) == workspace_edit_spec(*edit, root@),
{
    let mut out: Vec<LspDocumentEdit> = Vec::new();
    assert(doc_edits_view(out@) =~= seq![]);
    if let Some(changes) = &edit.changes {
        push_local_edits(&mut out, changes, root);
    }
    let ghost mid = doc_edits_view(out@);
    if let Some(DocumentChanges::Edits(e)) = &edit.document_changes {
        push_local_edits(&mut out, e, root);
    }
    assert(doc_edits_view(out@) =~= workspace_edit_spec(*edit, root@));
    LspWorkspaceEdit { document_edits: out }
}

/// A code-action reply entry.
#[derive(Debug, Clone)]
pub enum CodeActionOrCommand {
    /// A command to run instead of edits: not supported, dropped.
    Command,
    CodeAction { title: String, kind: Option<String>, edit: Option<WorkspaceEdit>, is_preferred: Option<bool> },
}

/// A code action as the UI offers it.
#[derive(Debug, Clone)]
pub struct LspCodeAction {
    pub title: String,
    pub kind: Option<String>,
    pub edit: LspWorkspaceEdit,
    pub is_preferred: bool,
    pub producer: String,
}

/// The view of a UI code action.
pub ghost struct CodeActionView {
    pub title: Seq<char>,
    pub kind: Option<Seq<char>>,
    pub edit: Seq<(Seq<char>, Seq<(LspRange, Seq<char>)>)>,
    pub is_preferred: bool,
    pub producer: Seq<char>,
}

/// The views of a list of code actions.
pub open spec fn actions_view(v: Seq<LspCodeAction>) -> Seq<CodeActionView> {
    v.map_values(
        |a: LspCodeAction|
            CodeActionView {
                title: a.title@,
                kind: opt_view(a.kind),
                edit: doc_edits_view(a.edit.document_edits@),
                is_preferred: a.is_preferred,
                producer: a.producer@,
            },
    )
}

/// The UI actions of a code-action reply from `producer`, in order:
/// commands, actions without an edit, and actions none of whose edits
/// land under `root` are dropped.
pub open spec fn code_actions_spec(resp: Seq<CodeActionOrCommand>, producer: Seq<char>, root: Seq<char>) -> Seq<CodeActionView>
    decreases resp.len(),
{
    if resp.len() == 0 {
        seq![]
    } else {
        let own = match resp.last() {
            CodeActionOrCommand::Command => seq![],
            CodeActionOrCommand::CodeAction { title, kind, edit, is_preferred } => match edit {
                None => seq![],
                Some(e) => {
                    let w = workspace_edit_spec(e, root);
                    if w.len() == 0 {
                        seq![]
                    } else {
                        seq![CodeActionView {
                            title: title@,
                            kind: opt_view(kind),
                            edit: w,
                            is_preferred: match is_preferred {
                                Some(b) => b,
                                None => false,
                            },
                            producer,
                        }]
                    }
                },
            },
        };
        code_actions_spec(resp.drop_last(), producer, root) + own
    }
}

/// Translate a code-action reply from `producer`.
pub fn code_actions(resp: &Vec<CodeActionOrCommand>, producer: &str, root: &str) -> (r: Vec<LspCodeAction>)
    ensures
        actions_view(r@) == code_actions_spec(resp@, producer@, root@),
{
    let mut out: Vec<LspCodeAction> = Vec::new();
    let mut i: usize = 0;
    assert(resp@.take(0) =~= Seq::<CodeActionOrCommand>::empty());
    assert(actions_view(out@) =~= seq![]);
    while i < resp.len()
        invariant
            i <= resp.len(),
            actions_view(out@) == code_actions_spec(resp@.take(i as int), producer@, root@),
        decreases resp.len() - i,
    {
        let ghost o0 = actions_view(out@);
        match &resp[i] {
            CodeActionOrCommand::Command => {},
            CodeActionOrCommand::CodeAction { title, kind, edit, is_preferred } => match edit {
                None => {},
                Some(e) => {
                    let w = workspace_edit(e, root);
                    if w.document_edits.len() > 0 {
                        let a = LspCodeAction {
                            title: title.clone(),
                            kind: clone_opt(kind),
                            edit: w,
                            is_preferred: match is_preferred {
                                Some(b) => *b,
                                None => false,
                            },
                            producer: producer.to_owned(),
                        };
                        out.push(a);
                        assert(actions_view(out@) =~= o0.push(
                            CodeActionView {
                                title: a.title@,
                                kind: opt_view(a.kind),
                                edit: doc_edits_view(a.edit.document_edits@),
                                is_preferred: a.is_preferred,
                                producer: a.producer@,
                            },
                        ));
                    }
                },
            },
        }
        assert(resp@.take(i + 1).drop_last() =~= resp@.take(i as int));
        assert(resp@.take(i + 1).last() == resp@[i as int]);
        assert(actions_view(out@) =~= code_actions_spec(resp@.take(i + 1), producer@, root@));
        i = i + 1;
    }
    assert(resp@.take(resp.len() as int) =~= resp@);
    out
}

/// A completion's documentation as a server sends it.
#[derive(Debug, Clone)]
pub enum Documentation {
    Text(String),
    Markup { kind: MarkupKind, value: String },
}

/// A completion item as a server sends it (the fields the UI reads),
/// with `json`: the item serialised as the server sent it, handed back
/// verbatim on resolve.
#[derive(Debug, Clone)]
pub struct CompletionItem {
    pub label: String,
    pub kind: Option<i32>,
    pub detail: Option<String>,
    pub documentation: Option<Documentation>,
    pub insert_text: Option<String>,
    pub sort_text: Option<String>,
    pub filter_text: Option<String>,
    pub text_edit: Option<CompletionTextEdit>,
    pub additional_text_edits: Option<Vec<LspTextEdit>>,
    pub json: Option<String>,
}

/// A completion item as the UI shows it.
#[derive(Debug, Clone)]
pub struct LspCompletionItem {
    pub label: String,
    pub kind: Option<LspCompletionKind>,
    pub detail: Option<String>,
    pub documentation: Option<String>,
    pub insert_text: Option<String>,
    pub sort_text: Option<String>,
    pub filter_text: Option<String>,
    pub text_edit: Option<LspTextEdit>,
    pub additional_text_edits: Vec<LspTextEdit>,
    pub resolve_token: Option<String>,
}

/// The documentation as Markdown.
pub open spec fn documentation_text(d: Documentation) -> Seq<char> {
    match d {
        Documentation::Text(t) => t@,
        Documentation::Markup { kind, value } => markup_text(kind, value@),
    }
}

/// The view of a completion's primary edit.
pub open spec fn primary_edit_view(e: CompletionTextEdit) -> (LspRange, Seq<char>) {
    match e {
        CompletionTextEdit::Edit { range, new_text } => (range, new_text@),
        CompletionTextEdit::InsertAndReplace { replace, new_text, .. } => (replace, new_text@),
    }
}

/// The UI item of `item` carries the same texts, its kind mapped, its
/// documentation as Markdown, its primary edit, its extra edits (none
/// when absent), and, when `with_token`, its serialised form as the
/// resolve token.
pub open spec fn completion_item_ok(r: LspCompletionItem, item: CompletionItem, with_token: bool) -> bool {
    &&& r.label@ == item.label@
    &&& r.kind == match item.kind {
        Some(k) => Some(completion_kind_spec(k)),
        None => None,
    }
    &&& opt_view(r.detail) == opt_view(item.detail)
    &&& opt_view(r.documentation) == match item.documentation {
        Some(d) => Some(documentation_text(d)),
        None => None,
    }
    &&& opt_view(r.insert_text) == opt_view(item.insert_text)
    &&& opt_view(r.sort_text) == opt_view(item.sort_text)
    &&& opt_view(r.filter_text) == opt_view(item.filter_text)
    &&& match r.text_edit {
        Some(e) => item.text_edit matches Some(t) && (e.range, e.new_text@) == primary_edit_view(t),
        None => item.text_edit is None,
    }
    &&& edits_view(r.additional_text_edits@) == match item.additional_text_edits {
        Some(v) => edits_view(v@),
        None => seq![],
    }
    &&& opt_view(r.resolve_token) == if with_token {
        opt_view(item.json)
    } else {
        None
    }
}

/// Translate a completion item; the resolve token is kept only when
/// `include_resolve_token` (a resolved item is final).
pub fn completion_item_with_resolve(item: &CompletionItem, include_resolve_token: bool) -> (r: LspCompletionItem)
    ensures
        completion_item_ok(r, *item, include_resolve_token),
{
    let documentation = match &item.documentation {
        Some(Documentation::Text(t)) => Some(t.clone()),
        Some(Documentation::Markup { kind, value }) => {
            let mut v: Vec<char> = Vec::new();
            match kind {
                MarkupKind::Markdown => push_str_chars(&mut v, value.as_str()),
                MarkupKind::PlainText => {
                    proof {
                        reveal_strlit("");
                    }
                    fenced_chars(&mut v, "", value.as_str());
                },
            }
            Some(string_from_chars(v.as_slice()))
        },
        None => None,
    };
    let text_edit = match &item.text_edit {
        Some(t) => Some(completion_primary_edit(t)),
        None => None,
    };
    let additional_text_edits = match &item.additional_text_edits {
        Some(v) => copy_edits(v),
        None => {
            let v: Vec<LspTextEdit> = Vec::new();
            assert(edits_view(v@) =~= seq![]);
            v
        },
    };
    let resolve_token = if include_resolve_token {
        clone_opt(&item.json)
    } else {
        None
    };
    let kind = match item.kind {
        Some(k) => Some(completion_kind(k)),
        None => None,
    };
    LspCompletionItem {
        label: item.label.clone(),
        kind,
        detail: clone_opt(&item.detail),
        documentation,
        insert_text: clone_opt(&item.insert_text),
        sort_text: clone_opt(&item.sort_text),
        filter_text: clone_opt(&item.filter_text),
        text_edit,
        additional_text_edits,
        resolve_token,
    }
}

/// Translate a completion item, resolve token included.
pub fn completion_item(item: &CompletionItem) -> (r: LspCompletionItem)
    ensures
        completion_item_ok(r, *item, true),
{
    completion_item_with_resolve(item, true)
}

/// A completion reply: a bare list, or a list that may be incomplete.
#[derive(Debug, Clone)]
pub enum CompletionResponse {
    Array(Vec<CompletionItem>),
    List { is_incomplete: bool, items: Vec<CompletionItem> },
}

/// A completion list as the UI shows it.
#[derive(Debug, Clone)]
pub struct LspCompletionList {
    pub is_incomplete: bool,
    pub items: Vec<LspCompletionItem>,
}

fn completion_items(items: &Vec<CompletionItem>, with_token: bool) -> (r: Vec<LspCompletionItem>)
    ensures
        r@.len() == items@.len(),
        forall|i: int| 0 <= i < items@.len() ==> completion_item_ok(#[trigger] r@[i], items@[i], with_token),
{
    let mut out: Vec<LspCompletionItem> = Vec::new();
    let mut i: usize = 0;
    while i < items.len()
        invariant
            i <= items.len(),
            out@.len() == i,
            forall|j: int| 0 <= j < i ==> completion_item_ok(#[trigger] out@[j], items@[j], with_token),
        decreases items.len() - i,
    {
        let c = completion_item_with_resolve(&items[i], with_token);
        out.push(c);
        i = i + 1;
    }
    out
}

/// Translate a completion reply; resolve tokens are kept only for a
/// server that supports `completionItem/resolve`.
pub fn completion_response_with_resolve(resp: &CompletionResponse, supports_resolve: bool) -> (r: LspCompletionList)
    ensures
        match resp {
            CompletionResponse::Array(items) => {
                &&& !r.is_incomplete
                &&& r.items@.len() == items@.len()
                &&& forall|i: int| 0 <= i < items@.len() ==> completion_item_ok(#[trigger] r.items@[i], items@[i], supports_resolve)
            },
            CompletionResponse::List { is_incomplete, items } => {
                &&& r.is_incomplete == is_incomplete
                &&& r.items@.len() == items@.len()
                &&& forall|i: int| 0 <= i < items@.len() ==> completion_item_ok(#[trigger] r.items@[i], items@[i], supports_resolve)
            },
        },
{
    match resp {
        CompletionResponse::Array(items) => LspCompletionList {
            is_incomplete: false,
            items: completion_items(items, supports_resolve),
        },
        CompletionResponse::List { is_incomplete, items } => LspCompletionList {
            is_incomplete: *is_incomplete,
            items: completion_items(items, supports_resolve),
        },
    }
}

/// Translate a completion reply, resolve tokens included.
pub fn completion_response(resp: &CompletionResponse) -> (r: LspCompletionList)
    ensures
        match resp {
            CompletionResponse::Array(items) => {
                &&& !r.is_incomplete
                &&& r.items@.len() == items@.len()
                &&& forall|i: int| 0 <= i < items@.len() ==> completion_item_ok(#[trigger] r.items@[i], items@[i], true)
            },
            CompletionResponse::List { is_incomplete, items } => {
                &&& r.is_incomplete == is_incomplete
                &&& r.items@.len() == items@.len()
                &&& forall|i: int| 0 <= i < items@.len() ==> completion_item_ok(#[trigger] r.items@[i], items@[i], true)
            },
        },
{
    completion_response_with_resolve(resp, true)
}

} // verus!
