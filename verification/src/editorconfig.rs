//! The effective `.editorconfig` settings of one file, and how the
//! properties read from `.editorconfig` files cascade into them.
use vstd::prelude::*;

verus! {

/// Indentation style.
#[derive(Clone, Copy, Debug, PartialEq, Eq, Structural)]
pub enum IndentStyle {
    Tab,
    Space,
}

/// Line separator a file is normalised to on save.
#[derive(Clone, Copy, Debug, PartialEq, Eq, Structural)]
pub enum EndOfLine {
    Lf,
    Crlf,
    Cr,
}

/// Effective editorconfig for one file.
#[derive(Clone, Debug)]
pub struct EditorConfig {
    pub indent_style: IndentStyle,
    pub indent_size: u32,
    pub tab_width: u32,
    /// `None`: keep whatever separators the text already has.
    pub end_of_line: Option<EndOfLine>,
    pub insert_final_newline: bool,
    pub trim_trailing_whitespace: bool,
    pub charset: String,
    pub max_line_length: Option<u32>,
}

impl Default for EditorConfig {
    /// What a file gets when no `.editorconfig` says otherwise: tabs of
    /// width 2, LF line ends, a final newline, trailing whitespace
    /// trimmed, UTF-8, no line-length limit.
    fn default() -> (ec: EditorConfig)
        ensures
            ec.indent_style == IndentStyle::Tab,
            ec.indent_size == 2,
            ec.tab_width == 2,
            ec.end_of_line == Some(EndOfLine::Lf),
            ec.insert_final_newline,
            ec.trim_trailing_whitespace,
            ec.charset@ == "utf-8"@,
            ec.max_line_length is None,
    {
        EditorConfig {
            indent_style: IndentStyle::Tab,
            indent_size: 2,
            tab_width: 2,
            end_of_line: Some(EndOfLine::Lf),
            insert_final_newline: true,
            trim_trailing_whitespace: true,
            charset: "utf-8".to_owned(),
            max_line_length: None,
        }
    }
}

/// `indent_size` as `.editorconfig` states it.
#[derive(Clone, Copy, Debug, PartialEq, Eq, Structural)]
pub enum IndentSize {
    Value(usize),
    /// `indent_size = tab`: follow `tab_width`.
    UseTabWidth,
}

/// `max_line_length` as `.editorconfig` states it.
#[derive(Clone, Copy, Debug, PartialEq, Eq, Structural)]
pub enum MaxLineLen {
    Value(usize),
    Off,
}

/// `charset` as `.editorconfig` states it.
#[derive(Clone, Copy, Debug, PartialEq, Eq, Structural)]
pub enum Charset {
    Utf8,
    Latin1,
    Utf16Le,
    Utf16Be,
    Utf8Bom,
}

/// The properties the `.editorconfig` files above a file set for it;
/// `None` where a property is unset or its value does not parse.
#[derive(Clone, Copy, Debug)]
pub struct EditorConfigProperties {
    pub indent_style: Option<IndentStyle>,
    pub tab_width: Option<usize>,
    pub indent_size: Option<IndentSize>,
    pub end_of_line: Option<EndOfLine>,
    pub final_newline: Option<bool>,
    pub trim_trailing_whitespace: Option<bool>,
    pub charset: Option<Charset>,
    pub max_line_length: Option<MaxLineLen>,
}

/// A count as `u32`, when it fits.
pub open spec fn fits_u32(v: usize) -> Option<u32> {
    if v <= u32::MAX {
        Some(v as u32)
    } else {
        None
    }
}

/// The charset's name.
pub open spec fn charset_name(c: Charset) -> Seq<char> {
    match c {
        Charset::Utf8 => "utf-8"@,
        Charset::Latin1 => "latin1"@,
        Charset::Utf16Le => "utf-16le"@,
        Charset::Utf16Be => "utf-16be"@,
        Charset::Utf8Bom => "utf-8-bom"@,
    }
}

/// The tab width in effect: an explicit `tab_width` that fits `u32`,
/// else an explicit `indent_size` that fits (when `tab_width` is
/// unset), else 2.
pub open spec fn tab_width_of(p: EditorConfigProperties) -> u32 {
    let explicit = match p.tab_width {
        Some(v) => fits_u32(v),
        None => None,
    };
    match explicit {
        Some(v) => v,
        None => match p.indent_size {
            Some(IndentSize::Value(v)) => match fits_u32(v) {
                Some(n) => n,
                None => 2,
            },
            _ => 2,
        },
    }
}

/// The indent size in effect: an explicit number that fits `u32`; the
/// tab width for `indent_size = tab`, or when unset with tab
/// indentation; 2 otherwise.
pub open spec fn indent_size_of(p: EditorConfigProperties) -> u32 {
    let style = match p.indent_style {
        Some(s) => s,
        None => IndentStyle::Tab,
    };
    match p.indent_size {
        Some(IndentSize::Value(v)) => match fits_u32(v) {
            Some(n) => n,
            None => 2,
        },
        Some(IndentSize::UseTabWidth) => tab_width_of(p),
        None => if style == IndentStyle::Tab {
            tab_width_of(p)
        } else {
            2
        },
    }
}

fn usize_to_u32(v: usize) -> (r: Option<u32>)
    ensures
        r == fits_u32(v),
{
    if v <= u32::MAX as usize {
        Some(v as u32)
    } else {
        None
    }
}

/// The effective settings of a file from the properties its
/// `.editorconfig` files set (`None`: they could not be read), over the
/// defaults.
pub fn resolve_properties(props: Option<EditorConfigProperties>) -> (ec: EditorConfig)
    ensures
        match props {
            None => {
                &&& ec.indent_style == IndentStyle::Tab
                &&& ec.indent_size == 2
                &&& ec.tab_width == 2
                &&& ec.end_of_line == Some(EndOfLine::Lf)
                &&& ec.insert_final_newline
                &&& ec.trim_trailing_whitespace
                &&& ec.charset@ == "utf-8"@
                &&& ec.max_line_length is None
            },
            Some(p) => {
                &&& ec.indent_style == match p.indent_style {
                    Some(s) => s,
                    None => IndentStyle::Tab,
                }
                &&& ec.tab_width == tab_width_of(p)
                &&& ec.indent_size == indent_size_of(p)
                &&& ec.end_of_line == match p.end_of_line {
                    Some(e) => Some(e),
                    None => Some(EndOfLine::Lf),
                }
                &&& ec.insert_final_newline == match p.final_newline {
                    Some(b) => b,
                    None => true,
                }
                &&& ec.trim_trailing_whitespace == match p.trim_trailing_whitespace {
                    Some(b) => b,
                    None => true,
                }
                &&& ec.charset@ == match p.charset {
                    Some(c) => charset_name(c),
                    None => "utf-8"@,
                }
                &&& ec.max_line_length == match p.max_line_length {
                    Some(MaxLineLen::Value(v)) => fits_u32(v),
                    Some(MaxLineLen::Off) => None,
                    None => None,
                }
            },
        },
{
    let mut ec = EditorConfig::default();
    let p = match props {
        Some(p) => p,
        None => {
            return ec;
        },
    };
    if let Some(style) = p.indent_style {
        ec.indent_style = style;
    }
    let tab_width_explicit = match p.tab_width {
        Some(v) => usize_to_u32(v),
        None => None,
    };
    if let Some(v) = tab_width_explicit {
        ec.tab_width = v;
    }
    match p.indent_size {
        Some(IndentSize::Value(v)) => {
            if let Some(v) = usize_to_u32(v) {
                ec.indent_size = v;
                if tab_width_explicit.is_none() {
                    ec.tab_width = v;
                }
            }
        },
        Some(IndentSize::UseTabWidth) => {
            ec.indent_size = ec.tab_width;
        },
        None => {
            if ec.indent_style == IndentStyle::Tab {
                ec.indent_size = ec.tab_width;
            }
        },
    }
    if let Some(eol) = p.end_of_line {
        ec.end_of_line = Some(eol);
    }
    if let Some(v) = p.final_newline {
        ec.insert_final_newline = v;
    }
    if let Some(v) = p.trim_trailing_whitespace {
        ec.trim_trailing_whitespace = v;
    }
    if let Some(c) = p.charset {
        ec.charset = match c {
            Charset::Utf8 => "utf-8".to_owned(),
            Charset::Latin1 => "latin1".to_owned(),
            Charset::Utf16Le => "utf-16le".to_owned(),
            Charset::Utf16Be => "utf-16be".to_owned(),
            Charset::Utf8Bom => "utf-8-bom".to_owned(),
        };
    }
    if let Some(m) = p.max_line_length {
        ec.max_line_length = match m {
            MaxLineLen::Value(v) => usize_to_u32(v),
            MaxLineLen::Off => None,
        };
    }
    ec
}

} // verus!
