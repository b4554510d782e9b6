//! UTF-8 paths, handled by `camino`. What its functions give is named
//! here and not stated: the library's contracts speak of those names.
use vstd::prelude::*;

verus! {

/// What `camino::Utf8Path::join` gives for `base` joined with `path`.
pub uninterp spec fn utf8_join(base: Seq<char>, path: Seq<char>) -> Seq<char>;

/// What `camino::Utf8Path::strip_prefix` gives for `path` relative to
/// `base` (`None` where camino returns its error).
pub uninterp spec fn utf8_strip_prefix(path: Seq<char>, base: Seq<char>) -> Option<Seq<char>>;

/// What `camino::Utf8Path::parent` gives for `path`.
pub uninterp spec fn utf8_parent(path: Seq<char>) -> Option<Seq<char>>;

/// Whether `camino` holds the paths `a` and `b` equal (component-wise).
pub uninterp spec fn utf8_path_eq(a: Seq<char>, b: Seq<char>) -> bool;

/// `camino::Utf8Path::join`: `path` adjoined to `base` (an absolute
/// `path` replaces `base`). Its result is named, not stated.
#[verifier::external_body]
pub(crate) fn join_path(base: &str, path: &str) -> (r: String)
    ensures
        r@ == utf8_join(base@, path@),
{
    camino::Utf8Path::new(base).join(path).into_string()
}

/// `camino::Utf8Path::strip_prefix`: the part of `path` after the
/// leading components `base`, or `None` when `base` is not a prefix of
/// `path` component-wise. Its result is named, not stated.
#[verifier::external_body]
pub(crate) fn strip_path_prefix(path: &str, base: &str) -> (r: Option<String>)
    ensures
        match r {
            Some(s) => utf8_strip_prefix(path@, base@) == Some(s@),
            None => utf8_strip_prefix(path@, base@) is None,
        },
{
    match camino::Utf8Path::new(path).strip_prefix(base) {
        Ok(rel) => Some(rel.as_str().to_owned()),
        Err(_) => None,
    }
}

/// `camino::Utf8Path::parent`: `path` without its final component, if
/// it has one. Its result is named; the contract adds only that a
/// parent, being `path` less a component, is shorter than `path`.
#[verifier::external_body]
pub(crate) fn parent_path(path: &str) -> (r: Option<String>)
    ensures
        match r {
            Some(p) => utf8_parent(path@) == Some(p@) && p@.len() < path@.len(),
            None => utf8_parent(path@) is None,
        },
{
    camino::Utf8Path::new(path).parent().map(|p| p.as_str().to_owned())
}

/// `==` on `camino::Utf8Path`: equality by components.
#[verifier::external_body]
pub(crate) fn paths_equal(a: &str, b: &str) -> (r: bool)
    ensures
        r == utf8_path_eq(a@, b@),
{
    camino::Utf8Path::new(a) == camino::Utf8Path::new(b)
}

/// What `camino::Utf8Path::file_name` gives for `path`.
pub uninterp spec fn utf8_file_name(path: Seq<char>) -> Option<Seq<char>>;

/// `camino::Utf8Path::file_name`: the final component of `path`, unless
/// it is `..` or there is none. Its result is named, not stated.
#[verifier::external_body]
pub(crate) fn file_name(path: &str) -> (r: Option<String>)
    ensures
        match r {
            Some(n) => utf8_file_name(path@) == Some(n@),
            None => utf8_file_name(path@) is None,
        },
{
    camino::Utf8Path::new(path).file_name().map(|n| n.to_owned())
}

} // verus!
