//! The rules of the workspace file operations: which paths an
//! operation may touch, how a target splits into the directory it goes
//! in and its name, and which config caches a change invalidates. The
//! filesystem calls themselves are the caller's.
use vstd::prelude::*;
use vstd::multiset::Multiset;
use crate::error::MoonError;
use crate::paths::{file_name, join_path, parent_path, paths_equal, strip_path_prefix, utf8_file_name, utf8_join, utf8_parent, utf8_path_eq, utf8_strip_prefix};
use crate::text::{chars_eq, chars_of, push_str_chars, split_char, split_chars, str_eq, string_from_chars, trim_end_char, trim_end_char_len};

verus! {

/// `path` is absolute (it starts at the root).
pub open spec fn is_absolute(path: Seq<char>) -> bool {
    path.len() > 0 && path[0] == '/'
}

/// Walking the `/`-separated segments `segs` from `depth` climbs above
/// the start: `..` goes up, an empty or `.` segment stays, any other
/// goes down.
pub open spec fn climbs_out(segs: Seq<Seq<char>>, depth: int) -> bool
    decreases segs.len(),
{
    if segs.len() == 0 {
        false
    } else if segs[0] == ".."@ {
        depth - 1 < 0 || climbs_out(segs.skip(1), depth - 1)
    } else if segs[0].len() == 0 || segs[0] == "."@ {
        climbs_out(segs.skip(1), depth)
    } else {
        climbs_out(segs.skip(1), depth + 1)
    }
}

/// A relative path that climbs above where it starts, even only for a
/// while (`a/../b` counts: a path that needs normalising is refused).
pub open spec fn escapes(rel: Seq<char>) -> bool {
    climbs_out(split_char(rel, '/'), 0)
}

/// One path of a restore: skipped when empty once trailing `/` are
/// trimmed; refused when absolute or escaping; else kept, trimmed.
pub open spec fn restore_step(raw: Seq<char>) -> Result<Option<Seq<char>>, Seq<char>> {
    let t = trim_end_char(raw, '/');
    if t.len() == 0 {
        Ok(None)
    } else if is_absolute(t) {
        Err("git_restore_paths rejects absolute path: "@ + t)
    } else if escapes(t) {
        Err("git_restore_paths rejects path escape: "@ + t)
    } else {
        Ok(Some(t))
    }
}

/// The paths a restore hands to git, or the message of the first path
/// refused.
pub open spec fn restore_plan(paths: Seq<Seq<char>>) -> Result<Seq<Seq<char>>, Seq<char>>
    decreases paths.len(),
{
    if paths.len() == 0 {
        Ok(seq![])
    } else {
        match restore_plan(paths.drop_last()) {
            Err(e) => Err(e),
            Ok(rels) => match restore_step(paths.last()) {
                Err(e) => Err(e),
                Ok(None) => Ok(rels),
                Ok(Some(t)) => Ok(rels.push(t)),
            },
        }
    }
}

fn segment_is(seg: &Vec<char>, lit: &str) -> (r: bool)
    ensures
        r == (seg@ == lit@),
{
    let l = chars_of(lit);
    chars_eq(seg.as_slice(), l.as_slice())
}

/// Whether `rel` climbs above where it starts.
fn path_escapes(rel: &[char]) -> (r: bool)
    ensures
        r == escapes(rel@),
{
    let segs = split_chars(rel, '/');
    let ghost sv = segs@.map_values(|v: Vec<char>| v@);
    let mut depth: usize = 0;
    let mut k: usize = 0;
    assert(sv.skip(0) =~= sv);
    while k < segs.len()
        invariant
            sv == segs@.map_values(|v: Vec<char>| v@),
            sv == split_char(rel@, '/'),
            k <= segs.len(),
            depth <= k,
            climbs_out(sv, 0) == climbs_out(sv.skip(k as int), depth as int),
        decreases segs.len() - k,
    {
        assert(sv.skip(k as int)[0] == segs@[k as int]@);
        assert(sv.skip(k as int).skip(1) =~= sv.skip(k + 1));
        if segment_is(&segs[k], "..") {
            if depth == 0 {
                return true;
            }
            depth = depth - 1;
        } else if segs[k].len() == 0 || segment_is(&segs[k], ".") {
        } else {
            depth = depth + 1;
        }
        k = k + 1;
    }
    false
}

/// Check the paths of a `git restore` before git sees them: trailing
/// `/` are trimmed, empty paths skipped, and an absolute or escaping
/// path refuses the whole request.
pub fn restore_paths_plan(paths: &[String]) -> (r: Result<Vec<String>, MoonError>)
    ensures
        match r {
            Ok(rels) => restore_plan(paths.deep_view()) == Ok::<Seq<Seq<char>>, Seq<char>>(rels.deep_view()),
            Err(e) => e matches MoonError::InvalidArgument(m) && restore_plan(paths.deep_view()) == Err::<
                Seq<Seq<char>>,
                Seq<char>,
            >(m@),
        },
{
    let mut rels: Vec<String> = Vec::new();
    let mut i: usize = 0;
    assert(paths.deep_view().take(0) =~= Seq::<Seq<char>>::empty());
    assert(rels.deep_view() =~= Seq::<Seq<char>>::empty());
    while i < paths.len()
        invariant
            i <= paths.len(),
            restore_plan(paths.deep_view().take(i as int)) == Ok::<Seq<Seq<char>>, Seq<char>>(rels.deep_view()),
        decreases paths.len() - i,
    {
        assert(paths.deep_view().take(i + 1).drop_last() =~= paths.deep_view().take(i as int));
        assert(paths.deep_view().take(i + 1).last() == paths@[i as int]@);
        let cs = chars_of(paths[i].as_str());
        let k = trim_end_char_len(cs.as_slice(), '/');
        let t = &cs.as_slice()[0..k];
        assert(t@ =~= cs@.take(k as int));
        if k > 0 {
            if t[0] == '/' {
                let mut m = chars_of("git_restore_paths rejects absolute path: ");
                crate::text::push_chars(&mut m, t);
                proof {
                    lemma_plan_fails_later(paths.deep_view(), i as int + 1);
                }
                return Err(MoonError::InvalidArgument(string_from_chars(m.as_slice())));
            }
            if path_escapes(t) {
                let mut m = chars_of("git_restore_paths rejects path escape: ");
                crate::text::push_chars(&mut m, t);
                proof {
                    lemma_plan_fails_later(paths.deep_view(), i as int + 1);
                }
                return Err(MoonError::InvalidArgument(string_from_chars(m.as_slice())));
            }
            let ghost r0 = rels.deep_view();
            rels.push(string_from_chars(t));
            assert(rels.deep_view() =~= r0.push(t@));
        }
        i = i + 1;
    }
    assert(paths.deep_view().take(paths.len() as int) =~= paths.deep_view());
    Ok(rels)
}

proof fn lemma_plan_fails_later(paths: Seq<Seq<char>>, n: int)
    requires
        0 <= n <= paths.len(),
        restore_plan(paths.take(n)) is Err,
    ensures
        restore_plan(paths) == restore_plan(paths.take(n)),
    decreases paths.len() - n,
{
    if n < paths.len() {
        assert(paths.take(n + 1).drop_last() =~= paths.take(n));
        lemma_plan_fails_later(paths, n + 1);
    } else {
        assert(paths.take(n) =~= paths);
    }
}

/// A path a workspace operation resolved (made absolute, links
/// followed) must stay under the workspace `root`.
pub fn ensure_inside_root(resolved: &str, root: &str) -> (r: Result<(), MoonError>)
    ensures
        match r {
            Ok(()) => utf8_strip_prefix(resolved@, root@) is Some,
            Err(e) => utf8_strip_prefix(resolved@, root@) is None && (e matches MoonError::PermissionDenied(m)
                && m@ == "path "@ + resolved@ + " escapes workspace root"@),
        },
{
    match strip_path_prefix(resolved, root) {
        Some(_) => Ok(()),
        None => {
            let mut m = chars_of("path ");
            push_str_chars(&mut m, resolved);
            push_str_chars(&mut m, " escapes workspace root");
            Err(MoonError::PermissionDenied(string_from_chars(m.as_slice())))
        },
    }
}

/// The workspace root itself may not be deleted.
pub fn check_delete_target(resolved: &str, root: &str) -> (r: Result<(), MoonError>)
    ensures
        match r {
            Ok(()) => !utf8_path_eq(resolved@, root@),
            Err(e) => utf8_path_eq(resolved@, root@) && (e matches MoonError::InvalidArgument(m)
                && m@ == "refusing to delete the workspace root"@),
        },
{
    if paths_equal(resolved, root) {
        return Err(MoonError::InvalidArgument("refusing to delete the workspace root".to_owned()));
    }
    Ok(())
}

/// The workspace root itself may not be renamed.
pub fn check_rename_source(resolved: &str, root: &str) -> (r: Result<(), MoonError>)
    ensures
        match r {
            Ok(()) => !utf8_path_eq(resolved@, root@),
            Err(e) => utf8_path_eq(resolved@, root@) && (e matches MoonError::InvalidArgument(m)
                && m@ == "refusing to rename the workspace root"@),
        },
{
    if paths_equal(resolved, root) {
        return Err(MoonError::InvalidArgument("refusing to rename the workspace root".to_owned()));
    }
    Ok(())
}

/// Whether a rename from `from` to `to` (both resolved) has anything
/// to do: renaming onto itself is a no-op, and an existing target is
/// never clobbered.
pub fn rename_needed(from: &str, to: &str, target_exists: bool) -> (r: Result<bool, MoonError>)
    ensures
        match r {
            Ok(b) => (b <==> !utf8_path_eq(to@, from@)) && (b ==> !target_exists),
            Err(e) => !utf8_path_eq(to@, from@) && target_exists && (e matches MoonError::InvalidArgument(m)
                && m@ == "rename target already exists: "@ + to@),
        },
{
    if paths_equal(to, from) {
        return Ok(false);
    }
    if target_exists {
        let mut m = chars_of("rename target already exists: ");
        push_str_chars(&mut m, to);
        return Err(MoonError::InvalidArgument(string_from_chars(m.as_slice())));
    }
    Ok(true)
}

/// The path an operation on `path` works on: `path` itself when
/// absolute, else `path` under the workspace `root`.
pub open spec fn candidate_spec(root: Seq<char>, path: Seq<char>) -> Seq<char> {
    if is_absolute(path) {
        path
    } else {
        utf8_join(root, path)
    }
}

/// See [`candidate_spec`].
pub fn candidate_path(root: &str, path: &str) -> (r: String)
    ensures
        r@ == candidate_spec(root@, path@),
{
    let cs = chars_of(path);
    if cs.len() > 0 && cs[0] == '/' {
        path.to_owned()
    } else {
        join_path(root, path)
    }
}

/// Split the target of a create, write or rename into its directory
/// (resolved before anything is written) and its name; a target with
/// no directory or no name is refused with `no_parent` or `no_name`.
pub fn split_target(candidate: &str, no_parent: &str, no_name: &str) -> (r: Result<(String, String), MoonError>)
    ensures
        match r {
            Ok((dir, name)) => utf8_parent(candidate@) == Some(dir@) && utf8_file_name(candidate@) == Some(name@),
            Err(e) => e matches MoonError::InvalidArgument(m) && if utf8_parent(candidate@) is None {
                m@ == no_parent@
            } else {
                utf8_file_name(candidate@) is None && m@ == no_name@
            },
        },
{
    let dir = match parent_path(candidate) {
        Some(d) => d,
        None => {
            return Err(MoonError::InvalidArgument(no_parent.to_owned()));
        },
    };
    let name = match file_name(candidate) {
        Some(n) => n,
        None => {
            return Err(MoonError::InvalidArgument(no_name.to_owned()));
        },
    };
    Ok((dir, name))
}

/// A file of this name changes how `.editorconfig` settings resolve.
pub open spec fn affects_editorconfig(name: Seq<char>) -> bool {
    name == ".editorconfig"@
}

/// A file of this name may change which lint-staged rules apply.
pub open spec fn affects_lint_staged(name: Seq<char>) -> bool {
    name == ".lintstagedrc.json"@ || name == "package.json"@
}

/// Which config caches a change to a file named `name` invalidates:
/// the editorconfig cache, the lint-staged cache.
pub fn cache_effects(name: &str) -> (r: (bool, bool))
    ensures
        r.0 == affects_editorconfig(name@),
        r.1 == affects_lint_staged(name@),
{
    (str_eq(name, ".editorconfig"), str_eq(name, ".lintstagedrc.json") || str_eq(name, "package.json"))
}

/// The subdirectory a lazy path listing walks: `rel` without trailing
/// `/`; an empty `rel` would walk the whole workspace and is refused.
pub fn collect_under_rel(rel: &str) -> (r: Result<String, MoonError>)
    ensures
        match r {
            Ok(s) => rel@.len() > 0 && s@ == trim_end_char(rel@, '/'),
            Err(e) => rel@.len() == 0 && (e matches MoonError::InvalidArgument(m)
                && m@ == "collect_paths_under requires a non-empty subdirectory"@),
        },
{
    let cs = chars_of(rel);
    if cs.len() == 0 {
        return Err(MoonError::InvalidArgument("collect_paths_under requires a non-empty subdirectory".to_owned()));
    }
    let k = trim_end_char_len(cs.as_slice(), '/');
    assert(cs@.take(k as int) =~= cs@.subrange(0, k as int));
    Ok(crate::text::string_from_range(cs.as_slice(), 0, k))
}

// ---- directory listings ----

/// What a directory entry is.
#[derive(Clone, Copy, Debug, PartialEq, Eq, Structural)]
pub enum EntryKind {
    File,
    Dir,
    Symlink,
    Other,
}

/// The kind of an entry from its file type (a directory first, then a
/// link, then a regular file).
pub fn entry_kind(is_dir: bool, is_symlink: bool, is_file: bool) -> (k: EntryKind)
    ensures
        k == if is_dir {
            EntryKind::Dir
        } else if is_symlink {
            EntryKind::Symlink
        } else if is_file {
            EntryKind::File
        } else {
            EntryKind::Other
        },
{
    if is_dir {
        EntryKind::Dir
    } else if is_symlink {
        EntryKind::Symlink
    } else if is_file {
        EntryKind::File
    } else {
        EntryKind::Other
    }
}

/// One row of a directory listing.
#[derive(Debug)]
pub struct DirEntry {
    pub name: String,
    /// Relative to the workspace root when under it.
    pub path: String,
    pub kind: EntryKind,
    /// The name starts with `.`.
    pub is_hidden: bool,
    /// The size of a regular file.
    pub size: Option<u64>,
    pub mtime_ms: Option<u64>,
}

/// A listing row as values.
pub type EntryView = (Seq<char>, Seq<char>, EntryKind, bool, Option<u64>, Option<u64>);

/// The view of a row.
pub open spec fn entry_view(e: DirEntry) -> EntryView {
    (e.name@, e.path@, e.kind, e.is_hidden, e.size, e.mtime_ms)
}

/// The views of a list of rows.
pub open spec fn entries_view(v: Seq<DirEntry>) -> Seq<EntryView> {
    v.map_values(|e: DirEntry| entry_view(e))
}

/// The row for the entry `name` found at `entry_path` while listing a
/// directory of the workspace `root`: `None` for a `.git` directory,
/// which the tree never shows; its path is made relative to `root`
/// when it lies under it.
pub fn dir_entry(root: &str, name: String, entry_path: &str, kind: EntryKind, size: Option<u64>, mtime_ms: Option<u64>) -> (r: Option<DirEntry>)
    ensures
        match r {
            None => kind == EntryKind::Dir && name@ == ".git"@,
            Some(e) => {
                &&& !(kind == EntryKind::Dir && name@ == ".git"@)
                &&& e.name@ == name@
                &&& e.path@ == match utf8_strip_prefix(entry_path@, root@) {
                    Some(rel) => rel,
                    None => entry_path@,
                }
                &&& e.kind == kind
                &&& e.is_hidden == (name@.len() > 0 && name@[0] == '.')
                &&& e.size == size
                &&& e.mtime_ms == mtime_ms
            },
        },
{
    if kind == EntryKind::Dir && str_eq(name.as_str(), ".git") {
        return None;
    }
    let path = match strip_path_prefix(entry_path, root) {
        Some(rel) => rel,
        None => entry_path.to_owned(),
    };
    let cs = chars_of(name.as_str());
    let is_hidden = cs.len() > 0 && cs[0] == '.';
    Some(DirEntry { name, path, kind, is_hidden, size, mtime_ms })
}

/// `a` sorts no later than `b`, comparing characters by code point
/// (the order `str` comparison gives, UTF-8 preserving code-point
/// order).
pub open spec fn name_le(a: Seq<char>, b: Seq<char>) -> bool
    decreases a.len(),
{
    if a.len() == 0 {
        true
    } else if b.len() == 0 {
        false
    } else if a[0] != b[0] {
        (a[0] as int) < (b[0] as int)
    } else {
        name_le(a.skip(1), b.skip(1))
    }
}

pub(crate) proof fn lemma_name_le_total(a: Seq<char>, b: Seq<char>)
    ensures
        name_le(a, b) || name_le(b, a),
    decreases a.len(),
{
    if a.len() > 0 && b.len() > 0 && a[0] == b[0] {
        lemma_name_le_total(a.skip(1), b.skip(1));
    }
}

pub(crate) proof fn lemma_name_le_trans(a: Seq<char>, b: Seq<char>, c: Seq<char>)
    requires
        name_le(a, b),
        name_le(b, c),
    ensures
        name_le(a, c),
    decreases a.len(),
{
    if a.len() > 0 && b.len() > 0 && c.len() > 0 && a[0] == b[0] && b[0] == c[0] {
        lemma_name_le_trans(a.skip(1), b.skip(1), c.skip(1));
    }
}

pub(crate) fn chars_le(a: &[char], b: &[char]) -> (r: bool)
    ensures
        r == name_le(a@, b@),
{
    let mut i: usize = 0;
    assert(a@.skip(0) =~= a@);
    assert(b@.skip(0) =~= b@);
    while i < a.len() && i < b.len() && a[i] == b[i]
        invariant
            i <= a.len(),
            i <= b.len(),
            name_le(a@, b@) == name_le(a@.skip(i as int), b@.skip(i as int)),
        decreases a.len() - i,
    {
        assert(a@.skip(i as int).skip(1) =~= a@.skip(i + 1));
        assert(b@.skip(i as int).skip(1) =~= b@.skip(i + 1));
        i = i + 1;
    }
    if i == a.len() {
        return true;
    }
    if i == b.len() {
        return false;
    }
    let x = a[i];
    let y = b[i];
    assert(a@.skip(i as int)[0] == x);
    assert(b@.skip(i as int)[0] == y);
    x < y
}

/// Row `x` is listed no later than row `y`: directories first, then by
/// name.
pub open spec fn entry_le(x: EntryView, y: EntryView) -> bool {
    ||| (x.2 == EntryKind::Dir && y.2 != EntryKind::Dir)
    ||| ((x.2 == EntryKind::Dir) == (y.2 == EntryKind::Dir) && name_le(x.0, y.0))
}

/// The rows are in listing order.
pub open spec fn listing_ordered(s: Seq<EntryView>) -> bool {
    forall|i: int, j: int| 0 <= i < j < s.len() ==> entry_le(#[trigger] s[i], #[trigger] s[j])
}

proof fn lemma_entry_le_total(x: EntryView, y: EntryView)
    ensures
        entry_le(x, y) || entry_le(y, x),
{
    lemma_name_le_total(x.0, y.0);
}

proof fn lemma_entry_le_trans(x: EntryView, y: EntryView, z: EntryView)
    requires
        entry_le(x, y),
        entry_le(y, z),
    ensures
        entry_le(x, z),
{
    if (x.2 == EntryKind::Dir) == (y.2 == EntryKind::Dir) && (y.2 == EntryKind::Dir) == (z.2 == EntryKind::Dir) {
        lemma_name_le_trans(x.0, y.0, z.0);
    }
}

fn is_entry_le(x: &DirEntry, y: &DirEntry) -> (r: bool)
    ensures
        r == entry_le(entry_view(*x), entry_view(*y)),
{
    let xd = x.kind == EntryKind::Dir;
    let yd = y.kind == EntryKind::Dir;
    if xd && !yd {
        return true;
    }
    if xd != yd {
        return false;
    }
    let a = chars_of(x.name.as_str());
    let b = chars_of(y.name.as_str());
    chars_le(a.as_slice(), b.as_slice())
}

/// Put the rows of a directory in listing order: directories first,
/// each group by name.
pub fn sort_dir_entries(entries: Vec<DirEntry>) -> (out: Vec<DirEntry>)
    ensures
        listing_ordered(entries_view(out@)),
        entries_view(out@).to_multiset() == entries_view(entries@).to_multiset(),
{
    broadcast use vstd::seq_lib::group_to_multiset_ensures, vstd::multiset::group_multiset_axioms, vstd::multiset::group_multiset_properties;
    let ghost all = entries_view(entries@).to_multiset();
    let mut out: Vec<DirEntry> = Vec::new();
    let mut rest = entries;
    assert(entries_view(out@).to_multiset() =~= Multiset::empty());
    while rest.len() > 0
        invariant
            listing_ordered(entries_view(out@)),
            entries_view(out@).to_multiset().add(entries_view(rest@).to_multiset()) == all,
        decreases rest.len(),
    {
        let ghost old_rest = rest@;
        let x = match rest.pop() {
            Some(x) => x,
            None => {
                return out;
            },
        };
        assert(old_rest =~= rest@.push(x));
        assert(entries_view(old_rest) =~= entries_view(rest@).push(entry_view(x)));
        let mut p: usize = 0;
        while p < out.len() && is_entry_le(&out[p], &x)
            invariant
                p <= out.len(),
                forall|k: int| 0 <= k < p ==> entry_le(#[trigger] entries_view(out@)[k], entry_view(x)),
            decreases out.len() - p,
        {
            assert(entries_view(out@)[p as int] == entry_view(out@[p as int]));
            p = p + 1;
        }
        let ghost old_out = entries_view(out@);
        let ghost vx = entry_view(x);
        proof {
            if p < old_out.len() {
                assert(old_out[p as int] == entry_view(out@[p as int]));
                lemma_entry_le_total(old_out[p as int], vx);
            }
        }
        out.insert(p, x);
        assert(entries_view(out@) =~= old_out.insert(p as int, vx));
        proof {
            let s = entries_view(out@);
            assert forall|i: int, j: int| 0 <= i < j < s.len() implies entry_le(#[trigger] s[i], #[trigger] s[j]) by {
                if i < p && j < p {
                    assert(s[i] == old_out[i] && s[j] == old_out[j]);
                } else if i < p && j == p {
                    assert(s[i] == old_out[i]);
                } else if i < p {
                    assert(s[i] == old_out[i] && s[j] == old_out[j - 1]);
                    assert(entry_le(old_out[i], vx));
                    if i < j - 1 {
                        assert(entry_le(old_out[i], old_out[j - 1]));
                    }
                } else if i == p {
                    assert(s[j] == old_out[j - 1]);
                    if j - 1 > p {
                        assert(entry_le(old_out[p as int], old_out[j - 1]));
                        lemma_entry_le_trans(vx, old_out[p as int], old_out[j - 1]);
                    }
                } else {
                    assert(s[i] == old_out[i - 1] && s[j] == old_out[j - 1]);
                }
            }
        }
        proof {
            vstd::seq_lib::to_multiset_insert(old_out, p as int, vx);
            vstd::seq_lib::to_multiset_build(entries_view(rest@), vx);
        }
        assert(entries_view(out@).to_multiset() == old_out.to_multiset().insert(vx));
        assert(entries_view(old_rest).to_multiset() == entries_view(rest@).to_multiset().insert(vx));
        assert(entries_view(out@).to_multiset().add(entries_view(rest@).to_multiset()) =~= old_out.to_multiset().add(
            entries_view(old_rest).to_multiset(),
        ));
    }
    assert(entries_view(rest@) =~= seq![]);
    assert(entries_view(rest@).to_multiset() =~= Multiset::empty());
    assert(entries_view(out@).to_multiset() =~= entries_view(out@).to_multiset().add(Multiset::empty()));
    out
}

// ---- the path walk ----

/// What the workspace walk does with one directory entry.
#[derive(Debug, PartialEq, Eq)]
pub enum WalkEntry {
    /// Not listed: `.git`, or neither a directory, a file nor a link.
    Ignore,
    /// A file or link, listed at this path.
    Path(String),
    /// A directory git collapses as ignored: listed (with a trailing
    /// `/`), its contents not walked.
    Collapsed(String),
    /// A directory listed with a trailing `/` and walked one level
    /// deeper at `rel` (no trailing `/`).
    Descend { listed: String, rel: String },
    /// A directory listed at the depth cap; it is marked for lazy
    /// loading when it holds anything.
    Frontier(String),
}

/// The path of `name` inside the walked directory `rel` (the root when
/// `rel` is empty).
pub open spec fn child_rel(rel: Seq<char>, name: Seq<char>) -> Seq<char> {
    if rel.len() == 0 {
        name
    } else {
        rel + "/"@ + name
    }
}

/// The decision for the entry `name` of the directory `rel`, walked at
/// `depth` of at most `max_depth`, given whether git collapses it.
pub open spec fn walk_entry_spec(rel: Seq<char>, name: Seq<char>, is_dir: bool, is_file_or_link: bool, collapsed: bool, depth: u32, max_depth: u32) -> (WalkEntryView) {
    let c = child_rel(rel, name);
    if is_dir {
        if name == ".git"@ {
            WalkEntryView::Ignore
        } else if collapsed {
            WalkEntryView::Collapsed(c + "/"@)
        } else if depth < max_depth {
            WalkEntryView::Descend(c + "/"@, c)
        } else {
            WalkEntryView::Frontier(c + "/"@)
        }
    } else if is_file_or_link {
        WalkEntryView::Path(c)
    } else {
        WalkEntryView::Ignore
    }
}

/// A walk decision as values.
pub ghost enum WalkEntryView {
    Ignore,
    Path(Seq<char>),
    Collapsed(Seq<char>),
    Descend(Seq<char>, Seq<char>),
    Frontier(Seq<char>),
}

/// The view of a walk decision.
pub open spec fn walk_view(w: WalkEntry) -> WalkEntryView {
    match w {
        WalkEntry::Ignore => WalkEntryView::Ignore,
        WalkEntry::Path(p) => WalkEntryView::Path(p@),
        WalkEntry::Collapsed(p) => WalkEntryView::Collapsed(p@),
        WalkEntry::Descend { listed, rel } => WalkEntryView::Descend(listed@, rel@),
        WalkEntry::Frontier(p) => WalkEntryView::Frontier(p@),
    }
}

/// Whether the directory path `dir_rel` (with its trailing `/`) is one
/// git collapses as ignored.
pub fn is_collapsed(dir_rel: &str, collapsed: &[String]) -> (r: bool)
    ensures
        r == collapsed.deep_view().contains(dir_rel@),
{
    let mut i: usize = 0;
    while i < collapsed.len()
        invariant
            i <= collapsed.len(),
            forall|j: int| 0 <= j < i ==> collapsed.deep_view()[j] != dir_rel@,
        decreases collapsed.len() - i,
    {
        if str_eq(collapsed[i].as_str(), dir_rel) {
            assert(collapsed.deep_view()[i as int] == dir_rel@);
            return true;
        }
        i = i + 1;
    }
    false
}

/// Decide what the walk does with the entry `name` of the directory
/// `rel`: `.git` is never listed; a directory git collapses is listed
/// but not entered; another is entered below the depth cap and marked
/// as a lazy frontier at it; files and links are listed.
pub fn walk_entry(rel: &str, name: &str, is_dir: bool, is_file_or_link: bool, collapsed: &[String], depth: u32, max_depth: u32) -> (r: WalkEntry)
    ensures
        walk_view(r) == walk_entry_spec(
            rel@,
            name@,
            is_dir,
            is_file_or_link,
            collapsed.deep_view().contains(child_rel(rel@, name@) + "/"@),
            depth,
            max_depth,
        ),
{
    let mut c = chars_of(rel);
    if c.len() > 0 {
        push_str_chars(&mut c, "/");
    }
    push_str_chars(&mut c, name);
    proof {
        if rel@.len() == 0 {
            assert(c@ =~= child_rel(rel@, name@));
        } else {
            assert(c@ =~= child_rel(rel@, name@));
        }
    }
    let child = string_from_chars(c.as_slice());
    if is_dir {
        if str_eq(name, ".git") {
            return WalkEntry::Ignore;
        }
        let mut d = c.clone();
        push_str_chars(&mut d, "/");
        let listed = string_from_chars(d.as_slice());
        if is_collapsed(listed.as_str(), collapsed) {
            return WalkEntry::Collapsed(listed);
        }
        if depth < max_depth {
            WalkEntry::Descend { listed, rel: child }
        } else {
            WalkEntry::Frontier(listed)
        }
    } else if is_file_or_link {
        WalkEntry::Path(child)
    } else {
        WalkEntry::Ignore
    }
}

// ---- git reads of one file ----

/// The path a per-file git read (`git_blame`, `git_ref_content`) is
/// asked for, checked: `Ok(None)` for an empty path (nothing to read);
/// else trimmed of trailing `/`, and refused when absolute or
/// escaping.
pub open spec fn git_path_spec(op: Seq<char>, path: Seq<char>) -> Result<Option<Seq<char>>, Seq<char>> {
    if path.len() == 0 {
        Ok(None)
    } else {
        let t = trim_end_char(path, '/');
        if is_absolute(t) {
            Err(op + " rejects absolute path: "@ + t)
        } else if escapes(t) {
            Err(op + " rejects path escape: "@ + t)
        } else {
            Ok(Some(t))
        }
    }
}

/// See [`git_path_spec`]; `op` names the operation in the error.
pub fn git_file_path(op: &str, path: &str) -> (r: Result<Option<String>, MoonError>)
    ensures
        match r {
            Ok(o) => git_path_spec(op@, path@) == Ok::<Option<Seq<char>>, Seq<char>>(
                match o {
                    Some(t) => Some(t@),
                    None => None,
                },
            ),
            Err(e) => e matches MoonError::InvalidArgument(m) && git_path_spec(op@, path@) == Err::<
                Option<Seq<char>>,
                Seq<char>,
            >(m@),
        },
{
    let cs = chars_of(path);
    if cs.len() == 0 {
        return Ok(None);
    }
    let k = trim_end_char_len(cs.as_slice(), '/');
    let t = &cs.as_slice()[0..k];
    assert(t@ =~= cs@.take(k as int));
    if k > 0 && t[0] == '/' {
        let mut m = chars_of(op);
        push_str_chars(&mut m, " rejects absolute path: ");
        crate::text::push_chars(&mut m, t);
        return Err(MoonError::InvalidArgument(string_from_chars(m.as_slice())));
    }
    if path_escapes(t) {
        let mut m = chars_of(op);
        push_str_chars(&mut m, " rejects path escape: ");
        crate::text::push_chars(&mut m, t);
        return Err(MoonError::InvalidArgument(string_from_chars(m.as_slice())));
    }
    Ok(Some(string_from_chars(t)))
}

/// What `format!("{:?}", s)` gives for the text `s` (quoted, with
/// Rust's debug escapes).
pub uninterp spec fn debug_quoted(s: Seq<char>) -> Seq<char>;

/// `format!("{:?}", s)`: `s` as a quoted, escaped Rust string literal.
/// Its result is named, not stated.
#[verifier::external_body]
pub(crate) fn debug_text(s: &str) -> (r: String)
    ensures
        r@ == debug_quoted(s@),
{
    format!("{:?}", s)
}

/// The `git show` argument for the committed blob of `rel` at `rev`:
/// `<rev>:<rel>`, the path with forward slashes; a `rev` other than
/// `HEAD` or a full hex SHA is refused before git sees it.
pub fn ref_content_spec(rev: &str, rel: &str) -> (r: Result<String, MoonError>)
    ensures
        match r {
            Ok(spec) => crate::git::safe_rev(rev@) && spec@ == rev@ + ":"@ + crate::text::forward_slashes(rel@),
            Err(e) => !crate::git::safe_rev(rev@) && (e matches MoonError::InvalidArgument(m) && m@
                == "git_ref_content rejects rev: "@ + debug_quoted(rev@) + " (expected \"HEAD\" or 40-char hex SHA)"@),
        },
{
    if !crate::git::is_safe_rev(rev) {
        let mut m = chars_of("git_ref_content rejects rev: ");
        let q = debug_text(rev);
        push_str_chars(&mut m, q.as_str());
        push_str_chars(&mut m, " (expected \"HEAD\" or 40-char hex SHA)");
        return Err(MoonError::InvalidArgument(string_from_chars(m.as_slice())));
    }
    let mut v = chars_of(rev);
    push_str_chars(&mut v, ":");
    let f = crate::text::to_forward_slashes(rel);
    push_str_chars(&mut v, f.as_str());
    Ok(string_from_chars(v.as_slice()))
}

/// The `git show` argument for `git_ref_content(rev, path)`: the rev is
/// checked first, then the path; an empty path asks for nothing.
pub fn ref_content_plan(rev: &str, path: &str) -> (r: Result<Option<String>, MoonError>)
    ensures
        !crate::git::safe_rev(rev@) ==> (r matches Err(MoonError::InvalidArgument(m)) && m@
            == "git_ref_content rejects rev: "@ + debug_quoted(rev@) + " (expected \"HEAD\" or 40-char hex SHA)"@),
        crate::git::safe_rev(rev@) ==> match git_path_spec("git_ref_content"@, path@) {
            Err(m) => r matches Err(MoonError::InvalidArgument(e)) && e@ == m,
            Ok(None) => r matches Ok(None),
            Ok(Some(rel)) => r matches Ok(Some(spec)) && spec@ == rev@ + ":"@ + crate::text::forward_slashes(rel),
        },
{
    if !crate::git::is_safe_rev(rev) {
        return match ref_content_spec(rev, "") {
            Ok(_) => Err(MoonError::Internal(String::new())),
            Err(e) => Err(e),
        };
    }
    match git_file_path("git_ref_content", path) {
        Err(e) => Err(e),
        Ok(None) => Ok(None),
        Ok(Some(rel)) => match ref_content_spec(rev, rel.as_str()) {
            Ok(spec) => Ok(Some(spec)),
            Err(e) => Err(e),
        },
    }
}

/// What `String::from_utf8` reports for bytes that are not UTF-8
/// (its error's `Display`).
pub uninterp spec fn utf8_error_text(bytes: Seq<u8>) -> Seq<char>;

/// `String::from_utf8`: the text of valid UTF-8 bytes, else the text of
/// the error. Success and the text are stated; the error's text is
/// named.
#[verifier::external_body]
fn string_from_utf8(bytes: Vec<u8>) -> (r: Result<String, String>)
    ensures
        match r {
            Ok(s) => vstd::utf8::valid_utf8(bytes@) && s@ == vstd::utf8::decode_utf8(bytes@),
            Err(e) => !vstd::utf8::valid_utf8(bytes@) && e@ == utf8_error_text(bytes@),
        },
{
    String::from_utf8(bytes).map_err(|e| e.to_string())
}

/// The text `git show <rev>:<path>` gave: none when it failed (outside
/// a repo, or a file not in `rev`) or the blob is binary; an error when
/// it is not UTF-8.
pub fn ref_content_result(success: bool, stdout: Vec<u8>) -> (r: Result<Option<String>, MoonError>)
    ensures
        match r {
            Ok(None) => !success || crate::patch::is_binary(stdout@),
            Ok(Some(s)) => success && !crate::patch::is_binary(stdout@) && vstd::utf8::valid_utf8(stdout@)
                && s@ == vstd::utf8::decode_utf8(stdout@),
            Err(e) => success && !crate::patch::is_binary(stdout@) && !vstd::utf8::valid_utf8(stdout@) && (e matches MoonError::IoError(m)
                && m@ == "git show <rev>:<path> produced non-UTF-8 text: "@ + utf8_error_text(stdout@)),
        },
{
    if !success {
        return Ok(None);
    }
    if crate::patch::looks_binary(stdout.as_slice()) {
        return Ok(None);
    }
    match string_from_utf8(stdout) {
        Ok(s) => Ok(Some(s)),
        Err(e) => {
            let mut m = chars_of("git show <rev>:<path> produced non-UTF-8 text: ");
            push_str_chars(&mut m, e.as_str());
            Err(MoonError::IoError(string_from_chars(m.as_slice())))
        },
    }
}

/// Every path a restore hands to git is a non-empty relative path that
/// never climbs above the workspace root.
pub proof fn law_restore_paths_stay_inside(paths: Seq<Seq<char>>)
    ensures
        restore_plan(paths) matches Ok(rels) ==> forall|i: int|
            0 <= i < rels.len() ==> #[trigger] rels[i].len() > 0 && !is_absolute(rels[i]) && !escapes(rels[i]),
    decreases paths.len(),
{
    if paths.len() > 0 {
        law_restore_paths_stay_inside(paths.drop_last());
        match restore_plan(paths.drop_last()) {
            Ok(prev) => match restore_step(paths.last()) {
                Ok(Some(t)) => {
                    assert forall|i: int| 0 <= i < prev.push(t).len() implies #[trigger] prev.push(t)[i].len() > 0
                        && !is_absolute(prev.push(t)[i]) && !escapes(prev.push(t)[i]) by {
                        if i < prev.len() {
                            assert(prev.push(t)[i] == prev[i]);
                        }
                    }
                },
                _ => {},
            },
            Err(_) => {},
        }
    }
}

} // verus!
