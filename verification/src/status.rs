//! Git's machine-readable status outputs (`git status --porcelain=v1
//! -z` and `git diff --name-status -z`) read into per-file statuses.
use vstd::prelude::*;
use vstd::utf8::{decode_utf8, valid_utf8};
use crate::text::{forward_slashes, to_forward_slashes, utf8_str};

verus! {

/// The status of one file as the tree shows it.
#[derive(Debug, Clone, Copy, PartialEq, Eq, Structural)]
pub enum GitFileStatus {
    Added,
    Deleted,
    Modified,
    Untracked,
    Ignored,
}

/// One file and its status.
#[derive(Debug, Clone)]
pub struct GitStatusEntry {
    pub path: String,
    pub status: GitFileStatus,
}

/// The views of a list of entries.
pub open spec fn entries_view(v: Seq<GitStatusEntry>) -> Seq<(Seq<char>, GitFileStatus)> {
    v.map_values(|e: GitStatusEntry| (e.path@, e.status))
}

/// Index of the first zero byte of `s`.
pub open spec fn zero_index(s: Seq<u8>) -> Option<int>
    decreases s.len(),
{
    if s.len() == 0 {
        None
    } else if s[0] == 0 {
        Some(0)
    } else {
        match zero_index(s.skip(1)) {
            Some(i) => Some(i + 1),
            None => None,
        }
    }
}

proof fn lemma_zero_index_bound(s: Seq<u8>)
    ensures
        zero_index(s) matches Some(i) ==> 0 <= i < s.len() && s[i] == 0 && forall|j: int| 0 <= j < i ==> s[j] != 0,
        zero_index(s) is None ==> forall|j: int| 0 <= j < s.len() ==> s[j] != 0,
    decreases s.len(),
{
    if s.len() > 0 {
        lemma_zero_index_bound(s.skip(1));
        assert forall|j: int| 1 <= j < s.len() implies s.skip(1)[j - 1] == s[j] by {}
    }
}

/// Position of the first zero byte of `buf[from..]`, relative to `from`.
fn find_zero(buf: &[u8], from: usize) -> (r: Option<usize>)
    requires
        from <= buf.len(),
    ensures
        match r {
            Some(i) => zero_index(buf@.skip(from as int)) == Some(i as int) && from + i < buf.len(),
            None => zero_index(buf@.skip(from as int)) is None,
        },
{
    let mut i = from;
    while i < buf.len()
        invariant
            from <= i <= buf.len(),
            forall|j: int| from <= j < i ==> buf@[j] != 0,
        decreases buf.len() - i,
    {
        if buf[i] == 0 {
            proof {
                lemma_zero_index_bound(buf@.skip(from as int));
                let s = buf@.skip(from as int);
                match zero_index(s) {
                    Some(k) => {
                        assert(s[i - from] == 0);
                        assert(k == i - from) by {
                            if k < i - from {
                                assert(buf@[from + k] != 0);
                            }
                        }
                    },
                    None => {
                        assert(s[i - from] == 0);
                    },
                }
            }
            return Some(i - from);
        }
        i = i + 1;
    }
    proof {
        lemma_zero_index_bound(buf@.skip(from as int));
        let s = buf@.skip(from as int);
        if zero_index(s) is Some {
            let k = zero_index(s)->0;
            assert(buf@[from + k] == 0);
        }
    }
    None
}

/// The status a `--name-status` letter stands for: `A`dded, `D`eleted,
/// `M`odified, and a `T`ype change folded into modified.
pub open spec fn name_status(b: u8) -> Option<GitFileStatus> {
    if b == 65 {
        Some(GitFileStatus::Added)
    } else if b == 68 {
        Some(GitFileStatus::Deleted)
    } else if b == 77 || b == 84 {
        Some(GitFileStatus::Modified)
    } else {
        None
    }
}

/// The records of `git diff --name-status -z --no-renames` output: each
/// is `<status>\0<path>\0`. Parsing stops at an empty status field or a
/// field without its terminating zero; records whose path is not UTF-8
/// or whose status is none of `A D M T` are skipped.
pub open spec fn name_status_records(buf: Seq<u8>) -> Seq<(Seq<char>, GitFileStatus)>
    decreases buf.len(),
{
    if buf.len() == 0 {
        seq![]
    } else {
        match zero_index(buf) {
            None => seq![],
            Some(se) => if se <= 0 || se >= buf.len() {
                seq![]
            } else {
                let rest = buf.skip(se + 1);
                match zero_index(rest) {
                    None => seq![],
                    Some(pe) => if pe < 0 || pe >= rest.len() {
                        seq![]
                    } else {
                        let raw = rest.take(pe);
                        let tail = name_status_records(rest.skip(pe + 1));
                        if !valid_utf8(raw) {
                            tail
                        } else {
                            match name_status(buf[0]) {
                                Some(st) => seq![(decode_utf8(raw), st)] + tail,
                                None => tail,
                            }
                        }
                    },
                }
            },
        }
    }
}

/// Parse `git diff --name-status -z --no-renames` output.
pub fn parse_diff_name_status_z(buf: &[u8]) -> (out: Vec<GitStatusEntry>)
    ensures
        entries_view(out@) == name_status_records(buf@),
{
    let mut out: Vec<GitStatusEntry> = Vec::new();
    let mut cursor: usize = 0;
    assert(buf@.skip(0) =~= buf@);
    while cursor < buf.len()
        invariant_except_break
            cursor <= buf.len(),
            entries_view(out@) + name_status_records(buf@.skip(cursor as int)) == name_status_records(buf@),
        ensures
            entries_view(out@) == name_status_records(buf@),
        decreases buf.len() - cursor,
    {
        let ghost s = buf@.skip(cursor as int);
        let status_end = match find_zero(buf, cursor) {
            Some(e) => e,
            None => {
                assert(name_status_records(s) =~= seq![]);
                assert(entries_view(out@) =~= entries_view(out@) + seq![]);
                break;
            },
        };
        if status_end == 0 {
            assert(name_status_records(s) =~= seq![]);
            assert(entries_view(out@) =~= entries_view(out@) + seq![]);
            break;
        }
        let status_byte = buf[cursor];
        let path_from = cursor + status_end + 1;
        assert(s.skip(status_end + 1) =~= buf@.skip(path_from as int));
        let path_end = match find_zero(buf, path_from) {
            Some(e) => e,
            None => {
                assert(name_status_records(s) =~= seq![]);
                assert(entries_view(out@) =~= entries_view(out@) + seq![]);
                break;
            },
        };
        let raw = &buf[path_from..path_from + path_end];
        let ghost rest = buf@.skip(path_from as int);
        assert(raw@ =~= rest.take(path_end as int));
        let next = path_from + path_end + 1;
        assert(rest.skip(path_end + 1) =~= buf@.skip(next as int));
        let ghost tail = name_status_records(buf@.skip(next as int));
        let ghost before = entries_view(out@);
        match utf8_str(raw) {
            None => {},
            Some(path) => {
                let st = if status_byte == 65 {
                    Some(GitFileStatus::Added)
                } else if status_byte == 68 {
                    Some(GitFileStatus::Deleted)
                } else if status_byte == 77 || status_byte == 84 {
                    Some(GitFileStatus::Modified)
                } else {
                    None
                };
                match st {
                    Some(status) => {
                        let e = GitStatusEntry { path: path.to_owned(), status };
                        out.push(e);
                        assert(entries_view(out@) =~= before.push((e.path@, status)));
                    },
                    None => {},
                }
            },
        }
        assert(buf@[cursor as int] == s[0]);
        assert(entries_view(out@) + tail =~= before + name_status_records(s));
        cursor = next;
    }
    out
}

/// The status of a porcelain `XY` pair: a deletion on either side wins,
/// then an addition, then a modification or type change; `??` is
/// untracked and `!!` ignored; anything else is not shown.
pub open spec fn porcelain_status(x: char, y: char) -> Option<GitFileStatus> {
    if x == 'D' || y == 'D' {
        Some(GitFileStatus::Deleted)
    } else if x == 'A' || y == 'A' {
        Some(GitFileStatus::Added)
    } else if x == 'M' || y == 'M' || x == 'T' || y == 'T' {
        Some(GitFileStatus::Modified)
    } else if x == '?' && y == '?' {
        Some(GitFileStatus::Untracked)
    } else if x == '!' && y == '!' {
        Some(GitFileStatus::Ignored)
    } else {
        None
    }
}

/// Map a porcelain `XY` pair to the status the tree shows.
pub fn map_porcelain_status(x: char, y: char) -> (r: Option<GitFileStatus>)
    ensures
        r == porcelain_status(x, y),
        (x == 'D' || y == 'D') ==> r == Some(GitFileStatus::Deleted),
        (x != 'D' && y != 'D' && (x == 'A' || y == 'A')) ==> r == Some(GitFileStatus::Added),
        (x != 'D' && y != 'D' && x != 'A' && y != 'A' && (x == 'M' || y == 'M' || x == 'T' || y
            == 'T')) ==> r == Some(GitFileStatus::Modified),
{
    if x == 'D' || y == 'D' {
        return Some(GitFileStatus::Deleted);
    }
    if x == 'A' || y == 'A' {
        return Some(GitFileStatus::Added);
    }
    if x == 'M' || y == 'M' || x == 'T' || y == 'T' {
        return Some(GitFileStatus::Modified);
    }
    if x == '?' && y == '?' {
        return Some(GitFileStatus::Untracked);
    }
    if x == '!' && y == '!' {
        return Some(GitFileStatus::Ignored);
    }
    None
}

/// Precedence of the porcelain pair: a deletion on either side wins over
/// everything; otherwise an addition on either side wins over a
/// modification or type change (a file staged as new and then edited, `AM`,
/// is still new); otherwise a modification or type change on either side
/// shows as modified.
pub proof fn law_porcelain_precedence(x: char, y: char)
    ensures
        (x == 'D' || y == 'D') ==> porcelain_status(x, y) == Some(GitFileStatus::Deleted),
        (x != 'D' && y != 'D' && (x == 'A' || y == 'A')) ==> porcelain_status(x, y) == Some(
            GitFileStatus::Added,
        ),
        (x != 'D' && y != 'D' && x != 'A' && y != 'A' && (x == 'M' || y == 'M' || x == 'T' || y
            == 'T')) ==> porcelain_status(x, y) == Some(GitFileStatus::Modified),
        porcelain_status('A', 'M') == Some(GitFileStatus::Added),
        porcelain_status('M', 'A') == Some(GitFileStatus::Added),
        porcelain_status('A', 'D') == Some(GitFileStatus::Deleted),
{
}

/// The records of `git status --porcelain=v1 -z` output: each is `XY`,
/// a space, then a path ended by a zero byte (or by the end of the
/// output). Fewer than three bytes left ends the parse; records whose
/// path is empty or not UTF-8, or whose `XY` shows nothing, are
/// skipped; `\\` in paths becomes `/`.
pub open spec fn porcelain_records(buf: Seq<u8>) -> Seq<(Seq<char>, GitFileStatus)>
    decreases buf.len(),
{
    if buf.len() < 3 {
        seq![]
    } else {
        let after = buf.skip(3);
        let k = match zero_index(after) {
            Some(k) => if 0 <= k < after.len() { k } else { after.len() as int },
            None => after.len() as int,
        };
        let raw = after.take(k);
        let next = if k < after.len() { after.skip(k + 1) } else { seq![] };
        let tail = porcelain_records(next);
        if !valid_utf8(raw) || decode_utf8(raw).len() == 0 {
            tail
        } else {
            match porcelain_status(buf[0] as char, buf[1] as char) {
                Some(st) => seq![(forward_slashes(decode_utf8(raw)), st)] + tail,
                None => tail,
            }
        }
    }
}

/// Parse `git status --porcelain=v1 -z` output.
pub fn parse_porcelain_v1(buf: &[u8]) -> (out: Vec<GitStatusEntry>)
    ensures
        entries_view(out@) == porcelain_records(buf@),
{
    let mut out: Vec<GitStatusEntry> = Vec::new();
    let mut cursor: usize = 0;
    assert(buf@.skip(0) =~= buf@);
    while cursor < buf.len()
        invariant_except_break
            cursor <= buf.len(),
            entries_view(out@) + porcelain_records(buf@.skip(cursor as int)) == porcelain_records(buf@),
        ensures
            entries_view(out@) == porcelain_records(buf@),
        decreases buf.len() - cursor,
    {
        let ghost s = buf@.skip(cursor as int);
        if buf.len() - cursor < 3 {
            assert(porcelain_records(s) =~= seq![]);
            assert(entries_view(out@) =~= entries_view(out@) + seq![]);
            break;
        }
        let x = buf[cursor] as char;
        let y = buf[cursor + 1] as char;
        let path_start = cursor + 3;
        let ghost after = buf@.skip(path_start as int);
        assert(s.skip(3) =~= after);
        let (path_end, next) = match find_zero(buf, path_start) {
            Some(k) => {
                assert(zero_index(after) == Some(k as int));
                (path_start + k, path_start + k + 1)
            },
            None => {
                assert(zero_index(after) is None);
                (buf.len(), buf.len())
            },
        };
        let raw = &buf[path_start..path_end];
        assert(raw@ =~= after.take(path_end - path_start));
        proof {
            if next < buf.len() || path_end < buf.len() {
                assert(after.skip(path_end - path_start + 1) =~= buf@.skip(next as int));
            } else {
                assert(buf@.skip(next as int) =~= seq![]);
            }
        }
        let ghost tail = porcelain_records(buf@.skip(next as int));
        let ghost before = entries_view(out@);
        match utf8_str(raw) {
            None => {},
            Some(path) => {
                let path_chars = crate::text::chars_of(path);
                if path_chars.len() > 0 {
                    match map_porcelain_status(x, y) {
                        Some(status) => {
                            let e = GitStatusEntry { path: to_forward_slashes(path), status };
                            out.push(e);
                            assert(entries_view(out@) =~= before.push((e.path@, status)));
                        },
                        None => {},
                    }
                }
            },
        }
        assert(buf@[cursor as int] == s[0] && buf@[cursor + 1] == s[1]);
        assert(entries_view(out@) + tail =~= before + porcelain_records(s));
        cursor = next;
    }
    out
}

/// The ignored directories `git status --porcelain=v1 -z
/// --ignored=matching` reports: its `!!` records whose UTF-8 path ends
/// in `/` (an ignored directory collapsed to one record), `\\` turned
/// into `/`. The records are read as `porcelain_records` reads them.
pub open spec fn ignored_dir_records(buf: Seq<u8>) -> Seq<Seq<char>>
    decreases buf.len(),
{
    if buf.len() < 3 {
        seq![]
    } else {
        let after = buf.skip(3);
        let k = match zero_index(after) {
            Some(k) => if 0 <= k < after.len() { k } else { after.len() as int },
            None => after.len() as int,
        };
        let raw = after.take(k);
        let next = if k < after.len() { after.skip(k + 1) } else { seq![] };
        let tail = ignored_dir_records(next);
        if buf[0] == 33 && buf[1] == 33 && valid_utf8(raw) && decode_utf8(raw).len() > 0
            && decode_utf8(raw).last() == '/' {
            seq![forward_slashes(decode_utf8(raw))] + tail
        } else {
            tail
        }
    }
}

/// The set of ignored directories in `git status --porcelain=v1 -z
/// --ignored=matching` output, each once.
pub fn parse_ignored_dirs(buf: &[u8]) -> (out: Vec<String>)
    ensures
        out.deep_view().to_set() == ignored_dir_records(buf@).to_set(),
        out.deep_view().no_duplicates(),
{
    let mut out: Vec<String> = Vec::new();
    let mut cursor: usize = 0;
    let ghost mut done: Seq<Seq<char>> = seq![];
    assert(buf@.skip(0) =~= buf@);
    assert(out.deep_view().to_set() =~= Set::<Seq<char>>::empty());
    while cursor < buf.len()
        invariant_except_break
            cursor <= buf.len(),
            done + ignored_dir_records(buf@.skip(cursor as int)) == ignored_dir_records(buf@),
            out.deep_view().to_set() == done.to_set(),
            out.deep_view().no_duplicates(),
        ensures
            out.deep_view().to_set() == ignored_dir_records(buf@).to_set(),
            out.deep_view().no_duplicates(),
        decreases buf.len() - cursor,
    {
        let ghost s = buf@.skip(cursor as int);
        if buf.len() - cursor < 3 {
            assert(ignored_dir_records(s) =~= seq![]);
            assert(done =~= done + seq![]);
            break;
        }
        let x = buf[cursor];
        let y = buf[cursor + 1];
        let path_start = cursor + 3;
        let ghost after = buf@.skip(path_start as int);
        assert(s.skip(3) =~= after);
        let (path_end, next) = match find_zero(buf, path_start) {
            Some(k) => {
                assert(zero_index(after) == Some(k as int));
                (path_start + k, path_start + k + 1)
            },
            None => {
                assert(zero_index(after) is None);
                (buf.len(), buf.len())
            },
        };
        let raw = &buf[path_start..path_end];
        assert(raw@ =~= after.take(path_end - path_start));
        proof {
            if next < buf.len() || path_end < buf.len() {
                assert(after.skip(path_end - path_start + 1) =~= buf@.skip(next as int));
            } else {
                assert(buf@.skip(next as int) =~= seq![]);
            }
        }
        let ghost d0 = done;
        assert(buf@[cursor as int] == s[0] && buf@[cursor + 1] == s[1]);
        if x == 33 && y == 33 {
            match utf8_str(raw) {
                None => {},
                Some(path) => {
                    let pc = crate::text::chars_of(path);
                    if pc.len() > 0 && pc[pc.len() - 1] == '/' {
                        let p = to_forward_slashes(path);
                        let ghost pv = p@;
                        proof {
                            done = d0.push(pv);
                        }
                        let mut found = false;
                        let mut i: usize = 0;
                        while i < out.len()
                            invariant
                                i <= out.len(),
                                pv == p@,
                                found == exists|j: int| 0 <= j < i && out.deep_view()[j] == pv,
                            decreases out.len() - i,
                        {
                            assert(out.deep_view()[i as int] == out[i as int]@);
                            if crate::text::str_eq(out[i].as_str(), p.as_str()) {
                                found = true;
                            }
                            i = i + 1;
                        }
                        let ghost o0 = out.deep_view();
                        assert(found == o0.contains(pv));
                        if !found {
                            out.push(p);
                            assert(out.deep_view() =~= o0.push(pv));
                            assert forall|a: int, b: int| 0 <= a < b < out.deep_view().len() implies out.deep_view()[a] != out.deep_view()[b] by {
                                if b == o0.len() {
                                    assert(o0[a] != pv);
                                }
                            }
                            assert(out.deep_view().to_set() =~= o0.to_set().insert(pv)) by {
                                assert forall|z: Seq<char>| out.deep_view().contains(z) <==> (o0.contains(z) || z == pv) by {
                                    if out.deep_view().contains(z) {
                                        let j = choose|j: int| 0 <= j < out.deep_view().len() && out.deep_view()[j] == z;
                                        if j < o0.len() {
                                            assert(o0[j] == z);
                                        }
                                    }
                                    if o0.contains(z) {
                                        let j = choose|j: int| 0 <= j < o0.len() && o0[j] == z;
                                        assert(out.deep_view()[j] == z);
                                    }
                                    if z == pv {
                                        assert(out.deep_view()[o0.len() as int] == z);
                                    }
                                }
                            }
                        } else {
                            assert(o0.contains(pv));
                            assert(out.deep_view().to_set() =~= o0.to_set().insert(pv));
                        }
                        assert(done.to_set() =~= d0.to_set().insert(pv)) by {
                            assert forall|z: Seq<char>| done.contains(z) <==> (d0.contains(z) || z == pv) by {
                                if done.contains(z) {
                                    let j = choose|j: int| 0 <= j < done.len() && done[j] == z;
                                    if j < d0.len() {
                                        assert(d0[j] == z);
                                    }
                                }
                                if d0.contains(z) {
                                    let j = choose|j: int| 0 <= j < d0.len() && d0[j] == z;
                                    assert(done[j] == z);
                                }
                                if z == pv {
                                    assert(done[d0.len() as int] == z);
                                }
                            }
                        }
                    }
                },
            }
        }
        assert(done + ignored_dir_records(buf@.skip(next as int)) =~= d0 + ignored_dir_records(s));
        cursor = next;
    }
    out
}

/// The UTF-8 paths of a NUL-separated listing (`git ls-files -z`), in
/// order; empty records and records that are not UTF-8 are skipped.
pub open spec fn nul_records(buf: Seq<u8>) -> Seq<Seq<char>>
    decreases buf.len(),
{
    if buf.len() == 0 {
        seq![]
    } else {
        let k = match zero_index(buf) {
            Some(k) => if 0 <= k < buf.len() { k } else { buf.len() as int },
            None => buf.len() as int,
        };
        let raw = buf.take(k);
        let next = if k < buf.len() { buf.skip(k + 1) } else { seq![] };
        let tail = nul_records(next);
        if raw.len() > 0 && valid_utf8(raw) {
            seq![decode_utf8(raw)] + tail
        } else {
            tail
        }
    }
}

/// The untracked files `git ls-files --others --exclude-standard -z`
/// lists (see [`nul_records`]).
pub fn untracked_listing(buf: &[u8]) -> (out: Vec<String>)
    ensures
        out.deep_view() == nul_records(buf@),
{
    let mut out: Vec<String> = Vec::new();
    let mut cursor: usize = 0;
    let ghost mut done: Seq<Seq<char>> = seq![];
    assert(buf@.skip(0) =~= buf@);
    assert(out.deep_view() =~= Seq::<Seq<char>>::empty());
    while cursor < buf.len()
        invariant
            cursor <= buf.len(),
            done + nul_records(buf@.skip(cursor as int)) == nul_records(buf@),
            out.deep_view() == done,
        decreases buf.len() - cursor,
    {
        let ghost s = buf@.skip(cursor as int);
        let (end, next) = match find_zero(buf, cursor) {
            Some(k) => {
                proof {
                    lemma_zero_index_bound(s);
                }
                (cursor + k, cursor + k + 1)
            },
            None => (buf.len(), buf.len()),
        };
        let raw = &buf[cursor..end];
        assert(raw@ =~= s.take(end - cursor));
        proof {
            if end < buf.len() {
                assert(s.skip(end - cursor + 1) =~= buf@.skip(next as int));
            } else {
                assert(buf@.skip(next as int) =~= seq![]);
            }
        }
        let ghost d0 = done;
        if raw.len() > 0 {
            match utf8_str(raw) {
                Some(path) => {
                    let p = path.to_owned();
                    out.push(p);
                    proof {
                        done = d0.push(p@);
                        assert(seq![p@] + nul_records(buf@.skip(next as int)) == nul_records(s));
                        assert(d0 + nul_records(s) =~= done + nul_records(buf@.skip(next as int)));
                    }
                    assert(out.deep_view() =~= done);
                },
                None => {},
            }
        }
        cursor = next;
    }
    assert(buf@.skip(cursor as int) =~= seq![]);
    assert(done + nul_records(seq![]) =~= done);
    out
}

} // verus!
