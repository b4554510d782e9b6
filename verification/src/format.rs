//! The formatter step of the pre-save pipeline: how a lint-staged
//! command line becomes a process invocation on the saved file, the
//! `PATH` that lets project-local tools win, and the once-only warning
//! for a missing tool. Spawning the process is the caller's.
use vstd::prelude::*;
use crate::paths::{join_path, parent_path, paths_equal, utf8_join, utf8_parent, utf8_path_eq};
use crate::text::{char_is_whitespace, chars_of, is_whitespace, push_chars, push_str_chars, string_from_chars, string_from_range};

verus! {

/// Number of leading non-whitespace characters of `s`.
pub open spec fn word_len(s: Seq<char>) -> nat
    decreases s.len(),
{
    if s.len() == 0 || is_whitespace(s[0]) {
        0
    } else {
        1 + word_len(s.skip(1))
    }
}

pub proof fn lemma_word_len(s: Seq<char>)
    ensures
        word_len(s) <= s.len(),
        s.len() > 0 && !is_whitespace(s[0]) ==> word_len(s) >= 1,
        forall|j: int| 0 <= j < word_len(s) ==> !is_whitespace(#[trigger] s[j]),
        word_len(s) < s.len() ==> is_whitespace(s[word_len(s) as int]),
    decreases s.len(),
{
    if s.len() > 0 && !is_whitespace(s[0]) {
        lemma_word_len(s.skip(1));
        assert forall|j: int| 0 <= j < word_len(s) implies !is_whitespace(#[trigger] s[j]) by {
            if j > 0 {
                assert(s[j] == s.skip(1)[j - 1]);
            }
        }
        if word_len(s) < s.len() {
            assert(s[word_len(s) as int] == s.skip(1)[word_len(s.skip(1)) as int]);
        }
    }
}

proof fn lemma_word_len_of(s: Seq<char>, k: int)
    requires
        0 <= k <= s.len(),
        k == s.len() || is_whitespace(s[k]),
        forall|j: int| 0 <= j < k ==> !is_whitespace(#[trigger] s[j]),
    ensures
        word_len(s) == k,
    decreases k,
{
    if k > 0 {
        assert forall|j: int| 0 <= j < k - 1 implies !is_whitespace(#[trigger] s.skip(1)[j]) by {
            assert(s.skip(1)[j] == s[j + 1]);
        }
        lemma_word_len_of(s.skip(1), k - 1);
    }
}

/// The whitespace-separated words of `s` (`str::split_whitespace`).
pub open spec fn words(s: Seq<char>) -> Seq<Seq<char>>
    decreases s.len(),
{
    if s.len() == 0 {
        seq![]
    } else if is_whitespace(s[0]) {
        words(s.skip(1))
    } else {
        proof {
            lemma_word_len(s);
        }
        seq![s.take(word_len(s) as int)] + words(s.skip(word_len(s) as int))
    }
}

/// Split a lint-staged command on whitespace (no quoting).
pub fn parse_command(command: &str) -> (out: Vec<String>)
    ensures
        out.deep_view() == words(command@),
{
    let cs = chars_of(command);
    let mut out: Vec<String> = Vec::new();
    let mut i: usize = 0;
    assert(cs@.skip(0) =~= cs@);
    assert(out.deep_view() + words(cs@) =~= words(cs@));
    while i < cs.len()
        invariant
            i <= cs.len(),
            cs@ == command@,
            out.deep_view() + words(cs@.skip(i as int)) == words(cs@),
        decreases cs.len() - i,
    {
        let ghost rest = cs@.skip(i as int);
        if char_is_whitespace(cs[i]) {
            assert(rest.skip(1) =~= cs@.skip(i + 1));
            i = i + 1;
        } else {
            let mut j = i;
            while j < cs.len() && !char_is_whitespace(cs[j])
                invariant
                    i <= j <= cs.len(),
                    forall|k: int| i <= k < j ==> !is_whitespace(#[trigger] cs@[k]),
                decreases cs.len() - j,
            {
                j = j + 1;
            }
            proof {
                assert forall|k: int| 0 <= k < j - i implies !is_whitespace(#[trigger] rest[k]) by {
                    assert(rest[k] == cs@[i + k]);
                }
                lemma_word_len_of(rest, j - i);
            }
            let ghost before = out.deep_view();
            let w = string_from_range(cs.as_slice(), i, j);
            out.push(w);
            assert(w@ =~= rest.take(j - i));
            assert(out.deep_view() =~= before.push(w@));
            assert(rest.skip(j - i) =~= cs@.skip(j as int));
            assert(out.deep_view() + words(cs@.skip(j as int)) =~= before + words(rest));
            i = j;
        }
    }
    assert(cs@.skip(i as int) =~= seq![]);
    assert(out.deep_view() + words(cs@.skip(i as int)) =~= out.deep_view());
    out
}

/// `s` without its leading run of `./` (`str::trim_start_matches("./")`).
pub open spec fn strip_dot_slash(s: Seq<char>) -> Seq<char>
    decreases s.len(),
{
    if s.len() >= 2 && s[0] == '.' && s[1] == '/' {
        strip_dot_slash(s.skip(2))
    } else {
        s
    }
}

/// Index of the last `/` or `\\` of `s`.
pub open spec fn last_separator(s: Seq<char>) -> Option<int>
    decreases s.len(),
{
    if s.len() == 0 {
        None
    } else if s.last() == '/' || s.last() == '\\' {
        Some(s.len() - 1)
    } else {
        last_separator(s.drop_last())
    }
}

/// The tool name of a command's first word: leading `./` dropped, then
/// what follows the last path separator.
pub open spec fn basename_spec(s: Seq<char>) -> Seq<char> {
    let t = strip_dot_slash(s);
    match last_separator(t) {
        Some(i) => t.skip(i + 1),
        None => t,
    }
}

/// The tool name a command's first word names.
pub fn bin_basename(s: &str) -> (r: String)
    ensures
        r@ == basename_spec(s@),
{
    let cs = chars_of(s);
    let mut a: usize = 0;
    assert(cs@.skip(0) =~= cs@);
    while cs.len() - a >= 2 && cs[a] == '.' && cs[a + 1] == '/'
        invariant
            a <= cs.len(),
            strip_dot_slash(cs@) == strip_dot_slash(cs@.skip(a as int)),
        decreases cs.len() - a,
    {
        assert(cs@.skip(a as int).skip(2) =~= cs@.skip(a + 2));
        a = a + 2;
    }
    let ghost t = cs@.skip(a as int);
    assert(strip_dot_slash(t) == t);
    let mut b = cs.len();
    assert(t.take(b - a) =~= t);
    while b > a && cs[b - 1] != '/' && cs[b - 1] != '\\'
        invariant
            a <= b <= cs.len(),
            t == cs@.skip(a as int),
            last_separator(t) == last_separator(t.take(b - a)),
        decreases b,
    {
        assert(t.take(b - a).drop_last() =~= t.take(b - a - 1));
        b = b - 1;
    }
    if b == a {
        assert(t.take(0) =~= seq![]);
        string_from_range(cs.as_slice(), a, cs.len())
    } else {
        assert(t.take(b - a).last() == cs@[b - 1]);
        assert(cs@.subrange(b as int, cs.len() as int) =~= t.skip(b - a));
        string_from_range(cs.as_slice(), b, cs.len())
    }
}

/// How a formatter command runs on a file: the program as written, its
/// tool name (for logs), and its arguments with the file's absolute
/// path appended.
#[derive(Debug)]
pub struct FormatterInvocation {
    pub program: String,
    pub bin_name: String,
    pub args: Vec<String>,
}

/// The invocation of lint-staged `command` on `abs_file_path`; `None`
/// for a command without words.
pub fn formatter_invocation(command: &str, abs_file_path: &str) -> (r: Option<FormatterInvocation>)
    ensures
        match r {
            None => words(command@).len() == 0,
            Some(inv) => {
                &&& words(command@).len() > 0
                &&& inv.program@ == words(command@)[0]
                &&& inv.bin_name@ == basename_spec(words(command@)[0])
                &&& inv.args.deep_view() == words(command@).skip(1).push(abs_file_path@)
            },
        },
{
    let mut parts = parse_command(command);
    if parts.len() == 0 {
        return None;
    }
    let ghost all = parts.deep_view();
    let program = parts.remove(0);
    assert(parts.deep_view() =~= all.skip(1));
    let bin_name = bin_basename(program.as_str());
    let ghost before = parts.deep_view();
    parts.push(abs_file_path.to_owned());
    assert(parts.deep_view() =~= before.push(abs_file_path@));
    Some(FormatterInvocation { program, bin_name, args: parts })
}

/// The `node_modules/.bin` directories from `dir` up its parents to
/// `root` (included), nearest first; the walk also ends at a directory
/// without a parent.
pub open spec fn bin_dirs(dir: Seq<char>, root: Seq<char>) -> Seq<Seq<char>>
    decreases dir.len(),
{
    let bin = utf8_join(utf8_join(dir, "node_modules"@), ".bin"@);
    if utf8_path_eq(dir, root) {
        seq![bin]
    } else {
        match utf8_parent(dir) {
            Some(p) => if p.len() < dir.len() {
                seq![bin] + bin_dirs(p, root)
            } else {
                seq![bin]
            },
            None => seq![bin],
        }
    }
}

/// `entries` appended one by one to `prefix`, with `sep` before each
/// one that follows non-empty text.
pub open spec fn append_entries(prefix: Seq<char>, entries: Seq<Seq<char>>, sep: char) -> Seq<char>
    decreases entries.len(),
{
    if entries.len() == 0 {
        prefix
    } else {
        let next = if prefix.len() > 0 {
            prefix + seq![sep] + entries[0]
        } else {
            prefix + entries[0]
        };
        append_entries(next, entries.skip(1), sep)
    }
}

/// The `PATH` for a formatter run from `start` in a workspace rooted at
/// `root`: the `node_modules/.bin` directories of `bin_dirs`, then the
/// inherited `PATH` if there is one.
pub open spec fn path_env_spec(start: Seq<char>, root: Seq<char>, inherited: Option<Seq<char>>, sep: char) -> Seq<char> {
    let prefix = append_entries(Seq::empty(), bin_dirs(start, root), sep);
    match inherited {
        Some(e) => append_entries(prefix, seq![e], sep),
        None => prefix,
    }
}

fn append_entry(out: &mut Vec<char>, entry: &str, sep: char)
    ensures
        final(out)@ == append_entries(old(out)@, seq![entry@], sep),
{
    let ghost p = out@;
    if out.len() > 0 {
        out.push(sep);
    }
    push_str_chars(out, entry);
    assert(seq![entry@].skip(1) =~= Seq::<Seq<char>>::empty());
    assert(seq![entry@][0] == entry@);
    assert(append_entries(p, seq![entry@], sep) == append_entries(
        if p.len() > 0 { p + seq![sep] + entry@ } else { p + entry@ },
        Seq::<Seq<char>>::empty(),
        sep,
    ));
}

proof fn lemma_append_entries_push(prefix: Seq<char>, entries: Seq<Seq<char>>, e: Seq<char>, sep: char)
    ensures
        append_entries(prefix, entries.push(e), sep) == append_entries(append_entries(prefix, entries, sep), seq![e], sep),
    decreases entries.len(),
{
    if entries.len() > 0 {
        let next = if prefix.len() > 0 {
            prefix + seq![sep] + entries[0]
        } else {
            prefix + entries[0]
        };
        assert(entries.push(e).skip(1) =~= entries.skip(1).push(e));
        assert(entries.push(e)[0] == entries[0]);
        lemma_append_entries_push(next, entries.skip(1), e, sep);
    } else {
        assert(entries.push(e) =~= seq![e]);
    }
}

/// The `PATH` value for a formatter run from `start` inside the
/// workspace `root`, given the inherited `PATH` and the platform's list
/// separator.
pub fn build_path_env(start: &str, root: &str, inherited: Option<&str>, sep: char) -> (r: String)
    ensures
        r@ == path_env_spec(start@, root@, match inherited {
            Some(e) => Some(e@),
            None => None,
        }, sep),
{
    let mut out: Vec<char> = Vec::new();
    let mut dir: String = start.to_owned();
    let ghost mut done: Seq<Seq<char>> = seq![];
    loop
        invariant_except_break
            append_entries(Seq::empty(), done + bin_dirs(dir@, root@), sep) == append_entries(
                Seq::empty(),
                bin_dirs(start@, root@),
                sep,
            ),
            out@ == append_entries(Seq::empty(), done, sep),
        ensures
            out@ == append_entries(Seq::empty(), bin_dirs(start@, root@), sep),
        decreases dir@.len(),
    {
        let nm = join_path(dir.as_str(), "node_modules");
        let bin = join_path(nm.as_str(), ".bin");
        let ghost d0 = done;
        let ghost rest = bin_dirs(dir@, root@);
        append_entry(&mut out, bin.as_str(), sep);
        proof {
            lemma_append_entries_push(Seq::empty(), d0, bin@, sep);
            done = d0.push(bin@);
        }
        if paths_equal(dir.as_str(), root) {
            assert(rest =~= seq![bin@]);
            assert(d0 + rest =~= done);
            break;
        }
        match parent_path(dir.as_str()) {
            Some(p) => {
                assert(rest =~= seq![bin@] + bin_dirs(p@, root@));
                assert(d0 + rest =~= done + bin_dirs(p@, root@));
                dir = p;
            },
            None => {
                assert(rest =~= seq![bin@]);
                assert(d0 + rest =~= done);
                break;
            },
        }
    }
    if let Some(e) = inherited {
        append_entry(&mut out, e, sep);
    }
    string_from_chars(out.as_slice())
}

/// Which (kind, key) warnings have been emitted.
pub struct WarnOnce {
    seen: Vec<String>,
}

/// The id of the warning of `kind` about `key`.
pub open spec fn warning_id(kind: Seq<char>, key: Seq<char>) -> Seq<char> {
    kind + ":"@ + key
}

impl WarnOnce {
    /// The ids already emitted.
    pub closed spec fn emitted(&self) -> Set<Seq<char>> {
        self.seen@.map_values(|s: String| s@).to_set()
    }

    /// A cache that has emitted nothing.
    pub fn new() -> (w: WarnOnce)
        ensures
            w.emitted() == Set::<Seq<char>>::empty(),
    {
        let w = WarnOnce { seen: Vec::new() };
        assert(w.emitted() =~= Set::<Seq<char>>::empty());
        w
    }

    /// Whether the warning of `kind` about `key` is due: true the first
    /// time only; it is then recorded as emitted.
    pub fn first_time(&mut self, kind: &str, key: &str) -> (due: bool)
        ensures
            due == !old(self).emitted().contains(warning_id(kind@, key@)),
            final(self).emitted() == old(self).emitted().insert(warning_id(kind@, key@)),
    {
        let mut v = chars_of(kind);
        push_str_chars(&mut v, ":");
        push_str_chars(&mut v, key);
        let id = string_from_chars(v.as_slice());
        assert(id@ == warning_id(kind@, key@));
        let ghost views = self.seen@.map_values(|s: String| s@);
        assert(self.emitted() == views.to_set());
        let mut i: usize = 0;
        while i < self.seen.len()
            invariant
                i <= self.seen.len(),
                views == self.seen@.map_values(|s: String| s@),
                self.seen@ == old(self).seen@,
                id@ == warning_id(kind@, key@),
                forall|j: int| 0 <= j < i ==> views[j] != id@,
            decreases self.seen.len() - i,
        {
            if crate::text::str_eq(self.seen[i].as_str(), id.as_str()) {
                assert(views[i as int] == id@);
                assert(views.contains(id@));
                assert(self.emitted().contains(id@));
                assert(self.emitted().insert(id@) =~= self.emitted());
                return false;
            }
            i = i + 1;
        }
        assert(!views.contains(id@));
        self.seen.push(id);
        assert(self.seen@.map_values(|s: String| s@) =~= views.push(id@));
        assert forall|x: Seq<char>| views.push(id@).contains(x) <==> (views.contains(x) || x == id@) by {
            if views.push(id@).contains(x) {
                let j = choose|j: int| 0 <= j < views.push(id@).len() && views.push(id@)[j] == x;
                if j < views.len() {
                    assert(views[j] == x);
                }
            }
            if views.contains(x) {
                let j = choose|j: int| 0 <= j < views.len() && views[j] == x;
                assert(views.push(id@)[j] == x);
            }
            if x == id@ {
                assert(views.push(id@)[views.len() as int] == x);
            }
        }
        assert(views.push(id@).to_set() =~= views.to_set().insert(id@));
        assert(self.emitted() =~= views.to_set().insert(id@));
        true
    }
}

/// A warning is due once: right after it was found due, the same
/// (kind, key) is no longer due.
pub proof fn law_warning_due_once(emitted: Set<Seq<char>>, kind: Seq<char>, key: Seq<char>)
    ensures
        emitted.insert(warning_id(kind, key)).contains(warning_id(kind, key)),
{
}

} // verus!
