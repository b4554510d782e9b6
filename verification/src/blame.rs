//! `git blame --porcelain` read into per-line authorship.
use vstd::prelude::*;
use vstd::utf8::{decode_utf8, valid_utf8};
use crate::format::words;
use crate::num::parse_unsigned_spec;
use crate::text::{char_index, chars_of, find_char, lines, lines_of, string_from_range, trim_end_char, trim_start_char, trim_end_char_len};
use crate::time::{parse_i64, parse_i64_spec};

verus! {

/// What `String::from_utf8_lossy` gives for `bytes`.
pub uninterp spec fn lossy_utf8(bytes: Seq<u8>) -> Seq<char>;

/// `String::from_utf8_lossy`: the text of `bytes`, invalid sequences
/// replaced by U+FFFD. Its result is named; the contract adds what its
/// documentation states: valid UTF-8 decodes as is.
#[verifier::external_body]
pub(crate) fn utf8_lossy(bytes: &[u8]) -> (r: String)
    ensures
        r@ == lossy_utf8(bytes@),
        valid_utf8(bytes@) ==> r@ == decode_utf8(bytes@),
{
    String::from_utf8_lossy(bytes).into_owned()
}

/// Authorship of one commit as the porcelain states it.
#[derive(Debug)]
pub struct CommitMeta {
    pub author: String,
    pub author_email: String,
    pub author_time: i64,
    pub summary: String,
}

/// Commit metadata as values.
pub ghost struct MetaView {
    pub author: Seq<char>,
    pub author_email: Seq<char>,
    pub author_time: i64,
    pub summary: Seq<char>,
}

impl View for CommitMeta {
    type V = MetaView;

    open spec fn view(&self) -> MetaView {
        MetaView { author: self.author@, author_email: self.author_email@, author_time: self.author_time, summary: self.summary@ }
    }
}

/// Metadata nobody stated.
pub open spec fn empty_meta() -> MetaView {
    MetaView { author: seq![], author_email: seq![], author_time: 0, summary: seq![] }
}

fn new_meta() -> (m: CommitMeta)
    ensures
        m@ == empty_meta(),
{
    CommitMeta { author: String::new(), author_email: String::new(), author_time: 0, summary: String::new() }
}

fn copy_meta(m: &CommitMeta) -> (r: CommitMeta)
    ensures
        r@ == m@,
{
    CommitMeta { author: m.author.clone(), author_email: m.author_email.clone(), author_time: m.author_time, summary: m.summary.clone() }
}

/// Who last touched one line.
#[derive(Debug)]
pub struct GitLineBlame {
    pub sha: String,
    pub is_uncommitted: bool,
    pub author: String,
    pub author_email: String,
    pub author_time: i64,
    pub summary: String,
    pub message: String,
}

/// A line's authorship as values.
pub ghost struct LineView {
    pub sha: Seq<char>,
    pub is_uncommitted: bool,
    pub author: Seq<char>,
    pub author_email: Seq<char>,
    pub author_time: i64,
    pub summary: Seq<char>,
    pub message: Seq<char>,
}

impl View for GitLineBlame {
    type V = LineView;

    open spec fn view(&self) -> LineView {
        LineView {
            sha: self.sha@,
            is_uncommitted: self.is_uncommitted,
            author: self.author@,
            author_email: self.author_email@,
            author_time: self.author_time,
            summary: self.summary@,
            message: self.message@,
        }
    }
}

/// A line nothing was said of.
pub open spec fn empty_line() -> LineView {
    LineView {
        sha: seq![],
        is_uncommitted: false,
        author: seq![],
        author_email: seq![],
        author_time: 0,
        summary: seq![],
        message: seq![],
    }
}

/// Blame of a whole file.
#[derive(Debug)]
pub struct GitFileBlame {
    pub path: String,
    pub remote_url: String,
    pub lines: Vec<GitLineBlame>,
}

/// Where reading the porcelain stands: the metadata of the commits
/// seen (first occurrence kept), the lines so far, the commit and final
/// line of the current block, and the metadata read for it so far.
pub ghost struct BlameState {
    pub commits: Seq<(Seq<char>, MetaView)>,
    pub lines: Seq<Option<LineView>>,
    pub current: Option<Seq<char>>,
    pub final_line: usize,
    pub draft: MetaView,
}

/// Index of the entry of `sha` in `commits`.
pub open spec fn commit_index(commits: Seq<(Seq<char>, MetaView)>, sha: Seq<char>) -> Option<int>
    decreases commits.len(),
{
    if commits.len() == 0 {
        None
    } else if commits.last().0 == sha {
        match commit_index(commits.drop_last(), sha) {
            Some(i) => Some(i),
            None => Some(commits.len() - 1),
        }
    } else {
        commit_index(commits.drop_last(), sha)
    }
}

/// `c` is an ASCII hex digit.
pub open spec fn is_hex(c: char) -> bool {
    ('0' <= c && c <= '9') || ('a' <= c && c <= 'f') || ('A' <= c && c <= 'F')
}

/// Every character of `s` is `0` (the all-zero name of uncommitted
/// lines).
pub open spec fn all_zeros(s: Seq<char>) -> bool {
    forall|i: int| 0 <= i < s.len() ==> #[trigger] s[i] == '0'
}

/// `key` is a 40-digit hex object name: the start of a block header.
pub open spec fn is_sha(key: Seq<char>) -> bool {
    key.len() == 40 && forall|i: int| 0 <= i < key.len() ==> is_hex(#[trigger] key[i])
}

/// `s` padded with empty slots to at least `n` entries.
pub open spec fn padded(s: Seq<Option<LineView>>, n: int) -> Seq<Option<LineView>> {
    if s.len() >= n {
        s
    } else {
        s + Seq::new((n - s.len()) as nat, |i: int| None)
    }
}

/// The state after one porcelain line. A `\\t` line closes a block: its
/// commit's metadata is recorded if new and non-anonymous, and the
/// block's final line (1-based) gets that commit's authorship. A line
/// whose first word is a 40-digit hex name opens a block, taking the
/// final line from its third word (0 when absent or not a number) and
/// starting from the metadata already known of the commit. `author`,
/// `author-mail` (angle brackets stripped), `author-time` (0 when not a
/// number) and `summary` lines fill in the block's metadata; other
/// lines say nothing.
pub open spec fn blame_step(st: BlameState, line: Seq<char>) -> BlameState {
    if line.len() > 0 && line[0] == '\t' {
        let sha = match st.current {
            Some(s) => s,
            None => seq![],
        };
        let commits = if commit_index(st.commits, sha) is None && st.draft.author.len() > 0 {
            st.commits.push((sha, st.draft))
        } else {
            st.commits
        };
        let meta = match commit_index(commits, sha) {
            Some(i) => commits[i].1,
            None => empty_meta(),
        };
        let entry = LineView {
            sha,
            is_uncommitted: all_zeros(sha),
            author: meta.author,
            author_email: meta.author_email,
            author_time: meta.author_time,
            summary: meta.summary,
            message: meta.summary,
        };
        let idx = if st.final_line == 0 { 0 } else { st.final_line - 1 };
        BlameState {
            commits,
            lines: padded(st.lines, idx + 1).update(idx, Some(entry)),
            current: st.current,
            final_line: st.final_line,
            draft: empty_meta(),
        }
    } else {
        let key = match char_index(line, ' ') {
            Some(i) => line.take(i),
            None => line,
        };
        let rest = match char_index(line, ' ') {
            Some(i) => line.skip(i + 1),
            None => seq![],
        };
        if is_sha(key) {
            let w = words(rest);
            let fin = if w.len() >= 2 {
                match parse_unsigned_spec(w[1], usize::MAX as nat) {
                    Some(n) => n as usize,
                    None => 0,
                }
            } else {
                0
            };
            BlameState {
                commits: st.commits,
                lines: st.lines,
                current: Some(key),
                final_line: fin,
                draft: match commit_index(st.commits, key) {
                    Some(i) => st.commits[i].1,
                    None => empty_meta(),
                },
            }
        } else if key == "author"@ {
            BlameState { draft: MetaView { author: rest, ..st.draft }, ..st }
        } else if key == "author-mail"@ {
            BlameState { draft: MetaView { author_email: trim_end_char(trim_start_char(rest, '<'), '>'), ..st.draft }, ..st }
        } else if key == "author-time"@ {
            BlameState {
                draft: MetaView {
                    author_time: match parse_i64_spec(rest) {
                        Some(t) => t as i64,
                        None => 0,
                    },
                    ..st.draft
                },
                ..st
            }
        } else if key == "summary"@ {
            BlameState { draft: MetaView { summary: rest, ..st.draft }, ..st }
        } else {
            st
        }
    }
}

/// The state after the lines `ls`.
pub open spec fn blame_fold(ls: Seq<Seq<char>>) -> BlameState
    decreases ls.len(),
{
    if ls.len() == 0 {
        BlameState { commits: seq![], lines: seq![], current: None, final_line: 0, draft: empty_meta() }
    } else {
        blame_step(blame_fold(ls.drop_last()), ls.last())
    }
}

/// The per-line authorship of porcelain text, slots nothing was said
/// of left empty.
pub open spec fn blame_lines(text: Seq<char>) -> Seq<LineView> {
    filled(blame_fold(lines(text)).lines)
}

/// The slots `s`, empty ones as empty records.
pub open spec fn filled(s: Seq<Option<LineView>>) -> Seq<LineView> {
    s.map_values(|o: Option<LineView>| match o {
        Some(l) => l,
        None => empty_line(),
    })
}

/// The views of commit entries.
pub open spec fn commits_view(v: Seq<(String, CommitMeta)>) -> Seq<(Seq<char>, MetaView)> {
    v.map_values(|c: (String, CommitMeta)| (c.0@, c.1@))
}

/// The views of line slots.
pub open spec fn slots_view(v: Seq<Option<GitLineBlame>>) -> Seq<Option<LineView>> {
    v.map_values(|o: Option<GitLineBlame>| match o {
        Some(l) => Some(l@),
        None => None,
    })
}

/// The porcelain reader's state.
struct BlameReader {
    commits: Vec<(String, CommitMeta)>,
    lines: Vec<Option<GitLineBlame>>,
    current: Option<String>,
    final_line: usize,
    draft: CommitMeta,
}

impl BlameReader {
    spec fn state(&self) -> BlameState {
        BlameState {
            commits: commits_view(self.commits@),
            lines: slots_view(self.lines@),
            current: match self.current {
                Some(s) => Some(s@),
                None => None,
            },
            final_line: self.final_line,
            draft: self.draft@,
        }
    }

    fn find_commit(&self, sha: &str) -> (r: Option<usize>)
        ensures
            match r {
                Some(i) => i < self.commits@.len() && commit_index(commits_view(self.commits@), sha@) == Some(i as int),
                None => commit_index(commits_view(self.commits@), sha@) is None,
            },
    {
        let ghost cv = commits_view(self.commits@);
        let mut i: usize = 0;
        while i < self.commits.len()
            invariant
                i <= self.commits.len(),
                cv == commits_view(self.commits@),
                forall|j: int| 0 <= j < i ==> cv[j].0 != sha@,
            decreases self.commits.len() - i,
        {
            if crate::text::str_eq(self.commits[i].0.as_str(), sha) {
                proof {
                    lemma_commit_index_first(cv, sha@, i as int);
                }
                return Some(i);
            }
            i = i + 1;
        }
        proof {
            lemma_commit_index_first(cv, sha@, cv.len() as int);
        }
        None
    }
}

impl BlameReader {
    fn close_block(&mut self)
        ensures
            final(self).state() == blame_step(old(self).state(), seq!['\t']),
    {
        let ghost st = self.state();
        let sha: String = match &self.current {
            Some(s) => s.clone(),
            None => String::new(),
        };
        assert(sha@ == match st.current {
            Some(s) => s,
            None => Seq::<char>::empty(),
        });
        let ghost c0 = commits_view(self.commits@);
        let found = self.find_commit(sha.as_str());
        let author_len = chars_of(self.draft.author.as_str()).len();
        if found.is_none() && author_len > 0 {
            let d = copy_meta(&self.draft);
            let key = sha.clone();
            self.commits.push((key, d));
            assert(commits_view(self.commits@) =~= c0.push((sha@, st.draft)));
        }
        let ghost commits = commits_view(self.commits@);
        let meta = match self.find_commit(sha.as_str()) {
            Some(i) => copy_meta(&self.commits[i].1),
            None => new_meta(),
        };
        let scs = chars_of(sha.as_str());
        let mut all_zero = true;
        let mut k: usize = 0;
        while k < scs.len()
            invariant
                k <= scs.len(),
                all_zero == forall|j: int| 0 <= j < k ==> scs@[j] == '0',
            decreases scs.len() - k,
        {
            if scs[k] != '0' {
                all_zero = false;
            }
            k = k + 1;
        }
        assert(scs@ == sha@);
        let summary2 = meta.summary.clone();
        let entry = GitLineBlame {
            sha,
            is_uncommitted: all_zero,
            author: meta.author,
            author_email: meta.author_email,
            author_time: meta.author_time,
            summary: meta.summary,
            message: summary2,
        };
        let idx: usize = if self.final_line == 0 { 0 } else { self.final_line - 1 };
        let ghost l0 = slots_view(self.lines@);
        let ghost cm = self.commits@;
        let ghost cur = self.current;
        let ghost fl = self.final_line;
        while self.lines.len() <= idx
            invariant
                idx < usize::MAX,
                self.commits@ == cm,
                self.current == cur,
                self.final_line == fl,
                l0.len() <= slots_view(self.lines@).len(),
                slots_view(self.lines@) =~= l0 + Seq::new((slots_view(self.lines@).len() - l0.len()) as nat, |i: int| None::<LineView>),
                slots_view(self.lines@).len() <= if l0.len() > idx + 1 { l0.len() as int } else { idx + 1 },
            decreases idx + 1 - self.lines.len(),
        {
            let ghost before = slots_view(self.lines@);
            self.lines.push(None);
            assert(slots_view(self.lines@) =~= before.push(None));
        }
        assert(slots_view(self.lines@) == padded(l0, idx + 1));
        let ghost ev = entry@;
        self.lines[idx] = Some(entry);
        assert(slots_view(self.lines@) =~= padded(l0, idx + 1).update(idx as int, Some(ev)));
        self.draft = new_meta();
        proof {
            let line = seq!['\t'];
            assert(line.len() > 0 && line[0] == '\t');
            let r = blame_step(st, line);
            assert(self.state().commits == r.commits);
            assert(self.state().current == r.current);
            assert(self.state().final_line == r.final_line);
            assert(self.state().draft == r.draft);
            let sha_s = match st.current {
                Some(x) => x,
                None => Seq::<char>::empty(),
            };
            let meta_s = match commit_index(r.commits, sha_s) {
                Some(i) => r.commits[i].1,
                None => empty_meta(),
            };
            assert(l0 == st.lines);
            assert(ev.sha == sha_s);
            assert(ev.author == meta_s.author);
            assert(ev.author_time == meta_s.author_time);
            assert(ev.summary == meta_s.summary);
            assert(ev.message == meta_s.summary);
            assert(ev.is_uncommitted == all_zeros(sha_s));
            assert(ev.author_email == meta_s.author_email);
            let entry_s = LineView {
                sha: sha_s,
                is_uncommitted: all_zeros(sha_s),
                author: meta_s.author,
                author_email: meta_s.author_email,
                author_time: meta_s.author_time,
                summary: meta_s.summary,
                message: meta_s.summary,
            };
            assert(ev == entry_s);
            let idx_s: int = if st.final_line == 0 { 0 } else { st.final_line - 1 };
            assert(idx_s == idx as int);
            assert(slots_view(self.lines@) == padded(l0, idx + 1).update(idx as int, Some(ev)));
            assert(r.lines == padded(st.lines, idx_s + 1).update(idx_s, Some(entry_s)));
            assert(self.state().lines == r.lines);
        }
    }
}

fn leading_run(cs: &[char], c: char) -> (a: usize)
    ensures
        a <= cs.len(),
        trim_start_char(cs@, c) == cs@.skip(a as int),
{
    let mut a: usize = 0;
    assert(cs@.skip(0) =~= cs@);
    while a < cs.len() && cs[a] == c
        invariant
            a <= cs.len(),
            trim_start_char(cs@, c) == trim_start_char(cs@.skip(a as int), c),
        decreases cs.len() - a,
    {
        assert(cs@.skip(a as int).skip(1) =~= cs@.skip(a + 1));
        a = a + 1;
    }
    a
}

fn is_sha_chars(key: &[char]) -> (r: bool)
    ensures
        r == is_sha(key@),
{
    if key.len() != 40 {
        return false;
    }
    let mut i: usize = 0;
    while i < key.len()
        invariant
            i <= key.len(),
            forall|j: int| 0 <= j < i ==> is_hex(#[trigger] key@[j]),
        decreases key.len() - i,
    {
        let c = key[i];
        if !(('0' <= c && c <= '9') || ('a' <= c && c <= 'f') || ('A' <= c && c <= 'F')) {
            return false;
        }
        i = i + 1;
    }
    true
}

impl BlameReader {
    fn step(&mut self, line: &str)
        ensures
            final(self).state() == blame_step(old(self).state(), line@),
    {
        let cs = chars_of(line);
        if cs.len() > 0 && cs[0] == '\t' {
            self.close_block();
            return;
        }
        let ghost st = self.state();
        let c = cs.as_slice();
        let (key, rest): (&[char], &[char]) = match find_char(c, ' ') {
            Some(i) => (&c[0..i], &c[i + 1..c.len()]),
            None => (c, &c[0..0]),
        };
        proof {
            match char_index(line@, ' ') {
                Some(i) => {
                    assert(key@ =~= line@.take(i));
                    assert(rest@ =~= line@.skip(i + 1));
                },
                None => {
                    assert(key@ =~= line@);
                    assert(rest@ =~= Seq::<char>::empty());
                },
            }
        }
        if is_sha_chars(key) {
            let rest_s = string_from_range(rest, 0, rest.len());
            assert(rest@.subrange(0, rest@.len() as int) =~= rest@);
            let w = crate::format::parse_command(rest_s.as_str());
            let fin: usize = if w.len() >= 2 {
                let wc = chars_of(w[1].as_str());
                assert(w.deep_view()[1] == w[1]@);
                match crate::num::parse_unsigned(wc.as_slice(), usize::MAX as u64) {
                    Some(n) => n as usize,
                    None => 0,
                }
            } else {
                0
            };
            let key_s = string_from_range(key, 0, key.len());
            assert(key@.subrange(0, key@.len() as int) =~= key@);
            let draft = match self.find_commit(key_s.as_str()) {
                Some(i) => copy_meta(&self.commits[i].1),
                None => new_meta(),
            };
            self.current = Some(key_s);
            self.final_line = fin;
            self.draft = draft;
            return;
        }
        let author = chars_of("author");
        let mail = chars_of("author-mail");
        let time = chars_of("author-time");
        let summary = chars_of("summary");
        if crate::text::chars_eq(key, author.as_slice()) {
            self.draft.author = string_from_range(rest, 0, rest.len());
            assert(rest@.subrange(0, rest@.len() as int) =~= rest@);
        } else if crate::text::chars_eq(key, mail.as_slice()) {
            let a = leading_run(rest, '<');
            let tail = &rest[a..rest.len()];
            assert(tail@ =~= rest@.skip(a as int));
            let b = trim_end_char_len(tail, '>');
            self.draft.author_email = string_from_range(tail, 0, b);
            assert(tail@.subrange(0, b as int) =~= tail@.take(b as int));
        } else if crate::text::chars_eq(key, time.as_slice()) {
            self.draft.author_time = match parse_i64(rest) {
                Some(t) => t,
                None => 0,
            };
        } else if crate::text::chars_eq(key, summary.as_slice()) {
            self.draft.summary = string_from_range(rest, 0, rest.len());
            assert(rest@.subrange(0, rest@.len() as int) =~= rest@);
        }
    }
}

/// The views of a file's line records.
pub open spec fn line_views(v: Seq<GitLineBlame>) -> Seq<LineView> {
    v.map_values(|l: GitLineBlame| l@)
}

/// Read `git blame --porcelain` output (decoded lossily as UTF-8) into
/// the blame of `path`, one record per final line; a line the output
/// skipped gets an empty record. The summary doubles as the message.
pub fn parse_blame_porcelain(stdout: &[u8], path: String) -> (r: GitFileBlame)
    ensures
        r.path@ == path@,
        r.remote_url@ == Seq::<char>::empty(),
        line_views(r.lines@) == blame_lines(lossy_utf8(stdout@)),
{
    let text = utf8_lossy(stdout);
    let ls = lines_of(text.as_str());
    let mut reader = BlameReader {
        commits: Vec::new(),
        lines: Vec::new(),
        current: None,
        final_line: 0,
        draft: new_meta(),
    };
    let mut i: usize = 0;
    assert(ls.deep_view().take(0) =~= Seq::<Seq<char>>::empty());
    assert(reader.state().commits =~= Seq::<(Seq<char>, MetaView)>::empty());
    assert(reader.state().lines =~= Seq::<Option<LineView>>::empty());
    while i < ls.len()
        invariant
            i <= ls.len(),
            ls.deep_view() == lines(text@),
            reader.state() == blame_fold(ls.deep_view().take(i as int)),
        decreases ls.len() - i,
    {
        reader.step(ls[i].as_str());
        assert(ls.deep_view().take(i + 1).drop_last() =~= ls.deep_view().take(i as int));
        assert(ls.deep_view().take(i + 1).last() == ls[i as int]@);
        i = i + 1;
    }
    assert(ls.deep_view().take(ls.len() as int) =~= ls.deep_view());
    let slots = reader.lines;
    let ghost sv = slots_view(slots@);
    let mut out: Vec<GitLineBlame> = Vec::new();
    let mut rest = slots;
    let ghost target = filled(sv);
    // Take the slots back to front, then restore their order.
    let mut rev: Vec<GitLineBlame> = Vec::new();
    while rest.len() > 0
        invariant
            sv == slots_view(slots@),
            target == filled(sv),
            slots_view(rest@) == sv.take(rest@.len() as int),
            rest@.len() <= sv.len(),
            line_views(rev@) == target.skip(rest@.len() as int).reverse(),
        decreases rest.len(),
    {
        let ghost r0 = rest@;
        let o = rest.pop().unwrap();
        assert(r0 =~= rest@.push(o));
        assert(slots_view(r0) =~= slots_view(rest@).push(match o {
            Some(l) => Some(l@),
            None => None,
        }));
        let n = rest.len();
        assert(r0.len() == n + 1);
        assert(slots_view(r0) == sv.take(n + 1));
        assert(slots_view(r0)[n as int] == sv[n as int]);
        assert(sv[n as int] == match o {
            Some(l) => Some(l@),
            None => None::<LineView>,
        });
        let l = match o {
            Some(l) => l,
            None => GitLineBlame {
                sha: String::new(),
                is_uncommitted: false,
                author: String::new(),
                author_email: String::new(),
                author_time: 0,
                summary: String::new(),
                message: String::new(),
            },
        };
        let ghost v0 = line_views(rev@);
        rev.push(l);
        assert(line_views(rev@) =~= v0.push(l@));
        assert(l@ == target[n as int]);
        assert(target.skip(n as int).reverse() =~= target.skip(n + 1).reverse().push(target[n as int]));
    }
    assert(target.skip(0) =~= target);
    while rev.len() > 0
        invariant
            line_views(out@) + line_views(rev@).reverse() == target,
        decreases rev.len(),
    {
        let ghost r0 = line_views(rev@);
        let l = rev.pop().unwrap();
        let ghost o0 = line_views(out@);
        assert(r0 =~= line_views(rev@).push(l@));
        out.push(l);
        assert(line_views(out@) =~= o0.push(l@));
        assert(r0.reverse() =~= seq![l@] + line_views(rev@).reverse());
        assert(line_views(out@) + line_views(rev@).reverse() =~= o0 + r0.reverse());
    }
    assert(line_views(rev@).reverse() =~= Seq::<LineView>::empty());
    assert(line_views(out@) =~= target);
    GitFileBlame { path, remote_url: String::new(), lines: out }
}

proof fn lemma_commit_index_first(c: Seq<(Seq<char>, MetaView)>, sha: Seq<char>, i: int)
    requires
        0 <= i <= c.len(),
        forall|j: int| 0 <= j < i ==> c[j].0 != sha,
        i < c.len() ==> c[i].0 == sha,
    ensures
        i < c.len() ==> commit_index(c, sha) == Some(i),
        i == c.len() ==> commit_index(c, sha) is None,
    decreases c.len(),
{
    if c.len() > 0 {
        if i < c.len() - 1 {
            lemma_commit_index_first(c.drop_last(), sha, i);
        } else if i == c.len() - 1 {
            lemma_commit_index_first(c.drop_last(), sha, i);
        } else {
            lemma_commit_index_first(c.drop_last(), sha, c.len() - 1);
        }
    }
}

} // verus!
