//! The diagnostic log book shown in the IDE's logs panel: one bounded
//! ring of entries per source, and a sequence number that orders every
//! entry. Fanning entries out to live subscribers and reading the clock
//! are the caller's.
use vstd::prelude::*;
use crate::text::str_eq;

verus! {

/// Most entries kept per source; older ones are dropped from the front.
pub const MAX_PER_SOURCE: usize = 2000;

/// Severity of a log entry.
#[derive(Debug, Clone, Copy, PartialEq, Eq, Structural)]
pub enum LogLevel {
    Debug,
    Info,
    Warn,
    Error,
}

/// One log line.
#[derive(Debug)]
pub struct LogEntry {
    pub source: String,
    pub level: LogLevel,
    pub message: String,
    pub ts_ms: u64,
    pub seq: u64,
}

/// A log line as values.
pub ghost struct EntryView {
    pub source: Seq<char>,
    pub level: LogLevel,
    pub message: Seq<char>,
    pub ts_ms: u64,
    pub seq: u64,
}

impl View for LogEntry {
    type V = EntryView;

    open spec fn view(&self) -> EntryView {
        EntryView { source: self.source@, level: self.level, message: self.message@, ts_ms: self.ts_ms, seq: self.seq }
    }
}

/// A copy of `e`.
pub fn copy_entry(e: &LogEntry) -> (r: LogEntry)
    ensures
        r@ == e@,
{
    LogEntry { source: e.source.clone(), level: e.level, message: e.message.clone(), ts_ms: e.ts_ms, seq: e.seq }
}

/// The views of a list of entries.
pub open spec fn entries_view(v: Seq<LogEntry>) -> Seq<EntryView> {
    v.map_values(|e: LogEntry| e@)
}

/// `ring` with `e` appended, keeping the newest `MAX_PER_SOURCE`.
pub open spec fn ring_push(ring: Seq<EntryView>, e: EntryView) -> Seq<EntryView> {
    let s = ring.push(e);
    if s.len() > MAX_PER_SOURCE {
        s.skip(s.len() - MAX_PER_SOURCE)
    } else {
        s
    }
}

/// The entries' sequence numbers increase along `s` and stay below
/// `next`.
pub open spec fn increasing(s: Seq<EntryView>, next: u64) -> bool {
    &&& forall|a: int, b: int| 0 <= a < b < s.len() ==> (#[trigger] s[a]).seq < (#[trigger] s[b]).seq
    &&& forall|a: int| 0 <= a < s.len() ==> (#[trigger] s[a]).seq < next
}

/// The log book: per-source rings and the next sequence number.
pub struct LogSink {
    buckets: Vec<(String, Vec<LogEntry>)>,
    next_seq: u64,
}

impl LogSink {
    /// The sources as text, in bucket order.
    pub closed spec fn keys(&self) -> Seq<Seq<char>> {
        self.buckets@.map_values(|b: (String, Vec<LogEntry>)| b.0@)
    }

    /// Each source appears once, every ring is non-empty and within
    /// `MAX_PER_SOURCE`, and every entry carries its ring's source.
    pub closed spec fn wf(&self) -> bool {
        &&& forall|i: int, j: int| 0 <= i < j < self.buckets@.len() ==> self.keys()[i] != self.keys()[j]
        &&& forall|i: int| 0 <= i < self.buckets@.len() ==> {
            let ring = #[trigger] self.buckets@[i].1@;
            &&& 0 < ring.len() <= MAX_PER_SOURCE
            &&& forall|k: int| 0 <= k < ring.len() ==> (#[trigger] ring[k]).source@ == self.buckets@[i].0@
        }
    }

    /// The entries held for `source`, oldest first.
    pub closed spec fn entries(&self, source: Seq<char>) -> Seq<EntryView> {
        if exists|i: int| 0 <= i < self.buckets@.len() && self.keys()[i] == source {
            let i = choose|i: int| 0 <= i < self.buckets@.len() && self.keys()[i] == source;
            entries_view(self.buckets@[i].1@)
        } else {
            seq![]
        }
    }

    /// The sources that hold at least one entry.
    pub closed spec fn source_set(&self) -> Set<Seq<char>> {
        self.keys().to_set()
    }

    /// The sequence number the next entry gets.
    pub closed spec fn next(&self) -> u64 {
        self.next_seq
    }

    /// Every source's entries are in increasing sequence order, below
    /// the next sequence number.
    pub open spec fn ordered(&self) -> bool {
        forall|src: Seq<char>| increasing(#[trigger] self.entries(src), self.next())
    }

    proof fn lemma_entries_at(&self, i: int)
        requires
            self.wf(),
            0 <= i < self.buckets@.len(),
        ensures
            self.entries(self.keys()[i]) == entries_view(self.buckets@[i].1@),
    {
        let source = self.keys()[i];
        let j = choose|j: int| 0 <= j < self.buckets@.len() && self.keys()[j] == source;
        if j != i {
            if j < i {
                assert(self.keys()[j] != self.keys()[i]);
            } else {
                assert(self.keys()[i] != self.keys()[j]);
            }
        }
    }

    /// An empty book; the first entry gets sequence number 1.
    pub fn new() -> (s: LogSink)
        ensures
            s.wf(),
            s.next() == 1,
            s.source_set() == Set::<Seq<char>>::empty(),
            forall|src: Seq<char>| #[trigger] s.entries(src) == Seq::<EntryView>::empty(),
    {
        let s = LogSink { buckets: Vec::new(), next_seq: 1 };
        assert(s.keys() =~= Seq::<Seq<char>>::empty());
        assert(s.source_set() =~= Set::<Seq<char>>::empty());
        s
    }

    fn find(&self, source: &str) -> (r: Option<usize>)
        ensures
            match r {
                Some(i) => i < self.buckets@.len() && self.keys()[i as int] == source@,
                None => forall|i: int| 0 <= i < self.buckets@.len() ==> self.keys()[i] != source@,
            },
    {
        let mut i: usize = 0;
        while i < self.buckets.len()
            invariant
                i <= self.buckets.len(),
                forall|j: int| 0 <= j < i ==> self.keys()[j] != source@,
            decreases self.buckets.len() - i,
        {
            if str_eq(self.buckets[i].0.as_str(), source) {
                assert(self.keys()[i as int] == self.buckets@[i as int].0@);
                return Some(i);
            }
            assert(self.keys()[i as int] == self.buckets@[i as int].0@);
            i = i + 1;
        }
        None
    }

    proof fn lemma_entries_absent(&self, source: Seq<char>)
        requires
            forall|i: int| 0 <= i < self.buckets@.len() ==> self.keys()[i] != source,
        ensures
            self.entries(source) == Seq::<EntryView>::empty(),
    {
    }

    /// Record `message` at `level` from `source`, stamped `ts_ms`: it gets
    /// the next sequence number (which then advances, wrapping past
    /// `u64::MAX`) and joins the end of `source`'s ring, whose oldest
    /// entry goes once the ring would exceed `MAX_PER_SOURCE`. Returns
    /// a copy of the entry, for live subscribers.
    pub fn emit(&mut self, source: &str, level: LogLevel, message: String, ts_ms: u64) -> (entry: LogEntry)
        requires
            old(self).wf(),
        ensures
            final(self).wf(),
            entry@ == (EntryView { source: source@, level, message: message@, ts_ms, seq: old(self).next() }),
            final(self).next() == (if old(self).next() == u64::MAX { 0 } else { (old(self).next() + 1) as u64 }),
            final(self).entries(source@) == ring_push(old(self).entries(source@), entry@),
            forall|other: Seq<char>| other != source@ ==> #[trigger] final(self).entries(other) == old(self).entries(other),
            final(self).source_set() == old(self).source_set().insert(source@),
            old(self).ordered() && old(self).next() < u64::MAX ==> final(self).ordered(),
    {
        let ghost old_next = self.next_seq;
        let seq = self.next_seq;
        self.next_seq = self.next_seq.wrapping_add(1);
        let entry = LogEntry { source: source.to_owned(), level, message, ts_ms, seq };
        let out = copy_entry(&entry);
        let ghost ev = entry@;
        let ghost old_keys = self.keys();
        let ghost old_buckets = self.buckets@;
        match self.find(source) {
            Some(i) => {
                proof {
                    old(self).lemma_entries_at(i as int);
                }
                let ghost old_self_entries = entries_view(old_buckets[i as int].1@);
                let (key, mut ring) = self.buckets.remove(i);
                let ghost r0 = entries_view(ring@);
                ring.push(entry);
                assert(entries_view(ring@) =~= r0.push(ev));
                if ring.len() > MAX_PER_SOURCE {
                    let ghost r1 = entries_view(ring@);
                    ring.remove(0);
                    assert(entries_view(ring@) =~= r1.skip(1));
                }
                assert(entries_view(ring@) == ring_push(old_self_entries, ev));
                self.buckets.insert(i, (key, ring));
                assert(self.buckets@ =~= old_buckets.update(i as int, self.buckets@[i as int]));
                assert(self.keys() =~= old_keys);
                assert(self.wf()) by {
                    assert forall|j: int| 0 <= j < self.buckets@.len() implies {
                        let ring = #[trigger] self.buckets@[j].1@;
                        &&& 0 < ring.len() <= MAX_PER_SOURCE
                        &&& forall|k: int| 0 <= k < ring.len() ==> (#[trigger] ring[k]).source@ == self.buckets@[j].0@
                    } by {
                        if j == i {
                            let ring = self.buckets@[j].1@;
                            assert forall|k: int| 0 <= k < ring.len() implies (#[trigger] ring[k]).source@ == self.buckets@[j].0@ by {
                                assert(entries_view(ring)[k] == ring[k]@);
                                if ring.len() > 0 && k == ring.len() - 1 {
                                } else {
                                }
                            }
                        }
                    }
                }
                proof {
                    self.lemma_entries_at(i as int);
                    assert forall|other: Seq<char>| other != source@ implies #[trigger] self.entries(other) == old(self).entries(other) by {
                        if exists|j: int| 0 <= j < old_buckets.len() && old_keys[j] == other {
                            let j = choose|j: int| 0 <= j < old_buckets.len() && old_keys[j] == other;
                            self.lemma_entries_at(j);
                            old(self).lemma_entries_at(j);
                        } else {
                            self.lemma_entries_absent(other);
                        }
                    }
                    assert(old_keys.contains(source@)) by {
                        assert(old_keys[i as int] == source@);
                    }
                    assert(self.source_set() =~= old(self).source_set().insert(source@));
                }
            },
            None => {
                proof {
                    old(self).lemma_entries_absent(source@);
                }
                let mut ring: Vec<LogEntry> = Vec::new();
                ring.push(entry);
                assert(entries_view(ring@) =~= seq![ev]);
                assert(seq![ev] =~= Seq::<EntryView>::empty().push(ev));
                self.buckets.push((source.to_owned(), ring));
                let ghost n = old_buckets.len() as int;
                assert(self.keys() =~= old_keys.push(source@));
                assert(self.wf()) by {
                    assert forall|a: int, b: int| 0 <= a < b < self.buckets@.len() implies self.keys()[a] != self.keys()[b] by {
                        assert(self.keys()[a] == old_keys.push(source@)[a]);
                        assert(self.keys()[b] == old_keys.push(source@)[b]);
                        if b == n {
                            assert(old_keys[a] != source@);
                        } else {
                            assert(old(self).keys()[a] != old(self).keys()[b]);
                        }
                    }
                    assert forall|j: int| 0 <= j < self.buckets@.len() implies {
                        let ring = #[trigger] self.buckets@[j].1@;
                        &&& 0 < ring.len() <= MAX_PER_SOURCE
                        &&& forall|k: int| 0 <= k < ring.len() ==> (#[trigger] ring[k]).source@ == self.buckets@[j].0@
                    } by {
                        if j < n {
                            assert(self.buckets@[j] == old_buckets[j]);
                        }
                    }
                }
                proof {
                    self.lemma_entries_at(n);
                    assert forall|other: Seq<char>| other != source@ implies #[trigger] self.entries(other) == old(self).entries(other) by {
                        if exists|j: int| 0 <= j < old_buckets.len() && old_keys[j] == other {
                            let j = choose|j: int| 0 <= j < old_buckets.len() && old_keys[j] == other;
                            assert(self.buckets@[j] == old_buckets[j]);
                            self.lemma_entries_at(j);
                            old(self).lemma_entries_at(j);
                        } else {
                            old(self).lemma_entries_absent(other);
                            self.lemma_entries_absent(other);
                        }
                    }
                    assert forall|x: Seq<char>| old_keys.push(source@).contains(x) <==> (old_keys.contains(x) || x == source@) by {
                        if old_keys.push(source@).contains(x) {
                            let j = choose|j: int| 0 <= j < old_keys.push(source@).len() && old_keys.push(source@)[j] == x;
                            if j < old_keys.len() {
                                assert(old_keys[j] == x);
                            }
                        }
                        if old_keys.contains(x) {
                            let j = choose|j: int| 0 <= j < old_keys.len() && old_keys[j] == x;
                            assert(old_keys.push(source@)[j] == x);
                        }
                        if x == source@ {
                            assert(old_keys.push(source@)[n] == x);
                        }
                    }
                    assert(self.source_set() =~= old(self).source_set().insert(source@));
                }
            },
        }
        proof {
            if old(self).ordered() && old_next < u64::MAX {
                assert forall|src: Seq<char>| increasing(#[trigger] self.entries(src), self.next()) by {
                    assert(increasing(old(self).entries(src), old_next));
                    if src == source@ {
                        let r = old(self).entries(src);
                        let p = r.push(ev);
                        assert forall|a: int, b: int| 0 <= a < b < p.len() implies (#[trigger] p[a]).seq < (#[trigger] p[b]).seq by {
                            if b == r.len() {
                                assert(r[a].seq < old_next);
                            } else {
                                assert(p[a] == r[a] && p[b] == r[b]);
                            }
                        }
                        assert forall|a: int| 0 <= a < p.len() implies (#[trigger] p[a]).seq < self.next() by {
                            if a < r.len() {
                                assert(p[a] == r[a]);
                            }
                        }
                        let q = ring_push(r, ev);
                        if p.len() > MAX_PER_SOURCE {
                            let d = p.len() - MAX_PER_SOURCE;
                            assert forall|a: int, b: int| 0 <= a < b < q.len() implies (#[trigger] q[a]).seq < (#[trigger] q[b]).seq by {
                                assert(q[a] == p[a + d] && q[b] == p[b + d]);
                            }
                            assert forall|a: int| 0 <= a < q.len() implies (#[trigger] q[a]).seq < self.next() by {
                                assert(q[a] == p[a + d]);
                            }
                        }
                    } else {
                        let r = self.entries(src);
                        assert forall|a: int| 0 <= a < r.len() implies (#[trigger] r[a]).seq < self.next() by {
                            assert(old(self).entries(src)[a].seq < old_next);
                        }
                    }
                }
            }
        }
        out
    }

    /// The entries held for `source`, oldest first; empty for a source
    /// with none.
    pub fn snapshot(&self, source: &str) -> (r: Vec<LogEntry>)
        requires
            self.wf(),
        ensures
            entries_view(r@) == self.entries(source@),
    {
        match self.find(source) {
            Some(i) => {
                proof {
                    self.lemma_entries_at(i as int);
                }
                let ring = &self.buckets[i].1;
                let mut out: Vec<LogEntry> = Vec::new();
                let mut k: usize = 0;
                while k < ring.len()
                    invariant
                        k <= ring.len(),
                        entries_view(out@) == entries_view(ring@).take(k as int),
                    decreases ring.len() - k,
                {
                    let e = copy_entry(&ring[k]);
                    let ghost o0 = entries_view(out@);
                    out.push(e);
                    assert(entries_view(out@) =~= o0.push(e@));
                    assert(entries_view(ring@).take(k + 1) =~= entries_view(ring@).take(k as int).push(ring@[k as int]@));
                    k = k + 1;
                }
                assert(entries_view(ring@).take(ring.len() as int) =~= entries_view(ring@));
                out
            },
            None => {
                proof {
                    self.lemma_entries_absent(source@);
                }
                let out: Vec<LogEntry> = Vec::new();
                assert(entries_view(out@) =~= Seq::<EntryView>::empty());
                out
            },
        }
    }

    /// The sources that hold entries, each once.
    pub fn sources(&self) -> (r: Vec<String>)
        requires
            self.wf(),
        ensures
            r.deep_view().to_set() == self.source_set(),
            r.deep_view().no_duplicates(),
    {
        let mut out: Vec<String> = Vec::new();
        let mut i: usize = 0;
        while i < self.buckets.len()
            invariant
                i <= self.buckets.len(),
                self.wf(),
                out.deep_view() == self.keys().take(i as int),
            decreases self.buckets.len() - i,
        {
            let ghost o0 = out.deep_view();
            out.push(self.buckets[i].0.clone());
            assert(out.deep_view() =~= o0.push(self.keys()[i as int]));
            assert(self.keys().take(i + 1) =~= self.keys().take(i as int).push(self.keys()[i as int]));
            i = i + 1;
        }
        assert(self.keys().take(self.buckets.len() as int) =~= self.keys());
        assert(out.deep_view().to_set() =~= self.source_set());
        out
    }

    /// Drop every entry of `source`; the next entry from it starts a new
    /// ring.
    pub fn clear(&mut self, source: &str)
        requires
            old(self).wf(),
        ensures
            final(self).wf(),
            final(self).next() == old(self).next(),
            final(self).entries(source@) == Seq::<EntryView>::empty(),
            forall|other: Seq<char>| other != source@ ==> #[trigger] final(self).entries(other) == old(self).entries(other),
            final(self).source_set() == old(self).source_set().remove(source@),
    {
        let ghost old_keys = self.keys();
        let ghost old_buckets = self.buckets@;
        match self.find(source) {
            Some(i) => {
                let _gone = self.buckets.remove(i);
                assert(self.buckets@ =~= old_buckets.remove(i as int));
                assert(self.keys() =~= old_keys.remove(i as int));
                assert(self.wf()) by {
                    assert forall|a: int, b: int| 0 <= a < b < self.buckets@.len() implies self.keys()[a] != self.keys()[b] by {
                        let a0 = if a < i { a } else { a + 1 };
                        let b0 = if b < i { b } else { b + 1 };
                        assert(self.keys()[a] == old_keys[a0]);
                        assert(self.keys()[b] == old_keys[b0]);
                        assert(old(self).keys()[a0] != old(self).keys()[b0]);
                    }
                    assert forall|j: int| 0 <= j < self.buckets@.len() implies {
                        let ring = #[trigger] self.buckets@[j].1@;
                        &&& 0 < ring.len() <= MAX_PER_SOURCE
                        &&& forall|k: int| 0 <= k < ring.len() ==> (#[trigger] ring[k]).source@ == self.buckets@[j].0@
                    } by {
                        let j0 = if j < i { j } else { j + 1 };
                        assert(self.buckets@[j] == old_buckets[j0]);
                    }
                }
                proof {
                    assert forall|j: int| 0 <= j < self.buckets@.len() implies self.keys()[j] != source@ by {
                        let j0 = if j < i { j } else { j + 1 };
                        assert(self.keys()[j] == old_keys[j0]);
                        assert(old(self).keys()[j0] != old(self).keys()[i as int]);
                    }
                    self.lemma_entries_absent(source@);
                    assert forall|other: Seq<char>| other != source@ implies #[trigger] self.entries(other) == old(self).entries(other) by {
                        if exists|j: int| 0 <= j < old_buckets.len() && old_keys[j] == other {
                            let j = choose|j: int| 0 <= j < old_buckets.len() && old_keys[j] == other;
                            assert(j != i);
                            let j1 = if j < i { j } else { j - 1 };
                            assert(self.buckets@[j1] == old_buckets[j]);
                            self.lemma_entries_at(j1);
                            old(self).lemma_entries_at(j);
                        } else {
                            assert forall|j: int| 0 <= j < self.buckets@.len() implies self.keys()[j] != other by {
                                let j0 = if j < i { j } else { j + 1 };
                                assert(self.keys()[j] == old_keys[j0]);
                            }
                            self.lemma_entries_absent(other);
                            old(self).lemma_entries_absent(other);
                        }
                    }
                    assert forall|x: Seq<char>| self.keys().contains(x) <==> (old_keys.contains(x) && x != source@) by {
                        if self.keys().contains(x) {
                            let j = choose|j: int| 0 <= j < self.keys().len() && self.keys()[j] == x;
                            let j0 = if j < i { j } else { j + 1 };
                            assert(old_keys[j0] == x);
                        }
                        if old_keys.contains(x) && x != source@ {
                            let j = choose|j: int| 0 <= j < old_keys.len() && old_keys[j] == x;
                            let j1 = if j < i { j } else { j - 1 };
                            assert(self.keys()[j1] == x);
                        }
                    }
                    assert(self.source_set() =~= old(self).source_set().remove(source@));
                }
            },
            None => {
                proof {
                    self.lemma_entries_absent(source@);
                    assert(!old_keys.contains(source@));
                    assert(self.source_set() =~= old(self).source_set().remove(source@));
                }
            },
        }
    }

    /// `emit` at `Debug`.
    pub fn debug(&mut self, source: &str, message: String, ts_ms: u64) -> (entry: LogEntry)
        requires
            old(self).wf(),
        ensures
            final(self).wf(),
            entry@ == (EntryView { source: source@, level: LogLevel::Debug, message: message@, ts_ms, seq: old(self).next() }),
            final(self).entries(source@) == ring_push(old(self).entries(source@), entry@),
            forall|other: Seq<char>| other != source@ ==> #[trigger] final(self).entries(other) == old(self).entries(other),
            final(self).next() == (if old(self).next() == u64::MAX { 0 } else { (old(self).next() + 1) as u64 }),
            final(self).source_set() == old(self).source_set().insert(source@),
            old(self).ordered() && old(self).next() < u64::MAX ==> final(self).ordered(),
    {
        self.emit(source, LogLevel::Debug, message, ts_ms)
    }

    /// `emit` at `Info`.
    pub fn info(&mut self, source: &str, message: String, ts_ms: u64) -> (entry: LogEntry)
        requires
            old(self).wf(),
        ensures
            final(self).wf(),
            entry@ == (EntryView { source: source@, level: LogLevel::Info, message: message@, ts_ms, seq: old(self).next() }),
            final(self).entries(source@) == ring_push(old(self).entries(source@), entry@),
            forall|other: Seq<char>| other != source@ ==> #[trigger] final(self).entries(other) == old(self).entries(other),
            final(self).next() == (if old(self).next() == u64::MAX { 0 } else { (old(self).next() + 1) as u64 }),
            final(self).source_set() == old(self).source_set().insert(source@),
            old(self).ordered() && old(self).next() < u64::MAX ==> final(self).ordered(),
    {
        self.emit(source, LogLevel::Info, message, ts_ms)
    }

    /// `emit` at `Warn`.
    pub fn warn(&mut self, source: &str, message: String, ts_ms: u64) -> (entry: LogEntry)
        requires
            old(self).wf(),
        ensures
            final(self).wf(),
            entry@ == (EntryView { source: source@, level: LogLevel::Warn, message: message@, ts_ms, seq: old(self).next() }),
            final(self).entries(source@) == ring_push(old(self).entries(source@), entry@),
            forall|other: Seq<char>| other != source@ ==> #[trigger] final(self).entries(other) == old(self).entries(other),
            final(self).next() == (if old(self).next() == u64::MAX { 0 } else { (old(self).next() + 1) as u64 }),
            final(self).source_set() == old(self).source_set().insert(source@),
            old(self).ordered() && old(self).next() < u64::MAX ==> final(self).ordered(),
    {
        self.emit(source, LogLevel::Warn, message, ts_ms)
    }

    /// `emit` at `Error`.
    pub fn error(&mut self, source: &str, message: String, ts_ms: u64) -> (entry: LogEntry)
        requires
            old(self).wf(),
        ensures
            final(self).wf(),
            entry@ == (EntryView { source: source@, level: LogLevel::Error, message: message@, ts_ms, seq: old(self).next() }),
            final(self).entries(source@) == ring_push(old(self).entries(source@), entry@),
            forall|other: Seq<char>| other != source@ ==> #[trigger] final(self).entries(other) == old(self).entries(other),
            final(self).next() == (if old(self).next() == u64::MAX { 0 } else { (old(self).next() + 1) as u64 }),
            final(self).source_set() == old(self).source_set().insert(source@),
            old(self).ordered() && old(self).next() < u64::MAX ==> final(self).ordered(),
    {
        self.emit(source, LogLevel::Error, message, ts_ms)
    }
}

/// The entry the `i`-th of the emits `ops` (source, level, message,
/// timestamp) records in a new book: sequence number `i + 1`.
pub open spec fn emitted_entry(ops: Seq<(Seq<char>, LogLevel, Seq<char>, u64)>, i: int) -> EntryView {
    EntryView { source: ops[i].0, level: ops[i].1, message: ops[i].2, ts_ms: ops[i].3, seq: (i + 1) as u64 }
}

/// What a new book holds for `src` after the emits `ops`, step by step
/// as [`LogSink::emit`] states it.
pub open spec fn ring_after(ops: Seq<(Seq<char>, LogLevel, Seq<char>, u64)>, src: Seq<char>) -> Seq<EntryView>
    decreases ops.len(),
{
    if ops.len() == 0 {
        seq![]
    } else {
        let r = ring_after(ops.drop_last(), src);
        if ops.last().0 == src {
            ring_push(r, emitted_entry(ops, ops.len() - 1))
        } else {
            r
        }
    }
}

/// Every entry the emits `ops` sent to `src`, in call order.
pub open spec fn sent_to(ops: Seq<(Seq<char>, LogLevel, Seq<char>, u64)>, src: Seq<char>) -> Seq<EntryView>
    decreases ops.len(),
{
    if ops.len() == 0 {
        seq![]
    } else {
        let r = sent_to(ops.drop_last(), src);
        if ops.last().0 == src {
            r.push(emitted_entry(ops, ops.len() - 1))
        } else {
            r
        }
    }
}

/// The last `n` of `s` (all of `s` when it is shorter).
pub open spec fn newest(s: Seq<EntryView>, n: nat) -> Seq<EntryView> {
    if s.len() > n {
        s.skip(s.len() - n)
    } else {
        s
    }
}

/// After any sequence of emits into a new book, a source holds the last
/// `MAX_PER_SOURCE` entries sent to it, in the order they were sent,
/// with sequence numbers increasing in call order from 1.
pub proof fn law_emits_keep_the_newest(ops: Seq<(Seq<char>, LogLevel, Seq<char>, u64)>, src: Seq<char>)
    ensures
        ring_after(ops, src) == newest(sent_to(ops, src), MAX_PER_SOURCE as nat),
        forall|a: int, b: int|
            0 <= a < b < sent_to(ops, src).len() ==> (#[trigger] sent_to(ops, src)[a]).seq as int + 1 <= (
            #[trigger] sent_to(ops, src)[b]).seq as int || ops.len() >= u64::MAX,
        forall|k: int| 0 <= k < sent_to(ops, src).len() ==> (#[trigger] sent_to(ops, src)[k]).source == src,
    decreases ops.len(),
{
    if ops.len() > 0 {
        let prev = ops.drop_last();
        law_emits_keep_the_newest(prev, src);
        lemma_sent_to_seqs(prev, src);
        let e = emitted_entry(ops, ops.len() - 1);
        let x = sent_to(prev, src);
        if ops.last().0 == src {
            let n = MAX_PER_SOURCE as nat;
            let y = x.push(e);
            assert(ring_push(newest(x, n), e) =~= newest(y, n));
        }
        lemma_sent_to_seqs(ops, src);
    }
}

/// The entries sent to `src` by `ops` carry the sequence numbers of
/// their calls, which all come before `ops.len() + 1`.
proof fn lemma_sent_to_seqs(ops: Seq<(Seq<char>, LogLevel, Seq<char>, u64)>, src: Seq<char>)
    ensures
        forall|k: int|
            0 <= k < sent_to(ops, src).len() ==> (#[trigger] sent_to(ops, src)[k]).source == src && 1 <= sent_to(
                ops,
                src,
            )[k].seq as int <= ops.len() || ops.len() >= u64::MAX,
        forall|a: int, b: int|
            0 <= a < b < sent_to(ops, src).len() ==> (#[trigger] sent_to(ops, src)[a]).seq as int + 1 <= (
            #[trigger] sent_to(ops, src)[b]).seq as int || ops.len() >= u64::MAX,
    decreases ops.len(),
{
    if ops.len() > 0 && ops.len() < u64::MAX {
        let prev = ops.drop_last();
        lemma_sent_to_seqs(prev, src);
        let x = sent_to(prev, src);
        assert forall|k: int| 0 <= k < x.len() implies (#[trigger] x[k]).seq as int <= prev.len() by {}
    }
}

/// A ring never holds more than `MAX_PER_SOURCE` entries, and what it
/// received last is its newest entry.
pub proof fn law_ring_bounded(ring: Seq<EntryView>, e: EntryView)
    requires
        ring.len() <= MAX_PER_SOURCE,
    ensures
        ring_push(ring, e).len() == if ring.len() < MAX_PER_SOURCE { ring.len() + 1 } else { MAX_PER_SOURCE as nat },
        ring_push(ring, e).last() == e,
        ring_push(ring, e).drop_last() == ring.skip(ring.len() + 1 - ring_push(ring, e).len()),
{
    let s = ring.push(e);
    if s.len() > MAX_PER_SOURCE {
        assert(ring_push(ring, e).drop_last() =~= ring.skip(1));
    } else {
        assert(ring_push(ring, e).drop_last() =~= ring);
        assert(ring.skip(0) =~= ring);
    }
}

/// A new book is in order.
pub proof fn law_new_book_ordered(s: LogSink)
    requires
        s.next() == 1,
        forall|src: Seq<char>| #[trigger] s.entries(src) == Seq::<EntryView>::empty(),
    ensures
        s.ordered(),
{
}

} // verus!
