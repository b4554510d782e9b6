use moon_core::logs::{LogLevel, LogSink, MAX_PER_SOURCE};

#[test]
fn emit_pushes_into_ring_and_assigns_monotonic_seq() {
    let mut sink = LogSink::new();
    sink.info("test", "first".to_owned(), 10);
    sink.warn("test", "second".to_owned(), 11);
    let entries = sink.snapshot("test");
    assert_eq!(entries.len(), 2);
    assert!(entries[0].seq < entries[1].seq);
    assert_eq!(entries[0].message, "first");
    assert_eq!(entries[1].level, LogLevel::Warn);
}

#[test]
fn emit_returns_the_stored_entry() {
    let mut sink = LogSink::new();
    let a = sink.error("x", "boom".to_owned(), 5);
    let b = sink.debug("y", "hi".to_owned(), 6);
    assert_eq!(a.source, "x");
    assert_eq!(a.level, LogLevel::Error);
    assert_eq!(a.ts_ms, 5);
    assert_eq!(b.seq, a.seq + 1);
    assert_eq!(sink.snapshot("x")[0].seq, a.seq);
}

#[test]
fn ring_trims_oldest_past_cap() {
    let mut sink = LogSink::new();
    for i in 0..(MAX_PER_SOURCE + 50) {
        sink.debug("ring", format!("{i}"), 0);
    }
    let entries = sink.snapshot("ring");
    assert_eq!(entries.len(), MAX_PER_SOURCE);
    assert_eq!(entries[0].message, "50");
    assert!(entries.windows(2).all(|w| w[0].seq < w[1].seq));
}

#[test]
fn clear_drops_source_bucket() {
    let mut sink = LogSink::new();
    sink.info("a", "one".to_owned(), 0);
    sink.info("b", "two".to_owned(), 0);
    sink.clear("a");
    assert!(sink.snapshot("a").is_empty());
    assert_eq!(sink.snapshot("b").len(), 1);
}

#[test]
fn sources_enumerates_buckets_with_entries() {
    let mut sink = LogSink::new();
    sink.info("alpha", "x".to_owned(), 0);
    sink.info("beta", "y".to_owned(), 0);
    let mut sources = sink.sources();
    sources.sort();
    assert_eq!(sources, vec!["alpha".to_owned(), "beta".to_owned()]);
}

#[test]
fn snapshot_of_unknown_source_is_empty() {
    let sink = LogSink::new();
    assert!(sink.snapshot("nothing").is_empty());
    assert!(sink.sources().is_empty());
}

#[test]
fn interleaved_emits_keep_each_sources_newest_in_order() {
    let mut sink = LogSink::new();
    for i in 0..2050u64 {
        sink.info("ring", format!("{i}"), i);
        if i % 100 == 0 {
            sink.warn("other", format!("o{i}"), i);
        }
    }
    let ring = sink.snapshot("ring");
    assert_eq!(ring.len(), MAX_PER_SOURCE);
    assert_eq!(ring[0].message, "50");
    assert_eq!(ring[MAX_PER_SOURCE - 1].message, "2049");
    assert!(ring.windows(2).all(|w| w[0].seq < w[1].seq));
    let other = sink.snapshot("other");
    assert_eq!(other.len(), 21);
    assert_eq!(other[0].seq, 2);
    assert_eq!(sink.snapshot("ring")[0].seq, 52);
}
