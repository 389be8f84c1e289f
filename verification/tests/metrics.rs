use roger::metrics::{increments, snapshot_of, Metrics};

#[test]
fn empty_snapshot_is_zero() {
    let m = Metrics::default();
    let s = m.snapshot();
    assert_eq!((s.requests, s.errors, s.avg_latency_ms), (0, 0, 0));
}

#[test]
fn records_counts_and_average_latency() {
    let mut m = Metrics::default();
    m.record(100, true);
    m.record(300, false);
    let s = m.snapshot();
    assert_eq!(s.requests, 2);
    assert_eq!(s.errors, 1);
    assert_eq!(s.avg_latency_ms, 200);
}

#[test]
fn average_latency_rounds_down() {
    let mut m = Metrics::default();
    m.record(10, true);
    m.record(11, true);
    m.record(11, true);
    assert_eq!(m.snapshot().avg_latency_ms, 10);
}

#[test]
fn latency_total_wraps_around() {
    let mut m = Metrics::default();
    m.record(u64::MAX, true);
    m.record(5, false);
    let s = m.snapshot();
    assert_eq!((s.requests, s.errors, s.avg_latency_ms), (2, 1, 2));
}

#[test]
fn records_may_come_in_either_order() {
    let mut a = Metrics::default();
    a.record(7, true);
    a.record(20, false);
    let mut b = Metrics::default();
    b.record(20, false);
    b.record(7, true);
    let (s, t) = (a.snapshot(), b.snapshot());
    assert_eq!((s.requests, s.errors, s.avg_latency_ms), (2, 1, 13));
    assert_eq!((t.requests, t.errors, t.avg_latency_ms), (2, 1, 13));
}

#[test]
fn increments_and_snapshots_of_plain_counters() {
    let (a, b) = (increments(100, true), increments(300, false));
    assert_eq!((a.requests, a.errors, a.latency_ms), (1, 0, 100));
    assert_eq!((b.requests, b.errors, b.latency_ms), (1, 1, 300));
    let s = snapshot_of(2, 1, 400);
    assert_eq!((s.requests, s.errors, s.avg_latency_ms), (2, 1, 200));
    assert_eq!(snapshot_of(0, 0, 7).avg_latency_ms, 0);
}
