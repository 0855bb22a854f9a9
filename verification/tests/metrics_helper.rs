use portredirect::metrics_helper::{DummyCounter, MetricsCounter};

#[test]
fn dummy_counter_counts() {
    let mut c = DummyCounter::new();
    assert_eq!(c.get(), 0);
    c.inc_by(3);
    c.inc_by(4);
    assert_eq!(c.get(), 7);
    let d = DummyCounter::default();
    assert_eq!(d.get(), 0);
}

#[test]
fn dummy_counter_wraps() {
    let mut c = DummyCounter::new();
    c.inc_by(u64::MAX);
    c.inc_by(2);
    assert_eq!(c.get(), 1);
}

#[test]
fn dummy_counter_reads_wrapped_sum_of_a_run() {
    let amounts = [5u64, u64::MAX - 1, 10, 0, 3];
    let mut c = DummyCounter::new();
    let mut expected: u64 = 0;
    for a in amounts {
        c.inc_by(a);
        expected = expected.wrapping_add(a);
    }
    assert_eq!(c.get(), expected);
    assert_eq!(c.get(), ((5u128 + (u64::MAX as u128 - 1) + 10 + 3) % (1u128 << 64)) as u64);
    assert_eq!(c.get(), c.get());
}
