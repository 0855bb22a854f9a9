use portredirect::forward::{is_graceful_shutdown, settle_copy, CopyFailed, CopyOutcome};
use portredirect::metrics_helper::{DummyCounter, MetricsCounter};

#[test]
fn test_forward_bidirectional_success() {
    let mut counter_a = DummyCounter::new();
    let mut counter_b = DummyCounter::new();
    let outcome = CopyOutcome::Completed { bytes_a: 5, bytes_b: 5 };
    let (a, b) = settle_copy(&outcome).unwrap();
    counter_a.inc_by(a);
    counter_b.inc_by(b);
    assert_eq!(counter_a.get(), 5);
    assert_eq!(counter_b.get(), 5);
}

#[test]
fn test_forward_bidirectional_failure() {
    let outcome = CopyOutcome::Failed { message: b"read failure".to_vec(), bytes_a: 0, bytes_b: 4 };
    assert_eq!(settle_copy(&outcome), Err(CopyFailed));
}

#[test]
fn test_forward_bidirectional_graceful_shutdown() {
    let outcome = CopyOutcome::Failed {
        message: b"sending stopped by peer: error 0".to_vec(),
        bytes_a: 6,
        bytes_b: 0,
    };
    assert_eq!(settle_copy(&outcome), Ok((6, 0)));
}

#[test]
fn graceful_marker_detection() {
    assert!(is_graceful_shutdown(b"error 0"));
    assert!(is_graceful_shutdown(b"connection lost: error 0 (closed)"));
    assert!(!is_graceful_shutdown(b"error 1"));
    assert!(!is_graceful_shutdown(b"error"));
    assert!(!is_graceful_shutdown(b""));
}

#[test]
fn graceful_shutdown_counts_bytes_already_forwarded() {
    let mut counter_a = DummyCounter::new();
    let mut counter_b = DummyCounter::new();
    let outcome = CopyOutcome::Failed {
        message: b"connection lost: error 0".to_vec(),
        bytes_a: 1024,
        bytes_b: 17,
    };
    let (a, b) = settle_copy(&outcome).unwrap();
    counter_a.inc_by(a);
    counter_b.inc_by(b);
    assert_eq!(counter_a.get(), 1024);
    assert_eq!(counter_b.get(), 17);
}
