use file_processor_api::{BoundedBuffer, WriteGuard};

#[test]
fn five_pushes_into_three_keep_last_three() {
    let mut b = BoundedBuffer::new(3);
    for i in 1..=5 {
        b.push(i);
    }
    assert_eq!(b.len(), 3);
    assert_eq!((*b.get(0), *b.get(1), *b.get(2)), (3, 4, 5));
}

#[test]
fn buffer_never_exceeds_capacity() {
    for cap in 0..5usize {
        let mut b = BoundedBuffer::new(cap);
        for i in 0..12usize {
            b.push(i);
            assert!(b.len() <= cap);
            assert_eq!(b.len(), (i + 1).min(cap));
        }
        for k in 0..b.len() {
            assert_eq!(*b.get(k), 12 - cap + k);
        }
    }
}

#[test]
fn clear_empties_buffer() {
    let mut b = BoundedBuffer::new(2);
    b.push("a");
    b.clear();
    assert_eq!(b.len(), 0);
    assert_eq!(b.capacity(), 2);
}

#[test]
fn rotation_only_above_maximum() {
    let g = WriteGuard::new(100, 10, 1000, 3, 0);
    assert!(!g.should_rotate(0));
    assert!(!g.should_rotate(100));
    assert!(g.should_rotate(101));
}

#[test]
fn rate_limit_rejects_the_attempt_after_the_limit() {
    let mut g = WriteGuard::new(100, 3, 1000, 3, 0);
    let admitted: Vec<bool> = (0..5).map(|i| g.rate_limit(10 + i)).collect();
    assert_eq!(admitted, vec![true, true, true, false, false]);
    // the window ends after 1000 ms: counting starts over
    assert!(g.rate_limit(1001));
    assert!(g.rate_limit(1002));
    assert!(g.rate_limit(1003));
    assert!(!g.rate_limit(1004));
}

#[test]
fn rate_limit_zero_rejects_everything() {
    let mut g = WriteGuard::new(100, 0, 1000, 3, 0);
    assert!(!g.rate_limit(0));
    assert!(!g.rate_limit(5000));
}

#[test]
fn alert_fires_once_per_failure_run() {
    let mut g = WriteGuard::new(100, 10, 1000, 3, 0);
    let outcomes = [false, false, false, false, false, true, false, false, false];
    let alerts: Vec<bool> = outcomes.iter().map(|ok| g.record(*ok)).collect();
    assert_eq!(
        alerts,
        vec![false, false, true, false, false, false, false, false, true]
    );
    assert_eq!(g.failures(), 3);
}

#[test]
fn alert_threshold_zero_fires_on_first_failure() {
    let mut g = WriteGuard::new(100, 10, 1000, 0, 0);
    assert!(!g.record(true));
    assert!(g.record(false));
    assert!(!g.record(false));
}
