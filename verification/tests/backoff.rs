use wstunnel::backoff::Backoff;

#[test]
fn test_backoff_doubles_up_to_the_cap() {
    let mut b = Backoff::new(100, 1000);
    assert_eq!(b.current_delay(), 0);
    assert_eq!(b.attempt_count(), 0);
    let delays: Vec<u64> = (0..7).map(|_| b.on_failure()).collect();
    assert_eq!(delays, vec![100, 200, 400, 800, 1000, 1000, 1000]);
    assert_eq!(b.attempt_count(), 7);
    assert_eq!(b.current_delay(), 1000);
    assert!(b.is_at_cap());
}

#[test]
fn test_backoff_delays_never_shrink_and_stay_under_the_cap() {
    for (base, cap) in [(1, 300_000), (250, 1000), (1000, 1000), (3, 100), (0, 10), (7, 0), (50, 20), (1, u64::MAX)] {
        let mut b = Backoff::new(base, cap);
        let mut last = 0;
        for _ in 0..80 {
            let delay = b.on_failure();
            assert!(delay >= last);
            assert!(delay <= cap);
            last = delay;
        }
    }
}

#[test]
fn test_backoff_starts_again_after_a_success() {
    let mut b = Backoff::new(100, 1000);
    for _ in 0..5 {
        b.on_failure();
    }
    assert!(b.is_at_cap());
    b.on_success();
    assert_eq!(b.attempt_count(), 0);
    assert_eq!(b.current_delay(), 0);
    assert!(!b.is_at_cap());
    assert_eq!(b.on_failure(), 100);
    assert_eq!(b.on_failure(), 200);
    let mut b = Backoff::new(5000, 1000);
    assert_eq!(b.on_failure(), 1000);
    b.on_success();
    assert_eq!(b.on_failure(), 1000);
}
