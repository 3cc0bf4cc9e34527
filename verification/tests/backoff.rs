use stash_feed::backoff::RetryPolicy;

#[test]
fn delay_doubles_up_to_the_cap() {
    let p = RetryPolicy { base_ms: 1000, cap_ms: 60000 };
    assert_eq!(p.delay(1), 1000);
    assert_eq!(p.delay(2), 2000);
    assert_eq!(p.delay(3), 4000);
    assert_eq!(p.delay(4), 8000);
    assert_eq!(p.delay(5), 16000);
    assert_eq!(p.delay(6), 32000);
    assert_eq!(p.delay(7), 60000);
    assert_eq!(p.delay(8), 60000);
    assert_eq!(p.delay(u32::MAX), 60000);
}

#[test]
fn no_failure_means_no_delay() {
    let p = RetryPolicy { base_ms: 1000, cap_ms: 60000 };
    assert_eq!(p.delay(0), 0);
}

#[test]
fn base_above_cap_waits_the_cap() {
    let p = RetryPolicy { base_ms: 500, cap_ms: 200 };
    assert_eq!(p.delay(1), 200);
    assert_eq!(p.delay(9), 200);
}

#[test]
fn zero_base_never_waits() {
    let p = RetryPolicy { base_ms: 0, cap_ms: 60000 };
    assert_eq!(p.delay(1), 0);
    assert_eq!(p.delay(u32::MAX), 0);
}

#[test]
fn zero_cap_never_waits() {
    let p = RetryPolicy { base_ms: 7, cap_ms: 0 };
    assert_eq!(p.delay(1), 0);
    assert_eq!(p.delay(40), 0);
}

#[test]
fn delay_does_not_overflow() {
    let p = RetryPolicy { base_ms: 1, cap_ms: u64::MAX };
    assert_eq!(p.delay(64), 1u64 << 63);
    assert_eq!(p.delay(65), u64::MAX);
    assert_eq!(p.delay(1000), u64::MAX);
    let q = RetryPolicy { base_ms: u64::MAX / 2 + 1, cap_ms: u64::MAX };
    assert_eq!(q.delay(1), u64::MAX / 2 + 1);
    assert_eq!(q.delay(2), u64::MAX);
    let r = RetryPolicy { base_ms: 3, cap_ms: 12 };
    assert_eq!(r.delay(2), 6);
    assert_eq!(r.delay(3), 12);
    assert_eq!(r.delay(4), 12);
}

#[test]
fn delay_never_shrinks_and_stays_under_the_cap() {
    let p = RetryPolicy { base_ms: 250, cap_ms: 30000 };
    let mut last = 0;
    for n in 0..80u32 {
        let d = p.delay(n);
        assert!(d >= last);
        assert!(d <= 30000);
        last = d;
    }
    assert_eq!(last, 30000);
}
