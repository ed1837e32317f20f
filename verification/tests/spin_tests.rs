use shmempipe::SpinWait;

#[test]
fn counter_grows_then_caps() {
    let mut s = SpinWait::new();
    assert_eq!(s.count(), 0);
    for expected in 1..=9u32 {
        s.spin();
        assert_eq!(s.count(), expected.min(10));
    }
    // from here on every failed poll yields, and the counter stays capped
    s.spin();
    assert_eq!(s.count(), 10);
    s.spin();
    assert_eq!(s.count(), 10);
}

#[test]
fn reset_starts_over() {
    let mut s = SpinWait::default();
    for _ in 0..12 {
        s.spin();
    }
    assert_eq!(s.count(), 10);
    s.reset();
    assert_eq!(s.count(), 0);
    s.spin();
    assert_eq!(s.count(), 1);
}
