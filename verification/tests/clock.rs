use azure_core_diag::clock::MockClock;

#[test]
fn advances_deterministically() {
    let mut clock = MockClock::new();
    assert_eq!(clock.now_ns(), MockClock::EPOCH_NS);
    assert_eq!(clock.advance_ns(100), MockClock::EPOCH_NS + 100);
    assert_eq!(clock.now_ns(), MockClock::EPOCH_NS + 100);
    clock.reset();
    assert_eq!(clock.now_ns(), MockClock::EPOCH_NS);
}

#[test]
fn default_clock_stands_at_the_epoch() {
    assert_eq!(MockClock::default().now_ns(), 1_700_000_000_000_000_000);
}
