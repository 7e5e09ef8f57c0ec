use arbitrage_observer::cadence::{
    Timer, DISCOVERY_PERIOD_MS, FOLLOW_UP_DELAY_MS, SCAN_PAUSE_MS, SETTLEMENT_PERIOD_MS,
};

#[test]
fn tasks_are_due_at_once_and_then_after_their_period() {
    let mut timer = Timer::new();
    assert!(timer.is_due(0));
    timer.restart(1_200, DISCOVERY_PERIOD_MS);
    assert!(!timer.is_due(1_200));
    assert!(!timer.is_due(11_199));
    assert!(timer.is_due(11_200));
    timer.restart(u64::MAX, 1);
    assert!(!timer.is_due(u64::MAX));
}

#[test]
fn keeps_its_periods() {
    assert_eq!(DISCOVERY_PERIOD_MS, 10_000);
    assert_eq!(SETTLEMENT_PERIOD_MS, 15_000);
    assert_eq!(SCAN_PAUSE_MS, 1_000);
    assert_eq!(FOLLOW_UP_DELAY_MS, 250);
}
