use arbitrage_observer::time::{
    age_capped, gap_capped, minus_saturating, parse_rfc3339, TimeSpan, Timestamp,
};

#[test]
fn reads_rfc3339_times() {
    assert_eq!(parse_rfc3339("2026-01-01T00:00:00Z"), Some(1_767_225_600_000));
    assert_eq!(parse_rfc3339("2026-01-01T01:00:00.250+01:00"), Some(1_767_225_600_250));
    assert_eq!(parse_rfc3339("1969-12-31T23:59:59Z"), Some(-1_000));
    assert_eq!(parse_rfc3339("2026-01-01"), None);
    assert_eq!(parse_rfc3339(""), None);
}

#[test]
fn measures_distances() {
    assert_eq!(gap_capped(1_000, 1_250), 250);
    assert_eq!(gap_capped(1_250, 1_000), 250);
    assert_eq!(gap_capped(i64::MIN, i64::MAX), i64::MAX);
    assert_eq!(age_capped(2_000, 1_500, 2_700), 700);
    assert_eq!(minus_saturating(5, 8), -3);
    assert_eq!(minus_saturating(i64::MIN, 1), i64::MIN);
    assert_eq!(minus_saturating(i64::MAX, -1), i64::MAX);
}

#[test]
fn computes_with_timestamps() {
    let start = Timestamp { seconds: 100, nanos: 5 };
    let later = start.plus_seconds(60).unwrap();
    assert_eq!(later, Timestamp { seconds: 160, nanos: 5 });
    assert_eq!(later.since(start).nanos, TimeSpan::minutes(1).nanos);
    assert_eq!(start.since(later).nanos, TimeSpan::seconds(-60).nanos);
    assert!(Timestamp { seconds: i64::MAX, nanos: 0 }.plus_seconds(1).is_none());
}
