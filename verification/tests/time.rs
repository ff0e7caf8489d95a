//! Timestamps and durations.

use understory::time::{Duration, Time};

#[test]
fn units_convert_to_nanoseconds() {
    assert_eq!(Time::from_nanos(-7).as_nanos(), -7);
    assert_eq!(Time::zero(), Time(0));
    assert_eq!(Time::default(), Time(0));
    assert_eq!(Duration::from_nanos(7).as_nanos(), 7);
    assert_eq!(Duration::from_micros(3), Duration(3_000));
    assert_eq!(Duration::from_millis(3), Duration(3_000_000));
    assert_eq!(Duration::from_hz(60), Duration(16_666_666));
    assert_eq!(Duration::from_hz(0), Duration::zero());
    assert_eq!(Duration::default(), Duration(0));
    assert!(Duration(0).is_zero());
    assert!(!Duration(1).is_zero());
}

#[test]
fn durations_saturate() {
    assert_eq!(Duration::from_micros(u64::MAX), Duration(u64::MAX));
    assert_eq!(Duration::from_millis(u64::MAX), Duration(u64::MAX));
    assert_eq!(Duration(u64::MAX).saturating_mul(2), Duration(u64::MAX));
    assert_eq!(Duration(5).saturating_mul(3), Duration(15));
    assert_eq!(Duration(u64::MAX) + Duration(1), Duration(u64::MAX));
    assert_eq!(Duration(3) - Duration(5), Duration(0));
    assert_eq!(Duration(5) - Duration(3), Duration(2));
    assert_eq!(Duration(7).div_u64(2), Duration(3));
    assert_eq!(Duration(7).div_u64(0), Duration(0));
}

#[test]
fn clamping_keeps_to_the_range() {
    assert_eq!(Duration(1).clamp(Duration(2), Duration(5)), Duration(2));
    assert_eq!(Duration(3).clamp(Duration(2), Duration(5)), Duration(3));
    assert_eq!(Duration(9).clamp(Duration(2), Duration(5)), Duration(5));
    assert_eq!(Duration(3).clamp(Duration(6), Duration(5)), Duration(5));
}

#[test]
fn timestamps_saturate() {
    assert_eq!(Time(i64::MAX) + Duration(1), Time(i64::MAX));
    assert_eq!(Time(0) + Duration(u64::MAX), Time(i64::MAX));
    assert_eq!(Time(i64::MIN) - Duration(1), Time(i64::MIN));
    assert_eq!(Time(10) - Duration(4), Time(6));
    assert_eq!(Time(4) - Time(10), Duration(0));
    assert_eq!(Time(10) - Time(4), Duration(6));
    assert_eq!(Time(i64::MAX) - Time(i64::MIN), Duration(i64::MAX as u64));
    assert_eq!(Time(3).max(Time(5)), Time(5));
    assert_eq!(Time(5).max(Time(3)), Time(5));
}

#[test]
fn going_ahead_and_back_is_neutral_within_range() {
    let start = Time(1_000);
    let span = Duration::from_millis(16);
    assert_eq!((start + span) - span, start);
    assert_eq!((start + span) - start, span);
    assert!(start + span > start);
    assert!(start - span < start);
}

#[test]
fn assignment_operators_do_the_same() {
    let mut time = Time(5);
    time += Duration(7);
    assert_eq!(time, Time(12));
    time -= Duration(2);
    assert_eq!(time, Time(10));
    let mut duration = Duration(5);
    duration += Duration(7);
    assert_eq!(duration, Duration(12));
    duration -= Duration(20);
    assert_eq!(duration, Duration(0));
}
