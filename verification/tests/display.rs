//! Display timing.

use understory::display::DisplayTiming;
use understory::time::Duration;

#[test]
fn displays_report_their_limits() {
    let fixed = DisplayTiming::fixed(Duration(100));
    assert_eq!(fixed.min_interval(), Duration(100));
    assert_eq!(fixed.max_interval(), Duration(100));
    assert_eq!(fixed.granularity(), Some(Duration(100)));
    assert!(!fixed.is_variable());

    let variable = DisplayTiming::variable(Duration(100), Duration(300), None);
    assert_eq!(variable.min_interval(), Duration(100));
    assert_eq!(variable.max_interval(), Duration(300));
    assert_eq!(variable.granularity(), None);
    assert!(variable.is_variable());
}

#[test]
fn fixed_displays_choose_the_smallest_number_of_refreshes() {
    let display = DisplayTiming::fixed(Duration(10_000_000));
    let chosen = |needed: u64| display.choose_interval(Duration(needed)).0;
    assert_eq!(chosen(0), 10_000_000);
    assert_eq!(chosen(10_000_000), 10_000_000);
    // An overrun within the tolerance is forgiven.
    assert_eq!(chosen(10_001_000), 10_000_000);
    assert_eq!(chosen(10_001_001), 20_000_000);
    assert_eq!(chosen(20_000_001), 20_000_000);
    assert_eq!(chosen(25_000_000), 30_000_000);
}

#[test]
fn a_display_without_an_interval_chooses_none() {
    let display = DisplayTiming::fixed(Duration::zero());
    assert_eq!(display.choose_interval(Duration(5)), Duration::zero());
    assert_eq!(
        display.choose_preferred_interval(Duration(5), None, None),
        Duration::zero()
    );
}

#[test]
fn stepped_displays_round_up_to_a_step() {
    let display = DisplayTiming::variable(
        Duration(8_000_000),
        Duration(20_000_000),
        Some(Duration(4_000_000)),
    );
    let chosen = |needed: u64| display.choose_interval(Duration(needed)).0;
    assert_eq!(chosen(1), 8_000_000);
    assert_eq!(chosen(8_500_000), 12_000_000);
    assert_eq!(chosen(12_000_500), 12_000_000);
    assert_eq!(chosen(99_000_000), 20_000_000);
}

#[test]
fn displays_with_continuous_control_use_what_is_needed() {
    let display = DisplayTiming::variable(
        Duration(8_000_000),
        Duration(20_000_000),
        Some(Duration::zero()),
    );
    assert_eq!(display.choose_interval(Duration(9_123_456)), Duration(9_123_456));
    assert_eq!(display.choose_interval(Duration(1)), Duration(8_000_000));
    assert_eq!(display.choose_interval(Duration(50_000_000)), Duration(20_000_000));
}

#[test]
fn preferred_intervals_stay_acceptable() {
    let display = DisplayTiming::fixed(Duration::from_millis(10));
    let chosen = |preferred: u64, min: Option<u64>, max: Option<u64>| {
        display
            .choose_preferred_interval(
                Duration::from_millis(preferred),
                min.map(Duration::from_millis),
                max.map(Duration::from_millis),
            )
            .0
            / 1_000_000
    };
    // The nearest whole number of refreshes, and the faster one on a tie.
    assert_eq!(chosen(14, None, None), 10);
    assert_eq!(chosen(15, None, None), 10);
    assert_eq!(chosen(16, None, None), 20);
    // The acceptable range overrides the distance.
    assert_eq!(chosen(14, Some(12), None), 20);
    assert_eq!(chosen(16, None, Some(19)), 10);
    // No whole number of refreshes is acceptable.
    assert_eq!(chosen(14, Some(12), Some(18)), 14);
    // Nothing is acceptable: the preferred interval has to be contained.
    assert_eq!(chosen(25, Some(40), Some(30)), 30);
}

#[test]
fn slow_consumers_divide_a_supported_source() {
    // 75 Hz down to 48 Hz with continuous control: 30 Hz is every other tick of 60 Hz.
    let display = DisplayTiming::variable(
        Duration::from_hz(75),
        Duration::from_hz(48),
        Some(Duration::zero()),
    );
    let wanted = Duration(33_333_334);
    let delivery = display.choose_preferred_interval(wanted, Some(wanted), None);
    assert_eq!(delivery, Duration(33_333_334));
    assert_eq!(
        display.choose_source_interval_for_delivery(delivery),
        Duration(16_666_667)
    );
}

#[test]
fn sources_are_supported_by_the_display() {
    let stepped = DisplayTiming::variable(
        Duration(8_000_000),
        Duration(20_000_000),
        Some(Duration(4_000_000)),
    );
    let unknown = DisplayTiming::variable(Duration(8_000_000), Duration(20_000_000), None);
    let fixed = DisplayTiming::fixed(Duration(8_000_000));
    for delivery in [1, 8_000_000, 13_000_000, 19_000_000, 50_000_000, 900_000_000] {
        let source = stepped.choose_source_interval_for_delivery(Duration(delivery));
        assert!(source >= Duration(8_000_000) && source <= Duration(20_000_000));
        assert_eq!(
            unknown.choose_source_interval_for_delivery(Duration(delivery)),
            Duration(8_000_000)
        );
        assert_eq!(
            fixed.choose_source_interval_for_delivery(Duration(delivery)),
            Duration(8_000_000)
        );
    }
    assert_eq!(
        stepped.choose_source_interval_for_delivery(Duration(13_000_000)),
        Duration(12_000_000)
    );
}

#[test]
fn preferred_intervals_on_stepped_displays_are_steps() {
    let display = DisplayTiming::variable(
        Duration::from_millis(8),
        Duration::from_millis(20),
        Some(Duration::from_millis(4)),
    );
    let chosen = |preferred: u64, min: Option<u64>, max: Option<u64>| {
        display
            .choose_preferred_interval(
                Duration::from_millis(preferred),
                min.map(Duration::from_millis),
                max.map(Duration::from_millis),
            )
            .0
            / 1_000_000
    };
    assert_eq!(chosen(13, None, None), 12);
    assert_eq!(chosen(15, None, None), 16);
    assert_eq!(chosen(13, Some(13), None), 16);
    assert_eq!(chosen(15, None, Some(15)), 12);
    assert_eq!(chosen(90, None, None), 20);
    // No whole number of steps is acceptable.
    assert_eq!(chosen(14, Some(13), Some(15)), 14);
}
