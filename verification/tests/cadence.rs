//! Cadences and frame-rate preferences, given in frames per second.

use understory::cadence::{
    choose_frame_rate_source_interval, FrameRatePlan, FrameRatePreference, TargetFrameCadence,
};
use understory::display::DisplayTiming;
use understory::time::Duration;

fn interval_from_fps(fps: f64) -> Option<Duration> {
    if !fps.is_finite() || fps <= 0.0 {
        return None;
    }
    let nanos = (1_000_000_000.0 / fps).round();
    if !nanos.is_finite() || nanos <= 0.0 || nanos > u64::MAX as f64 {
        return None;
    }
    Some(Duration::from_nanos(nanos as u64))
}

fn cadence_from_fps(fps: f64) -> Option<TargetFrameCadence> {
    interval_from_fps(fps).and_then(TargetFrameCadence::from_interval)
}

fn delivered_frames(
    cadence: TargetFrameCadence,
    display: DisplayTiming,
    tick_interval: Duration,
    ticks: u64,
) -> Vec<u64> {
    (0..ticks)
        .filter(|frame_index| cadence.should_deliver(*frame_index, display, tick_interval))
        .collect()
}

#[test]
fn target_frame_cadence_rounds_down_60fps_on_fixed_75hz() {
    let cadence = cadence_from_fps(60.0).unwrap();
    let display = DisplayTiming::fixed(Duration::from_hz(75));
    let delivered = delivered_frames(cadence, display, Duration::from_hz(75), 150);

    assert_eq!(delivered.len(), 75);
    assert_eq!(
        cadence.effective_interval(display),
        Duration::from_hz(75).saturating_mul(2)
    );
    assert!(delivered.windows(2).all(|pair| pair[1] - pair[0] == 2));
}

#[test]
fn target_frame_cadence_rounds_down_60fps_on_variable_48_to_75hz_with_unknown_granularity() {
    let cadence = cadence_from_fps(60.0).unwrap();
    let display = DisplayTiming::variable(Duration::from_hz(75), Duration::from_hz(48), None);
    let delivered = delivered_frames(cadence, display, Duration::from_hz(75), 150);

    assert_eq!(delivered.len(), 75);
    assert_eq!(
        cadence.effective_interval(display),
        Duration::from_hz(75).saturating_mul(2)
    );
}

#[test]
fn target_frame_cadence_rounds_down_when_target_is_outside_variable_range() {
    let display = DisplayTiming::variable(Duration::from_hz(75), Duration::from_hz(48), None);

    let too_fast = cadence_from_fps(90.0).unwrap();
    assert_eq!(too_fast.effective_interval(display), Duration::from_hz(75));

    let too_slow = cadence_from_fps(30.0).unwrap();
    assert_eq!(
        too_slow.effective_interval(display),
        Duration::from_hz(75).saturating_mul(3)
    );
}

#[test]
fn target_frame_cadence_delivers_even_60fps_on_120hz() {
    let cadence = cadence_from_fps(60.0).unwrap();
    let display = DisplayTiming::fixed(Duration::from_hz(120));
    let delivered = delivered_frames(cadence, display, Duration::from_hz(120), 120);

    assert_eq!(delivered.len(), 60);
    assert!(delivered.windows(2).all(|pair| pair[1] - pair[0] == 2));
}

#[test]
fn target_frame_cadence_rounds_down_30fps_on_fixed_75hz() {
    let cadence = cadence_from_fps(30.0).unwrap();
    let display = DisplayTiming::fixed(Duration::from_hz(75));
    let delivered = delivered_frames(cadence, display, Duration::from_hz(75), 75);

    assert_eq!(delivered.len(), 25);
    assert_eq!(
        cadence.effective_interval(display),
        Duration::from_hz(75).saturating_mul(3)
    );
}

#[test]
fn target_frame_cadence_does_not_throttle_faster_than_display_target() {
    let cadence = cadence_from_fps(120.0).unwrap();
    let display = DisplayTiming::fixed(Duration::from_hz(75));
    let delivered = delivered_frames(cadence, display, Duration::from_hz(75), 75);

    assert_eq!(delivered.len(), 75);
    assert_eq!(cadence.effective_interval(display), Duration::from_hz(75));
}

#[test]
fn frame_rate_at_most_rounds_down_on_fixed_75hz() {
    let preference = FrameRatePreference::at_most(interval_from_fps(60.0)).unwrap();
    let display = DisplayTiming::fixed(Duration::from_hz(75));

    assert_eq!(
        preference.effective_interval(display),
        Some(Duration::from_hz(75).saturating_mul(2))
    );
}

#[test]
fn frame_rate_at_most_below_vrr_minimum_rounds_down_from_full_source() {
    let preference = FrameRatePreference::at_most(interval_from_fps(30.0)).unwrap();
    let display = DisplayTiming::variable(Duration::from_hz(75), Duration::from_hz(48), None);

    assert_eq!(
        preference.effective_interval(display),
        Some(Duration::from_hz(75).saturating_mul(3))
    );
    assert_eq!(
        preference.plan(display).map(FrameRatePlan::source_interval),
        Some(Duration::from_hz(75))
    );
}

#[test]
fn frame_rate_group_chooses_source_that_best_serves_members() {
    let display = DisplayTiming::variable(Duration::from_hz(75), Duration::from_hz(48), None);
    let cube = FrameRatePreference::at_most(interval_from_fps(30.0)).unwrap();
    let animation = FrameRatePreference::at_most(interval_from_fps(60.0)).unwrap();

    assert_eq!(
        choose_frame_rate_source_interval(&[cube, animation], display),
        Duration::from_hz(75)
    );
}

#[test]
fn frame_rate_at_most_60_on_vrr_48_to_75_with_unknown_granularity_rounds_down_from_full_source()
{
    let preference = FrameRatePreference::at_most(interval_from_fps(60.0)).unwrap();
    let display = DisplayTiming::variable(Duration::from_hz(75), Duration::from_hz(48), None);
    let plan = preference.plan(display).unwrap();

    assert_eq!(plan.source_interval(), Duration::from_hz(75));
    assert_eq!(
        plan.delivery_interval(),
        Duration::from_hz(75).saturating_mul(2)
    );
    assert!(plan.should_deliver(0, Duration::from_hz(75)));
}

#[test]
fn frame_rate_at_most_30_on_vrr_48_to_75_with_unknown_granularity_rounds_down_from_full_source()
{
    let preference = FrameRatePreference::at_most(interval_from_fps(30.0)).unwrap();
    let display = DisplayTiming::variable(Duration::from_hz(75), Duration::from_hz(48), None);
    let plan = preference.plan(display).unwrap();

    assert_eq!(plan.source_interval(), Duration::from_hz(75));
    assert_eq!(
        plan.delivery_interval(),
        Duration::from_hz(75).saturating_mul(3)
    );
}

#[test]
fn frame_rate_group_at_most_60_and_30_on_vrr_48_to_75_with_unknown_granularity_uses_full_source()
 {
    let display = DisplayTiming::variable(Duration::from_hz(75), Duration::from_hz(48), None);
    let at_most_60 = FrameRatePreference::at_most(interval_from_fps(60.0)).unwrap();
    let at_most_30 = FrameRatePreference::at_most(interval_from_fps(30.0)).unwrap();

    assert_eq!(
        choose_frame_rate_source_interval(&[at_most_60, at_most_30], display),
        Duration::from_hz(75)
    );
}

#[test]
fn frame_rate_at_most_60_and_30_on_vrr_48_to_75_throttle_from_full_75hz_source() {
    let display = DisplayTiming::variable(Duration::from_hz(75), Duration::from_hz(48), None);
    let full_source = Duration::from_hz(75);
    let at_most_60 = FrameRatePreference::at_most(interval_from_fps(60.0)).unwrap();
    let at_most_30 = FrameRatePreference::at_most(interval_from_fps(30.0)).unwrap();

    let delivered_60 = (0..150)
        .filter(|frame_index| at_most_60.should_deliver(*frame_index, display, full_source))
        .count();
    let delivered_30 = (0..150)
        .filter(|frame_index| at_most_30.should_deliver(*frame_index, display, full_source))
        .count();

    assert_eq!(delivered_60, 75);
    assert_eq!(delivered_30, 50);
}

#[test]
fn frame_rate_at_most_24_on_vrr_with_unknown_granularity_uses_full_source_and_18_75hz_delivery()
{
    let preference = FrameRatePreference::at_most(interval_from_fps(24.0)).unwrap();
    let display = DisplayTiming::variable(Duration::from_hz(75), Duration::from_hz(48), None);

    assert_eq!(
        preference.plan(display).map(FrameRatePlan::source_interval),
        Some(Duration::from_hz(75))
    );
    assert_eq!(
        preference.effective_interval(display),
        Some(Duration::from_hz(75).saturating_mul(4))
    );
}

#[test]
fn variable_rate_with_granularity_uses_caller_source_interval() {
    let preference = FrameRatePreference::at_most(interval_from_fps(60.0)).unwrap();
    let display = DisplayTiming::variable(
        Duration::from_hz(120),
        Duration::from_hz(48),
        Some(Duration::from_nanos(4_166_667)),
    );
    let plan = preference.plan(display).unwrap();
    let selected_source = plan.source_interval();

    assert_eq!(selected_source, Duration::from_nanos(16_666_668));
    assert_eq!(plan.delivery_interval(), Duration::from_nanos(16_666_668));
    assert!(plan.should_deliver(0, selected_source));
    assert!(plan.should_deliver(1, selected_source));
    assert!(preference.should_deliver(0, display, selected_source));
    assert!(preference.should_deliver(1, display, selected_source));
}

#[test]
fn variable_rate_with_granularity_30hz_divides_selected_60hz_source_once() {
    let preference = FrameRatePreference::at_most(interval_from_fps(30.0)).unwrap();
    let display = DisplayTiming::variable(
        Duration::from_hz(120),
        Duration::from_hz(48),
        Some(Duration::from_nanos(4_166_667)),
    );
    let plan = preference.plan(display).unwrap();
    let selected_source = plan.source_interval();

    assert_eq!(selected_source, Duration::from_nanos(16_666_668));
    assert_eq!(plan.delivery_interval(), Duration::from_nanos(33_333_336));
    assert!(plan.should_deliver(0, selected_source));
    assert!(!plan.should_deliver(1, selected_source));
    assert!(plan.should_deliver(2, selected_source));
    assert!(preference.should_deliver(0, display, selected_source));
    assert!(!preference.should_deliver(1, display, selected_source));
    assert!(preference.should_deliver(2, display, selected_source));
}

#[test]
fn frame_rate_group_full_member_requests_full_source_rate() {
    let display = DisplayTiming::variable(Duration::from_hz(75), Duration::from_hz(48), None);
    let cube = FrameRatePreference::at_most(interval_from_fps(30.0)).unwrap();

    assert_eq!(
        choose_frame_rate_source_interval(&[cube, FrameRatePreference::full()], display),
        Duration::from_hz(75)
    );
}

#[test]
fn frame_rate_minimum_can_choose_higher_fixed_cadence() {
    let preference = FrameRatePreference::preferred(interval_from_fps(60.0))
        .unwrap()
        .minimum(interval_from_fps(50.0))
        .unwrap()
        .build();
    let display = DisplayTiming::fixed(Duration::from_hz(75));

    assert_eq!(
        preference.effective_interval(display),
        Some(Duration::from_hz(75))
    );
}

#[test]
fn frame_rate_range_with_unknown_granularity_chooses_clean_cadence_within_range() {
    let preference = FrameRatePreference::range(interval_from_fps(50.0), interval_from_fps(75.0))
        .unwrap()
        .preferred(interval_from_fps(60.0))
        .unwrap()
        .build();
    let display = DisplayTiming::variable(Duration::from_hz(75), Duration::from_hz(48), None);

    assert_eq!(
        preference.effective_interval(display),
        Some(Duration::from_hz(75))
    );
}

#[test]
fn frame_rate_range_accounts_for_display_granularity() {
    let preference = FrameRatePreference::range(interval_from_fps(50.0), interval_from_fps(120.0))
        .unwrap()
        .preferred(interval_from_fps(60.0))
        .unwrap()
        .build();
    let display = DisplayTiming::variable(
        Duration::from_hz(120),
        Duration::from_hz(24),
        Some(Duration::from_nanos(4_166_667)),
    );

    assert_eq!(
        preference.effective_interval(display),
        Some(Duration::from_nanos(16_666_668))
    );
}

#[test]
fn frame_rate_preference_rejects_invalid_combinations() {
    assert!(FrameRatePreference::at_most(interval_from_fps(0.0)).is_none());
    assert!(FrameRatePreference::preferred(interval_from_fps(f64::NAN)).is_none());
    assert!(FrameRatePreference::range(interval_from_fps(75.0), interval_from_fps(50.0)).is_none());
    assert!(
        FrameRatePreference::preferred(interval_from_fps(60.0))
            .unwrap()
            .range(interval_from_fps(75.0), interval_from_fps(50.0))
            .is_none()
    );
}

#[test]
fn delivered_frames_match_the_periods_that_began() {
    // 40 ms ticks for a 100 ms consumer: a new period begins within ticks 0, 2, 5, 7, ...
    let plan = FrameRatePlan::new(Duration::from_millis(40), Duration::from_millis(100)).unwrap();
    let delivered: Vec<u64> = (0..10)
        .filter(|index| plan.should_deliver(*index, Duration::from_millis(40)))
        .collect();
    assert_eq!(delivered, vec![0, 2, 5, 7]);
}

#[test]
fn fast_consumers_receive_every_tick() {
    let plan = FrameRatePlan::new(Duration(10), Duration(10)).unwrap();
    assert!((0..20).all(|index| plan.should_deliver(index, Duration(10))));
    assert!((0..20).all(|index| plan.should_deliver(index, Duration(11))));
    assert!((0..20).all(|index| plan.should_deliver(index, Duration(0))));
    assert!(!plan.should_deliver(1, Duration(5)));
    assert!(plan.should_deliver(u64::MAX, Duration(10)));
}

#[test]
fn plans_and_cadences_need_an_interval() {
    assert!(FrameRatePlan::new(Duration(0), Duration(1)).is_none());
    assert!(FrameRatePlan::new(Duration(1), Duration(0)).is_none());
    let plan = FrameRatePlan::new(Duration(3), Duration(9)).unwrap();
    assert_eq!(plan.source_interval(), Duration(3));
    assert_eq!(plan.delivery_interval(), Duration(9));
    assert!(TargetFrameCadence::from_interval(Duration(0)).is_none());
    let cadence = TargetFrameCadence::from_interval(Duration(7)).unwrap();
    assert_eq!(cadence.target_interval(), Duration(7));
}

#[test]
fn full_preferences_do_not_throttle() {
    let display = DisplayTiming::fixed(Duration::from_hz(60));
    let full = FrameRatePreference::full();
    assert_eq!(full.preferred_interval(), None);
    assert_eq!(full.plan(display), None);
    assert_eq!(full.effective_interval(display), None);
    assert!((0..10).all(|index| full.should_deliver(index, display, Duration(1))));
    assert!(TargetFrameCadence::from_preference(full, display).is_none());
}

#[test]
fn cadence_from_preference_has_the_delivery_interval() {
    let display = DisplayTiming::fixed(Duration::from_hz(75));
    let preference = FrameRatePreference::at_most(interval_from_fps(30.0)).unwrap();
    assert_eq!(
        preference.preferred_interval(),
        Some(Duration::from_nanos(33_333_333))
    );
    let cadence = TargetFrameCadence::from_preference(preference, display).unwrap();
    assert_eq!(
        cadence.target_interval(),
        Duration::from_hz(75).saturating_mul(3)
    );
}

#[test]
fn preferences_without_an_interval_are_refused() {
    assert!(FrameRatePreference::range(None, Some(Duration(1))).is_none());
    assert!(FrameRatePreference::range(Some(Duration(1)), None).is_none());
    let builder = FrameRatePreference::preferred(Some(Duration(10))).unwrap();
    assert!(builder.preferred(None).is_none());
    assert!(builder.minimum(None).is_none());
    assert!(builder.maximum(None).is_none());
    assert!(builder.range(None, None).is_none());
}

#[test]
fn builders_refuse_ranges_without_the_preferred_interval() {
    let builder = FrameRatePreference::preferred(Some(Duration(10))).unwrap();
    assert!(builder.minimum(Some(Duration(9))).is_none());
    assert!(builder.maximum(Some(Duration(11))).is_none());
    let bounded = builder
        .minimum(Some(Duration(20)))
        .unwrap()
        .maximum(Some(Duration(5)))
        .unwrap();
    assert!(bounded.preferred(Some(Duration(4))).is_none());
    assert!(bounded.preferred(Some(Duration(21))).is_none());
    assert!(bounded.minimum(Some(Duration(4))).is_none());
    assert!(bounded.maximum(Some(Duration(21))).is_none());
    assert!(bounded.range(Some(Duration(20)), Some(Duration(15))).is_none());
    assert_eq!(
        bounded.preferred(Some(Duration(15))).unwrap().build(),
        FrameRatePreference::Preferred {
            min_interval: Some(Duration(5)),
            preferred_interval: Duration(15),
            max_interval: Some(Duration(20)),
        }
    );
    assert_eq!(
        builder
            .range(Some(Duration(30)), Some(Duration(2)))
            .unwrap()
            .build(),
        FrameRatePreference::Preferred {
            min_interval: Some(Duration(2)),
            preferred_interval: Duration(10),
            max_interval: Some(Duration(30)),
        }
    );
}

#[test]
fn at_most_caps_the_frames_on_every_display() {
    let cap = interval_from_fps(24.0).unwrap();
    let preference = FrameRatePreference::at_most(Some(cap)).unwrap();
    let displays = [
        DisplayTiming::fixed(Duration::from_hz(60)),
        DisplayTiming::variable(Duration::from_hz(75), Duration::from_hz(48), None),
        DisplayTiming::variable(
            Duration::from_hz(120),
            Duration::from_hz(48),
            Some(Duration::from_nanos(4_166_667)),
        ),
    ];
    for display in displays {
        let plan = preference.plan(display).unwrap();
        assert!(plan.delivery_interval() >= cap);
        let tick = plan.source_interval();
        let delivered = (0..1000)
            .filter(|index| preference.should_deliver(*index, display, tick))
            .count() as u64;
        assert!((delivered - 1) * cap.0 < 1000 * tick.0);
    }
}

#[test]
fn groups_use_the_fastest_source_without_members() {
    let display = DisplayTiming::variable(Duration::from_hz(75), Duration::from_hz(48), None);
    assert_eq!(
        choose_frame_rate_source_interval(&[], display),
        Duration::from_hz(75)
    );
}

#[test]
fn groups_prefer_the_slowest_source_that_serves_all() {
    let display = DisplayTiming::variable(
        Duration::from_hz(120),
        Duration::from_hz(48),
        Some(Duration::from_nanos(4_166_667)),
    );
    let at_most_60 = FrameRatePreference::at_most(interval_from_fps(60.0)).unwrap();
    let at_most_30 = FrameRatePreference::at_most(interval_from_fps(30.0)).unwrap();
    // Every tick of 60 Hz serves one, every other tick the other.
    assert_eq!(
        choose_frame_rate_source_interval(&[at_most_60, at_most_30], display),
        Duration::from_nanos(16_666_668)
    );
}

#[test]
fn no_preference_is_made_of_a_zero_interval() {
    let zero = Some(Duration::zero());
    let ten = Some(Duration(10));
    assert!(FrameRatePreference::at_most(zero).is_none());
    assert!(FrameRatePreference::preferred(zero).is_none());
    assert!(FrameRatePreference::range(zero, zero).is_none());
    assert!(FrameRatePreference::range(ten, zero).is_none());
    let builder = FrameRatePreference::preferred(ten).unwrap();
    assert!(builder.preferred(zero).is_none());
    assert!(builder.minimum(zero).is_none());
    assert!(builder.maximum(zero).is_none());
    assert!(builder.range(ten, zero).is_none());
    assert!(builder.range(ten, Some(Duration(1))).is_some());
}

#[test]
fn equal_intervals_deliver_one_frame_per_period() {
    let plan = FrameRatePlan::new(Duration(7), Duration(7)).unwrap();
    let delivered = (0..9)
        .filter(|index| plan.should_deliver(*index, Duration(7)))
        .count();
    assert_eq!(delivered, 9);
}

#[test]
fn caps_below_a_reported_range_are_multiples_of_the_fastest_interval() {
    let display = DisplayTiming::variable(
        Duration::from_millis(10),
        Duration::from_millis(20),
        None,
    );
    for (cap, delivery) in [(21, 30), (30, 30), (31, 40), (155, 160), (160, 160)] {
        let preference =
            FrameRatePreference::at_most(Some(Duration::from_millis(cap))).unwrap();
        let plan = preference.plan(display).unwrap();
        assert_eq!(plan.source_interval(), Duration::from_millis(10));
        assert_eq!(plan.delivery_interval(), Duration::from_millis(delivery));
    }
}
