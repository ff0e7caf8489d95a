//! Frame demand.

use understory::demand::FrameDemand;

#[test]
fn demand_is_a_set_of_causes() {
    let mut demand = FrameDemand::none();
    assert!(demand.is_empty());
    assert_eq!(demand, FrameDemand::default());
    demand.insert(FrameDemand::animation());
    demand.insert(FrameDemand::background());
    demand.insert(FrameDemand::animation());
    assert!(!demand.is_empty());
    assert!(demand.contains(FrameDemand::animation()));
    assert!(demand.contains(FrameDemand::background()));
    assert!(!demand.contains(FrameDemand::input()));
    assert!(!demand.contains(FrameDemand::continuous_input()));
    assert!(demand.contains(FrameDemand::none()));
    assert_eq!(
        demand,
        FrameDemand::background() | FrameDemand::animation()
    );
}

#[test]
fn causes_have_distinct_bits() {
    assert_eq!(FrameDemand::animation().0, 1);
    assert_eq!(FrameDemand::input().0, 2);
    assert_eq!(FrameDemand::continuous_input().0, 4);
    assert_eq!(FrameDemand::background().0, 8);
}
