//! Rounding-direction tests for the division helpers and the tick interval.

use crosshair_overlay::numeric::{fps_to_tick_interval, DivCeil, DivFloor};

/// this is obvious, but it documents the baseline the floor/ceil helpers fix up
#[test]
fn positive_div_rounds_down() {
    assert_eq!(101 / 2, 50);
}

/// rust integer division rounds towards zero; some pixel math wants floor instead
#[test]
fn negative_div_rounds_up() {
    assert_eq!(-101 / 2, -50);
}

#[test]
fn div_ceil_usize_no_round() {
    assert_eq!(100usize.div_ceil_placeholder(2), 50);
}

#[test]
fn div_ceil_u64_no_round() {
    assert_eq!(100u64.div_ceil_placeholder(2), 50);
}

#[test]
fn div_ceil_usize_rounds_up() {
    assert_eq!(101usize.div_ceil_placeholder(2), 51);
}

#[test]
fn div_ceil_u64_rounds_up() {
    assert_eq!(101u64.div_ceil_placeholder(2), 51);
}

#[test]
fn positive_div_floor_rounds_down() {
    assert_eq!(101.div_floor_placeholder(2), 50);
}

#[test]
fn positive_div_floor_no_round() {
    assert_eq!(100.div_floor_placeholder(2), 50);
}

#[test]
fn negative_div_floor_rounds_down() {
    assert_eq!((-101).div_floor_placeholder(2), -51);
}

#[test]
fn negative_div_floor_no_round() {
    assert_eq!((-100).div_floor_placeholder(2), -50);
}

#[test]
fn div_ceil_u32_cases() {
    assert_eq!(100u32.div_ceil_placeholder(2), 50);
    assert_eq!(101u32.div_ceil_placeholder(2), 51);
    assert_eq!(0u32.div_ceil_placeholder(7), 0);
}

#[test]
fn div_floor_negative_divisor() {
    assert_eq!(7.div_floor_placeholder(-2), -4);
    assert_eq!((-7).div_floor_placeholder(-2), 3);
    assert_eq!(8.div_floor_placeholder(-2), -4);
}

#[test]
fn tick_interval_rounds_up() {
    assert_eq!(fps_to_tick_interval(60), 17);
    assert_eq!(fps_to_tick_interval(1000), 1);
    assert_eq!(fps_to_tick_interval(1), 1000);
    assert_eq!(fps_to_tick_interval(250), 4);
}
