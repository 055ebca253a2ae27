use ev_control::controls::{Drive, HeldKeys, PANEL_ACCEL, PANEL_DECEL, THROTTLE_MAX, THROTTLE_MIN, STEERING_LIMIT};

fn keys(forward: bool, back: bool, left: bool, right: bool, stop: bool) -> HeldKeys {
    HeldKeys { forward, back, left, right, stop }
}

fn none() -> HeldKeys {
    keys(false, false, false, false, false)
}

fn at(throttle: i32, steering: i32) -> Drive {
    Drive { throttle, steering, brake: false }
}

#[test]
fn forward_accelerates_by_four_per_tick() {
    let mut d = Drive::idle();
    for _ in 0..4 {
        d = d.step(keys(true, false, false, false, false), PANEL_ACCEL, PANEL_DECEL);
    }
    assert_eq!(d, Drive { throttle: 16, steering: 0, brake: false });
}

#[test]
fn forward_stops_at_full_throttle() {
    let d = at(98, 0).step(keys(true, false, false, false, false), PANEL_ACCEL, PANEL_DECEL);
    assert_eq!(d.throttle, THROTTLE_MAX);
    assert!(!d.brake);
}

#[test]
fn back_on_forward_throttle_brakes_twice_as_fast() {
    let d = at(10, 0).step(keys(false, true, false, false, false), PANEL_ACCEL, PANEL_DECEL);
    assert_eq!(d, Drive { throttle: 2, steering: 0, brake: true });
    let d = at(5, 0).step(keys(false, true, false, false, false), PANEL_ACCEL, PANEL_DECEL);
    assert_eq!(d, Drive { throttle: 0, steering: 0, brake: true });
}

#[test]
fn back_from_standstill_reverses_down_to_the_limit() {
    let d = at(0, 0).step(keys(false, true, false, false, false), PANEL_ACCEL, PANEL_DECEL);
    assert_eq!(d, Drive { throttle: -4, steering: 0, brake: false });
    let d = at(-48, 0).step(keys(false, true, false, false, false), PANEL_ACCEL, PANEL_DECEL);
    assert_eq!(d.throttle, THROTTLE_MIN);
}

#[test]
fn coasting_decays_toward_zero() {
    assert_eq!(at(10, 0).step(none(), PANEL_ACCEL, PANEL_DECEL).throttle, 4);
    assert_eq!(at(4, 0).step(none(), PANEL_ACCEL, PANEL_DECEL).throttle, 0);
    assert_eq!(at(-10, 0).step(none(), PANEL_ACCEL, PANEL_DECEL).throttle, -4);
    assert_eq!(at(6, 0).step(none(), PANEL_ACCEL, PANEL_DECEL).throttle, 0);
    let braking = Drive { throttle: 20, steering: 0, brake: true };
    assert!(!braking.step(none(), PANEL_ACCEL, PANEL_DECEL).brake);
}

#[test]
fn coasting_reaches_standstill() {
    let mut d = at(100, 30);
    for _ in 0..(100 / PANEL_DECEL + 1) {
        d = d.step(none(), PANEL_ACCEL, PANEL_DECEL);
    }
    assert_eq!(d.throttle, 0);
    assert_eq!(d.steering, 30);
}

#[test]
fn emergency_brake_overrides_forward() {
    let d = at(60, 10).step(keys(true, false, true, false, true), PANEL_ACCEL, PANEL_DECEL);
    assert_eq!(d, Drive { throttle: 0, steering: 6, brake: true });
}

#[test]
fn steering_moves_only_while_held_and_is_clamped() {
    assert_eq!(at(0, 0).step(keys(false, false, true, false, false), PANEL_ACCEL, PANEL_DECEL).steering, -4);
    assert_eq!(at(0, 98).step(keys(false, false, false, true, false), PANEL_ACCEL, PANEL_DECEL).steering, STEERING_LIMIT);
    assert_eq!(at(0, -99).step(keys(false, false, true, false, false), PANEL_ACCEL, PANEL_DECEL).steering, -STEERING_LIMIT);
    assert_eq!(at(0, 40).step(none(), PANEL_ACCEL, PANEL_DECEL).steering, 40);
    // A wins over D when both are held.
    assert_eq!(at(0, 0).step(keys(false, false, true, true, false), PANEL_ACCEL, PANEL_DECEL).steering, -4);
}

#[test]
fn controls_stay_in_range_over_many_ticks() {
    let mut d = Drive::idle();
    for i in 0..400u32 {
        let k = keys(i % 3 == 0, i % 5 == 0, i % 7 == 0, i % 2 == 0, i % 11 == 0);
        d = d.step(k, PANEL_ACCEL, PANEL_DECEL);
        assert!(THROTTLE_MIN <= d.throttle && d.throttle <= THROTTLE_MAX);
        assert!(-STEERING_LIMIT <= d.steering && d.steering <= STEERING_LIMIT);
    }
}
