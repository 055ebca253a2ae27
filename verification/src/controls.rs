//! The driving control law: how held keys move the throttle, the steering
//! and the brake from one control tick to the next.

use vstd::prelude::*;

verus! {

/// Highest forward throttle, in percent.
pub const THROTTLE_MAX: i32 = 100;

/// Lowest (reverse) throttle, in percent.
pub const THROTTLE_MIN: i32 = -50;

/// Steering limit on either side.
pub const STEERING_LIMIT: i32 = 100;

/// Throttle and steering change per tick of the control panel.
pub const PANEL_ACCEL: i32 = 4;

/// Throttle decay per tick of the control panel when no throttle key is held.
pub const PANEL_DECEL: i32 = 6;

/// The keys that the operator holds during one control tick.
#[derive(Clone, Copy, Debug, PartialEq, Eq)]
pub struct HeldKeys {
    /// `W`: accelerate.
    pub forward: bool,
    /// `S`: brake, then reverse.
    pub back: bool,
    /// `A`: steer left.
    pub left: bool,
    /// `D`: steer right.
    pub right: bool,
    /// Space: emergency brake.
    pub stop: bool,
}

/// What the vehicle is told to do: throttle (negative is reverse),
/// steering (negative is left) and the brake.
#[derive(Clone, Copy, Debug, PartialEq, Eq)]
pub struct Drive {
    pub throttle: i32,
    pub steering: i32,
    pub brake: bool,
}

/// Throttle and steering lie within the limits of the vehicle.
pub open spec fn drive_in_range(d: Drive) -> bool {
    &&& THROTTLE_MIN <= d.throttle <= THROTTLE_MAX
    &&& -STEERING_LIMIT <= d.steering <= STEERING_LIMIT
}

pub open spec fn min_int(a: int, b: int) -> int {
    if a <= b { a } else { b }
}

pub open spec fn max_int(a: int, b: int) -> int {
    if a >= b { a } else { b }
}

pub open spec fn abs_int(a: int) -> int {
    if a < 0 { -a } else { a }
}

/// Throttle and brake after one tick, before the emergency brake is applied.
pub open spec fn throttle_step(t: int, keys: HeldKeys, accel: int, decel: int) -> (int, bool) {
    if keys.forward {
        (min_int(t + accel, THROTTLE_MAX as int), false)
    } else if keys.back {
        if t > 0 {
            (max_int(t - 2 * accel, 0), true)
        } else {
            (max_int(t - accel, THROTTLE_MIN as int), false)
        }
    } else {
        (if abs_int(t) < decel { 0 } else if t > 0 { t - decel } else { t + decel }, false)
    }
}

/// Steering after one tick: it moves only while `A` or `D` is held and never
/// returns to the centre by itself.
pub open spec fn steering_step(s: int, keys: HeldKeys, accel: int) -> int {
    if keys.left {
        max_int(s - accel, -STEERING_LIMIT as int)
    } else if keys.right {
        min_int(s + accel, STEERING_LIMIT as int)
    } else {
        s
    }
}

/// The whole control tick.
pub open spec fn control_step(d: Drive, keys: HeldKeys, accel: int, decel: int) -> Drive {
    let (t, b) = throttle_step(d.throttle as int, keys, accel, decel);
    let s = steering_step(d.steering as int, keys, accel);
    if keys.stop {
        Drive { throttle: 0, steering: s as i32, brake: true }
    } else {
        Drive { throttle: t as i32, steering: s as i32, brake: b }
    }
}

/// Step sizes that a control tick accepts.
pub open spec fn valid_rates(accel: int, decel: int) -> bool {
    0 <= accel <= 100 && 0 <= decel <= 100
}

impl Drive {
    /// Standing still, steering centred, brake off.
    pub fn idle() -> (d: Drive)
        ensures
            d == (Drive { throttle: 0, steering: 0, brake: false }),
    {
        Drive { throttle: 0, steering: 0, brake: false }
    }

    /// One control tick: applies the held keys with the given step sizes.
    pub fn step(&self, keys: HeldKeys, accel: i32, decel: i32) -> (next: Drive)
        requires
            drive_in_range(*self),
            valid_rates(accel as int, decel as int),
        ensures
            next == control_step(*self, keys, accel as int, decel as int),
            drive_in_range(next),
    {
        let t = self.throttle;
        let mut throttle: i32;
        let mut brake: bool;
        if keys.forward {
            throttle = if t + accel < THROTTLE_MAX { t + accel } else { THROTTLE_MAX };
            brake = false;
        } else if keys.back {
            if t > 0 {
                throttle = if t - 2 * accel > 0 { t - 2 * accel } else { 0 };
                brake = true;
            } else {
                throttle = if t - accel > THROTTLE_MIN { t - accel } else { THROTTLE_MIN };
                brake = false;
            }
        } else {
            let magnitude: i32 = if t < 0 { -t } else { t };
            if magnitude < decel {
                throttle = 0;
            } else if t > 0 {
                throttle = t - decel;
            } else {
                throttle = t + decel;
            }
            brake = false;
        }
        let s = self.steering;
        let steering: i32 = if keys.left {
            if s - accel > -STEERING_LIMIT { s - accel } else { -STEERING_LIMIT }
        } else if keys.right {
            if s + accel < STEERING_LIMIT { s + accel } else { STEERING_LIMIT }
        } else {
            s
        };
        if keys.stop {
            brake = true;
            throttle = 0;
        }
        Drive { throttle, steering, brake }
    }
}

/// A control tick keeps throttle and steering within the vehicle's limits.
pub proof fn lemma_step_stays_in_range(d: Drive, keys: HeldKeys, accel: int, decel: int)
    requires
        drive_in_range(d),
        valid_rates(accel, decel),
    ensures
        drive_in_range(control_step(d, keys, accel, decel)),
{
}

/// Holding the emergency brake always cuts the throttle and sets the brake,
/// whatever else is held.
pub proof fn lemma_emergency_brake_wins(d: Drive, keys: HeldKeys, accel: int, decel: int)
    requires
        keys.stop,
    ensures
        control_step(d, keys, accel, decel).throttle == 0,
        control_step(d, keys, accel, decel).brake,
{
}

/// Steering does not return to the centre by itself: without `A` or `D`
/// it keeps its value.
pub proof fn lemma_steering_holds_without_keys(d: Drive, keys: HeldKeys, accel: int, decel: int)
    requires
        !keys.left,
        !keys.right,
    ensures
        control_step(d, keys, accel, decel).steering == d.steering,
{
}

/// With no throttle key held the vehicle coasts: the throttle moves toward
/// zero by the decay step (or stops at zero) and the brake is released.
pub proof fn lemma_coasting_decays(d: Drive, keys: HeldKeys, accel: int, decel: int)
    requires
        drive_in_range(d),
        valid_rates(accel, decel),
        !keys.forward,
        !keys.back,
        !keys.stop,
    ensures
        ({
            let t = d.throttle as int;
            let n = control_step(d, keys, accel, decel).throttle as int;
            &&& abs_int(n) <= abs_int(t)
            &&& (n == 0 || (t > 0 && n == t - decel) || (t < 0 && n == t + decel))
            &&& !control_step(d, keys, accel, decel).brake
        }),
{
}

/// `W` never brakes and never pushes the throttle down; `S` on a forward
/// throttle brakes without turning it into reverse in the same tick.
pub proof fn lemma_forward_and_back(d: Drive, keys: HeldKeys, accel: int, decel: int)
    requires
        drive_in_range(d),
        valid_rates(accel, decel),
        !keys.stop,
    ensures
        keys.forward ==> {
            &&& !control_step(d, keys, accel, decel).brake
            &&& control_step(d, keys, accel, decel).throttle >= d.throttle
        },
        (!keys.forward && keys.back && d.throttle > 0) ==> {
            &&& control_step(d, keys, accel, decel).brake
            &&& 0 <= control_step(d, keys, accel, decel).throttle < d.throttle || accel == 0
        },
{
}

/// The throttle after `n` ticks with no key held.
pub open spec fn coast(d: Drive, decel: int, n: nat) -> Drive
    decreases n,
{
    if n == 0 {
        d
    } else {
        coast(control_step(d, HeldKeys { forward: false, back: false, left: false, right: false, stop: false }, 0, decel), decel, (n - 1) as nat)
    }
}

/// Releasing every key brings the vehicle to a standstill: after
/// `|throttle| / decel + 1` ticks the throttle is zero, and it stays zero.
pub proof fn lemma_coasting_stops(d: Drive, decel: int, n: nat)
    requires
        drive_in_range(d),
        0 < decel <= 100,
        n >= abs_int(d.throttle as int) / decel + 1,
    ensures
        coast(d, decel, n).throttle == 0,
    decreases n,
{
    let keys = HeldKeys { forward: false, back: false, left: false, right: false, stop: false };
    let next = control_step(d, keys, 0, decel);
    let t = d.throttle as int;
    assert(coast(d, decel, n) == coast(next, decel, (n - 1) as nat));
    assert(abs_int(next.throttle as int) <= abs_int(t));
    if abs_int(t) < decel {
        assert(next.throttle == 0);
        if n > 1 {
            assert(abs_int(next.throttle as int) / decel + 1 == 1) by (nonlinear_arith)
                requires next.throttle == 0, decel > 0;
            lemma_coasting_stops(next, decel, (n - 1) as nat);
        } else {
            assert(coast(next, decel, 0) == next);
        }
    } else {
        assert(abs_int(next.throttle as int) == abs_int(t) - decel);
        assert(abs_int(next.throttle as int) / decel + 1 == abs_int(t) / decel) by (nonlinear_arith)
            requires abs_int(next.throttle as int) == abs_int(t) - decel, decel > 0, abs_int(t) >= decel;
        lemma_coasting_stops(next, decel, (n - 1) as nat);
    }
}


/// The control law written out key by key, for step sizes `accel` and
/// `decel`: Space stops and brakes; otherwise `W` adds `accel` up to 100
/// without braking; `S` on a forward throttle takes off twice `accel`, not
/// below 0, and brakes; `S` at a standstill or in reverse takes off `accel`,
/// not below -50, and does not brake; with neither, the throttle moves
/// `decel` toward 0 (stopping at 0) and the brake is off. `A` steers left by
/// `accel` down to -100, else `D` steers right up to 100, else the steering
/// stays.
pub proof fn lemma_control_rules(d: Drive, keys: HeldKeys, accel: int, decel: int)
    requires
        drive_in_range(d),
        valid_rates(accel, decel),
    ensures
        ({
            let n = control_step(d, keys, accel, decel);
            let t = d.throttle as int;
            let s = d.steering as int;
            &&& keys.stop ==> n.throttle == 0 && n.brake
            &&& (!keys.stop && keys.forward) ==> n.throttle == (if t + accel <= 100 { t + accel } else { 100 }) && !n.brake
            &&& (!keys.stop && !keys.forward && keys.back && t > 0) ==>
                n.throttle == (if t - 2 * accel >= 0 { t - 2 * accel } else { 0 }) && n.brake
            &&& (!keys.stop && !keys.forward && keys.back && t <= 0) ==>
                n.throttle == (if t - accel >= -50 { t - accel } else { -50 }) && !n.brake
            &&& (!keys.stop && !keys.forward && !keys.back) ==> !n.brake && n.throttle == (
                if -decel < t < decel { 0 } else if t > 0 { t - decel } else { t + decel })
            &&& keys.left ==> n.steering == (if s - accel >= -100 { s - accel } else { -100 })
            &&& (!keys.left && keys.right) ==> n.steering == (if s + accel <= 100 { s + accel } else { 100 })
            &&& (!keys.left && !keys.right) ==> n.steering == s
        }),
{
}

/// Holding `S` at a standstill or in reverse backs up without braking, by
/// one step per tick down to -50, so reverse is really driven.
pub proof fn lemma_reverse_without_brake(d: Drive, keys: HeldKeys, accel: int, decel: int)
    requires
        drive_in_range(d),
        valid_rates(accel, decel),
        keys.back,
        !keys.forward,
        !keys.stop,
        d.throttle <= 0,
    ensures
        !control_step(d, keys, accel, decel).brake,
        control_step(d, keys, accel, decel).throttle == (if d.throttle - accel >= -50 { d.throttle - accel } else { -50 }),
        d.throttle > -50 && accel > 0 ==> control_step(d, keys, accel, decel).throttle < d.throttle,
{
}

} // verus!
