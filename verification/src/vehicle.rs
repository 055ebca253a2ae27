//! The vehicle state that the control center keeps and the command it sends.

use vstd::prelude::*;
use crate::controls::{Drive, HeldKeys, drive_in_range, control_step, valid_rates};

verus! {

/// The command sent to the vehicle: throttle `t`, steering `s`, brake `b`.
#[derive(Clone, Copy, Debug, PartialEq, Eq)]
pub struct Command {
    pub t: i32,
    pub s: i32,
    pub b: bool,
}

impl Command {
    /// The command that leaves the vehicle safe: no throttle, wheels
    /// straight, brake on.
    pub fn safe_stop() -> (c: Command)
        ensures
            c == (Command { t: 0, s: 0, b: true }),
    {
        Command { t: 0, s: 0, b: true }
    }
}

/// The line sent to the vehicle for a command already written as JSON:
/// the JSON text and a newline.
pub fn command_line(json: &str) -> (line: String)
    ensures
        line@ == json@ + seq!['\n'],
{
    proof {
        reveal_strlit("\n");
    }
    let mut line = String::new();
    line.append(json);
    line.append("\n");
    line
}

/// The state of the vehicle as the control center sees it.
#[derive(Clone, Copy, Debug, PartialEq, Eq)]
pub struct VehicleState {
    pub throttle: i32,
    pub steering: i32,
    pub brake: bool,
    pub auto_mode: bool,
    pub connected: bool,
    pub sim_mode: bool,
    pub camera_count: usize,
    pub active_camera: usize,
}

/// The state at start-up: idle, manual, disconnected, simulating, no camera.
pub open spec fn default_vehicle() -> VehicleState {
    VehicleState {
        throttle: 0,
        steering: 0,
        brake: false,
        auto_mode: false,
        connected: false,
        sim_mode: true,
        camera_count: 0,
        active_camera: 0,
    }
}

impl Default for VehicleState {
    fn default() -> (v: VehicleState)
        ensures
            v == default_vehicle(),
    {
        VehicleState {
            throttle: 0,
            steering: 0,
            brake: false,
            auto_mode: false,
            connected: false,
            sim_mode: true,
            camera_count: 0,
            active_camera: 0,
        }
    }
}

impl VehicleState {
    /// Throttle, steering and brake.
    pub open spec fn drive(self) -> Drive {
        Drive { throttle: self.throttle, steering: self.steering, brake: self.brake }
    }

    /// Throttle and steering lie within the vehicle's limits.
    pub open spec fn wf(self) -> bool {
        drive_in_range(self.drive())
    }

    /// The state after a reset: the defaults, except that the connection and
    /// the cameras are kept.
    pub open spec fn reset_spec(self) -> VehicleState {
        VehicleState {
            connected: self.connected,
            camera_count: self.camera_count,
            active_camera: self.active_camera,
            ..default_vehicle()
        }
    }

    /// The command for the current throttle, steering and brake.
    pub open spec fn command_spec(self) -> Command {
        Command { t: self.throttle, s: self.steering, b: self.brake }
    }

    /// The command for the current throttle, steering and brake.
    pub fn command(&self) -> (c: Command)
        ensures
            c == self.command_spec(),
    {
        Command { t: self.throttle, s: self.steering, b: self.brake }
    }

    /// One tick of the driving controls.
    pub fn apply_controls(&mut self, keys: HeldKeys, accel: i32, decel: i32)
        requires
            old(self).wf(),
            valid_rates(accel as int, decel as int),
        ensures
            final(self).drive() == control_step(old(self).drive(), keys, accel as int, decel as int),
            final(self).wf(),
            final(self).auto_mode == old(self).auto_mode,
            final(self).connected == old(self).connected,
            final(self).sim_mode == old(self).sim_mode,
            final(self).camera_count == old(self).camera_count,
            final(self).active_camera == old(self).active_camera,
    {
        let d = Drive { throttle: self.throttle, steering: self.steering, brake: self.brake };
        let next = d.step(keys, accel, decel);
        self.throttle = next.throttle;
        self.steering = next.steering;
        self.brake = next.brake;
    }

    /// Emergency stop: throttle and steering to zero, brake on, back to
    /// manual driving.
    pub fn emergency_stop(&mut self)
        ensures
            *final(self) == (VehicleState {
                throttle: 0,
                steering: 0,
                brake: true,
                auto_mode: false,
                ..*old(self)
            }),
    {
        self.throttle = 0;
        self.steering = 0;
        self.brake = true;
        self.auto_mode = false;
    }

    /// The defaults, keeping the connection and the cameras.
    pub fn reset(&self) -> (v: VehicleState)
        ensures
            v == self.reset_spec(),
    {
        VehicleState {
            connected: self.connected,
            camera_count: self.camera_count,
            active_camera: self.active_camera,
            ..VehicleState::default()
        }
    }

    /// The camera after the active one, wrapping round; with no camera
    /// detected it stays at zero.
    pub fn next_camera(&self) -> (n: usize)
        requires
            self.active_camera < usize::MAX,
        ensures
            n == next_camera_index(self.active_camera as int, self.camera_count as int),
    {
        let count = if self.camera_count > 1 { self.camera_count } else { 1 };
        (self.active_camera + 1) % count
    }
}

/// `(active + 1) % max(count, 1)`.
pub open spec fn next_camera_index(active: int, count: int) -> int {
    (active + 1) % (if count > 1 { count } else { 1 })
}

/// A reset leaves a state within the vehicle's limits, and resetting twice
/// is the same as resetting once.
pub proof fn lemma_reset_idempotent(v: VehicleState)
    ensures
        v.reset_spec().wf(),
        v.reset_spec().reset_spec() == v.reset_spec(),
{
}

/// Switching cameras stays among the detected cameras and, after as many
/// switches as there are cameras, comes back to where it started.
pub proof fn lemma_camera_cycle(active: int, count: int)
    requires
        count > 0,
        0 <= active < count,
    ensures
        0 <= next_camera_index(active, count) < count,
{
}

/// The index reached after `n` switches.
pub open spec fn switch_n(active: int, count: int, n: nat) -> int
    decreases n,
{
    if n == 0 { active } else { switch_n(next_camera_index(active, count), count, (n - 1) as nat) }
}

/// `n` switches advance the active camera by `n`, modulo the count.
pub proof fn lemma_switch_n(active: int, count: int, n: nat)
    requires
        count > 0,
        0 <= active < count,
    ensures
        switch_n(active, count, n) == (active + n) % count,
    decreases n,
{
    if n == 0 {
        vstd::arithmetic::div_mod::lemma_small_mod(active as nat, count as nat);
    } else {
        let next = next_camera_index(active, count);
        assert(next == (active + 1) % count);
        assert(0 <= next < count) by {
            vstd::arithmetic::div_mod::lemma_mod_bound(active + 1, count);
        }
        lemma_switch_n(next, count, (n - 1) as nat);
        vstd::arithmetic::div_mod::lemma_add_mod_noop_right(n - 1, active + 1, count);
        assert((n - 1) + (active + 1) == active + n);
    }
}

/// After as many switches as there are cameras the active camera is the
/// one it started from.
pub proof fn lemma_full_camera_cycle(active: int, count: int)
    requires
        count > 0,
        0 <= active < count,
    ensures
        switch_n(active, count, count as nat) == active,
{
    lemma_switch_n(active, count, count as nat);
    vstd::arithmetic::div_mod::lemma_mod_add_multiples_vanish(active, count);
    vstd::arithmetic::div_mod::lemma_small_mod(active as nat, count as nat);
}

/// Every command sent stays within the ranges that the board accepts:
/// throttle from -50 (reverse) to 100 percent, steering from -100 (left)
/// to 100 (right).
pub proof fn lemma_command_in_range(v: VehicleState)
    requires
        v.wf(),
    ensures
        -50 <= v.command_spec().t <= 100,
        -100 <= v.command_spec().s <= 100,
{
}


/// The command carries the vehicle state as it is: its throttle (reverse
/// included), steering and brake.
pub proof fn lemma_command_carries_state(v: VehicleState)
    ensures
        v.command_spec().t == v.throttle,
        v.command_spec().s == v.steering,
        v.command_spec().b == v.brake,
        v.throttle < 0 ==> v.command_spec().t < 0,
{
}

} // verus!
