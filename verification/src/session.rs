//! The control center's decisions for one frame of the operator panel:
//! keyboard input, pending requests (emergency stop, reset, reconnect,
//! camera switch), the driving tick and the rate of commands to the vehicle.
//! The panel itself performs the I/O that these decisions ask for.

use vstd::prelude::*;
use crate::controls::{HeldKeys, control_step, steering_step, PANEL_ACCEL, PANEL_DECEL, STEERING_LIMIT};
use crate::keys::{ControlKey, KeyTracker, key_held, key_code, elapsed, KEY_TIMEOUT_MS};
use crate::text::{decimal, views, with_number, owned};
use crate::vehicle::{Command, VehicleState, default_vehicle, next_camera_index};

verus! {

/// Commands go out at most this often, in milliseconds.
pub const SEND_PERIOD_MS: u64 = 50;

/// The keyboard during one frame: which driving keys are down and which
/// command keys were pressed.
#[derive(Clone, Copy, Debug, PartialEq, Eq)]
pub struct FrameInput {
    pub w_down: bool,
    pub a_down: bool,
    pub s_down: bool,
    pub d_down: bool,
    pub space_down: bool,
    /// `Q`, or Ctrl+C.
    pub quit: bool,
    /// Escape: emergency stop.
    pub escape: bool,
    /// `R`: reset.
    pub reset: bool,
    /// `M`: simulation or GPS.
    pub mode: bool,
    /// `P`: autonomous or manual.
    pub auto_toggle: bool,
}

/// What handling the keyboard asks of the panel.
pub struct InputOutcome {
    /// Shut the program down.
    pub quit: bool,
    /// Lines to write to the log, in order.
    pub messages: Vec<String>,
}

/// What handling the pending requests asks of the panel.
pub struct RequestOutcome {
    /// The vehicle state was reset: the position shown on the map goes back
    /// to its start too.
    pub reset: bool,
    /// Lines to write to the log, in order.
    pub messages: Vec<String>,
}

/// The log line for a change of driving mode by key.
pub open spec fn mode_key_message(sim: bool) -> Seq<char> {
    if sim { "SIM mode"@ } else { "GPS mode"@ }
}

/// The log line for a change of driving mode by the panel's button.
pub open spec fn mode_button_message(sim: bool) -> Seq<char> {
    if sim { "SIM mode (map moves)"@ } else { "GPS mode (static)"@ }
}

/// The log line for a change between autonomous and manual driving.
pub open spec fn auto_message(auto: bool) -> Seq<char> {
    if auto { "AUTO mode"@ } else { "MANUAL mode"@ }
}

/// The key presses that one frame records.
pub open spec fn record_presses(p: Map<u8, u64>, input: FrameInput, now: u64) -> Map<u8, u64> {
    let p1 = if input.w_down { p.insert(key_code(ControlKey::W), now) } else { p };
    let p2 = if input.a_down { p1.insert(key_code(ControlKey::A), now) } else { p1 };
    let p3 = if input.s_down { p2.insert(key_code(ControlKey::S), now) } else { p2 };
    let p4 = if input.d_down { p3.insert(key_code(ControlKey::D), now) } else { p3 };
    if input.space_down { p4.insert(key_code(ControlKey::Space), now) } else { p4 }
}

/// The driving keys held at `now`.
pub open spec fn held_at(p: Map<u8, u64>, now: u64) -> HeldKeys {
    HeldKeys {
        forward: key_held(p, ControlKey::W, now, KEY_TIMEOUT_MS),
        back: key_held(p, ControlKey::S, now, KEY_TIMEOUT_MS),
        left: key_held(p, ControlKey::A, now, KEY_TIMEOUT_MS),
        right: key_held(p, ControlKey::D, now, KEY_TIMEOUT_MS),
        stop: key_held(p, ControlKey::Space, now, KEY_TIMEOUT_MS),
    }
}

/// Records the driving keys that are down in this frame.
fn record_keys(keys: &mut KeyTracker, input: FrameInput, now: u64)
    ensures
        final(keys)@ == record_presses(old(keys)@, input, now),
{
    if input.w_down {
        keys.press(ControlKey::W, now);
    }
    if input.a_down {
        keys.press(ControlKey::A, now);
    }
    if input.s_down {
        keys.press(ControlKey::S, now);
    }
    if input.d_down {
        keys.press(ControlKey::D, now);
    }
    if input.space_down {
        keys.press(ControlKey::Space, now);
    }
}

/// Switches the driving modes toggled by key; returns the log lines.
fn toggle_modes(v: &mut VehicleState, input: FrameInput) -> (messages: Vec<String>)
    ensures
        ({
            let sim = if input.mode { !old(v).sim_mode } else { old(v).sim_mode };
            let auto = if input.auto_toggle { !old(v).auto_mode } else { old(v).auto_mode };
            &&& *final(v) == (VehicleState { sim_mode: sim, auto_mode: auto, ..*old(v) })
            &&& views(messages@) == (if input.mode { seq![mode_key_message(sim)] } else { Seq::empty() })
                + (if input.auto_toggle { seq![auto_message(auto)] } else { Seq::empty() })
        }),
{
    let mut messages: Vec<String> = Vec::new();
    if input.mode {
        v.sim_mode = !v.sim_mode;
        messages.push(if v.sim_mode { owned("SIM mode") } else { owned("GPS mode") });
    }
    let ghost after_mode = messages@;
    if input.auto_toggle {
        v.auto_mode = !v.auto_mode;
        messages.push(if v.auto_mode { owned("AUTO mode") } else { owned("MANUAL mode") });
    }
    assert(views(messages@) =~= views(after_mode) + (if input.auto_toggle { seq![auto_message(v.auto_mode)] } else { Seq::empty() }));
    assert(views(after_mode) =~= (if input.mode { seq![mode_key_message(v.sim_mode)] } else { Seq::<Seq<char>>::empty() }));
    messages
}

/// The lines that open the log.
pub fn startup_banner() -> (lines: Vec<String>)
    ensures
        views(lines@) == seq![
            "═══════════════════════════════════════"@,
            "EV Prototype Control Center v1.3"@,
            "Texas A&M FLiNT - Team Autopilot"@,
            "═══════════════════════════════════════"@,
        ],
{
    let mut lines: Vec<String> = Vec::new();
    lines.push(owned("═══════════════════════════════════════"));
    lines.push(owned("EV Prototype Control Center v1.3"));
    lines.push(owned("Texas A&M FLiNT - Team Autopilot"));
    lines.push(owned("═══════════════════════════════════════"));
    assert(views(lines@) =~= seq![
        "═══════════════════════════════════════"@,
        "EV Prototype Control Center v1.3"@,
        "Texas A&M FLiNT - Team Autopilot"@,
        "═══════════════════════════════════════"@,
    ]);
    lines
}

/// The vehicle state after the pending requests are carried out: first the
/// emergency stop, then the reset.
pub open spec fn requests_outcome(v: VehicleState, estop: bool, reset: bool) -> VehicleState {
    let stopped = if estop {
        VehicleState { throttle: 0, steering: 0, brake: true, auto_mode: false, ..v }
    } else {
        v
    };
    if reset { stopped.reset_spec() } else { stopped }
}

/// Whether the frame carries out an emergency stop, after the pending
/// requests: a stop marks it, a reset in the same frame clears it.
pub open spec fn stop_frame_after_requests(stop_frame: bool, estop: bool, reset: bool) -> bool {
    if reset { false } else if estop { true } else { stop_frame }
}

/// The vehicle state after a manual driving tick at `now`: the held keys
/// move the controls and the camera count is taken over.
pub open spec fn drive_outcome(v: VehicleState, presses: Map<u8, u64>, now: u64, camera_count: usize) -> VehicleState {
    let d = control_step(v.drive(), held_at(presses, now), PANEL_ACCEL as int, PANEL_DECEL as int);
    VehicleState { throttle: d.throttle, steering: d.steering, brake: d.brake, camera_count, ..v }
}

/// The vehicle state at the end of a frame: in the frame that carries out an
/// emergency stop, the stop holds over that frame's driving tick, so the
/// vehicle leaves the frame stopped with the brake on.
pub open spec fn finish_outcome(v: VehicleState, stop_frame: bool) -> VehicleState {
    if stop_frame {
        VehicleState { throttle: 0, steering: 0, brake: true, auto_mode: false, ..v }
    } else {
        v
    }
}

/// The vehicle state after a tick in autonomous mode: the operator's
/// steering keys still move the steering, nothing else changes.
pub open spec fn auto_outcome(v: VehicleState, presses: Map<u8, u64>, now: u64) -> VehicleState {
    VehicleState {
        steering: steering_step(v.steering as int, held_at(presses, now), PANEL_ACCEL as int) as i32,
        ..v
    }
}

/// The decision state of the control center as plain values.
pub struct CenterView {
    pub vehicle: VehicleState,
    pub presses: Map<u8, u64>,
    pub estop_requested: bool,
    pub reset_requested: bool,
    pub reconnect_requested: bool,
    pub switch_requested: bool,
    pub last_send: u64,
    /// The current frame carries out an emergency stop.
    pub stop_frame: bool,
}

/// The decision state of the control center.
pub struct ControlCenter {
    state: VehicleState,
    keys: KeyTracker,
    estop_pressed: bool,
    reset_pressed: bool,
    reconnect_all: bool,
    switch_camera: bool,
    last_send_ms: u64,
    stop_frame: bool,
}

impl View for ControlCenter {
    type V = CenterView;

    closed spec fn view(&self) -> CenterView {
        CenterView {
            vehicle: self.state,
            presses: self.keys@,
            estop_requested: self.estop_pressed,
            reset_requested: self.reset_pressed,
            reconnect_requested: self.reconnect_all,
            switch_requested: self.switch_camera,
            last_send: self.last_send_ms,
            stop_frame: self.stop_frame,
        }
    }
}

/// Throttle and steering are within the vehicle's limits.
pub open spec fn center_wf(c: CenterView) -> bool {
    c.vehicle.wf()
}

impl ControlCenter {
    #[verifier::type_invariant]
    spec fn inv(&self) -> bool {
        self.state.wf()
    }

    /// The control center at start-up, with the result of the first search
    /// for the vehicle's board and the time of start.
    pub fn new(connected: bool, now: u64) -> (c: ControlCenter)
        ensures
            c@ == (CenterView {
                vehicle: VehicleState { connected, ..default_vehicle() },
                presses: Map::<u8, u64>::empty(),
                estop_requested: false,
                reset_requested: false,
                reconnect_requested: false,
                switch_requested: false,
                last_send: now,
                stop_frame: false,
            }),
    {
        ControlCenter {
            state: VehicleState { connected, ..VehicleState::default() },
            keys: KeyTracker::new(),
            estop_pressed: false,
            reset_pressed: false,
            reconnect_all: false,
            switch_camera: false,
            last_send_ms: now,
            stop_frame: false,
        }
    }

    /// The vehicle state; it always lies within the vehicle's limits.
    pub fn vehicle_state(&self) -> (v: VehicleState)
        ensures
            v == self@.vehicle,
            center_wf(self@),
    {
        proof {
            use_type_invariant(self);
        }
        self.state
    }

    /// Whether `key` counts as held at `now`.
    pub fn is_key_held(&self, key: ControlKey, now: u64) -> (held: bool)
        ensures
            held == key_held(self@.presses, key, now, KEY_TIMEOUT_MS),
    {
        self.keys.is_key_held(key, now)
    }

    /// Handles the keyboard of one frame at time `now`: records the driving
    /// keys that are down; on quit asks to shut down and does nothing more;
    /// otherwise records an emergency stop or a reset and switches the
    /// driving modes that were toggled.
    pub fn handle_input(&mut self, input: FrameInput, now: u64) -> (out: InputOutcome)
        ensures
            out.quit == input.quit,
            input.quit ==> {
                &&& views(out.messages@) == seq!["Shutting down..."@]
                &&& final(self)@ == (CenterView { presses: record_presses(old(self)@.presses, input, now), ..old(self)@ })
            },
            !input.quit ==> {
                let v = old(self)@.vehicle;
                let sim = if input.mode { !v.sim_mode } else { v.sim_mode };
                let auto = if input.auto_toggle { !v.auto_mode } else { v.auto_mode };
                &&& final(self)@ == (CenterView {
                    vehicle: VehicleState { sim_mode: sim, auto_mode: auto, ..v },
                    presses: record_presses(old(self)@.presses, input, now),
                    estop_requested: old(self)@.estop_requested || input.escape,
                    reset_requested: old(self)@.reset_requested || input.reset,
                    ..old(self)@
                })
                &&& views(out.messages@) == (if input.mode { seq![mode_key_message(sim)] } else { Seq::empty() })
                    + (if input.auto_toggle { seq![auto_message(auto)] } else { Seq::empty() })
            },
    {
        proof {
            use_type_invariant(&*self);
        }
        let mut keys = KeyTracker::new();
        std::mem::swap(&mut keys, &mut self.keys);
        record_keys(&mut keys, input, now);
        self.keys = keys;
        if input.quit {
            let mut messages: Vec<String> = Vec::new();
            messages.push(owned("Shutting down..."));
            assert(views(messages@) =~= seq!["Shutting down..."@]);
            return InputOutcome { quit: true, messages };
        }
        if input.escape {
            self.estop_pressed = true;
        }
        if input.reset {
            self.reset_pressed = true;
        }
        let mut st = self.state;
        let messages = toggle_modes(&mut st, input);
        self.state = st;
        InputOutcome { quit: false, messages }
    }

    /// The emergency-stop button.
    pub fn press_estop(&mut self)
        ensures
            final(self)@ == (CenterView { estop_requested: true, ..old(self)@ }),
    {
        proof {
            use_type_invariant(&*self);
        }
        self.estop_pressed = true;
    }

    /// The reset button.
    pub fn press_reset(&mut self)
        ensures
            final(self)@ == (CenterView { reset_requested: true, ..old(self)@ }),
    {
        proof {
            use_type_invariant(&*self);
        }
        self.reset_pressed = true;
    }

    /// The reconnect button.
    pub fn press_reconnect(&mut self)
        ensures
            final(self)@ == (CenterView { reconnect_requested: true, ..old(self)@ }),
    {
        proof {
            use_type_invariant(&*self);
        }
        self.reconnect_all = true;
    }

    /// The button that moves to the next camera.
    pub fn press_switch_camera(&mut self)
        ensures
            final(self)@ == (CenterView { switch_requested: true, ..old(self)@ }),
    {
        proof {
            use_type_invariant(&*self);
        }
        self.switch_camera = true;
    }

    /// The button that switches between simulation and GPS; returns the log line.
    pub fn toggle_sim_mode(&mut self) -> (msg: String)
        ensures
            final(self)@ == (CenterView {
                vehicle: VehicleState { sim_mode: !old(self)@.vehicle.sim_mode, ..old(self)@.vehicle },
                ..old(self)@
            }),
            msg@ == mode_button_message(final(self)@.vehicle.sim_mode),
    {
        proof {
            use_type_invariant(&*self);
        }
        self.state.sim_mode = !self.state.sim_mode;
        if self.state.sim_mode { owned("SIM mode (map moves)") } else { owned("GPS mode (static)") }
    }

    /// The button that switches between autonomous and manual driving;
    /// returns the log line.
    pub fn toggle_auto_mode(&mut self) -> (msg: String)
        ensures
            final(self)@ == (CenterView {
                vehicle: VehicleState { auto_mode: !old(self)@.vehicle.auto_mode, ..old(self)@.vehicle },
                ..old(self)@
            }),
            msg@ == auto_message(final(self)@.vehicle.auto_mode),
    {
        proof {
            use_type_invariant(&*self);
        }
        self.state.auto_mode = !self.state.auto_mode;
        if self.state.auto_mode { owned("AUTO mode") } else { owned("MANUAL mode") }
    }

    /// Carries out a pending emergency stop, then a pending reset. A stop
    /// marks the frame, so that `finish_frame` holds it over the frame's
    /// driving tick.
    pub fn apply_requests(&mut self) -> (out: RequestOutcome)
        ensures
            final(self)@ == (CenterView {
                vehicle: requests_outcome(old(self)@.vehicle, old(self)@.estop_requested, old(self)@.reset_requested),
                estop_requested: false,
                reset_requested: false,
                stop_frame: stop_frame_after_requests(old(self)@.stop_frame, old(self)@.estop_requested, old(self)@.reset_requested),
                ..old(self)@
            }),
            out.reset == old(self)@.reset_requested,
            views(out.messages@) == (if old(self)@.estop_requested { seq!["EMERGENCY STOP"@] } else { Seq::empty() })
                + (if old(self)@.reset_requested { seq!["Reset"@] } else { Seq::empty() }),
    {
        proof {
            use_type_invariant(&*self);
        }
        let mut messages: Vec<String> = Vec::new();
        if self.estop_pressed {
            let mut st = self.state;
            st.emergency_stop();
            self.state = st;
            self.stop_frame = true;
            messages.push(owned("EMERGENCY STOP"));
            self.estop_pressed = false;
        }
        let ghost after_stop = messages@;
        let reset = self.reset_pressed;
        if self.reset_pressed {
            self.stop_frame = false;
            self.state = self.state.reset();
            messages.push(owned("Reset"));
            self.reset_pressed = false;
        }
        assert(views(messages@) =~= views(after_stop) + (if reset { seq!["Reset"@] } else { Seq::empty() }));
        assert(views(after_stop) =~= (if old(self)@.estop_requested { seq!["EMERGENCY STOP"@] } else { Seq::<Seq<char>>::empty() }));
        RequestOutcome { reset, messages }
    }

    /// Takes a pending reconnect request: returns the log line when there was
    /// one. The panel then searches for the board and restarts the camera.
    pub fn take_reconnect(&mut self) -> (msg: Option<String>)
        ensures
            final(self)@ == (CenterView { reconnect_requested: false, ..old(self)@ }),
            msg is Some <==> old(self)@.reconnect_requested,
            msg matches Some(m) ==> m@ == "Reconnecting all devices..."@,
    {
        proof {
            use_type_invariant(&*self);
        }
        if self.reconnect_all {
            self.reconnect_all = false;
            Some(owned("Reconnecting all devices..."))
        } else {
            None
        }
    }

    /// Records the outcome of a search for the board; returns the camera to
    /// restart.
    pub fn set_connected(&mut self, connected: bool) -> (camera: usize)
        ensures
            final(self)@ == (CenterView {
                vehicle: VehicleState { connected, ..old(self)@.vehicle },
                ..old(self)@
            }),
            camera == old(self)@.vehicle.active_camera,
    {
        proof {
            use_type_invariant(&*self);
        }
        self.state.connected = connected;
        self.state.active_camera
    }

    /// Takes a pending camera switch: moves to the next camera and returns
    /// its index with the log line.
    pub fn take_camera_switch(&mut self) -> (next: Option<(usize, String)>)
        requires
            old(self)@.vehicle.active_camera < usize::MAX,
        ensures
            next is Some <==> old(self)@.switch_requested,
            next is None ==> final(self)@ == old(self)@,
            next matches Some((idx, msg)) ==> {
                &&& idx == next_camera_index(old(self)@.vehicle.active_camera as int, old(self)@.vehicle.camera_count as int)
                &&& final(self)@ == (CenterView {
                    vehicle: VehicleState { active_camera: idx, ..old(self)@.vehicle },
                    switch_requested: false,
                    ..old(self)@
                })
                &&& msg@ == "Switching to camera "@ + decimal(idx as nat)
            },
    {
        proof {
            use_type_invariant(&*self);
        }
        if self.switch_camera {
            let next = self.state.next_camera();
            self.state.active_camera = next;
            self.switch_camera = false;
            proof {
                reveal_strlit("");
            }
            let msg = with_number("Switching to camera ", next as u64, "");
            assert(msg@ =~= "Switching to camera "@ + decimal(next as nat));
            Some((next, msg))
        } else {
            None
        }
    }

    /// The driving tick at time `now`. In manual driving the held keys move
    /// the controls and the camera count is taken over; in autonomous
    /// driving the operator's `A` and `D` still steer. Returns whether the
    /// manual tick ran.
    pub fn drive(&mut self, now: u64, camera_count: usize) -> (ran: bool)
        ensures
            ran == !old(self)@.vehicle.auto_mode,
            ran ==> final(self)@ == (CenterView {
                vehicle: drive_outcome(old(self)@.vehicle, old(self)@.presses, now, camera_count),
                ..old(self)@
            }),
            !ran ==> final(self)@ == (CenterView {
                vehicle: auto_outcome(old(self)@.vehicle, old(self)@.presses, now),
                ..old(self)@
            }),
    {
        proof {
            use_type_invariant(&*self);
        }
        let held = self.keys.held_keys(now);
        if self.state.auto_mode {
            let s = self.state.steering;
            let steering: i32 = if held.left {
                if s - PANEL_ACCEL > -STEERING_LIMIT { s - PANEL_ACCEL } else { -STEERING_LIMIT }
            } else if held.right {
                if s + PANEL_ACCEL < STEERING_LIMIT { s + PANEL_ACCEL } else { STEERING_LIMIT }
            } else {
                s
            };
            self.state.steering = steering;
            return false;
        }
        let mut st = self.state;
        st.apply_controls(held, PANEL_ACCEL, PANEL_DECEL);
        st.camera_count = camera_count;
        self.state = st;
        true
    }

    /// Ends the frame after its driving tick: in the frame that carried out
    /// an emergency stop, the stop holds over the tick, so the command sent
    /// for this frame is no throttle, wheels straight, brake on. The next
    /// frame drives from there as usual.
    pub fn finish_frame(&mut self)
        ensures
            final(self)@ == (CenterView {
                vehicle: finish_outcome(old(self)@.vehicle, old(self)@.stop_frame),
                stop_frame: false,
                ..old(self)@
            }),
    {
        proof {
            use_type_invariant(&*self);
        }
        if self.stop_frame {
            let mut st = self.state;
            st.emergency_stop();
            self.state = st;
            self.stop_frame = false;
        }
    }

    /// The command to send at time `now`, when more than `SEND_PERIOD_MS`
    /// have passed since the last one.
    pub fn poll_send(&mut self, now: u64) -> (cmd: Option<Command>)
        ensures
            cmd is Some <==> elapsed(now, old(self)@.last_send) > SEND_PERIOD_MS,
            cmd is Some ==> final(self)@ == (CenterView { last_send: now, ..old(self)@ }),
            cmd is None ==> final(self)@ == old(self)@,
            cmd matches Some(c) ==> c == old(self)@.vehicle.command_spec(),
    {
        proof {
            use_type_invariant(&*self);
        }
        let since: u64 = if now >= self.last_send_ms { now - self.last_send_ms } else { 0 };
        if since > SEND_PERIOD_MS {
            self.last_send_ms = now;
            Some(self.state.command())
        } else {
            None
        }
    }
}

/// A requested emergency stop always leaves the vehicle with no throttle,
/// wheels straight and manual driving; without a reset in the same frame
/// the brake is on, and a reset in the same frame returns to the defaults.
pub proof fn lemma_emergency_stop(v: VehicleState, reset: bool)
    ensures
        requests_outcome(v, true, reset).throttle == 0,
        requests_outcome(v, true, reset).steering == 0,
        !requests_outcome(v, true, reset).auto_mode,
        !reset ==> requests_outcome(v, true, reset).brake,
        reset ==> requests_outcome(v, true, reset) == v.reset_spec(),
        requests_outcome(v, true, reset).connected == v.connected,
        requests_outcome(v, true, reset).camera_count == v.camera_count,
{
}

/// A reset keeps the connection and the cameras and brings back every other
/// default.
pub proof fn lemma_reset_keeps_devices(v: VehicleState, estop: bool)
    ensures
        requests_outcome(v, estop, true) == (VehicleState {
            connected: v.connected,
            camera_count: v.camera_count,
            active_camera: v.active_camera,
            ..default_vehicle()
        }),
{
}

/// A driving key that is down in a frame counts as held for the driving
/// ticks of the next `KEY_TIMEOUT_MS` milliseconds.
pub proof fn lemma_key_down_drives(p: Map<u8, u64>, input: FrameInput, now: u64, later: u64)
    requires
        now <= later,
        later - now < KEY_TIMEOUT_MS,
    ensures
        input.w_down ==> held_at(record_presses(p, input, now), later).forward,
        input.s_down ==> held_at(record_presses(p, input, now), later).back,
        input.a_down ==> held_at(record_presses(p, input, now), later).left,
        input.d_down ==> held_at(record_presses(p, input, now), later).right,
        input.space_down ==> held_at(record_presses(p, input, now), later).stop,
{
    let p1 = if input.w_down { p.insert(key_code(ControlKey::W), now) } else { p };
    let p2 = if input.a_down { p1.insert(key_code(ControlKey::A), now) } else { p1 };
    let p3 = if input.s_down { p2.insert(key_code(ControlKey::S), now) } else { p2 };
    let p4 = if input.d_down { p3.insert(key_code(ControlKey::D), now) } else { p3 };
    let p5 = record_presses(p, input, now);
    assert(input.w_down ==> p5.contains_key(key_code(ControlKey::W)) && p5[key_code(ControlKey::W)] == now);
    assert(input.a_down ==> p5.contains_key(key_code(ControlKey::A)) && p5[key_code(ControlKey::A)] == now);
    assert(input.s_down ==> p5.contains_key(key_code(ControlKey::S)) && p5[key_code(ControlKey::S)] == now);
    assert(input.d_down ==> p5.contains_key(key_code(ControlKey::D)) && p5[key_code(ControlKey::D)] == now);
    assert(input.space_down ==> p5.contains_key(key_code(ControlKey::Space)) && p5[key_code(ControlKey::Space)] == now);
}

/// The frame that carries out an emergency stop sends the stop's command:
/// whatever keys are held in it, after its driving tick and the end of the
/// frame the vehicle has no throttle, wheels straight and the brake on, and
/// drives manually.
pub proof fn lemma_stop_frame_command(v: VehicleState, stop_frame: bool, p: Map<u8, u64>, now: u64, count: usize)
    requires
        v.wf(),
    ensures
        ({
            let stopped = requests_outcome(v, true, false);
            let flag = stop_frame_after_requests(stop_frame, true, false);
            let ticked = drive_outcome(stopped, p, now, count);
            let done = finish_outcome(ticked, flag);
            &&& !stopped.auto_mode
            &&& done.command_spec() == (Command { t: 0, s: 0, b: true })
            &&& !done.auto_mode
            &&& done.wf()
        }),
{
}

/// After the stop frame the vehicle drives as usual: the next tick with no
/// throttle key and no emergency brake releases the brake and leaves the
/// throttle at zero.
pub proof fn lemma_brake_released_after_stop_frame(v: VehicleState, p: Map<u8, u64>, now: u64, count: usize)
    requires
        v.wf(),
        v.throttle == 0,
        !held_at(p, now).forward,
        !held_at(p, now).back,
        !held_at(p, now).stop,
    ensures
        drive_outcome(finish_outcome(v, false), p, now, count).throttle == 0,
        !drive_outcome(finish_outcome(v, false), p, now, count).brake,
{
}

/// In autonomous driving the operator's steering keys override: `A` steers
/// left and `D` right by the panel's step, within the limits, while
/// throttle and brake are left alone.
pub proof fn lemma_manual_steering_overrides_auto(v: VehicleState, p: Map<u8, u64>, now: u64)
    requires
        v.wf(),
    ensures
        auto_outcome(v, p, now).wf(),
        auto_outcome(v, p, now).throttle == v.throttle,
        auto_outcome(v, p, now).brake == v.brake,
        held_at(p, now).left ==> auto_outcome(v, p, now).steering == (if v.steering - 4 > -100 { v.steering - 4 } else { -100 }),
        !held_at(p, now).left && held_at(p, now).right ==> auto_outcome(v, p, now).steering == (if v.steering + 4 < 100 { v.steering + 4 } else { 100 }),
{
}

/// The control center keeps the vehicle within its limits in every step of
/// a frame.
pub proof fn lemma_ticks_keep_limits(c: CenterView, now: u64, count: usize)
    requires
        center_wf(c),
    ensures
        center_wf(CenterView { vehicle: drive_outcome(c.vehicle, c.presses, now, count), ..c }),
        center_wf(CenterView { vehicle: auto_outcome(c.vehicle, c.presses, now), ..c }),
        center_wf(CenterView { vehicle: requests_outcome(c.vehicle, c.estop_requested, c.reset_requested), ..c }),
        center_wf(CenterView { vehicle: finish_outcome(c.vehicle, c.stop_frame), ..c }),
{
}


/// Reverse reaches the board: holding `S` at a standstill or in reverse,
/// the tick's state, and so the command sent for it, has a throttle one
/// step lower (down to -50) with the brake off.
pub proof fn lemma_reverse_is_sent(v: VehicleState, p: Map<u8, u64>, now: u64, count: usize)
    requires
        v.wf(),
        v.throttle <= 0,
        held_at(p, now).back,
        !held_at(p, now).forward,
        !held_at(p, now).stop,
    ensures
        drive_outcome(v, p, now, count).command_spec().t == (if v.throttle - 4 >= -50 { v.throttle - 4 } else { -50 }),
        !drive_outcome(v, p, now, count).command_spec().b,
        v.throttle > -50 ==> drive_outcome(v, p, now, count).command_spec().t < 0,
{
}

} // verus!
