use ev_control::keys::{ControlKey, KeyTracker, KEY_TIMEOUT_MS};
use ev_control::session::{ControlCenter, FrameInput, startup_banner, SEND_PERIOD_MS};
use ev_control::vehicle::{Command, VehicleState, command_line};

fn quiet() -> FrameInput {
    FrameInput {
        w_down: false,
        a_down: false,
        s_down: false,
        d_down: false,
        space_down: false,
        quit: false,
        escape: false,
        reset: false,
        mode: false,
        auto_toggle: false,
    }
}

#[test]
fn new_center_starts_idle() {
    let c = ControlCenter::new(true, 1000);
    let v = c.vehicle_state();
    assert_eq!(v, VehicleState { connected: true, ..VehicleState::default() });
    assert!(v.sim_mode);
    assert!(!v.auto_mode);
}

#[test]
fn held_key_drives_within_timeout() {
    let mut c = ControlCenter::new(false, 0);
    let out = c.handle_input(FrameInput { w_down: true, ..quiet() }, 1000);
    assert!(!out.quit);
    assert!(out.messages.is_empty());
    assert!(c.drive(1000 + KEY_TIMEOUT_MS - 1, 2));
    assert_eq!(c.vehicle_state().throttle, 4);
    assert_eq!(c.vehicle_state().camera_count, 2);
    // The press has expired.
    assert!(c.drive(1000 + KEY_TIMEOUT_MS, 2));
    assert_eq!(c.vehicle_state().throttle, 0);
}

#[test]
fn quit_logs_and_stops_handling() {
    let mut c = ControlCenter::new(false, 0);
    let out = c.handle_input(FrameInput { quit: true, escape: true, mode: true, ..quiet() }, 5);
    assert!(out.quit);
    assert_eq!(out.messages, vec!["Shutting down...".to_string()]);
    assert!(c.vehicle_state().sim_mode);
    let req = c.apply_requests();
    assert!(req.messages.is_empty());
}

#[test]
fn mode_keys_toggle_and_log() {
    let mut c = ControlCenter::new(false, 0);
    let out = c.handle_input(FrameInput { mode: true, auto_toggle: true, ..quiet() }, 5);
    assert_eq!(out.messages, vec!["GPS mode".to_string(), "AUTO mode".to_string()]);
    let v = c.vehicle_state();
    assert!(!v.sim_mode);
    assert!(v.auto_mode);
    let out = c.handle_input(FrameInput { mode: true, auto_toggle: true, ..quiet() }, 6);
    assert_eq!(out.messages, vec!["SIM mode".to_string(), "MANUAL mode".to_string()]);
}

#[test]
fn buttons_toggle_with_their_own_lines() {
    let mut c = ControlCenter::new(false, 0);
    assert_eq!(c.toggle_sim_mode(), "GPS mode (static)");
    assert_eq!(c.toggle_sim_mode(), "SIM mode (map moves)");
    assert_eq!(c.toggle_auto_mode(), "AUTO mode");
    assert_eq!(c.toggle_auto_mode(), "MANUAL mode");
}

#[test]
fn escape_stops_the_vehicle() {
    let mut c = ControlCenter::new(true, 0);
    c.handle_input(FrameInput { w_down: true, d_down: true, ..quiet() }, 10);
    c.drive(10, 1);
    c.drive(20, 1);
    assert_eq!(c.vehicle_state().throttle, 8);
    assert_eq!(c.vehicle_state().steering, 8);
    c.toggle_auto_mode();
    c.handle_input(FrameInput { escape: true, ..quiet() }, 30);
    let out = c.apply_requests();
    assert!(!out.reset);
    assert_eq!(out.messages, vec!["EMERGENCY STOP".to_string()]);
    let v = c.vehicle_state();
    assert_eq!((v.throttle, v.steering, v.brake, v.auto_mode), (0, 0, true, false));
    assert!(v.connected);
}

#[test]
fn reset_keeps_connection_and_cameras() {
    let mut c = ControlCenter::new(true, 0);
    c.drive(0, 3);
    c.press_switch_camera();
    c.take_camera_switch();
    c.toggle_sim_mode();
    c.handle_input(FrameInput { w_down: true, ..quiet() }, 1);
    c.drive(1, 3);
    c.press_reset();
    let out = c.apply_requests();
    assert!(out.reset);
    assert_eq!(out.messages, vec!["Reset".to_string()]);
    assert_eq!(
        c.vehicle_state(),
        VehicleState { connected: true, camera_count: 3, active_camera: 1, ..VehicleState::default() }
    );
}

#[test]
fn estop_and_reset_in_one_frame() {
    let mut c = ControlCenter::new(false, 0);
    c.press_estop();
    c.press_reset();
    let out = c.apply_requests();
    assert_eq!(out.messages, vec!["EMERGENCY STOP".to_string(), "Reset".to_string()]);
    assert!(!c.vehicle_state().brake);
}

#[test]
fn camera_switch_wraps_round() {
    let mut c = ControlCenter::new(false, 0);
    c.drive(0, 3);
    let mut seen = Vec::new();
    for _ in 0..3 {
        c.press_switch_camera();
        let (idx, msg) = c.take_camera_switch().unwrap();
        assert_eq!(msg, format!("Switching to camera {}", idx));
        seen.push(idx);
    }
    assert_eq!(seen, vec![1, 2, 0]);
    assert!(c.take_camera_switch().is_none());
}

#[test]
fn camera_switch_without_cameras_stays_at_zero() {
    let mut c = ControlCenter::new(false, 0);
    c.press_switch_camera();
    assert_eq!(c.take_camera_switch().map(|p| p.0), Some(0));
}

#[test]
fn reconnect_is_taken_once() {
    let mut c = ControlCenter::new(false, 0);
    assert!(c.take_reconnect().is_none());
    c.press_reconnect();
    assert_eq!(c.take_reconnect().as_deref(), Some("Reconnecting all devices..."));
    assert!(c.take_reconnect().is_none());
    assert_eq!(c.set_connected(true), 0);
    assert!(c.vehicle_state().connected);
}

#[test]
fn autonomous_mode_skips_driving() {
    let mut c = ControlCenter::new(false, 0);
    c.toggle_auto_mode();
    c.handle_input(FrameInput { w_down: true, ..quiet() }, 0);
    assert!(!c.drive(0, 4));
    assert_eq!(c.vehicle_state().steering, 0);
    assert_eq!(c.vehicle_state().throttle, 0);
    assert_eq!(c.vehicle_state().camera_count, 0);
}

#[test]
fn commands_are_paced() {
    let mut c = ControlCenter::new(false, 100);
    assert!(c.poll_send(100 + SEND_PERIOD_MS).is_none());
    assert_eq!(c.poll_send(100 + SEND_PERIOD_MS + 1), Some(Command { t: 0, s: 0, b: false }));
    assert!(c.poll_send(160).is_none());
    assert!(c.poll_send(50).is_none());
    assert!(c.poll_send(202).is_some());
}

#[test]
fn safe_stop_and_command_line() {
    assert_eq!(Command::safe_stop(), Command { t: 0, s: 0, b: true });
    assert_eq!(command_line("{\"t\":0,\"s\":0,\"b\":true}"), "{\"t\":0,\"s\":0,\"b\":true}\n");
}

#[test]
fn banner_lines() {
    let b = startup_banner();
    assert_eq!(b.len(), 4);
    assert_eq!(b[1], "EV Prototype Control Center v1.3");
    assert_eq!(b[2], "Texas A&M FLiNT - Team Autopilot");
    assert_eq!(b[0], b[3]);
}

#[test]
fn key_tracker_expiry() {
    let mut t = KeyTracker::new();
    assert!(!t.is_key_held(ControlKey::W, 0));
    t.press(ControlKey::Space, 500);
    assert!(t.is_key_held(ControlKey::Space, 500));
    assert!(t.is_key_held(ControlKey::Space, 649));
    assert!(!t.is_key_held(ControlKey::Space, 650));
    assert!(t.is_key_held(ControlKey::Space, 100));
    assert!(!t.is_key_held(ControlKey::A, 500));
    let h = t.held_keys(600);
    assert!(h.stop && !h.forward && !h.back && !h.left && !h.right);
}

#[test]
fn vehicle_next_camera() {
    let v = VehicleState { camera_count: 4, active_camera: 3, ..VehicleState::default() };
    assert_eq!(v.next_camera(), 0);
    let v = VehicleState { camera_count: 2, active_camera: 5, ..VehicleState::default() };
    assert_eq!(v.next_camera(), 0);
    let v = VehicleState { camera_count: 5, active_camera: 1, ..VehicleState::default() };
    assert_eq!(v.next_camera(), 2);
}

#[test]
fn emergency_stop_frame_sends_the_stop_command() {
    let mut c = ControlCenter::new(true, 0);
    c.handle_input(FrameInput { w_down: true, ..quiet() }, 0);
    c.drive(0, 0);
    c.finish_frame();
    assert_eq!(c.vehicle_state().throttle, 4);
    // The stop frame: W and A are still held, yet the frame ends stopped.
    c.handle_input(FrameInput { escape: true, w_down: true, a_down: true, ..quiet() }, 100);
    c.apply_requests();
    assert!(c.drive(100, 0));
    c.finish_frame();
    let v = c.vehicle_state();
    assert_eq!((v.throttle, v.steering, v.brake, v.auto_mode), (0, 0, true, false));
    assert_eq!(c.poll_send(100), Some(Command { t: 0, s: 0, b: true }));
    // The next frame drives as usual: no key held releases the brake.
    c.drive(400, 0);
    c.finish_frame();
    let v = c.vehicle_state();
    assert_eq!((v.throttle, v.brake), (0, false));
}

#[test]
fn emergency_stop_with_no_key_held() {
    let mut c = ControlCenter::new(false, 0);
    c.press_estop();
    c.apply_requests();
    c.drive(10, 0);
    c.finish_frame();
    assert_eq!(c.poll_send(100), Some(Command { t: 0, s: 0, b: true }));
    c.drive(20, 0);
    c.finish_frame();
    assert!(!c.vehicle_state().brake);
}

#[test]
fn reset_in_the_stop_frame_ends_in_the_defaults() {
    let mut c = ControlCenter::new(false, 0);
    c.press_estop();
    c.press_reset();
    c.apply_requests();
    c.drive(10, 0);
    c.finish_frame();
    assert!(!c.vehicle_state().brake);
}

#[test]
fn steering_keys_override_autonomous_driving() {
    let mut c = ControlCenter::new(false, 0);
    c.toggle_auto_mode();
    c.handle_input(FrameInput { a_down: true, w_down: true, ..quiet() }, 0);
    assert!(!c.drive(10, 3));
    let v = c.vehicle_state();
    assert_eq!((v.steering, v.throttle, v.camera_count), (-4, 0, 0));
    c.handle_input(FrameInput { d_down: true, ..quiet() }, 500);
    c.drive(500, 3);
    c.drive(510, 3);
    assert_eq!(c.vehicle_state().steering, 4);
}
