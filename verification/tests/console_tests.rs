use ev_control::console::{
    bar_text, brake_line, direction_label, key_action, key_badge, status_label, steer_label, KeyAction, RateGate,
    Sign, SteerZone, BAR_WIDTH, CONSOLE_DRAW_PERIOD_MS, CONSOLE_SEND_PERIOD_MS,
};
use ev_control::keys::ControlKey;

#[test]
fn keys_map_to_actions() {
    assert_eq!(key_action(Some('q'), false), KeyAction::Quit);
    assert_eq!(key_action(Some('c'), true), KeyAction::Quit);
    assert_eq!(key_action(Some('c'), false), KeyAction::Ignore);
    assert_eq!(key_action(Some('w'), false), KeyAction::Hold(ControlKey::W));
    assert_eq!(key_action(Some(' '), true), KeyAction::Hold(ControlKey::Space));
    assert_eq!(key_action(Some('x'), false), KeyAction::Ignore);
    assert_eq!(key_action(None, false), KeyAction::Ignore);
}

#[test]
fn bars() {
    assert_eq!(bar_text(Sign::Positive, 5, BAR_WIDTH, false), "[=====               ]");
    assert_eq!(bar_text(Sign::Zero, 0, BAR_WIDTH, false), "[                    ]");
    assert_eq!(bar_text(Sign::Negative, 3, 20, true), "[       ===|          ]");
    assert_eq!(bar_text(Sign::Positive, 10, 20, true), "[          |==========]");
    assert_eq!(bar_text(Sign::Zero, 99, 20, true), "[          |          ]");
}

#[test]
fn gates_pace_sending_and_drawing() {
    let mut send = RateGate::new(CONSOLE_SEND_PERIOD_MS, 0);
    let mut draw = RateGate::new(CONSOLE_DRAW_PERIOD_MS, 0);
    assert!(!send.ready(50));
    assert!(send.ready(51));
    assert!(!send.ready(100));
    assert!(!draw.ready(66));
    assert!(draw.ready(67));
}

#[test]
fn screen_labels() {
    assert_eq!(status_label(true), "CONNECTED");
    assert_eq!(status_label(false), "DISCONNECTED");
    assert_eq!(key_badge("W", true), "[W]");
    assert_eq!(key_badge("SPACE", false), " SPACE ");
    assert_eq!(brake_line(true), "            >> BRAKE <<");
    assert_eq!(brake_line(false).len(), 23);
    assert_eq!(direction_label(Sign::Positive), "FWD ");
    assert_eq!(direction_label(Sign::Negative), "REV ");
    assert_eq!(direction_label(Sign::Zero), "----");
    assert_eq!(steer_label(SteerZone::Left), "LEFT ");
    assert_eq!(steer_label(SteerZone::Right), "RIGHT");
    assert_eq!(steer_label(SteerZone::Center), "CTR  ");
}
