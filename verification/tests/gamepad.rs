use pacman::gamepad::{
    button_name, dpad_direction, hat_label, is_gamepad_usage, pressed_buttons, report_line, GamepadHub,
    GamepadState, RawState, DIR_DOWN, DIR_LEFT, DIR_RIGHT, DIR_UP,
};
use std::sync::{Arc, Mutex};

fn report(buttons: u16, hat: u8, lx: u8, ly: u8) -> Vec<u8> {
    let mut r = vec![0u8; 27];
    r[0] = (buttons & 0xff) as u8;
    r[1] = (buttons >> 8) as u8;
    r[2] = 0xf0 | hat;
    r[3] = lx;
    r[4] = ly;
    r
}

#[test]
fn short_reports_carry_no_input() {
    assert_eq!(RawState::from_report(&[]), None);
    assert_eq!(RawState::from_report(&[1, 2, 3, 4, 5, 6]), None);
    assert!(RawState::from_report(&[0, 0, 15, 127, 127, 0, 0]).is_some());
}

#[test]
fn report_fields_are_decoded() {
    let s = RawState::from_report(&report(0x0300, 2, 10, 250)).unwrap();
    assert_eq!(s.buttons, 0x0300);
    assert_eq!(s.hat_raw, 2);
    assert_eq!(s.hat, Some(DIR_RIGHT));
    assert_eq!(s.lx, 10);
    assert_eq!(s.ly, 250);
    assert!(s.start());
    assert!(s.back());
    let t = RawState::from_report(&report(0x0200, 15, 127, 127)).unwrap();
    assert_eq!(t.hat, None);
    assert!(t.start());
    assert!(!t.back());
}

#[test]
fn hat_maps_to_four_directions() {
    let dir = |h: u8| RawState::from_report(&report(0, h, 127, 127)).unwrap().hat;
    assert_eq!(dir(0), Some(DIR_UP));
    assert_eq!(dir(2), Some(DIR_RIGHT));
    assert_eq!(dir(4), Some(DIR_DOWN));
    assert_eq!(dir(6), Some(DIR_LEFT));
    assert_eq!(dir(1), None);
    assert_eq!(dir(7), None);
    assert_eq!(dir(15), None);
}

#[test]
fn stick_needs_the_deadzone_and_picks_the_dominant_axis() {
    let st = |lx: i32, ly: i32| RawState { hat: None, hat_raw: 15, lx, ly, buttons: 0 }.stick_dir();
    assert_eq!(st(127, 127), None);
    assert_eq!(st(127 + 39, 127 - 39), None);
    assert_eq!(st(127 + 40, 127), Some(DIR_RIGHT));
    assert_eq!(st(127 - 40, 127), Some(DIR_LEFT));
    assert_eq!(st(127, 0), Some(DIR_UP));
    assert_eq!(st(127, 255), Some(DIR_DOWN));
    // A tie goes to the vertical axis.
    assert_eq!(st(127 + 50, 127 - 50), Some(DIR_UP));
    assert_eq!(st(255, 127 + 100), Some(DIR_RIGHT));
}

#[test]
fn raw_reports_merge_into_the_snapshot() {
    let raw = RawState::from_report(&report(0x0200, 15, 127, 0)).unwrap();
    let mut s = GamepadState::default();
    assert_eq!(s.kind, 0);
    s.merge_raw(&raw);
    assert_eq!(s.kind, 1);
    assert_eq!(s.dir, Some(DIR_UP));
    assert!(s.start);
    assert!(!s.back);
    assert_eq!(s.hat, 15);
    assert_eq!(s.stick_y, 0);
    assert_eq!(s.buttons, 0x0200);
    // A direction already read elsewhere wins over the raw one.
    let mut t = GamepadState { dir: Some(DIR_LEFT), kind: 2, connected: true, ..GamepadState::default() };
    let hat_raw = RawState::from_report(&report(0, 4, 127, 127)).unwrap();
    t.merge_raw(&hat_raw);
    assert_eq!(t.dir, Some(DIR_LEFT));
    let mut u = GamepadState::default();
    u.merge_raw(&hat_raw);
    assert_eq!(u.dir, Some(DIR_DOWN));
}

#[test]
fn a_live_raw_pad_keeps_the_snapshot_connected() {
    let mut s = GamepadState::default();
    s.keep_raw_connected();
    assert!(s.connected);
    assert_eq!(s.kind, 1);
    let mut t = GamepadState { kind: 2, ..GamepadState::default() };
    t.keep_raw_connected();
    assert_eq!(t.kind, 2);
}

#[test]
fn dpad_checks_up_down_left_right() {
    assert_eq!(dpad_direction(false, false, false, false), None);
    assert_eq!(dpad_direction(true, true, true, true), Some(DIR_UP));
    assert_eq!(dpad_direction(false, true, true, false), Some(DIR_DOWN));
    assert_eq!(dpad_direction(false, false, true, true), Some(DIR_LEFT));
    assert_eq!(dpad_direction(false, false, false, true), Some(DIR_RIGHT));
}

#[test]
fn pressed_buttons_are_listed_in_order() {
    assert_eq!(pressed_buttons(0), Vec::<u8>::new());
    assert_eq!(pressed_buttons(0b1_0000_0000_0101), vec![1, 3, 13]);
    assert_eq!(pressed_buttons(0xffff), (1..=13).collect::<Vec<u8>>());
    assert_eq!(button_name(1), "Triangle");
    assert_eq!(button_name(9), "Select");
    assert_eq!(button_name(10), "Start");
    assert_eq!(button_name(13), "Home");
    assert_eq!(button_name(14), "?");
    assert_eq!(button_name(0), "?");
}

#[test]
fn hat_labels() {
    assert_eq!(hat_label(0), "up");
    assert_eq!(hat_label(1), "NE");
    assert_eq!(hat_label(6), "left");
    assert_eq!(hat_label(15), "center");
    assert_eq!(hat_label(9), "?");
}

#[test]
fn hub_reads_the_latest_snapshot() {
    let shared = Arc::new(Mutex::new(GamepadState::default()));
    let hub = GamepadHub::new(Arc::clone(&shared));
    assert_eq!(hub.snapshot(), GamepadState::default());
    let state = GamepadState { dir: Some(DIR_RIGHT), connected: true, kind: 3, ..GamepadState::default() };
    *shared.lock().unwrap() = state;
    assert_eq!(hub.snapshot(), state);
}

#[test]
fn gamepad_usages_are_recognised() {
    assert!(is_gamepad_usage(1, 4));
    assert!(is_gamepad_usage(1, 5));
    assert!(is_gamepad_usage(1, 8));
    assert!(!is_gamepad_usage(1, 6));
    assert!(!is_gamepad_usage(12, 5));
    assert!(!is_gamepad_usage(0, 0));
}

#[test]
fn report_line_describes_a_report() {
    let r = [0x05u8, 0x12, 0xf2, 0x7f, 0, 0xab, 0x10];
    assert_eq!(
        report_line(&r),
        "btns[1(Triangle), 3(Cross), 10(Start), 13(Home)]  hat=2(right)  stick=(127,0)\n    raw: 05 12 f2 7f 00 ab 10"
    );
    let idle = [0u8, 0, 0x0f, 127, 127, 0, 0];
    assert_eq!(report_line(&idle), "btns[-]  hat=15(center)  stick=(127,127)\n    raw: 00 00 0f 7f 7f 00 00");
    let diag = [0x40u8, 0, 0x09, 255, 9];
    assert_eq!(report_line(&diag), "btns[7(L2)]  hat=9(?)  stick=(255,9)\n    raw: 40 00 09 ff 09");
}
