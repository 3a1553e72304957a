use nicaiemu::gamepad::{
    map_guest_keys, stick_tilt, PadButton, StickTilt, StickTilts, GUEST_DOWN, GUEST_E, GUEST_LEFT, GUEST_N,
    GUEST_OK, GUEST_Q, GUEST_RIGHT, GUEST_UP, STICK_DEADZONE,
};

const CENTERED: StickTilts = StickTilts {
    left_x: StickTilt::Centered,
    left_y: StickTilt::Centered,
    right_x: StickTilt::Centered,
    right_y: StickTilt::Centered,
};

fn only(button: PadButton) -> Vec<u8> {
    map_guest_keys(&[button], CENTERED)
}

#[test]
fn idle_pad_reports_no_keys() {
    assert!(map_guest_keys(&[], CENTERED).is_empty());
}

#[test]
fn sticks_past_deadzone_map_to_directions() {
    let keys = map_guest_keys(
        &[],
        StickTilts {
            left_y: StickTilt::Positive,
            left_x: StickTilt::Negative,
            ..CENTERED
        },
    );
    assert_eq!(keys, [GUEST_UP, GUEST_LEFT]);
}

#[test]
fn face_buttons_follow_retropad_layout() {
    assert_eq!(only(PadButton::South), [GUEST_OK]);
    assert_eq!(only(PadButton::East), [GUEST_OK]);
    assert_eq!(only(PadButton::North), [GUEST_Q]);
    assert_eq!(only(PadButton::West), [GUEST_E]);
    assert_eq!(only(PadButton::Start), [GUEST_OK]);
}

#[test]
fn shoulders_duplicate_soft_keys() {
    assert_eq!(only(PadButton::LeftTrigger), [GUEST_Q]);
    assert_eq!(only(PadButton::RightTrigger), [GUEST_E]);
    assert_eq!(only(PadButton::LeftTrigger2), [GUEST_Q]);
    assert_eq!(only(PadButton::RightTrigger2), [GUEST_E]);
}

#[test]
fn select_maps_to_extra_key() {
    assert_eq!(only(PadButton::Select), [GUEST_N]);
}

#[test]
fn dpad_maps_to_direction_keys() {
    let keys = map_guest_keys(&[PadButton::DPadUp, PadButton::DPadRight], CENTERED);
    assert_eq!(keys, [GUEST_UP, GUEST_RIGHT]);
}

#[test]
fn everything_held_reports_each_key_once_in_order() {
    let all = [
        PadButton::South,
        PadButton::East,
        PadButton::North,
        PadButton::West,
        PadButton::LeftTrigger,
        PadButton::RightTrigger,
        PadButton::Select,
        PadButton::Start,
        PadButton::DPadUp,
        PadButton::DPadDown,
        PadButton::DPadLeft,
        PadButton::DPadRight,
    ];
    let keys = map_guest_keys(
        &all,
        StickTilts {
            left_x: StickTilt::Positive,
            left_y: StickTilt::Negative,
            right_x: StickTilt::Negative,
            right_y: StickTilt::Positive,
        },
    );
    assert_eq!(
        keys,
        [GUEST_UP, GUEST_DOWN, GUEST_LEFT, GUEST_RIGHT, GUEST_OK, GUEST_Q, GUEST_E, GUEST_N]
    );
    assert!(map_guest_keys(&[PadButton::Other], CENTERED).is_empty());
}

fn thousandths(value: f32) -> i32 {
    (value.abs() * 1000.0).round() as i32
}

#[test]
fn stick_deadzone_threshold_rejects_small_values() {
    assert!(thousandths(0.4_f32) < STICK_DEADZONE);
    assert!(thousandths(0.5_f32) >= STICK_DEADZONE);
    assert_eq!(stick_tilt(thousandths(0.4_f32)), StickTilt::Centered);
    assert_eq!(stick_tilt(-thousandths(0.4_f32)), StickTilt::Centered);
    assert_eq!(stick_tilt(thousandths(0.8_f32)), StickTilt::Positive);
    assert_eq!(stick_tilt(-thousandths(0.9_f32)), StickTilt::Negative);
}
