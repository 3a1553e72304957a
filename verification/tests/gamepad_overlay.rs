use nicaiemu::gamepad_overlay::{
    GamepadOverlay, COLOR_BACKGROUND, COLOR_DPAD_PRESSED, COLOR_IDLE, COLOR_LABEL,
    COLOR_NUM_PRESSED, COLOR_OK_PRESSED, COLOR_SOFT_PRESSED, KEY_OK, KEY_UP,
};

const ALL_KEYS: u32 = (1 << 21) - 1;

#[test]
fn every_held_key_group_has_a_distinct_highlight() {
    let mut frame = vec![0x00101010; 240 * 400];
    GamepadOverlay::draw(&mut frame, 240, 400, ALL_KEYS);

    for color in [
        COLOR_DPAD_PRESSED,
        COLOR_OK_PRESSED,
        COLOR_SOFT_PRESSED,
        COLOR_NUM_PRESSED,
    ] {
        assert!(frame.contains(&color), "missing highlight {color:08X}");
    }
}

#[test]
fn idle_overlay_does_not_use_pressed_colors() {
    let mut frame = vec![0x00101010; 240 * 400];
    GamepadOverlay::draw(&mut frame, 240, 400, 0);
    assert!(frame.contains(&COLOR_IDLE));
    assert!(!frame.contains(&COLOR_DPAD_PRESSED));
    assert!(!frame.contains(&COLOR_OK_PRESSED));
    assert!(!frame.contains(&COLOR_SOFT_PRESSED));
    assert!(!frame.contains(&COLOR_NUM_PRESSED));
}

#[test]
fn varied_and_tiny_frame_sizes_are_clipped_safely() {
    for (width, height) in [(1, 1), (13, 9), (160, 120), (240, 400), (480, 800)] {
        let mut frame = vec![0; width * height];
        GamepadOverlay::draw(&mut frame, width as u32, height as u32, ALL_KEYS);
        assert_eq!(frame.len(), width * height);
    }
}

#[test]
fn short_or_zero_sized_buffers_are_ignored() {
    let mut short = vec![0x00123456; 3];
    GamepadOverlay::draw(&mut short, 2, 2, ALL_KEYS);
    assert_eq!(short, [0x00123456; 3]);

    let mut empty = Vec::new();
    GamepadOverlay::draw(&mut empty, 0, 0, ALL_KEYS);
    assert!(empty.is_empty());
}

#[test]
fn entries_past_the_frame_are_left_alone() {
    let mut frame = vec![0x00101010; 240 * 400 + 5];
    GamepadOverlay::draw(&mut frame, 240, 400, ALL_KEYS);
    assert_eq!(&frame[240 * 400..], &[0x00101010; 5]);
}

#[test]
fn backdrop_blends_over_the_frame() {
    // The keypad backdrop of a 240x400 frame (unit 5) starts at (67, 5).
    let mut frame = vec![0x00101010; 240 * 400];
    GamepadOverlay::draw(&mut frame, 240, 400, 0);
    let alpha = COLOR_BACKGROUND >> 24;
    let mix = (0x1A * alpha + 0x10 * (255 - alpha)) / 255;
    assert_eq!(frame[5 * 240 + 67], (mix << 16) | (mix << 8) | mix);
    assert_eq!(frame[5 * 240 + 66], 0x00101010);
}

#[test]
fn held_direction_lights_only_its_button() {
    let mut frame = vec![0; 240 * 400];
    GamepadOverlay::draw(&mut frame, 240, 400, KEY_UP);
    // unit 5: the up button covers x 25..40, y 350..365; the centre square
    // starts below it.
    assert_eq!(frame[360 * 240 + 25], COLOR_DPAD_PRESSED);
    assert_eq!(frame[365 * 240 + 25], COLOR_IDLE);
    assert!(!frame.contains(&COLOR_OK_PRESSED));
}

#[test]
fn confirm_button_is_a_disc_in_the_corner() {
    let mut frame = vec![0; 240 * 400];
    GamepadOverlay::draw(&mut frame, 240, 400, KEY_OK);
    // unit 5: centre (215, 365), radius 10; the label starts at row 356.
    assert_eq!(frame[355 * 240 + 215], COLOR_OK_PRESSED);
    assert_eq!(frame[356 * 240 + 215], COLOR_OK_PRESSED);
    assert_eq!(frame[365 * 240 + 205], COLOR_LABEL);
    assert_ne!(frame[355 * 240 + 205], COLOR_OK_PRESSED);
    assert!(frame.contains(&COLOR_LABEL));
}
