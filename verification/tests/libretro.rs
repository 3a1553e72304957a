use nicaiemu::libretro::{
    core_info,
    input_descriptors, map_level, pointer_to_screen, read_core_options, CoreOptions,
    FrontendLogFilter, GuestTickPacer, LogLevel, MaxLogLevel, RetroLogLevel, GUEST_FRAME_RATE,
    PACING_FPS, RETRO_DEVICE_ID_JOYPAD_A, RETRO_DEVICE_ID_JOYPAD_B, RETRO_DEVICE_ID_JOYPAD_DOWN,
    RETRO_DEVICE_ID_JOYPAD_LEFT, RETRO_DEVICE_ID_JOYPAD_RIGHT, RETRO_DEVICE_ID_JOYPAD_START,
    RETRO_DEVICE_ID_JOYPAD_UP, RETRO_DEVICE_ID_JOYPAD_X, RETRO_DEVICE_ID_JOYPAD_Y,
    RETRO_DEVICE_JOYPAD, RETRO_DEVICE_NONE,
};

#[test]
fn pacer_advances_guest_ticks_at_the_guest_frame_rate() {
    let mut pacer = GuestTickPacer::new();
    let pattern: Vec<u32> = (0..12).map(|_| pacer.advance()).collect();
    assert_eq!(pattern, [0, 0, 0, 0, 0, 1, 0, 0, 0, 0, 0, 1]);

    let mut pacer = GuestTickPacer::new();
    let ticks: u32 = (0..600).map(|_| pacer.advance()).sum();
    assert_eq!(ticks, 100);
}

#[test]
fn pacer_rates_divide_evenly() {
    assert_eq!(PACING_FPS % GUEST_FRAME_RATE, 0);
    let mut pacer = GuestTickPacer::new();
    let ticks: u32 = (0..PACING_FPS).map(|_| pacer.advance()).sum();
    assert_eq!(ticks, GUEST_FRAME_RATE);
}

#[test]
fn input_descriptors_cover_retropad_mapping() {
    let descriptors = input_descriptors();
    let ids: Vec<u32> = descriptors[..9]
        .iter()
        .map(|descriptor| descriptor.id)
        .collect();
    assert_eq!(
        ids,
        [
            RETRO_DEVICE_ID_JOYPAD_UP,
            RETRO_DEVICE_ID_JOYPAD_DOWN,
            RETRO_DEVICE_ID_JOYPAD_LEFT,
            RETRO_DEVICE_ID_JOYPAD_RIGHT,
            RETRO_DEVICE_ID_JOYPAD_A,
            RETRO_DEVICE_ID_JOYPAD_B,
            RETRO_DEVICE_ID_JOYPAD_X,
            RETRO_DEVICE_ID_JOYPAD_Y,
            RETRO_DEVICE_ID_JOYPAD_START,
        ]
    );
    assert_eq!(descriptors[9].device, RETRO_DEVICE_NONE);
    assert!(descriptors[9].description.is_none());
}

#[test]
fn input_descriptors_are_labelled_joypad_entries() {
    let descriptors = input_descriptors();
    for descriptor in &descriptors[..9] {
        assert_eq!(descriptor.port, 0);
        assert_eq!(descriptor.device, RETRO_DEVICE_JOYPAD);
        assert!(descriptor.description.is_some());
    }
    assert_eq!(descriptors[0].description.as_deref(), Some("D-Pad Up"));
    assert_eq!(descriptors[6].description.as_deref(), Some("Left Soft Key"));
    assert_eq!(descriptors[8].description.as_deref(), Some("Confirm"));
}

#[test]
fn pointer_coordinates_map_to_the_screen() {
    assert_eq!(pointer_to_screen(0, 240), 120);
    assert_eq!(pointer_to_screen(-0x7fff, 240), 0);
    assert_eq!(pointer_to_screen(0x7fff, 240), 239);
    assert_eq!(pointer_to_screen(0, 400), 200);
    assert_eq!(pointer_to_screen(0x7fff, 400), 399);
}

#[test]
fn pointer_extremes_land_on_the_screen_edges() {
    assert_eq!(pointer_to_screen(-0x8000, 240), 0);
    assert_eq!(pointer_to_screen(i32::MAX, 240), 239);
    assert_eq!(pointer_to_screen(i32::MIN, 400), 0);
}

#[test]
fn maps_rust_log_levels_to_libretro_levels() {
    assert_eq!(map_level(LogLevel::Error), RetroLogLevel::Error);
    assert_eq!(map_level(LogLevel::Warn), RetroLogLevel::Warn);
    assert_eq!(map_level(LogLevel::Info), RetroLogLevel::Info);
    assert_eq!(map_level(LogLevel::Debug), RetroLogLevel::Debug);
    assert_eq!(map_level(LogLevel::Trace), RetroLogLevel::Debug);
}

#[test]
fn debug_logging_toggles_the_frontend_filter() {
    let mut filter = FrontendLogFilter::init();
    assert_eq!(filter.set_debug_logging(false), MaxLogLevel::Info);
    assert!(!filter.enabled(LogLevel::Debug));
    assert!(filter.enabled(LogLevel::Info));
    assert!(filter.enabled(LogLevel::Error));

    assert_eq!(filter.set_debug_logging(true), MaxLogLevel::Debug);
    assert!(filter.enabled(LogLevel::Debug));
    assert!(filter.enabled(LogLevel::Trace));
    assert!(filter.enabled(LogLevel::Error));

    filter.set_debug_logging(false);
    assert!(!filter.enabled(LogLevel::Trace));
}

#[test]
fn unset_options_fall_back_to_defaults() {
    let options = read_core_options(None, None, None, None, None);
    assert_eq!(options, CoreOptions::default());
}

#[test]
fn frontend_values_override_defaults() {
    let options = read_core_options(
        Some("70"),
        Some("20"),
        Some("6"),
        Some("disabled"),
        Some("enabled"),
    );
    assert_eq!(
        options,
        CoreOptions {
            volume: 70,
            repeat_delay: 20,
            repeat_period: 6,
            touch_input: false,
            debug_logging: true,
        }
    );
}

#[test]
fn out_of_range_values_are_clamped() {
    let options = read_core_options(Some("150"), None, Some("0"), None, None);
    assert_eq!(options.volume, 100);
    assert_eq!(options.repeat_period, 1);
}

#[test]
fn invalid_values_fall_back_to_defaults() {
    let options = read_core_options(
        Some("loud"),
        Some("-3"),
        Some("soon"),
        Some("sometimes"),
        Some("verbose"),
    );
    assert_eq!(options, CoreOptions::default());
}

#[test]
fn default_options_match_the_first_advertised_choices() {
    let options = CoreOptions::default();
    assert_eq!(options.volume, 100);
    assert_eq!(options.repeat_delay, 10);
    assert_eq!(options.repeat_period, 15);
    assert!(options.touch_input);
    assert!(!options.debug_logging);
}

#[test]
fn numeric_options_accept_a_plus_sign_and_reject_overflow() {
    let options = read_core_options(Some("+40"), Some("4294967296"), Some("+0"), None, None);
    assert_eq!(options.volume, 40);
    assert_eq!(options.repeat_delay, 10);
    assert_eq!(options.repeat_period, 1);
}

#[test]
fn metadata_manifests_match_implemented_features() {
    let info = core_info();
    assert_eq!(info.corename, "nicaiemu");
    assert_eq!(info.library_name, "NicaiEmu");
    assert_eq!(info.valid_extensions, "cbe");
    assert!(info.need_fullpath);
    assert!(info.savestate);
    assert!(!info.cheats);
    assert!(info.input_descriptors);
    assert!(info.memory_descriptors);
    assert!(info.core_options);
}
