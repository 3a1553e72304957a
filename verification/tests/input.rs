use nicaiemu::input::{
    guest_key_name, key_name, parse_guest_key, parse_key, HostKey, KeyboardMapper,
    RemapSpec,
};

fn remap(value: &str) -> RemapSpec {
    value.parse().unwrap()
}

fn pressed(mapper: &KeyboardMapper, down: &[HostKey]) -> Vec<u8> {
    mapper
        .guest_key_states(down)
        .into_iter()
        .filter(|(_, is_down)| *is_down)
        .map(|(guest_key, _)| guest_key)
        .collect()
}

const DEFAULT_KEYS: [HostKey; 26] = [
    HostKey::Key0,
    HostKey::Key1,
    HostKey::Key2,
    HostKey::Key3,
    HostKey::Key4,
    HostKey::Key5,
    HostKey::Key6,
    HostKey::Key7,
    HostKey::Key8,
    HostKey::Key9,
    HostKey::Q,
    HostKey::E,
    HostKey::Enter,
    HostKey::F,
    HostKey::Left,
    HostKey::A,
    HostKey::Right,
    HostKey::D,
    HostKey::Up,
    HostKey::W,
    HostKey::Down,
    HostKey::S,
    HostKey::N,
    HostKey::M,
    HostKey::Space,
    HostKey::Backspace,
];

#[test]
fn default_mapping_covers_all_guest_keys() {
    let mapper = KeyboardMapper::new(&[]);
    assert_eq!(
        pressed(&mapper, &DEFAULT_KEYS),
        [0, 1, 2, 3, 4, 5, 6, 7, 8, 9, 12, 13, 14, 15, 16, 17, 18, 19, 20]
    );
}

#[test]
fn remapping_replaces_the_default_keys() {
    let mapper = KeyboardMapper::new(&[remap("enter:space")]);
    assert_eq!(pressed(&mapper, &[HostKey::Space]), [14]);
    assert!(pressed(&mapper, &[HostKey::Enter]).is_empty());
}

#[test]
fn last_duplicate_remapping_wins() {
    let mapper = KeyboardMapper::new(&[remap("enter:space"), remap("enter:backspace")]);
    assert!(pressed(&mapper, &[HostKey::Space]).is_empty());
    assert_eq!(pressed(&mapper, &[HostKey::Backspace]), [14]);
}

#[test]
fn parser_accepts_all_guest_key_names() {
    for name in [
        "0", "1", "9", "q", "e", "enter", "left", "right", "up", "down", "n", "m",
    ] {
        assert!(format!("{name}:space").parse::<RemapSpec>().is_ok());
    }
}

#[test]
fn parser_rejects_invalid_specs_and_reserved_escape() {
    assert!("enter".parse::<RemapSpec>().is_err());
    assert!("a:space".parse::<RemapSpec>().is_err());
    assert!("enter:not-a-key".parse::<RemapSpec>().is_err());
    assert!("enter:escape".parse::<RemapSpec>().is_err());
}

#[test]
fn each_guest_key_state_is_reported_once_per_mapping() {
    let mapper = KeyboardMapper::new(&[]);
    let states = mapper.guest_key_states(&[HostKey::A]);
    assert_eq!(states.len(), 19);
    assert!(states.contains(&(15, true)));
    assert!(states.contains(&(16, false)));
}

#[test]
fn names_round_trip_and_ignore_case() {
    assert_eq!(parse_guest_key("ENTER"), Ok(14));
    assert_eq!(parse_guest_key("7"), Ok(7));
    assert!(parse_guest_key("x").is_err());
    assert_eq!(guest_key_name(17), "up");
    assert_eq!(parse_key("Space"), Ok(HostKey::Space));
    assert!(parse_key("esc").is_err());
    assert_eq!(parse_key(key_name(HostKey::PageDown)), Ok(HostKey::PageDown));
}
