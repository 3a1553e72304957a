use nicaiemu::bytes::crc32_hash;
use nicaiemu::machine::Rotation;
use nicaiemu::rotation_profile::{
    builtin_rotation, lookup_rotation, parse_rotation_overrides, register_rotation_overrides,
    rotation_for_archive, RotationOverrides, RotationProfileError,
};

fn sample_content() -> Vec<u8> {
    b"sample content for a rotation override".to_vec()
}

#[test]
fn builtin_profile_resolves_landscape_titles() {
    assert_eq!(builtin_rotation(0x282FE73D, 1143317), Some(Rotation::Ccw));
    assert_eq!(builtin_rotation(0xEE5A53AC, 341737), Some(Rotation::Ccw));
    assert_eq!(builtin_rotation(0x282FE73D, 1), None);
    assert_eq!(builtin_rotation(0x1234_5678, 1143317), None);
}

#[test]
fn rotation_for_archive_falls_back_to_none() {
    let registry = RotationOverrides::new();
    assert_eq!(rotation_for_archive(&registry, b""), Rotation::Unrotated);
    assert_ne!(rotation_for_archive(&registry, &[0; 341737]), Rotation::Ccw);
}

#[test]
fn registered_overrides_win_over_the_builtin_profile() {
    let mut registry = RotationOverrides::new();
    let content = sample_content();
    let crc = crc32_hash(&content);

    register_rotation_overrides(&mut registry, vec![(crc, content.len() as u64, Rotation::Cw)]);
    assert_eq!(rotation_for_archive(&registry, &content), Rotation::Cw);

    let mut longer = content.clone();
    longer.push(b'!');
    assert_eq!(rotation_for_archive(&registry, &longer), Rotation::Unrotated);

    register_rotation_overrides(&mut registry, vec![(crc, content.len() as u64, Rotation::Ccw)]);
    assert_eq!(rotation_for_archive(&registry, &content), Rotation::Ccw);

    register_rotation_overrides(&mut registry, Vec::new());
    assert_eq!(rotation_for_archive(&registry, &content), Rotation::Unrotated);
}

#[test]
fn override_entries_take_precedence_over_builtin_entries() {
    let mut registry = RotationOverrides::new();
    assert_eq!(lookup_rotation(&registry, 0x282FE73D, 1143317), Rotation::Ccw);
    register_rotation_overrides(&mut registry, vec![(0x282FE73D, 1143317, Rotation::Unrotated)]);
    assert_eq!(lookup_rotation(&registry, 0x282FE73D, 1143317), Rotation::Unrotated);
    assert_eq!(lookup_rotation(&registry, 0xEE5A53AC, 341737), Rotation::Ccw);
    register_rotation_overrides(&mut registry, Vec::new());
    assert_eq!(lookup_rotation(&registry, 0x282FE73D, 1143317), Rotation::Ccw);
}

#[test]
fn parse_handles_comments_hex_and_decimal() {
    let text = "# comment line\n\
                282fe73d,1143317,ccw\n\
                0xEE5A53AC, 341737 , cw\n\
                \n\
                0x12345678,42,none\n";
    let entries = parse_rotation_overrides(text).unwrap();
    assert_eq!(
        entries,
        vec![
            (0x282FE73D, 1143317, Rotation::Ccw),
            (0xEE5A53AC, 341737, Rotation::Cw),
            (0x1234_5678, 42, Rotation::Unrotated),
        ]
    );
}

#[test]
fn parse_rejects_malformed_entries() {
    let cases = [
        ("282fe73d,1143317", "missing field"),
        ("282fe73d,1143317,sideways", "unknown rotation"),
        ("zzzz,1143317,ccw", "invalid crc"),
        ("282fe73d,length,ccw", "invalid length"),
    ];
    for (text, reason) in cases {
        assert!(parse_rotation_overrides(text).is_err(), "{reason}");
    }
}

#[test]
fn parse_errors_name_the_line_and_the_field() {
    assert_eq!(
        parse_rotation_overrides("# c\n282fe73d,1143317"),
        Err(RotationProfileError::MalformedLine(2))
    );
    assert_eq!(parse_rotation_overrides("zzzz,1,cw"), Err(RotationProfileError::InvalidCrc(1)));
    assert_eq!(parse_rotation_overrides("1,-1,cw"), Err(RotationProfileError::InvalidLength(1)));
    assert_eq!(parse_rotation_overrides("1,1,up"), Err(RotationProfileError::UnknownRotation(1)));
    assert_eq!(parse_rotation_overrides("0X1ff,+7,none\r\n"), Ok(vec![(0x1ff, 7, Rotation::Unrotated)]));
}
