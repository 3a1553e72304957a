use nicaiemu::save_state::{
    decode_frame, encode_frame, SaveStateError, HEADER_SIZE, SERIALIZED_SIZE, VERSION,
};

/// The snapshot bytes of `{ text: "NicaiEmu", number: 42 }` in the
/// fixed-width little-endian encoding the frontends serialize with.
fn snapshot() -> Vec<u8> {
    let mut bytes = Vec::new();
    bytes.extend_from_slice(&8u64.to_le_bytes());
    bytes.extend_from_slice(b"NicaiEmu");
    bytes.extend_from_slice(&42u64.to_le_bytes());
    bytes
}

fn encoded_value() -> Vec<u8> {
    let mut output = vec![0u8; SERIALIZED_SIZE];
    encode_frame(&snapshot(), 0x1234_5678, &mut output).unwrap();
    output
}

#[test]
fn codec_round_trip_and_checksum() {
    let mut output = encoded_value();
    assert_eq!(decode_frame(&output, 0x1234_5678).unwrap(), snapshot());

    output[HEADER_SIZE] ^= 1;
    assert!(decode_frame(&output, 0x1234_5678).is_err());
}

#[test]
fn codec_rejects_wrong_content_version_and_truncation() {
    let mut output = encoded_value();
    assert!(decode_frame(&output, 0x8765_4321).is_err());

    output[8..12].copy_from_slice(&2u32.to_le_bytes());
    assert!(decode_frame(&output, 0x1234_5678).is_err());

    assert!(decode_frame(&output[..HEADER_SIZE - 1], 0x1234_5678).is_err());
}

#[test]
fn header_fields_are_little_endian() {
    let output = encoded_value();
    assert_eq!(output.len(), SERIALIZED_SIZE);
    assert_eq!(&output[..8], b"NICAISTM");
    assert_eq!(u32::from_le_bytes(output[8..12].try_into().unwrap()), VERSION);
    assert_eq!(u32::from_le_bytes(output[12..16].try_into().unwrap()), 0x1234_5678);
    let payload_len = u32::from_le_bytes(output[16..20].try_into().unwrap()) as usize;
    assert_eq!(u32::from_le_bytes(output[20..24].try_into().unwrap()), 24);
    let payload = &output[HEADER_SIZE..HEADER_SIZE + payload_len];
    assert_eq!(
        u32::from_le_bytes(output[24..28].try_into().unwrap()),
        crc32fast::hash(payload)
    );
    assert_eq!(lz4_flex::decompress(payload, 24).unwrap(), snapshot());
    assert!(output[HEADER_SIZE + payload_len..].iter().all(|b| *b == 0));
}

#[test]
fn each_rejection_names_its_reason() {
    let output = encoded_value();
    assert_eq!(decode_frame(&output[..8], 1), Err(SaveStateError::Truncated));
    assert_eq!(decode_frame(&output, 7), Err(SaveStateError::ContentMismatch));

    let mut bad = output.clone();
    bad[0] = b'X';
    assert_eq!(decode_frame(&bad, 0x1234_5678), Err(SaveStateError::BadSignature));

    let mut bad = output.clone();
    bad[8..12].copy_from_slice(&2u32.to_le_bytes());
    assert_eq!(
        decode_frame(&bad, 0x1234_5678),
        Err(SaveStateError::UnsupportedVersion(2))
    );

    let mut bad = output.clone();
    bad[20..24].copy_from_slice(&(64u32 * 1024 * 1024 + 1).to_le_bytes());
    assert_eq!(
        decode_frame(&bad, 0x1234_5678),
        Err(SaveStateError::DecodedSizeTooLarge)
    );

    let mut bad = output.clone();
    bad[16..20].copy_from_slice(&u32::MAX.to_le_bytes());
    assert_eq!(
        decode_frame(&bad, 0x1234_5678),
        Err(SaveStateError::BadPayloadLength)
    );

    let mut bad = output.clone();
    bad[HEADER_SIZE] ^= 1;
    assert_eq!(
        decode_frame(&bad, 0x1234_5678),
        Err(SaveStateError::ChecksumMismatch)
    );
}

#[test]
fn small_buffers_are_refused_untouched() {
    let mut small = vec![9u8; 16];
    assert_eq!(
        encode_frame(&snapshot(), 1, &mut small),
        Err(SaveStateError::BufferTooSmall)
    );
    assert_eq!(small, vec![9u8; 16]);
}
