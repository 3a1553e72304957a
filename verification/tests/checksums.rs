use nicaiemu::bytes::crc32_hash;
use nicaiemu::image_decoder::png_crc32;

#[test]
fn crc32_is_the_standard_checksum() {
    assert_eq!(crc32_hash(b"123456789"), 0xCBF4_3926);
    assert_eq!(crc32_hash(b""), 0);
    for data in [&b"IEND"[..], b"NicaiEmu", &[0u8, 255, 7, 9]] {
        assert_eq!(crc32_hash(data), png_crc32(data));
    }
}
