use nicaiemu::image_decoder::{
    decode_image, normalize_firmware_png, rebuild_cbe_gif, rgb565_to_rgb888, try_decode_image, DecodedImage,
    ImageDecodeError,
};
use nicaiemu::runtime::FrameBuffer;

#[test]
fn test_frame_buffer_creation() {
    let fb = FrameBuffer::new(240, 400);
    assert_eq!(fb.width, 240);
    assert_eq!(fb.height, 400);
    assert_eq!(fb.data.len(), 240 * 400 * 4);
}

#[test]
fn test_frame_buffer_set_pixel() {
    let mut fb = FrameBuffer::new(10, 10);
    fb.set_pixel(5, 5, 255, 128, 64, 255);

    let idx = (5 * 10 + 5) * 4;
    assert_eq!(fb.data[idx], 255);
    assert_eq!(fb.data[idx + 1], 128);
    assert_eq!(fb.data[idx + 2], 64);
    assert_eq!(fb.data[idx + 3], 255);
}

#[test]
fn test_frame_buffer_blit() {
    let mut fb = FrameBuffer::new(10, 10);
    let mut data = Vec::new();
    for _ in 0..9 {
        data.extend_from_slice(&[255, 0, 0, 255]);
    }
    let image = DecodedImage { width: 3, height: 3, data };

    fb.blit(1, 1, &image);

    let (r, g, b, a) = fb.get_pixel(1, 1);
    assert_eq!(r, 255);
    assert_eq!(g, 0);
    assert_eq!(b, 0);
    assert_eq!(a, 255);
}

#[test]
fn blit_clips_at_the_frame_edges_and_skips_transparent_pixels() {
    let mut fb = FrameBuffer::new(4, 4);
    let image = DecodedImage {
        width: 2,
        height: 2,
        data: vec![1, 2, 3, 4, 9, 9, 9, 0, 5, 6, 7, 8, 10, 11, 12, 13],
    };
    fb.blit(-1, 3, &image);
    assert_eq!(fb.get_pixel(0, 3), (0, 0, 0, 0));
    fb.blit(3, 3, &image);
    assert_eq!(fb.get_pixel(3, 3), (1, 2, 3, 4));
    assert_eq!(fb.get_pixel(9, 9), (0, 0, 0, 0));
    fb.clear();
    assert!(fb.data.iter().all(|b| *b == 0));
}

#[test]
fn test_rgb565_conversion() {
    let (r, g, b) = rgb565_to_rgb888(0xF800);
    assert_eq!(r, 255);
    assert_eq!(g, 0);
    assert_eq!(b, 0);

    let (r, g, b) = rgb565_to_rgb888(0x07E0);
    assert_eq!(r, 0);
    assert!(g >= 252);
    assert_eq!(b, 0);

    let (r, g, b) = rgb565_to_rgb888(0x001F);
    assert_eq!(r, 0);
    assert_eq!(g, 0);
    assert_eq!(b, 255);

    let (r, g, b) = rgb565_to_rgb888(0xFFFF);
    assert!(r >= 252);
    assert!(g >= 252);
    assert!(b >= 252);
}

#[test]
fn normalizes_firmware_png_palette() {
    let mut encoded = b"\x89PNGGAME".to_vec();
    encoded.extend_from_slice(&6u32.to_be_bytes());
    encoded.extend_from_slice(b"PLTE");
    encoded.extend_from_slice(&0xf800u16.to_be_bytes());
    encoded.extend_from_slice(&0x07e0u16.to_be_bytes());
    encoded.extend_from_slice(&[0; 4]);
    encoded.extend_from_slice(&0u32.to_be_bytes());
    encoded.extend_from_slice(b"IEND");
    encoded.extend_from_slice(&[0xae, 0x42, 0x60, 0x82]);

    let normalized = normalize_firmware_png(&encoded).unwrap();

    assert!(normalized.starts_with(b"\x89PNG\r\n\x1a\n"));
    assert_eq!(&normalized[16..22], &[255, 0, 0, 0, 255, 0]);
    assert!(normalized.ends_with(&[0xae, 0x42, 0x60, 0x82]));
}

#[test]
fn firmware_png_errors_are_reported() {
    assert_eq!(normalize_firmware_png(b"\x89PNG\r\n\x1a\n"), Err(ImageDecodeError::InvalidFirmwareSignature));
    let mut missing_end = b"\x89PNGGAME".to_vec();
    missing_end.extend_from_slice(&0u32.to_be_bytes());
    missing_end.extend_from_slice(b"IDAT");
    missing_end.extend_from_slice(&[0; 4]);
    assert_eq!(normalize_firmware_png(&missing_end), Err(ImageDecodeError::MissingEnd));
    let mut truncated = b"\x89PNGGAME".to_vec();
    truncated.extend_from_slice(&100u32.to_be_bytes());
    truncated.extend_from_slice(b"IDAT");
    assert_eq!(normalize_firmware_png(&truncated), Err(ImageDecodeError::ChunkTruncated));
    let mut bad_palette = b"\x89PNGGAME".to_vec();
    bad_palette.extend_from_slice(&4u32.to_be_bytes());
    bad_palette.extend_from_slice(b"PLTE");
    bad_palette.extend_from_slice(&[0; 6]);
    assert_eq!(normalize_firmware_png(&bad_palette), Err(ImageDecodeError::InvalidPaletteLength));
}

fn cbe_gif(width: u16, height: u16) -> Vec<u8> {
    let mut data = vec![0, 0, 0, 0, 0x80, 0, 0];
    data.extend_from_slice(&0xf800u16.to_be_bytes());
    data.extend_from_slice(&0x001fu16.to_be_bytes());
    data.extend_from_slice(&[0x21, 0xF9, 0x04, 0x00, 0x00, 0x00, 0x00, 0x00]);
    data.push(0x2C);
    data.extend_from_slice(&[0, 0, 0, 0]);
    data.extend_from_slice(&width.to_le_bytes());
    data.extend_from_slice(&height.to_le_bytes());
    data.push(0);
    data.extend_from_slice(&[0x02, 0x02, 0x44, 0x01, 0x00, 0x3B]);
    data
}

#[test]
fn cbe_gif_is_rebuilt_with_an_expanded_palette() {
    let data = cbe_gif(1, 1);
    let gif = rebuild_cbe_gif(&data).unwrap();
    assert!(gif.starts_with(b"GIF89a"));
    assert_eq!(&gif[6..13], &[1, 0, 1, 0, 0x80, 0, 0]);
    assert_eq!(&gif[13..19], &[255, 0, 0, 0, 0, 255]);
    assert_eq!(&gif[19..], &data[11..]);
    assert_eq!(rebuild_cbe_gif(&cbe_gif(0, 1)), Err(ImageDecodeError::GifInvalidDimensions));
    assert_eq!(rebuild_cbe_gif(&[0, 0, 0, 0, 0x00, 0, 0]), Err(ImageDecodeError::GifNoLocalPalette));
    assert_eq!(rebuild_cbe_gif(&[0, 0, 0, 0]), Err(ImageDecodeError::GifHeaderTruncated));
    assert_eq!(
        rebuild_cbe_gif(&[0, 0, 0, 0, 0x80, 0, 0, 1, 2, 3, 4]),
        Err(ImageDecodeError::GifNoControlExtension)
    );
}

#[test]
fn decode_image_handles_empty_and_cbe_gif_data() {
    assert!(matches!(decode_image(&[]), Err(ImageDecodeError::Empty)));
    let image = decode_image(&cbe_gif(1, 1)).unwrap();
    assert_eq!((image.width, image.height), (1, 1));
    assert_eq!(image.data.len(), 4);
    let cut = &cbe_gif(1, 1)[..21];
    assert!(try_decode_image(cut).is_none());
}

#[test]
fn pixels_outside_the_frame_read_black_and_ignore_writes() {
    let mut fb = FrameBuffer::new(3, 2);
    let before = fb.data.clone();
    fb.set_pixel(3, 0, 1, 2, 3, 4);
    fb.set_pixel(0, 2, 1, 2, 3, 4);
    assert_eq!(fb.data, before);
    assert_eq!(fb.get_pixel(3, 0), (0, 0, 0, 0));
    fb.set_pixel(2, 1, 9, 8, 7, 6);
    assert_eq!(fb.get_pixel(2, 1), (9, 8, 7, 6));
}
