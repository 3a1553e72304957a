//! Image decoding for CBE resources: firmware PNGs with RGB565 palettes,
//! standard images, and the CBE GIF variant with an RGB565 palette.
use vstd::prelude::*;

use crate::bytes::{read_u16_be, read_u16_le, read_u32_be, spec_u16_be, spec_u16_le, spec_u32_be};
use vstd::arithmetic::power2::{lemma2_to64, lemma_pow2_strictly_increases, pow2};
use vstd::bits::lemma_usize_shl_is_mul;

verus! {

/// Decoded image (RGBA, 4 bytes per pixel, row-major).
#[derive(Debug, Clone)]
pub struct DecodedImage {
    pub width: u32,
    pub height: u32,
    pub data: Vec<u8>,
}

/// Why an image resource could not be decoded.
#[derive(Debug, Clone, Copy, PartialEq, Eq, Structural)]
pub enum ImageDecodeError {
    /// No image data.
    Empty,
    /// A firmware PNG does not start with its signature.
    InvalidFirmwareSignature,
    /// A firmware PNG chunk's end does not fit in memory.
    ChunkLengthOverflow,
    /// A firmware PNG chunk runs past the end of the data.
    ChunkTruncated,
    /// A firmware PNG palette length is not a multiple of three.
    InvalidPaletteLength,
    /// A firmware PNG has no IEND chunk.
    MissingEnd,
    /// A CBE GIF is shorter than its header.
    GifHeaderTruncated,
    /// A CBE GIF has no local palette.
    GifNoLocalPalette,
    /// A CBE GIF has no graphic control extension.
    GifNoControlExtension,
    /// The graphic control extension does not follow the palette.
    GifControlExtensionMisplaced,
    /// A CBE GIF has no image descriptor after the control extension.
    GifNoImageDescriptor,
    /// A CBE GIF declares an empty or oversized image.
    GifInvalidDimensions,
    /// The image library rejected the data.
    DecodeFailed,
}

/// Whether `image::guess_format` recognizes the data's magic bytes.
pub uninterp spec fn spec_image_format_known(data: Seq<u8>) -> bool;

/// What `image::load_from_memory(..).to_rgba8()` yields: width, height and
/// RGBA bytes, or `None` when the data does not decode.
pub uninterp spec fn spec_decode_rgba(data: Seq<u8>) -> Option<(u32, u32, Seq<u8>)>;

/// The standard PNG signature.
pub open spec fn spec_png_signature() -> Seq<u8> {
    seq![0x89u8, 0x50, 0x4e, 0x47, 0x0d, 0x0a, 0x1a, 0x0a]
}

/// The firmware PNG signature "\x89PNGGAME".
pub open spec fn spec_firmware_png_signature() -> Seq<u8> {
    seq![0x89u8, 0x50, 0x4e, 0x47, 0x47, 0x41, 0x4d, 0x45]
}

/// The GIF89a signature.
pub open spec fn spec_gif89a_signature() -> Seq<u8> {
    seq![0x47u8, 0x49, 0x46, 0x38, 0x39, 0x61]
}

/// Whether `image::guess_format` recognizes the data, by calling it. The
/// result is named; the contract also states the two magic numbers of its
/// table that this crate relies on: a PNG signature and "GIF89a".
#[verifier::external_body]
pub fn guess_format_ok(data: &[u8]) -> (res: bool)
    ensures
        res == spec_image_format_known(data@),
        data@.len() >= 8 && data@.subrange(0, 8) == spec_png_signature() ==> res,
        data@.len() >= 6 && data@.subrange(0, 6) == spec_gif89a_signature() ==> res,
{
    image::guess_format(data).is_ok()
}

/// Decode a standard image to RGBA by calling `image::load_from_memory` and
/// `DynamicImage::to_rgba8`. The result is named; the contract also states
/// that the RGBA buffer holds four bytes per pixel, as `RgbaImage` does.
#[verifier::external_body]
fn load_rgba(data: &[u8]) -> (res: Option<DecodedImage>)
    ensures
        match res {
            Some(img) => spec_decode_rgba(data@) == Some((img.width, img.height, img.data@)) && img.data@.len()
                == 4 * (img.width as int) * (img.height as int),
            None => spec_decode_rgba(data@) is None,
        },
{
    match image::load_from_memory(data) {
        Ok(img) => {
            let rgba = img.to_rgba8();
            let (width, height) = rgba.dimensions();
            Some(DecodedImage { width, height, data: rgba.into_raw() })
        },
        Err(_) => None,
    }
}

/// RGB888 expansion of an RGB565 colour: each channel's high bits are
/// repeated into its low bits.
pub open spec fn spec_rgb565_to_rgb888(v: u16) -> (u8, u8, u8) {
    let r5 = (v / 2048) as int;
    let g6 = ((v / 32) % 64) as int;
    let b5 = (v % 32) as int;
    ((r5 * 8 + r5 / 4) as u8, (g6 * 4 + g6 / 16) as u8, (b5 * 8 + b5 / 4) as u8)
}

/// Convert RGB565 to RGB888.
pub fn rgb565_to_rgb888(v: u16) -> (res: (u8, u8, u8))
    ensures
        res == spec_rgb565_to_rgb888(v),
{
    let r5 = v / 2048;
    let g6 = (v / 32) % 64;
    let b5 = v % 32;
    ((r5 * 8 + r5 / 4) as u8, (g6 * 4 + g6 / 16) as u8, (b5 * 8 + b5 / 4) as u8)
}

/// One bit step of the reflected CRC-32 with polynomial 0xEDB88320.
pub open spec fn spec_crc_bit(c: u32) -> u32 {
    if c % 2 == 1 {
        (c / 2) ^ 0xedb8_8320
    } else {
        c / 2
    }
}

/// Eight bit steps after folding in one byte.
pub open spec fn spec_crc_byte(c: u32, b: u8) -> u32 {
    let x = c ^ (b as u32);
    spec_crc_bit(spec_crc_bit(spec_crc_bit(spec_crc_bit(spec_crc_bit(spec_crc_bit(spec_crc_bit(spec_crc_bit(x))))))))
}

/// CRC register after processing all bytes from the initial value `init`.
pub open spec fn spec_crc_update(init: u32, data: Seq<u8>) -> u32
    decreases data.len(),
{
    if data.len() == 0 {
        init
    } else {
        spec_crc_byte(spec_crc_update(init, data.drop_last()), data.last())
    }
}

/// The PNG chunk CRC-32 of the data.
#[verifier::opaque]
pub open spec fn spec_png_crc32(data: Seq<u8>) -> u32 {
    spec_crc_update(0xffff_ffff, data) ^ 0xffff_ffff
}

/// Compute the PNG chunk CRC-32.
pub fn png_crc32(data: &[u8]) -> (res: u32)
    ensures
        res == spec_png_crc32(data@),
{
    let mut crc: u32 = 0xffff_ffff;
    let mut i: usize = 0;
    while i < data.len()
        invariant
            i <= data@.len(),
            crc == spec_crc_update(0xffff_ffff, data@.subrange(0, i as int)),
        decreases data@.len() - i,
    {
        assert(data@.subrange(0, i + 1).drop_last() =~= data@.subrange(0, i as int));
        let mut c = crc ^ (data[i] as u32);
        let ghost x = c;
        let mut k: u32 = 0;
        while k < 8
            invariant
                k <= 8,
                x == crc ^ (data@[i as int] as u32),
                k == 0 ==> c == x,
                k == 1 ==> c == spec_crc_bit(x),
                k == 2 ==> c == spec_crc_bit(spec_crc_bit(x)),
                k == 3 ==> c == spec_crc_bit(spec_crc_bit(spec_crc_bit(x))),
                k == 4 ==> c == spec_crc_bit(spec_crc_bit(spec_crc_bit(spec_crc_bit(x)))),
                k == 5 ==> c == spec_crc_bit(spec_crc_bit(spec_crc_bit(spec_crc_bit(spec_crc_bit(x))))),
                k == 6 ==> c == spec_crc_bit(spec_crc_bit(spec_crc_bit(spec_crc_bit(spec_crc_bit(spec_crc_bit(x)))))),
                k == 7 ==> c == spec_crc_bit(spec_crc_bit(spec_crc_bit(spec_crc_bit(spec_crc_bit(spec_crc_bit(spec_crc_bit(x))))))),
                k == 8 ==> c == spec_crc_bit(spec_crc_bit(spec_crc_bit(spec_crc_bit(spec_crc_bit(spec_crc_bit(spec_crc_bit(spec_crc_bit(x)))))))),
            decreases 8 - k,
        {
            c = if c % 2 == 1 {
                (c / 2) ^ 0xedb8_8320
            } else {
                c / 2
            };
            k = k + 1;
        }
        crc = c;
        i = i + 1;
    }
    assert(data@.subrange(0, data@.len() as int) =~= data@);
    proof {
        reveal(spec_png_crc32);
    }
    crc ^ 0xffff_ffff
}

/// Whether the data starts with the firmware PNG signature.
pub fn has_firmware_png_signature(data: &[u8]) -> (res: bool)
    ensures
        res == (data@.len() >= 8 && data@.subrange(0, 8) == spec_firmware_png_signature()),
{
    if data.len() < 8 {
        return false;
    }
    let ok = data[0] == 0x89 && data[1] == 0x50 && data[2] == 0x4e && data[3] == 0x47 && data[4] == 0x47
        && data[5] == 0x41 && data[6] == 0x4d && data[7] == 0x45;
    assert(ok == (data@.subrange(0, 8) =~= spec_firmware_png_signature()));
    ok
}

/// Big-endian bytes of a 32-bit value.
pub open spec fn spec_be32_bytes(v: int) -> Seq<u8> {
    seq![(v / 0x100_0000) as u8, ((v / 0x1_0000) % 0x100) as u8, ((v / 0x100) % 0x100) as u8, (v % 0x100) as u8]
}

/// RGB888 bytes of `count` big-endian RGB565 colours at `from`.
pub open spec fn spec_palette_rgb(data: Seq<u8>, from: int, count: int) -> Seq<u8>
    decreases count,
{
    if count <= 0 {
        Seq::empty()
    } else {
        let (r, g, b) = spec_rgb565_to_rgb888(spec_u16_be(data, from + 2 * (count - 1)) as u16);
        spec_palette_rgb(data, from, count - 1) + seq![r, g, b]
    }
}

/// The chunk type "PLTE".
pub open spec fn spec_plte() -> Seq<u8> {
    seq![0x50u8, 0x4c, 0x54, 0x45]
}

/// The chunk type "IEND".
pub open spec fn spec_iend() -> Seq<u8> {
    seq![0x49u8, 0x45, 0x4e, 0x44]
}

/// One firmware PNG chunk at `position`, rewritten: the bytes it
/// contributes, where the next chunk starts, and whether it is IEND. Every
/// chunk is copied, except that a PLTE chunk's RGB565 colours (two bytes for
/// every three declared) are expanded to RGB888 with a freshly computed CRC.
pub open spec fn spec_normalize_chunk(data: Seq<u8>, position: int) -> Result<(Seq<u8>, int, bool), ImageDecodeError> {
    let declared = spec_u32_be(data, position);
    let chunk_type = data.subrange(position + 4, position + 8);
    let is_palette = chunk_type == spec_plte();
    let source_length = if is_palette {
        (declared / 3) * 2
    } else {
        declared
    };
    let chunk_end = position + 8 + source_length + 4;
    if chunk_end > usize::MAX {
        Err(ImageDecodeError::ChunkLengthOverflow)
    } else if chunk_end > data.len() {
        Err(ImageDecodeError::ChunkTruncated)
    } else if is_palette && declared % 3 != 0 {
        Err(ImageDecodeError::InvalidPaletteLength)
    } else {
        let body = if is_palette {
            let rgb = spec_palette_rgb(data, position + 8, declared / 3);
            rgb + spec_be32_bytes(spec_png_crc32(chunk_type + rgb) as int)
        } else {
            data.subrange(position + 8, chunk_end)
        };
        Ok((spec_be32_bytes(declared) + chunk_type + body, chunk_end, chunk_type == spec_iend()))
    }
}

/// Normalized chunks from `position` on, appended to `acc`, up to and
/// including IEND; the data after IEND is never read.
pub open spec fn spec_normalize_from(data: Seq<u8>, position: int, acc: Seq<u8>) -> Result<Seq<u8>, ImageDecodeError>
    decreases data.len() - position,
{
    if position < 8 || position + 8 > data.len() {
        Err(ImageDecodeError::MissingEnd)
    } else {
        match spec_normalize_chunk(data, position) {
            Err(e) => Err(e),
            Ok((bytes, next, is_end)) => if is_end {
                Ok(acc + bytes)
            } else if next <= position {
                Err(ImageDecodeError::MissingEnd)
            } else {
                spec_normalize_from(data, next, acc + bytes)
            },
        }
    }
}

/// A firmware PNG rewritten as a standard PNG.
pub open spec fn spec_normalize_firmware_png(data: Seq<u8>) -> Result<Seq<u8>, ImageDecodeError> {
    if !(data.len() >= 8 && data.subrange(0, 8) == spec_firmware_png_signature()) {
        Err(ImageDecodeError::InvalidFirmwareSignature)
    } else {
        spec_normalize_from(data, 8, spec_png_signature())
    }
}

/// Append the big-endian bytes of a 32-bit value.
fn push_be32(out: &mut Vec<u8>, v: u32)
    ensures
        final(out)@ == old(out)@ + spec_be32_bytes(v as int),
{
    out.push((v / 0x100_0000) as u8);
    out.push(((v / 0x1_0000) % 0x100) as u8);
    out.push(((v / 0x100) % 0x100) as u8);
    out.push((v % 0x100) as u8);
    assert(final(out)@ =~= old(out)@ + spec_be32_bytes(v as int));
}

/// Append a slice.
fn push_all(out: &mut Vec<u8>, src: &[u8])
    ensures
        final(out)@ == old(out)@ + src@,
{
    let mut i: usize = 0;
    while i < src.len()
        invariant
            i <= src@.len(),
            out@ =~= old(out)@ + src@.subrange(0, i as int),
        decreases src@.len() - i,
    {
        out.push(src[i]);
        assert(src@.subrange(0, i + 1) =~= src@.subrange(0, i as int).push(src@[i as int]));
        i = i + 1;
    }
    assert(src@.subrange(0, src@.len() as int) =~= src@);
}

/// RGB888 bytes of `count` RGB565 colours at `from`.
fn palette_rgb(data: &[u8], from: usize, count: usize) -> (res: Vec<u8>)
    requires
        from + 2 * count <= data@.len(),
    ensures
        res@ == spec_palette_rgb(data@, from as int, count as int),
        res@.len() == 3 * count,
{
    let mut out: Vec<u8> = Vec::new();
    let mut i: usize = 0;
    let n = data.len();
    while i < count
        invariant
            n == data@.len(),
            from + 2 * count <= n,
            i <= count,
            out@ == spec_palette_rgb(data@, from as int, i as int),
            out@.len() == 3 * i,
        decreases count - i,
    {
        let (r, g, b) = rgb565_to_rgb888(read_u16_be(data, from + 2 * i));
        out.push(r);
        out.push(g);
        out.push(b);
        i = i + 1;
    }
    out
}

/// Rewrite the firmware PNG chunk at `position` onto `out`; returns where
/// the next chunk starts and whether this one is IEND.
fn normalize_chunk(data: &[u8], position: usize, out: &mut Vec<u8>) -> (res: Result<(usize, bool), ImageDecodeError>)
    requires
        8 <= position,
        position + 8 <= data@.len(),
    ensures
        match spec_normalize_chunk(data@, position as int) {
            Ok((bytes, next, is_end)) => res == Ok::<(usize, bool), ImageDecodeError>((next as usize, is_end))
                && final(out)@ == old(out)@ + bytes && position < next <= data@.len(),
            Err(e) => res == Err::<(usize, bool), ImageDecodeError>(e),
        },
{
    let n = data.len();
    let declared_length = read_u32_be(data, position);
    let ghost chunk_type = data@.subrange(position + 4, position + 8);
    let is_palette = data[position + 4] == 0x50 && data[position + 5] == 0x4c && data[position + 6] == 0x54
        && data[position + 7] == 0x45;
    let is_end = data[position + 4] == 0x49 && data[position + 5] == 0x45 && data[position + 6] == 0x4e
        && data[position + 7] == 0x44;
    assert(is_palette == (chunk_type =~= spec_plte()));
    assert(is_end == (chunk_type =~= spec_iend()));
    let source_length: u128 = if is_palette {
        (declared_length as u128 / 3) * 2
    } else {
        declared_length as u128
    };
    let chunk_end64: u128 = position as u128 + 8 + source_length + 4;
    if chunk_end64 > usize::MAX as u128 {
        return Err(ImageDecodeError::ChunkLengthOverflow);
    }
    if chunk_end64 > n as u128 {
        return Err(ImageDecodeError::ChunkTruncated);
    }
    if is_palette && declared_length % 3 != 0 {
        return Err(ImageDecodeError::InvalidPaletteLength);
    }
    let chunk_end = chunk_end64 as usize;
    let ghost before = out@;
    push_be32(out, declared_length);
    let chunk_type_bytes = vstd::slice::slice_to_vec(&data[position + 4..position + 8]);
    push_all(out, chunk_type_bytes.as_slice());
    let ghost head = out@;
    assert(head =~= before + (spec_be32_bytes(declared_length as int) + chunk_type));
    let ghost body: Seq<u8>;
    if is_palette {
        let rgb = palette_rgb(data, position + 8, declared_length as usize / 3);
        let mut crc_input = chunk_type_bytes.clone();
        push_all(&mut crc_input, rgb.as_slice());
        let crc = png_crc32(crc_input.as_slice());
        push_all(out, rgb.as_slice());
        push_be32(out, crc);
        proof {
            assert(crc_input@ =~= chunk_type + rgb@);
            body = rgb@ + spec_be32_bytes(crc as int);
            assert(out@ =~= head + body);
        }
    } else {
        push_all(out, &data[position + 8..chunk_end]);
        proof {
            body = data@.subrange(position + 8, chunk_end as int);
        }
    }
    proof {
        let bytes = spec_be32_bytes(declared_length as int) + chunk_type + body;
        assert(out@ =~= before + bytes);
        assert(spec_normalize_chunk(data@, position as int) == Ok::<(Seq<u8>, int, bool), ImageDecodeError>(
            (bytes, chunk_end as int, is_end),
        ));
    }
    Ok((chunk_end, is_end))
}

/// Rewrite a firmware PNG ("\x89PNGGAME" with RGB565 palettes) as a
/// standard PNG.
pub fn normalize_firmware_png(data: &[u8]) -> (res: Result<Vec<u8>, ImageDecodeError>)
    ensures
        match res {
            Ok(v) => spec_normalize_firmware_png(data@) == Ok::<Seq<u8>, ImageDecodeError>(v@),
            Err(e) => spec_normalize_firmware_png(data@) == Err::<Seq<u8>, ImageDecodeError>(e),
        },
{
    if !has_firmware_png_signature(data) {
        return Err(ImageDecodeError::InvalidFirmwareSignature);
    }
    let n = data.len();
    let mut normalized: Vec<u8> = Vec::new();
    normalized.push(0x89);
    normalized.push(0x50);
    normalized.push(0x4e);
    normalized.push(0x47);
    normalized.push(0x0d);
    normalized.push(0x0a);
    normalized.push(0x1a);
    normalized.push(0x0a);
    assert(normalized@ =~= spec_png_signature());
    let mut position: usize = 8;
    while position <= n && n - position >= 8
        invariant
            n == data@.len(),
            8 <= position,
            spec_normalize_firmware_png(data@) == spec_normalize_from(data@, position as int, normalized@),
        decreases n - position,
    {
        let ghost before = normalized@;
        let (next, is_end) = match normalize_chunk(data, position, &mut normalized) {
            Ok(step) => step,
            Err(e) => {
                return Err(e);
            },
        };
        if is_end {
            return Ok(normalized);
        }
        position = next;
    }
    Err(ImageDecodeError::MissingEnd)
}

/// Position of the first graphic control extension introducer
/// (0x21 0xF9 0x04).
pub open spec fn spec_is_gce_at(data: Seq<u8>, i: int) -> bool {
    0 <= i && i + 3 <= data.len() && data[i] == 0x21 && data[i + 1] == 0xF9 && data[i + 2] == 0x04
}

/// `i` is a graphic control extension introducer and no earlier one exists.
pub open spec fn spec_is_first_gce(data: Seq<u8>, i: int) -> bool {
    spec_is_gce_at(data, i) && forall|j: int| 0 <= j < i ==> !spec_is_gce_at(data, j)
}

/// The first position of a graphic control extension introducer.
#[verifier::opaque]
pub open spec fn spec_first_gce(data: Seq<u8>) -> Option<int> {
    if exists|i: int| spec_is_gce_at(data, i) {
        Some(choose|i: int| spec_is_first_gce(data, i))
    } else {
        None
    }
}

proof fn lemma_first_gce_at(data: Seq<u8>, p: int)
    requires
        spec_is_first_gce(data, p),
    ensures
        spec_first_gce(data) == Some(p),
{
    reveal(spec_first_gce);
    assert(spec_is_gce_at(data, p));
    let c = choose|i: int| spec_is_first_gce(data, i);
    assert(spec_is_first_gce(data, c));
    if c < p {
        assert(!spec_is_gce_at(data, c));
    }
    if p < c {
        assert(!spec_is_gce_at(data, p));
    }
}

/// Number of palette colours a CBE GIF declares in its flags byte.
pub open spec fn spec_gif_color_bits(flags: u8) -> int {
    (flags % 8) as int + 1
}

/// Number of palette colours of a CBE GIF (a power of two from 2 to 256).
pub open spec fn spec_gif_color_count(flags: u8) -> int {
    pow2(spec_gif_color_bits(flags) as nat) as int
}

/// Whether the CBE GIF checks reach the image descriptor but the data ends
/// inside it (the descriptor's width and height are read unchecked).
pub open spec fn spec_cbe_gif_descriptor_truncated(data: Seq<u8>) -> bool {
    data.len() >= 7 && data[4] >= 0x80 && match spec_first_gce(data) {
        Some(gce) => {
            let palette_end = 7 + 2 * spec_gif_color_count(data[4]);
            gce == palette_end && palette_end <= data.len() && gce + 8 < data.len() && data[gce + 8] == 0x2C
                && gce + 8 + 9 > data.len()
        },
        None => false,
    }
}

/// A CBE GIF rewritten as a standard GIF89a: the header carries the image
/// size and a global colour table expanded from the RGB565 palette, followed
/// by every byte from the graphic control extension on.
pub open spec fn spec_rebuild_cbe_gif(data: Seq<u8>) -> Result<Seq<u8>, ImageDecodeError> {
    if data.len() < 7 {
        Err(ImageDecodeError::GifHeaderTruncated)
    } else if data[4] < 0x80 {
        Err(ImageDecodeError::GifNoLocalPalette)
    } else {
        match spec_first_gce(data) {
            None => Err(ImageDecodeError::GifNoControlExtension),
            Some(gce) => {
                let count = spec_gif_color_count(data[4]);
                let palette_end = 7 + 2 * count;
                if gce != palette_end || palette_end > data.len() {
                    Err(ImageDecodeError::GifControlExtensionMisplaced)
                } else if gce + 8 >= data.len() || data[gce + 8] != 0x2C {
                    Err(ImageDecodeError::GifNoImageDescriptor)
                } else {
                    let width = spec_u16_le(data, gce + 13);
                    let height = spec_u16_le(data, gce + 15);
                    if width == 0 || width > 4096 || height == 0 || height > 4096 {
                        Err(ImageDecodeError::GifInvalidDimensions)
                    } else {
                        let header = spec_gif89a_signature() + seq![
                            (width % 256) as u8,
                            (width / 256) as u8,
                            (height % 256) as u8,
                            (height / 256) as u8,
                            (0x80 + 17 * (data[4] % 8)) as u8,
                            0u8,
                            0u8,
                        ];
                        Ok(header + spec_palette_rgb(data, 7, count) + data.subrange(gce, data.len() as int))
                    }
                }
            },
        }
    }
}

/// An image library result as this module's result.
pub open spec fn spec_decode_standard(data: Seq<u8>) -> Result<(u32, u32, Seq<u8>), ImageDecodeError> {
    match spec_decode_rgba(data) {
        Some(t) => Ok(t),
        None => Err(ImageDecodeError::DecodeFailed),
    }
}

/// The outcome of decoding an image resource: empty data is refused, a
/// firmware PNG is normalized first, data that the image library recognizes
/// is decoded as it is, and anything else is rebuilt as a CBE GIF.
pub open spec fn spec_decode_image(data: Seq<u8>) -> Result<(u32, u32, Seq<u8>), ImageDecodeError> {
    if data.len() == 0 {
        Err(ImageDecodeError::Empty)
    } else if data.len() >= 8 && data.subrange(0, 8) == spec_firmware_png_signature() {
        match spec_normalize_firmware_png(data) {
            Ok(png) => spec_decode_standard(png),
            Err(e) => Err(e),
        }
    } else if spec_image_format_known(data) {
        spec_decode_standard(data)
    } else {
        match spec_rebuild_cbe_gif(data) {
            Ok(gif) => spec_decode_standard(gif),
            Err(e) => Err(e),
        }
    }
}

/// Whether decoding would take the CBE GIF path and read past the end.
pub open spec fn spec_decode_image_reads_past_end(data: Seq<u8>) -> bool {
    &&& data.len() > 0
    &&& !(data.len() >= 8 && data.subrange(0, 8) == spec_firmware_png_signature())
    &&& !spec_image_format_known(data)
    &&& spec_cbe_gif_descriptor_truncated(data)
}

/// Position of the first graphic control extension introducer.
fn find_gce(data: &[u8]) -> (res: Option<usize>)
    ensures
        match res {
            Some(p) => spec_first_gce(data@) == Some(p as int),
            None => spec_first_gce(data@) is None,
        },
{
    let mut i: usize = 0;
    proof {
        reveal(spec_first_gce);
    }
    while i < data.len() && data.len() - i >= 3
        invariant
            i <= data@.len(),
            forall|j: int| 0 <= j < i ==> !spec_is_gce_at(data@, j),
        decreases data@.len() - i,
    {
        if data[i] == 0x21 && data[i + 1] == 0xF9 && data[i + 2] == 0x04 {
            proof {
                lemma_first_gce_at(data@, i as int);
            }
            return Some(i);
        }
        proof {
            assert(!spec_is_gce_at(data@, i as int));
        }
        i = i + 1;
    }
    proof {
        assert forall|j: int| !spec_is_gce_at(data@, j) by {
            if 0 <= j < i {
            }
        }
    }
    None
}

/// Colour count of a CBE GIF's flags byte, `1 << ((flags & 7) + 1)`.
fn gif_color_count(flags: u8) -> (res: usize)
    ensures
        res as int == spec_gif_color_count(flags),
        2 <= res <= 256,
{
    let bits: usize = (flags % 8) as usize + 1;
    proof {
        lemma2_to64();
        lemma_pow2_strictly_increases(bits as nat, 9);
        lemma_pow2_strictly_increases(0, bits as nat);
        lemma_usize_shl_is_mul(1, bits);
    }
    assert(pow2(bits as nat) <= 256);
    1usize << bits
}

/// Whether a CBE GIF passes every check up to its image descriptor and then
/// ends inside the descriptor.
pub fn cbe_gif_descriptor_truncated(data: &[u8]) -> (res: bool)
    ensures
        res == spec_cbe_gif_descriptor_truncated(data@),
{
    if data.len() < 7 || data[4] < 0x80 {
        return false;
    }
    let count = gif_color_count(data[4]);
    match find_gce(data) {
        None => false,
        Some(gce) => {
            let palette_end = 7 + 2 * count;
            gce == palette_end && palette_end <= data.len() && data.len() - gce > 8 && data[gce + 8] == 0x2C
                && data.len() - gce < 17
        },
    }
}

/// Rebuild a CBE GIF (flags, RGB565 palette, GIF blocks) as a standard GIF.
pub fn rebuild_cbe_gif(data: &[u8]) -> (res: Result<Vec<u8>, ImageDecodeError>)
    requires
        !spec_cbe_gif_descriptor_truncated(data@),
    ensures
        match res {
            Ok(v) => spec_rebuild_cbe_gif(data@) == Ok::<Seq<u8>, ImageDecodeError>(v@),
            Err(e) => spec_rebuild_cbe_gif(data@) == Err::<Seq<u8>, ImageDecodeError>(e),
        },
{
    if data.len() < 7 {
        return Err(ImageDecodeError::GifHeaderTruncated);
    }
    let flags = data[4];
    if flags < 0x80 {
        return Err(ImageDecodeError::GifNoLocalPalette);
    }
    let count = gif_color_count(flags);
    let gce = match find_gce(data) {
        Some(p) => p,
        None => {
            return Err(ImageDecodeError::GifNoControlExtension);
        },
    };
    let palette_end = 7 + 2 * count;
    if gce != palette_end || palette_end > data.len() {
        return Err(ImageDecodeError::GifControlExtensionMisplaced);
    }
    if data.len() - gce <= 8 || data[gce + 8] != 0x2C {
        return Err(ImageDecodeError::GifNoImageDescriptor);
    }
    let width = read_u16_le(data, gce + 13);
    let height = read_u16_le(data, gce + 15);
    if width == 0 || width > 4096 || height == 0 || height > 4096 {
        return Err(ImageDecodeError::GifInvalidDimensions);
    }
    let mut gif: Vec<u8> = Vec::new();
    gif.push(0x47);
    gif.push(0x49);
    gif.push(0x46);
    gif.push(0x38);
    gif.push(0x39);
    gif.push(0x61);
    gif.push((width % 256) as u8);
    gif.push((width / 256) as u8);
    gif.push((height % 256) as u8);
    gif.push((height / 256) as u8);
    gif.push(0x80 + 17 * (flags % 8));
    gif.push(0);
    gif.push(0);
    let ghost header = gif@;
    let rgb = palette_rgb(data, 7, count);
    push_all(&mut gif, rgb.as_slice());
    push_all(&mut gif, &data[gce..data.len()]);
    proof {
        let w = spec_u16_le(data@, gce + 13);
        let h = spec_u16_le(data@, gce + 15);
        assert(header =~= spec_gif89a_signature() + seq![
            (w % 256) as u8,
            (w / 256) as u8,
            (h % 256) as u8,
            (h / 256) as u8,
            (0x80 + 17 * (data@[4] % 8)) as u8,
            0u8,
            0u8,
        ]);
    }
    Ok(gif)
}

/// Decode data that the image library reads as it is.
fn decode_standard_image(data: &[u8]) -> (res: Result<DecodedImage, ImageDecodeError>)
    ensures
        match res {
            Ok(img) => spec_decode_standard(data@) == Ok::<(u32, u32, Seq<u8>), ImageDecodeError>(
                (img.width, img.height, img.data@),
            ) && img.data@.len() == 4 * (img.width as int) * (img.height as int),
            Err(e) => spec_decode_standard(data@) == Err::<(u32, u32, Seq<u8>), ImageDecodeError>(e),
        },
{
    match load_rgba(data) {
        Some(img) => Ok(img),
        None => Err(ImageDecodeError::DecodeFailed),
    }
}

/// Decode an image resource to RGBA: a firmware PNG, any format the image
/// library recognizes, or a CBE GIF with an RGB565 palette.
pub fn decode_image(data: &[u8]) -> (res: Result<DecodedImage, ImageDecodeError>)
    requires
        !spec_decode_image_reads_past_end(data@),
    ensures
        match res {
            Ok(img) => spec_decode_image(data@) == Ok::<(u32, u32, Seq<u8>), ImageDecodeError>(
                (img.width, img.height, img.data@),
            ) && img.data@.len() == 4 * (img.width as int) * (img.height as int),
            Err(e) => spec_decode_image(data@) == Err::<(u32, u32, Seq<u8>), ImageDecodeError>(e),
        },
{
    if data.len() == 0 {
        return Err(ImageDecodeError::Empty);
    }
    if has_firmware_png_signature(data) {
        let normalized = match normalize_firmware_png(data) {
            Ok(v) => v,
            Err(e) => {
                return Err(e);
            },
        };
        return decode_standard_image(normalized.as_slice());
    }
    if guess_format_ok(data) {
        return decode_standard_image(data);
    }
    let gif = match rebuild_cbe_gif(data) {
        Ok(v) => v,
        Err(e) => {
            return Err(e);
        },
    };
    decode_standard_image(gif.as_slice())
}

/// Decode an image resource, or `None` for the CBE GIFs whose image
/// descriptor is cut off by the end of the data (which `decode_image`
/// does not take).
pub fn try_decode_image(data: &[u8]) -> (res: Option<Result<DecodedImage, ImageDecodeError>>)
    ensures
        res is None <==> spec_decode_image_reads_past_end(data@),
        match res {
            Some(Ok(img)) => spec_decode_image(data@) == Ok::<(u32, u32, Seq<u8>), ImageDecodeError>(
                (img.width, img.height, img.data@),
            ) && img.data@.len() == 4 * (img.width as int) * (img.height as int),
            Some(Err(e)) => spec_decode_image(data@) == Err::<(u32, u32, Seq<u8>), ImageDecodeError>(e),
            None => true,
        },
{
    if data.len() > 0 && !has_firmware_png_signature(data) && !guess_format_ok(data)
        && cbe_gif_descriptor_truncated(data) {
        return None;
    }
    Some(decode_image(data))
}

} // verus!
