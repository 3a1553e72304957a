//! Guest images and the screen (service groups 4 and 16): image objects
//! made from packaged image resources, clipped copies between images,
//! text drawn with the Unifont glyphs, rectangles, and the compressed
//! resource streams of the engine.
//!
//! An image object holds its RGB565 pixels (0), width (4), height (6) and a
//! loaded flag (8); rows are padded to a multiple of four pixels. The
//! screen is 240 x 400 pixels at `SCREEN_IMAGE`.
//! Guest addresses are computed with wrapping arithmetic.
use vstd::prelude::*;

use crate::machine::heap::{spec_allocate, spec_heap_wf, GuestHeap, HeapView};
use crate::machine::memory::{spec_read, spec_write, MachineMemory, MemoryView};
use crate::machine::nicai::{MachineView, NicaiMachine, HEAP_SIZE, SCREEN_IMAGE, SCREEN_IMAGE_STRUCT};
use crate::machine::resources::{sat_mul, spec_sat_mul};
use crate::machine::{image_payload, signed_coord, spec_image_payload, spec_signed_coord};
use crate::machine::stdio::ServiceRegisters;
use crate::machine::strings::{gbk_decode, read_c_bytes, spec_c_bytes, spec_gbk_decode};
use crate::text::chars_of;
use crate::image_decoder::{spec_decode_image, spec_decode_image_reads_past_end, try_decode_image};
use crate::machine::{clip_axis, spec_clip_axis};

verus! {

/// What `unifont::get_glyph` returns for a character: whether the glyph is
/// full width and its sixteen rows.
pub uninterp spec fn spec_unifont_glyph(c: char) -> Option<(bool, Seq<u16>)>;

/// The Unifont glyph of a character, from `unifont::get_glyph`: whether it
/// is full width (16 pixels wide, else 8) and its sixteen rows, the
/// leftmost pixel in the highest bit of the row's width. The result is
/// named by `spec_unifont_glyph`; a glyph has sixteen rows.
#[verifier::external_body]
fn unifont_glyph(c: char) -> (res: Option<(bool, Vec<u16>)>)
    ensures
        match res {
            Some((full, rows)) => spec_unifont_glyph(c) == Some((full, rows@)) && rows@.len() == 16,
            None => spec_unifont_glyph(c) is None,
        },
{
    match unifont::get_glyph(c) {
        Some(unifont::Glyph::Halfwidth(rows)) => Some((false, rows.iter().map(|row| *row as u16).collect())),
        Some(unifont::Glyph::Fullwidth(rows)) => Some((true, rows.to_vec())),
        None => None,
    }
}

/// The width of a glyph.
pub open spec fn spec_glyph_width(full: bool) -> int {
    if full {
        16
    } else {
        8
    }
}

/// Whether pixel (`x`, `y`) of a glyph is set.
pub open spec fn spec_glyph_pixel(full: bool, rows: Seq<u16>, x: int, y: int) -> bool {
    0 <= y < 16 && 0 <= x < spec_glyph_width(full) && if full {
        rows[y] & (0x8000u16 >> (x as u16)) != 0
    } else {
        rows[y] & (0x80u16 >> (x as u16)) != 0
    }
}

/// Whether pixel (`x`, `y`) of a glyph is set.
fn glyph_pixel(full: bool, rows: &[u16], x: u32, y: u32) -> (res: bool)
    requires
        rows@.len() == 16,
        x < 16,
        y < 16,
    ensures
        res == spec_glyph_pixel(full, rows@, x as int, y as int),
{
    if full {
        rows[y as usize] & (0x8000u16 >> (x as u16)) != 0
    } else {
        x < 8 && rows[y as usize] & (0x80u16 >> (x as u16)) != 0
    }
}

/// The width in pixels of the first `k` characters: the glyph widths, 16
/// for a character without a glyph, summed modulo 2^32.
pub open spec fn spec_text_width(chars: Seq<char>, k: int) -> u32
    decreases k,
{
    if k <= 0 {
        0
    } else {
        let w: u32 = match spec_unifont_glyph(chars[k - 1]) {
            Some((full, _)) => spec_glyph_width(full) as u32,
            None => 16,
        };
        spec_text_width(chars, k - 1).wrapping_add(w)
    }
}

/// The width of a text in pixels.
pub fn text_width(chars: &[char]) -> (res: u32)
    ensures
        res == spec_text_width(chars@, chars@.len() as int),
{
    let mut width: u32 = 0;
    let mut k: usize = 0;
    while k < chars.len()
        invariant
            k <= chars@.len(),
            width == spec_text_width(chars@, k as int),
        decreases chars@.len() - k,
    {
        let w: u32 = match unifont_glyph(chars[k]) {
            Some((full, _)) => if full {
                16
            } else {
                8
            },
            None => 16,
        };
        width = width.wrapping_add(w);
        k = k + 1;
    }
    width
}

/// The screen address of pixel (`x`, `y`), for a pixel on the screen.
pub open spec fn spec_screen_pixel(x: int, y: int) -> u32 {
    (SCREEN_IMAGE + (y * 240 + x) * 2) as u32
}

/// A glyph drawn with its left edge at `pen_x` and top at `y`: the first
/// `k` of its pixels in row order, those set and on the screen in `color`.
pub open spec fn spec_draw_glyph(m: MemoryView, full: bool, rows: Seq<u16>, pen_x: int, y: int, color: u16, k: int) -> MemoryView
    decreases k,
{
    if k <= 0 {
        m
    } else {
        let width = spec_glyph_width(full);
        let gy = (k - 1) / width;
        let gx = (k - 1) % width;
        let m1 = spec_draw_glyph(m, full, rows, pen_x, y, color, k - 1);
        let sx = pen_x + gx;
        let sy = y + gy;
        if 0 <= sy < 400 && 0 <= sx < 240 && spec_glyph_pixel(full, rows, gx, gy) {
            spec_write(m1, spec_screen_pixel(sx, sy), color as u32, 2)
        } else {
            m1
        }
    }
}

/// The first `k` characters drawn from pen position `x`: each glyph is
/// drawn and the pen moves by its width (16 for a character without a
/// glyph). Returns memory and the pen afterwards.
pub open spec fn spec_draw_text(m: MemoryView, chars: Seq<char>, x: int, y: int, color: u16, k: int) -> (MemoryView, int)
    decreases k,
{
    if k <= 0 {
        (m, x)
    } else {
        let (m1, pen) = spec_draw_text(m, chars, x, y, color, k - 1);
        match spec_unifont_glyph(chars[k - 1]) {
            Some((full, rows)) => (
                spec_draw_glyph(m1, full, rows, pen, y, color, 16 * spec_glyph_width(full)),
                pen + spec_glyph_width(full),
            ),
            None => (m1, pen + 16),
        }
    }
}

/// Drawing a text moves the pen by the text's width: after the first `k`
/// characters it stands `text_width` of them to the right of where it
/// started, so each glyph is drawn right after the one before it (while the
/// width fits the `u32` that measures it).
pub proof fn lemma_draw_text_advances_by_text_width(
    m: MemoryView,
    chars: Seq<char>,
    x: int,
    y: int,
    color: u16,
    k: int,
)
    requires
        0 <= k <= chars.len(),
        16 * k <= u32::MAX,
    ensures
        spec_draw_text(m, chars, x, y, color, k).1 == x + spec_text_width(chars, k),
        spec_text_width(chars, k) <= 16 * k,
        k > 0 ==> match spec_unifont_glyph(chars[k - 1]) {
            Some((full, rows)) => spec_draw_text(m, chars, x, y, color, k).0 == spec_draw_glyph(
                spec_draw_text(m, chars, x, y, color, k - 1).0,
                full,
                rows,
                x + spec_text_width(chars, k - 1),
                y,
                color,
                16 * spec_glyph_width(full),
            ),
            None => spec_draw_text(m, chars, x, y, color, k).0 == spec_draw_text(m, chars, x, y, color, k - 1).0,
        },
    decreases k,
{
    if k > 0 {
        lemma_draw_text_advances_by_text_width(m, chars, x, y, color, k - 1);
    }
}

/// Draw one glyph on the screen.
fn draw_glyph(memory: &mut MachineMemory, full: bool, rows: &[u16], pen_x: i128, y: i128, color: u16)
    requires
        rows@.len() == 16,
        -0x1_0000_0000_0000_0000_0000 <= pen_x <= 0x1_0000_0000_0000_0000_0000,
        i32::MIN <= y <= i32::MAX,
    ensures
        final(memory)@ == spec_draw_glyph(
            old(memory)@,
            full,
            rows@,
            pen_x as int,
            y as int,
            color,
            16 * spec_glyph_width(full),
        ),
{
    let width: u32 = if full {
        16
    } else {
        8
    };
    let total: u32 = 16 * width;
    let mut k: u32 = 0;
    while k < total
        invariant
            k <= total == 16 * width,
            width == spec_glyph_width(full),
            rows@.len() == 16,
            -0x1_0000_0000_0000_0000_0000 <= pen_x <= 0x1_0000_0000_0000_0000_0000,
            i32::MIN <= y <= i32::MAX,
            memory@ == spec_draw_glyph(old(memory)@, full, rows@, pen_x as int, y as int, color, k as int),
        decreases total - k,
    {
        let gy = k / width;
        let gx = k % width;
        let sx = pen_x + gx as i128;
        let sy = y + gy as i128;
        if 0 <= sy && sy < 400 && 0 <= sx && sx < 240 && glyph_pixel(full, rows, gx, gy) {
            let offset = ((sy as u32) * 240 + sx as u32) * 2;
            memory.w16(SCREEN_IMAGE + offset, color);
        }
        k = k + 1;
    }
}

/// Draw a text on the screen with its top-left corner at (`x`, `y`).
pub fn draw_text(memory: &mut MachineMemory, chars: &[char], x: i32, y: i32, color: u16)
    ensures
        final(memory)@ == spec_draw_text(old(memory)@, chars@, x as int, y as int, color, chars@.len() as int).0,
{
    let mut pen: i128 = x as i128;
    let mut k: usize = 0;
    while k < chars.len()
        invariant
            k <= chars@.len(),
            x as int <= pen <= x as int + 16 * k,
            (memory@, pen as int) == spec_draw_text(old(memory)@, chars@, x as int, y as int, color, k as int),
        decreases chars@.len() - k,
    {
        match unifont_glyph(chars[k]) {
            Some((full, rows)) => {
                draw_glyph(memory, full, rows.as_slice(), pen, y as i128, color);
                pen = pen + if full {
                    16
                } else {
                    8
                };
            },
            None => {
                pen = pen + 16;
            },
        }
        k = k + 1;
    }
}

/// A rectangle of the screen filled with `color`: the first `k` of its
/// pixels in row order, those on the screen.
pub open spec fn spec_fill_rect(m: MemoryView, x: int, y: int, width: int, color: u16, k: int) -> MemoryView
    decreases k,
{
    if k <= 0 || width <= 0 {
        m
    } else {
        let m1 = spec_fill_rect(m, x, y, width, color, k - 1);
        let sx = x + (k - 1) % width;
        let sy = y + (k - 1) / width;
        if 0 <= sx < 240 && 0 <= sy < 400 {
            spec_write(m1, spec_screen_pixel(sx, sy), color as u32, 2)
        } else {
            m1
        }
    }
}

/// Fill a rectangle of the screen; nothing for an empty one.
pub fn fill_screen_rect(memory: &mut MachineMemory, x: i32, y: i32, width: i32, height: i32, color: u16)
    ensures
        final(memory)@ == if width <= 0 || height <= 0 {
            old(memory)@
        } else {
            spec_fill_rect(old(memory)@, x as int, y as int, width as int, color, width * height)
        },
{
    if width <= 0 || height <= 0 {
        return;
    }
    assert(width as u64 * height as u64 <= 0x7fff_ffff * 0x7fff_ffff) by (nonlinear_arith)
        requires
            0 < width <= 0x7fff_ffff,
            0 < height <= 0x7fff_ffff,
    ;
    let total: u64 = width as u64 * height as u64;
    let mut k: u64 = 0;
    while k < total
        invariant
            0 < width,
            0 < height,
            total == width * height,
            k <= total,
            memory@ == spec_fill_rect(old(memory)@, x as int, y as int, width as int, color, k as int),
        decreases total - k,
    {
        assert(k / (width as u64) < height as u64) by (nonlinear_arith)
            requires
                k < total,
                total == width * height,
                width > 0,
        ;
        let sx = x as i64 + (k % width as u64) as i64;
        let sy = y as i64 + (k / width as u64) as i64;
        if 0 <= sx && sx < 240 && 0 <= sy && sy < 400 {
            let offset = ((sy as u32) * 240 + sx as u32) * 2;
            memory.w16(SCREEN_IMAGE + offset, color);
        }
        k = k + 1;
    }
}

/// The 32-bit big-endian value of bytes `address` to `address + 3`.
pub open spec fn spec_read_be32(m: MemoryView, address: u32) -> (u32, MemoryView) {
    let (b0, m1) = spec_read(m, address, 1);
    let (b1, m2) = spec_read(m1, address.wrapping_add(1), 1);
    let (b2, m3) = spec_read(m2, address.wrapping_add(2), 1);
    let (b3, m4) = spec_read(m3, address.wrapping_add(3), 1);
    ((b0 * 0x100_0000 + b1 * 0x1_0000 + b2 * 0x100 + b3) as u32, m4)
}

/// Read a 32-bit big-endian value byte by byte.
fn read_be32(memory: &mut MachineMemory, address: u32) -> (res: u32)
    ensures
        (res, final(memory)@) == spec_read_be32(old(memory)@, address),
{
    let b0 = memory.r8(address) as u32;
    let b1 = memory.r8(address.wrapping_add(1)) as u32;
    let b2 = memory.r8(address.wrapping_add(2)) as u32;
    let b3 = memory.r8(address.wrapping_add(3)) as u32;
    b0 * 0x100_0000 + b1 * 0x1_0000 + b2 * 0x100 + b3
}

/// `count` bytes copied one by one from `from` to `to`, from the `i`-th
/// on (a copy may read bytes it wrote).
pub open spec fn spec_copy_bytes(m: MemoryView, from: u32, to: u32, count: u32, i: u32) -> MemoryView
    decreases count - i,
{
    if i >= count {
        m
    } else {
        let (byte, m1) = spec_read(m, from.wrapping_add(i), 1);
        spec_copy_bytes(spec_write(m1, to.wrapping_add(i), byte, 1), from, to, count, (i + 1) as u32)
    }
}

/// Copy `count` bytes one by one.
fn copy_bytes(memory: &mut MachineMemory, from: u32, to: u32, count: u32)
    ensures
        final(memory)@ == spec_copy_bytes(old(memory)@, from, to, count, 0),
{
    let mut i: u32 = 0;
    while i < count
        invariant
            i <= count,
            spec_copy_bytes(memory@, from, to, count, i) == spec_copy_bytes(old(memory)@, from, to, count, 0),
        decreases count - i,
    {
        let byte = memory.r8(from.wrapping_add(i));
        memory.w8(to.wrapping_add(i), byte);
        i = i + 1;
    }
}

/// The decoding of a compressed stream whose commands start at
/// `source + 9`, into `output` of `output_size` bytes, from command offset
/// `so` and output offset `oo`: a command byte with the high bit set is
/// followed by that many (low seven bits) literal bytes; otherwise its
/// upper seven bits are a length and its low bit with the next byte a
/// distance back into the output to copy from. Decoding stops at the end
/// of the commands or the output, or at a malformed command. Returns the
/// bytes written and memory.
pub open spec fn spec_decode_stream(
    m: MemoryView,
    source: u32,
    compressed: u32,
    output: u32,
    output_size: u32,
    so: u32,
    oo: u32,
) -> (u32, MemoryView)
    decreases output_size - oo,
{
    if so >= compressed || oo >= output_size {
        (oo, m)
    } else {
        let (command, m1) = spec_read(m, source.wrapping_add(9).wrapping_add(so), 1);
        if command >= 0x80 {
            let count0: u32 = (command - 0x80) as u32;
            if count0 == 0 || so + 1 + count0 > compressed {
                (oo, m1)
            } else {
                let count = if count0 <= output_size - oo {
                    count0
                } else {
                    (output_size - oo) as u32
                };
                let m2 = spec_copy_bytes(
                    m1,
                    source.wrapping_add(10).wrapping_add(so),
                    output.wrapping_add(oo),
                    count as u32,
                    0,
                );
                spec_decode_stream(m2, source, compressed, output, output_size, (so + count + 1) as u32, (oo + count) as u32)
            }
        } else {
            if so + 1 >= compressed {
                (oo, m1)
            } else {
                let count0: u32 = (command / 2) as u32;
                let (low, m2) = spec_read(m1, source.wrapping_add(10).wrapping_add(so), 1);
                let distance = (command % 2) * 0x100 + low;
                if count0 == 0 || distance == 0 || distance > oo {
                    (oo, m2)
                } else {
                    let count = if count0 <= output_size - oo {
                        count0
                    } else {
                        (output_size - oo) as u32
                    };
                    let m3 = spec_copy_bytes(
                        m2,
                        output.wrapping_add((oo - distance) as u32),
                        output.wrapping_add(oo),
                        count as u32,
                        0,
                    );
                    spec_decode_stream(m3, source, compressed, output, output_size, (so + 2) as u32, (oo + count) as u32)
                }
            }
        }
    }
}

/// A compressed resource stream at `source` decoded into a fresh heap
/// block: after a type byte, the big-endian compressed size and output
/// size (its top bit ignored) head the commands. 0 for a null source, an
/// empty stream, an output larger than the heap region, a failed
/// allocation or an output with no byte written.
pub open spec fn spec_decode_resource_stream(h: HeapView, m: MemoryView, source: u32) -> (u32, HeapView, MemoryView) {
    if source == 0 {
        (0, h, m)
    } else {
        let (compressed, m1) = spec_read_be32(m, source.wrapping_add(1));
        let (raw_size, m2) = spec_read_be32(m1, source.wrapping_add(5));
        let output_size = (raw_size % 0x8000_0000) as u32;
        if compressed == 0 || output_size == 0 || output_size > HEAP_SIZE {
            (0, h, m2)
        } else {
            let (output, h1) = spec_allocate(h, output_size);
            if output == 0 {
                (0, h1, m2)
            } else {
                let (written, m3) = spec_decode_stream(m2, source, compressed, output, output_size, 0, 0);
                (if written == 0 {
                    0
                } else {
                    output
                }, h1, m3)
            }
        }
    }
}

/// Decode a compressed resource stream (see `spec_decode_resource_stream`).
pub fn decode_resource_stream(heap: &mut GuestHeap, memory: &mut MachineMemory, source: u32) -> (res: u32)
    requires
        spec_heap_wf(old(heap)@),
    ensures
        spec_heap_wf(final(heap)@),
        (res, final(heap)@, final(memory)@) == spec_decode_resource_stream(old(heap)@, old(memory)@, source),
{
    if source == 0 {
        return 0;
    }
    let compressed = read_be32(memory, source.wrapping_add(1));
    let output_size = read_be32(memory, source.wrapping_add(5)) % 0x8000_0000;
    if compressed == 0 || output_size == 0 || output_size > HEAP_SIZE {
        return 0;
    }
    let output = heap.allocate(output_size);
    if output == 0 {
        return 0;
    }
    let ghost m2 = memory@;
    let mut so: u32 = 0;
    let mut oo: u32 = 0;
    while so < compressed && oo < output_size
        invariant_except_break
            spec_decode_stream(memory@, source, compressed, output, output_size, so, oo) == spec_decode_stream(
                m2,
                source,
                compressed,
                output,
                output_size,
                0,
                0,
            ),
        ensures
            spec_decode_stream(m2, source, compressed, output, output_size, 0, 0) == (oo, memory@),
        decreases output_size - oo,
    {
        let command = memory.r8(source.wrapping_add(9).wrapping_add(so)) as u32;
        if command >= 0x80 {
            let count0 = command - 0x80;
            if count0 == 0 || so as u64 + 1 + count0 as u64 > compressed as u64 {
                break;
            }
            let count = if count0 <= output_size - oo {
                count0
            } else {
                output_size - oo
            };
            copy_bytes(memory, source.wrapping_add(10).wrapping_add(so), output.wrapping_add(oo), count);
            so = so + count + 1;
            oo = oo + count;
        } else {
            if so as u64 + 1 >= compressed as u64 {
                break;
            }
            let count0 = command / 2;
            let low = memory.r8(source.wrapping_add(10).wrapping_add(so)) as u32;
            let distance = (command % 2) * 0x100 + low;
            if count0 == 0 || distance == 0 || distance > oo {
                break;
            }
            let count = if count0 <= output_size - oo {
                count0
            } else {
                output_size - oo
            };
            copy_bytes(memory, output.wrapping_add(oo - distance), output.wrapping_add(oo), count);
            so = so + 2;
            oo = oo + count;
        }
    }
    if oo == 0 {
        0
    } else {
        output
    }
}

/// The address `offset` bytes past `base`, modulo 2^32.
pub open spec fn spec_offset_address(base: u32, offset: int) -> u32 {
    ((base + offset % 0x1_0000_0000) % 0x1_0000_0000) as u32
}

/// The address `offset` bytes past `base`, modulo 2^32.
fn offset_address(base: u32, offset: u64) -> (res: u32)
    ensures
        res == spec_offset_address(base, offset as int),
{
    ((base as u64 + offset % 0x1_0000_0000) % 0x1_0000_0000) as u32
}

/// The first `k` pixels of a clipped copy, in row order: the source pixel
/// at (`sx + col`, `sy + row`) goes to (`dx + col`, `dy + row`) unless
/// the copy is transparent and the pixel is 0; rows are `width` long.
pub open spec fn spec_blit_pixels(
    m: MemoryView,
    source_pixels: u32,
    source_pitch: int,
    sx: int,
    sy: int,
    destination_pixels: u32,
    destination_pitch: int,
    dx: int,
    dy: int,
    width: int,
    transparent: bool,
    k: int,
) -> MemoryView
    decreases k,
{
    if k <= 0 || width <= 0 {
        m
    } else {
        let m1 = spec_blit_pixels(
            m,
            source_pixels,
            source_pitch,
            sx,
            sy,
            destination_pixels,
            destination_pitch,
            dx,
            dy,
            width,
            transparent,
            k - 1,
        );
        let row = (k - 1) / width;
        let col = (k - 1) % width;
        let from = spec_offset_address(source_pixels, ((sy + row) * source_pitch + sx + col) * 2);
        let (color, m2) = spec_read(m1, from, 2);
        if !transparent || color != 0 {
            let to = spec_offset_address(destination_pixels, ((dy + row) * destination_pitch + dx + col) * 2);
            spec_write(m2, to, color, 2)
        } else {
            m2
        }
    }
}

/// A value rounded up to a multiple of four.
pub open spec fn spec_round4(v: int) -> int {
    if v % 4 == 0 {
        v
    } else {
        v + 4 - v % 4
    }
}

/// Copy the `width` x `height` rectangle at (`sx`, `sy`) of the source
/// image to (`dx`, `dy`) of the destination image, clipped to both (0
/// pixels are skipped in a transparent copy). The screen is the
/// destination when asked for, or when the destination is missing, empty
/// or larger than the screen. Nothing happens without source pixels or
/// with an empty rectangle.
pub open spec fn spec_blit(
    m: MemoryView,
    destination: u32,
    source: u32,
    sx: int,
    sy: int,
    width: int,
    height: int,
    dx: int,
    dy: int,
    transparent: bool,
) -> MemoryView {
    let (source_pixels, m1) = spec_read(m, source, 4);
    let (sw, m2) = spec_read(m1, source.wrapping_add(4), 2);
    let (sh, m3) = spec_read(m2, source.wrapping_add(6), 2);
    let (dp0, m4) = spec_read(m3, destination, 4);
    let (dw0, m5) = spec_read(m4, destination.wrapping_add(4), 2);
    let (dh0, m6) = spec_read(m5, destination.wrapping_add(6), 2);
    let screen = destination == SCREEN_IMAGE_STRUCT || dp0 == 0 || dw0 == 0 || dh0 == 0 || dw0 > 240 || dh0 > 400;
    let dp = if screen {
        SCREEN_IMAGE
    } else {
        dp0
    };
    let dw: int = if screen {
        240
    } else {
        dw0 as int
    };
    let dh: int = if screen {
        400
    } else {
        dh0 as int
    };
    if source_pixels == 0 || sw == 0 || sh == 0 || width <= 0 || height <= 0 {
        m6
    } else {
        let (sx1, w1, dx1) = spec_clip_axis(sx, width, dx, sw as int, dw);
        let (sy1, h1, dy1) = spec_clip_axis(sy, height, dy, sh as int, dh);
        if w1 <= 0 || h1 <= 0 {
            m6
        } else {
            spec_blit_pixels(
                m6,
                source_pixels,
                spec_round4(sw as int),
                sx1,
                sy1,
                dp,
                spec_round4(dw),
                dx1,
                dy1,
                w1,
                transparent,
                w1 * h1,
            )
        }
    }
}

/// Copy a clipped rectangle between images (see `spec_blit`); the
/// coordinates are 16-bit guest values.
pub fn blit(
    memory: &mut MachineMemory,
    destination: u32,
    source: u32,
    sx: i32,
    sy: i32,
    width: i32,
    height: i32,
    dx: i32,
    dy: i32,
    transparent: bool,
)
    requires
        -0x8000 <= sx < 0x8000,
        -0x8000 <= sy < 0x8000,
        -0x8000 <= width < 0x8000,
        -0x8000 <= height < 0x8000,
        -0x8000 <= dx < 0x8000,
        -0x8000 <= dy < 0x8000,
    ensures
        final(memory)@ == spec_blit(
            old(memory)@,
            destination,
            source,
            sx as int,
            sy as int,
            width as int,
            height as int,
            dx as int,
            dy as int,
            transparent,
        ),
{
    let source_pixels = memory.r32(source);
    let sw = memory.r16(source.wrapping_add(4)) as i32;
    let sh = memory.r16(source.wrapping_add(6)) as i32;
    let dp0 = memory.r32(destination);
    let dw0 = memory.r16(destination.wrapping_add(4)) as i32;
    let dh0 = memory.r16(destination.wrapping_add(6)) as i32;
    let screen = destination == SCREEN_IMAGE_STRUCT || dp0 == 0 || dw0 == 0 || dh0 == 0 || dw0 > 240 || dh0 > 400;
    let dp = if screen {
        SCREEN_IMAGE
    } else {
        dp0
    };
    let dw: i32 = if screen {
        240
    } else {
        dw0
    };
    let dh: i32 = if screen {
        400
    } else {
        dh0
    };
    if source_pixels == 0 || sw == 0 || sh == 0 || width <= 0 || height <= 0 {
        return;
    }
    let mut sx1 = sx;
    let mut w1 = width;
    let mut dx1 = dx;
    clip_axis(&mut sx1, &mut w1, &mut dx1, sw, dw);
    let mut sy1 = sy;
    let mut h1 = height;
    let mut dy1 = dy;
    clip_axis(&mut sy1, &mut h1, &mut dy1, sh, dh);
    if w1 <= 0 || h1 <= 0 {
        return;
    }
    let source_pitch: u64 = if sw % 4 == 0 {
        sw as u64
    } else {
        (sw + 4 - sw % 4) as u64
    };
    let destination_pitch: u64 = if dw % 4 == 0 {
        dw as u64
    } else {
        (dw + 4 - dw % 4) as u64
    };
    assert(w1 <= 0xffff && h1 <= 0xffff);
    assert(w1 as u64 * h1 as u64 <= 0xffff * 0xffff) by (nonlinear_arith)
        requires
            0 < w1 <= 0xffff,
            0 < h1 <= 0xffff,
    ;
    let total: u64 = w1 as u64 * h1 as u64;
    let width64 = w1 as u64;
    let ghost m6 = memory@;
    let mut k: u64 = 0;
    while k < total
        invariant
            0 < w1 <= 0xffff,
            0 < h1 <= 0xffff,
            width64 == w1,
            total == w1 * h1,
            k <= total,
            0 <= sx1 <= 0xffff,
            0 <= sy1 <= 0xffff,
            0 <= dx1 <= 0xffff,
            0 <= dy1 <= 0xffff,
            source_pitch <= 0x1_0000,
            destination_pitch <= 0x1_0000,
            memory@ == spec_blit_pixels(
                m6,
                source_pixels,
                source_pitch as int,
                sx1 as int,
                sy1 as int,
                dp,
                destination_pitch as int,
                dx1 as int,
                dy1 as int,
                w1 as int,
                transparent,
                k as int,
            ),
        decreases total - k,
    {
        let row = k / width64;
        let col = k % width64;
        assert(row < h1) by (nonlinear_arith)
            requires
                k < total,
                total == w1 * h1,
                width64 == w1,
                row == k / width64,
                w1 > 0,
        ;
        assert((sy1 as u64 + row) * source_pitch <= 0x2_0000 * 0x1_0000) by (nonlinear_arith)
            requires
                sy1 as u64 + row <= 0x2_0000,
                source_pitch <= 0x1_0000,
        ;
        assert((dy1 as u64 + row) * destination_pitch <= 0x2_0000 * 0x1_0000) by (nonlinear_arith)
            requires
                dy1 as u64 + row <= 0x2_0000,
                destination_pitch <= 0x1_0000,
        ;
        let from = offset_address(source_pixels, ((sy1 as u64 + row) * source_pitch + sx1 as u64 + col) * 2);
        let color = memory.r16(from);
        if !transparent || color != 0 {
            let to = offset_address(dp, ((dy1 as u64 + row) * destination_pitch + dx1 as u64 + col) * 2);
            memory.w16(to, color);
        }
        k = k + 1;
    }
}

/// The first packaged resource whose loaded data is at `address`.
pub open spec fn spec_index_of(data: Seq<u32>, address: u32, k: int) -> Option<int>
    decreases data.len() - k,
{
    if k < 0 || k >= data.len() {
        None
    } else if data[k] == address {
        Some(k)
    } else {
        spec_index_of(data, address, k + 1)
    }
}

/// The RGB565 color of an RGBA pixel; transparent-ish pixels (alpha below
/// 128) become 0.
pub open spec fn spec_rgba_to_rgb565(r: u8, g: u8, b: u8, a: u8) -> u16 {
    if a < 128 {
        0
    } else {
        ((r / 8) as int * 2048 + (g / 4) as int * 32 + (b / 8) as int) as u16
    }
}

/// The first `k` pixels of a decoded RGBA image, in row order, stored as
/// RGB565 in rows of `pitch` pixels from `pixels`.
pub open spec fn spec_image_pixels(m: MemoryView, pixels: u32, pitch: int, width: int, data: Seq<u8>, k: int) -> MemoryView
    decreases k,
{
    if k <= 0 || width <= 0 {
        m
    } else {
        let i = k - 1;
        let m1 = spec_image_pixels(m, pixels, pitch, width, data, i);
        let x = i % width;
        let y = i / width;
        let color = spec_rgba_to_rgb565(data[4 * i], data[4 * i + 1], data[4 * i + 2], data[4 * i + 3]);
        spec_write(m1, spec_offset_address(pixels, (y * pitch + x) * 2), color as u32, 2)
    }
}

/// An image object for decoded RGBA pixels of a `w` by `h` image: the
/// pixels as RGB565 rows padded to four pixels in a fresh heap block, then
/// the object (block address, width, height, a set flag) written at
/// `output`, or in a fresh 12-byte block when `output` is 0. 0 where the
/// pixel block cannot be allocated.
pub open spec fn spec_image_object(
    heap: HeapView,
    m: MemoryView,
    w: u32,
    h: u32,
    data: Seq<u8>,
    output: u32,
) -> (u32, HeapView, MemoryView) {
    let pitch = spec_round4(w as int);
    let (pixels, h1) = spec_allocate(heap, spec_sat_mul(spec_sat_mul(pitch as u32, h), 2));
    if pixels == 0 {
        (0, h1, m)
    } else {
        let m1 = spec_image_pixels(m, pixels, pitch, w as int, data, w * h);
        let (image, h2) = if output == 0 {
            spec_allocate(h1, 12)
        } else {
            (output, h1)
        };
        let m2 = spec_write(m1, image, pixels, 4);
        let m3 = spec_write(m2, image.wrapping_add(4), w, 2);
        let m4 = spec_write(m3, image.wrapping_add(6), h, 2);
        (image, h2, spec_write(m4, image.wrapping_add(8), 1, 1))
    }
}

/// Build an image object from decoded pixels (see `spec_image_object`).
fn image_object(heap: &mut GuestHeap, memory: &mut MachineMemory, w: u32, h: u32, data: &[u8], output: u32) -> (res: u32)
    requires
        spec_heap_wf(old(heap)@),
        0 < w <= 0xffff,
        0 < h <= 0xffff,
        data@.len() == 4 * (w as int) * (h as int),
    ensures
        spec_heap_wf(final(heap)@),
        (res, final(heap)@, final(memory)@) == spec_image_object(old(heap)@, old(memory)@, w, h, data@, output),
{
    let pitch: u32 = if w % 4 == 0 {
        w
    } else {
        w + 4 - w % 4
    };
    let pixels = heap.allocate(sat_mul(sat_mul(pitch, h), 2));
    if pixels == 0 {
        return 0;
    }
    store_image_pixels(memory, pixels, pitch, w, h, data);
    let object = if output == 0 {
        heap.allocate(12)
    } else {
        output
    };
    memory.w32(object, pixels);
    memory.w16(object.wrapping_add(4), w as u16);
    memory.w16(object.wrapping_add(6), h as u16);
    memory.w8(object.wrapping_add(8), 1);
    object
}

/// An image object made from the packaged image resource whose loaded
/// data is at `source`: its payload decoded, converted to RGB565 rows
/// padded to four pixels in a fresh heap block, with the object written at
/// `output` (or a fresh 12-byte block when `output` is 0). 0 for a null or
/// unknown source, an image that cannot be decoded (or whose GIF
/// descriptor is cut short), an empty image or one over 65535 pixels in a
/// direction, or a failed allocation.
pub open spec fn spec_create_image(v: MachineView, source: u32, output: u32) -> (u32, MachineView) {
    if source == 0 {
        (0, v)
    } else {
        match spec_index_of(v.resource_data, source, 0) {
            None => (0, v),
            Some(i) => {
                let payload = spec_image_payload(v.resources[i].1);
                if spec_decode_image_reads_past_end(payload) {
                    (0, v)
                } else {
                    match spec_decode_image(payload) {
                        Err(_) => (0, v),
                        Ok((w, h, data)) => if w == 0 || h == 0 || w > 0xffff || h > 0xffff {
                            (0, v)
                        } else {
                            let (image, h2, m2) = spec_image_object(v.heap, v.memory, w, h, data, output);
                            (image, MachineView { heap: h2, memory: m2, ..v })
                        },
                    }
                }
            },
        }
    }
}

/// Store decoded RGBA pixels as RGB565 rows.
fn store_image_pixels(memory: &mut MachineMemory, pixels: u32, pitch: u32, width: u32, height: u32, data: &[u8])
    requires
        0 < width <= 0xffff,
        0 < height <= 0xffff,
        pitch <= 0x1_0000,
        data@.len() == 4 * width * height,
    ensures
        final(memory)@ == spec_image_pixels(old(memory)@, pixels, pitch as int, width as int, data@, width * height),
{
    assert(width as u64 * height as u64 <= 0xffff * 0xffff) by (nonlinear_arith)
        requires
            0 < width <= 0xffff,
            0 < height <= 0xffff,
    ;
    let total: u64 = width as u64 * height as u64;
    assert(data@.len() == 4 * total) by (nonlinear_arith)
        requires
            data@.len() == 4 * width * height,
            total == width * height,
    ;
    let mut k: u64 = 0;
    while k < total
        invariant
            0 < width <= 0xffff,
            0 < height <= 0xffff,
            pitch <= 0x1_0000,
            total == width * height,
            total <= 0xffff * 0xffff,
            data@.len() == 4 * total,
            k <= total,
            memory@ == spec_image_pixels(old(memory)@, pixels, pitch as int, width as int, data@, k as int),
        decreases total - k,
    {
        let x = k % width as u64;
        let y = k / width as u64;
        assert(y < height) by (nonlinear_arith)
            requires
                k < total,
                total == width * height,
                y == k / width as u64,
                width > 0,
        ;
        assert(y * pitch as u64 <= 0xffff * 0x1_0000) by (nonlinear_arith)
            requires
                y < 0xffff,
                pitch <= 0x1_0000,
        ;
        assert(4 * k + 3 < data@.len());
        let i = (4 * k) as usize;
        let r = data[i];
        let g = data[i + 1];
        let b = data[i + 2];
        let a = data[i + 3];
        let color: u16 = if a < 128 {
            0
        } else {
            ((r / 8) as u16) * 2048 + ((g / 4) as u16) * 32 + (b / 8) as u16
        };
        memory.w16(offset_address(pixels, (y * pitch as u64 + x) * 2), color);
        k = k + 1;
    }
}

impl NicaiMachine {
    /// Make an image object from a packaged image resource (see
    /// `spec_create_image`).
    pub fn create_image_from_stream(&mut self, source: u32, output: u32) -> (res: u32)
        requires
            old(self).wf(),
        ensures
            final(self).wf(),
            (res, final(self)@) == spec_create_image(old(self)@, source, output),
    {
        if source == 0 {
            return 0;
        }
        let ghost v0 = self@;
        let mut k: usize = 0;
        let mut found: Option<usize> = None;
        while k < self.resource_data.len()
            invariant_except_break
                k <= self.resource_data@.len(),
                found is None,
                spec_index_of(self@.resource_data, source, 0) == spec_index_of(self@.resource_data, source, k as int),
            ensures
                match found {
                    Some(i) => spec_index_of(self@.resource_data, source, 0) == Some(i as int) && i < self.resource_data@.len(),
                    None => spec_index_of(self@.resource_data, source, 0) is None,
                },
            decreases self.resource_data@.len() - k,
        {
            if self.resource_data[k] == source {
                found = Some(k);
                break;
            }
            k = k + 1;
        }
        let index = match found {
            Some(i) => i,
            None => return 0,
        };
        let payload = image_payload(self.resources[index].data.as_slice());
        assert(self@.resources[index as int] == self.resources@[index as int]@);
        let image = match try_decode_image(payload) {
            Some(Ok(img)) => img,
            _ => return 0,
        };
        let w = image.width;
        let h = image.height;
        if w == 0 || h == 0 || w > 0xffff || h > 0xffff {
            return 0;
        }
        image_object(&mut self.heap, &mut self.memory, w, h, image.data.as_slice(), output)
    }
}

/// The clipped copy of the drawing services: destination image in r0,
/// source image in r1, source position in r2 and r3, then width, height
/// and destination position on the stack.
pub open spec fn spec_draw_image_clip(m: MemoryView, registers: ServiceRegisters, transparent: bool) -> MemoryView {
    let sp = registers.sp;
    let (width, m1) = spec_read(m, sp, 4);
    let (height, m2) = spec_read(m1, sp.wrapping_add(4), 4);
    let (dx, m3) = spec_read(m2, sp.wrapping_add(8), 4);
    let (dy, m4) = spec_read(m3, sp.wrapping_add(12), 4);
    spec_blit(
        m4,
        registers.r0,
        registers.r1,
        spec_signed_coord(registers.r2),
        spec_signed_coord(registers.r3),
        spec_signed_coord(width),
        spec_signed_coord(height),
        spec_signed_coord(dx),
        spec_signed_coord(dy),
        transparent,
    )
}

/// The clipped copy of the drawing services.
fn draw_image_clip(memory: &mut MachineMemory, registers: ServiceRegisters, transparent: bool)
    ensures
        final(memory)@ == spec_draw_image_clip(old(memory)@, registers, transparent),
{
    let sp = registers.sp;
    let width = signed_coord(memory.r32(sp));
    let height = signed_coord(memory.r32(sp.wrapping_add(4)));
    let dx = signed_coord(memory.r32(sp.wrapping_add(8)));
    let dy = signed_coord(memory.r32(sp.wrapping_add(12)));
    blit(
        memory,
        registers.r0,
        registers.r1,
        signed_coord(registers.r2),
        signed_coord(registers.r3),
        width,
        height,
        dx,
        dy,
        transparent,
    );
}

/// The LCD services (group 4), by index: the screen's image object (0) and
/// pixels (1), the font size for r0 (5: 8 for 0, else 16), the line height
/// (6), the width of the GBK text at r0 (7), draw the GBK text at r1 at
/// (r2, r3) in the color on the stack (10, result 1), a clipped copy, plain
/// (24) or transparent (25) (result 1), and an image object from a resource
/// stream (49).
pub open spec fn spec_lcd_service(v: MachineView, index: u32, registers: ServiceRegisters) -> (u32, MachineView) {
    if index == 0 {
        (SCREEN_IMAGE_STRUCT, v)
    } else if index == 1 {
        (SCREEN_IMAGE, v)
    } else if index == 5 {
        (if registers.r0 == 0 {
            8
        } else {
            16
        }, v)
    } else if index == 6 {
        (16, v)
    } else if index == 7 {
        let (bytes, m1) = spec_c_bytes(v.memory, registers.r0, 4096);
        let text = spec_gbk_decode(bytes);
        (spec_text_width(text, text.len() as int), MachineView { memory: m1, ..v })
    } else if index == 10 {
        let (color, m1) = spec_read(v.memory, registers.sp, 2);
        let (bytes, m2) = spec_c_bytes(m1, registers.r1, 4096);
        let text = spec_gbk_decode(bytes);
        let m3 = spec_draw_text(
            m2,
            text,
            spec_signed_coord(registers.r2),
            spec_signed_coord(registers.r3),
            color as u16,
            text.len() as int,
        ).0;
        (1, MachineView { memory: m3, ..v })
    } else if index == 24 || index == 25 {
        (1, MachineView { memory: spec_draw_image_clip(v.memory, registers, index == 25), ..v })
    } else if index == 49 {
        spec_create_image(v, registers.r0, registers.r1)
    } else {
        (0, v)
    }
}

/// The engine's LCD services (group 16), by index: clear the image object
/// at r0 (11) and decode the resource stream at r0 (20).
pub open spec fn spec_game_lcd_service(v: MachineView, index: u32, r0: u32) -> (u32, MachineView) {
    if index == 11 {
        if r0 != 0 {
            let m1 = spec_write(v.memory, r0, 0, 4);
            let m2 = spec_write(m1, r0.wrapping_add(4), 0, 4);
            (0, MachineView { memory: spec_write(m2, r0.wrapping_add(8), 0, 4), ..v })
        } else {
            (0, v)
        }
    } else if index == 20 {
        let (res, h, m) = spec_decode_resource_stream(v.heap, v.memory, r0);
        (res, MachineView { heap: h, memory: m, ..v })
    } else {
        (0, v)
    }
}

impl NicaiMachine {
    /// Run LCD service `index` (group 4).
    pub fn handle_lcd_service(&mut self, index: u32, registers: ServiceRegisters) -> (res: u32)
        requires
            old(self).wf(),
        ensures
            final(self).wf(),
            (res, final(self)@) == spec_lcd_service(old(self)@, index, registers),
    {
        match index {
            0 => SCREEN_IMAGE_STRUCT,
            1 => SCREEN_IMAGE,
            5 => if registers.r0 == 0 {
                8
            } else {
                16
            },
            6 => 16,
            7 => {
                let bytes = read_c_bytes(&mut self.memory, registers.r0, 4096);
                let text = gbk_decode(bytes.as_slice());
                let chars = chars_of(text.as_str());
                text_width(chars.as_slice())
            },
            10 => {
                let color = self.memory.r16(registers.sp);
                let bytes = read_c_bytes(&mut self.memory, registers.r1, 4096);
                let text = gbk_decode(bytes.as_slice());
                let chars = chars_of(text.as_str());
                draw_text(
                    &mut self.memory,
                    chars.as_slice(),
                    signed_coord(registers.r2),
                    signed_coord(registers.r3),
                    color,
                );
                1
            },
            24 | 25 => {
                draw_image_clip(&mut self.memory, registers, index == 25);
                1
            },
            49 => self.create_image_from_stream(registers.r0, registers.r1),
            _ => 0,
        }
    }

    /// Run the engine's LCD service `index` (group 16).
    pub fn handle_game_lcd_service(&mut self, index: u32, r0: u32) -> (res: u32)
        requires
            old(self).wf(),
        ensures
            final(self).wf(),
            (res, final(self)@) == spec_game_lcd_service(old(self)@, index, r0),
    {
        match index {
            11 => {
                if r0 != 0 {
                    self.memory.w32(r0, 0);
                    self.memory.w32(r0.wrapping_add(4), 0);
                    self.memory.w32(r0.wrapping_add(8), 0);
                }
                0
            },
            20 => decode_resource_stream(&mut self.heap, &mut self.memory, r0),
            _ => 0,
        }
    }
}

} // verus!
