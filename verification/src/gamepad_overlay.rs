//! The virtual gamepad overlay of the standalone frontend: a numeric keypad
//! along the top edge, a direction pad with soft keys in the bottom-left
//! corner and a confirm button in the bottom-right corner, each lit in its
//! own colour while the matching guest key is held.
//!
//! Drawing is split in two: the layout is a list of shapes (solid
//! rectangles, translucent rectangles and discs) computed from the frame
//! size and the held keys, and each shape is then painted into the frame,
//! clipped to it.
use vstd::prelude::*;
use vstd::arithmetic::div_mod::{
    lemma_fundamental_div_mod,
    lemma_fundamental_div_mod_converse,
    lemma_mod_pos_bound,
};

verus! {

/// Held-key bit of the left soft key.
pub const KEY_Q: u32 = 0x1000;
/// Held-key bit of the right soft key.
pub const KEY_E: u32 = 0x2000;
/// Held-key bit of the confirm key.
pub const KEY_OK: u32 = 0x4000;
/// Held-key bit of the left direction.
pub const KEY_LEFT: u32 = 0x8000;
/// Held-key bit of the right direction.
pub const KEY_RIGHT: u32 = 0x1_0000;
/// Held-key bit of the up direction.
pub const KEY_UP: u32 = 0x2_0000;
/// Held-key bit of the down direction.
pub const KEY_DOWN: u32 = 0x4_0000;
/// Held-key bit of the first extra soft key.
pub const KEY_N: u32 = 0x8_0000;
/// Held-key bit of the second extra soft key.
pub const KEY_M: u32 = 0x10_0000;

/// Colour of a key that is not held.
pub const COLOR_IDLE: u32 = 0x0050_5050;
/// Colour of a held direction.
pub const COLOR_DPAD_PRESSED: u32 = 0x0000_DDFF;
/// Colour of the held confirm key.
pub const COLOR_OK_PRESSED: u32 = 0x0000_EE44;
/// Colour of a held soft key.
pub const COLOR_SOFT_PRESSED: u32 = 0x00FF_8800;
/// Colour of a held digit key.
pub const COLOR_NUM_PRESSED: u32 = 0x00FF_E040;
/// Colour of the key labels.
pub const COLOR_LABEL: u32 = 0x00E8_E8E8;
/// Translucent backdrop behind each key group; the top byte is its opacity.
pub const COLOR_BACKGROUND: u32 = 0xA01A_1A1A;

/// A shape of the overlay in frame coordinates.
pub enum Shape {
    /// A rectangle painted in `color`.
    Solid { left: int, top: int, width: int, height: int, color: u32 },
    /// A rectangle that blends `color` over what is under it, with the top
    /// byte of `color` as opacity.
    Shaded { left: int, top: int, width: int, height: int, color: u32 },
    /// A disc painted in `color`.
    Disc { center_x: int, center_y: int, radius: int, color: u32 },
}

/// Whether `shape` covers pixel (`px`, `py`).
pub open spec fn spec_covers(shape: Shape, px: int, py: int) -> bool {
    match shape {
        Shape::Solid { left, top, width, height, .. } => left <= px < left + width && top <= py
            < top + height,
        Shape::Shaded { left, top, width, height, .. } => left <= px < left + width && top <= py
            < top + height,
        Shape::Disc { center_x, center_y, radius, .. } => {
            let dx = px - center_x;
            let dy = py - center_y;
            &&& -radius <= dx <= radius
            &&& -radius <= dy <= radius
            &&& dx * dx + dy * dy <= radius * radius
        },
    }
}

/// Channel `shift` (0 blue, 1 green, 2 red, 3 opacity) of a packed colour.
pub open spec fn spec_channel(color: u32, shift: int) -> int {
    if shift == 0 {
        (color % 0x100) as int
    } else if shift == 1 {
        ((color / 0x100) % 0x100) as int
    } else if shift == 2 {
        ((color / 0x1_0000) % 0x100) as int
    } else {
        (color / 0x100_0000) as int
    }
}

/// One channel of `over` blended onto `under` with opacity `alpha`.
pub open spec fn spec_mix(over: int, under: int, alpha: int) -> int {
    (over * alpha + under * (255 - alpha)) / 255
}

/// `color` blended over `under`, with the top byte of `color` as opacity;
/// the result is opaque-free (top byte zero).
pub open spec fn spec_blend(color: u32, under: u32) -> u32 {
    let alpha = spec_channel(color, 3);
    (spec_mix(spec_channel(color, 2), spec_channel(under, 2), alpha) * 0x1_0000 + spec_mix(
        spec_channel(color, 1),
        spec_channel(under, 1),
        alpha,
    ) * 0x100 + spec_mix(spec_channel(color, 0), spec_channel(under, 0), alpha)) as u32
}

/// The colour `shape` leaves on a pixel that it covers and that held
/// `under`.
pub open spec fn spec_shade(shape: Shape, under: u32) -> u32 {
    match shape {
        Shape::Solid { color, .. } => color,
        Shape::Shaded { color, .. } => spec_blend(color, under),
        Shape::Disc { color, .. } => color,
    }
}

/// `frame`, `width` pixels per row and `height` rows, after painting
/// `shape`; entries past `width * height` are not pixels and stay.
pub open spec fn spec_paint(frame: Seq<u32>, width: int, height: int, shape: Shape) -> Seq<u32> {
    Seq::new(
        frame.len(),
        |i: int|
            if i < width * height && spec_covers(shape, i % width, i / width) {
                spec_shade(shape, frame[i])
            } else {
                frame[i]
            },
    )
}

/// `frame` after painting `shapes` in order.
pub open spec fn spec_paint_all(frame: Seq<u32>, width: int, height: int, shapes: Seq<Shape>) -> Seq<
    u32,
>
    decreases shapes.len(),
{
    if shapes.len() == 0 {
        frame
    } else {
        spec_paint(
            spec_paint_all(frame, width, height, shapes.drop_last()),
            width,
            height,
            shapes.last(),
        )
    }
}

/// A shape with machine-integer coordinates, as the layout builds it.
enum DrawOp {
    Fill { x: i64, y: i64, width: i64, height: i64, color: u32 },
    Blend { x: i64, y: i64, width: i64, height: i64, color: u32 },
    Circle { center_x: i64, center_y: i64, radius: i64, color: u32 },
}

impl View for DrawOp {
    type V = Shape;

    closed spec fn view(&self) -> Shape {
        match *self {
            DrawOp::Fill { x, y, width, height, color } => Shape::Solid {
                left: x as int,
                top: y as int,
                width: width as int,
                height: height as int,
                color,
            },
            DrawOp::Blend { x, y, width, height, color } => Shape::Shaded {
                left: x as int,
                top: y as int,
                width: width as int,
                height: height as int,
                color,
            },
            DrawOp::Circle { center_x, center_y, radius, color } => Shape::Disc {
                center_x: center_x as int,
                center_y: center_y as int,
                radius: radius as int,
                color,
            },
        }
    }
}

/// The shapes of a list of drawing operations.
spec fn spec_shapes_of(ops: Seq<DrawOp>) -> Seq<Shape> {
    ops.map_values(|op: DrawOp| op@)
}

/// Coordinates of the pixel at index `i` of a frame `width` pixels wide.
proof fn lemma_pixel_coords(i: int, width: int, height: int)
    requires
        0 <= i < width * height,
        0 < width,
    ensures
        0 <= i % width < width,
        0 <= i / width < height,
        i == (i / width) * width + i % width,
{
    lemma_mod_pos_bound(i, width);
    lemma_fundamental_div_mod(i, width);
    assert(i == (i / width) * width + i % width) by (nonlinear_arith)
        requires
            i == width * (i / width) + i % width,
    ;
    assert(0 <= i / width < height) by (nonlinear_arith)
        requires
            0 <= i < width * height,
            0 < width,
            i == (i / width) * width + i % width,
            0 <= i % width < width,
    ;
}

/// The index of pixel (`px`, `py`) is inside the frame and maps back to
/// the pixel.
proof fn lemma_pixel_index(px: int, py: int, width: int, height: int)
    requires
        0 <= px < width,
        0 <= py < height,
    ensures
        0 <= py * width + px < width * height,
        (py * width + px) % width == px,
        (py * width + px) / width == py,
{
    assert(0 <= py * width + px < width * height) by (nonlinear_arith)
        requires
            0 <= px < width,
            0 <= py < height,
    ;
    lemma_fundamental_div_mod_converse(py * width + px, width, py, px);
}

/// Bounding box `[left, right) x [top, bottom)` of the pixels a drawing
/// operation covers.
fn op_bounds(op: &DrawOp) -> (res: (i128, i128, i128, i128))
    ensures
        forall|px: int, py: int|
            spec_covers(op@, px, py) ==> res.0 <= px < res.1 && res.2 <= py < res.3,
{
    match *op {
        DrawOp::Fill { x, y, width, height, .. } => (
            x as i128,
            x as i128 + width as i128,
            y as i128,
            y as i128 + height as i128,
        ),
        DrawOp::Blend { x, y, width, height, .. } => (
            x as i128,
            x as i128 + width as i128,
            y as i128,
            y as i128 + height as i128,
        ),
        DrawOp::Circle { center_x, center_y, radius, .. } => (
            center_x as i128 - radius as i128,
            center_x as i128 + radius as i128 + 1,
            center_y as i128 - radius as i128,
            center_y as i128 + radius as i128 + 1,
        ),
    }
}

/// Whether a drawing operation covers pixel (`px`, `py`).
fn covers(op: &DrawOp, px: i64, py: i64) -> (res: bool)
    ensures
        res == spec_covers(op@, px as int, py as int),
{
    match *op {
        DrawOp::Fill { x, y, width, height, .. } => x as i128 <= px as i128 && (px as i128) < x
            as i128 + width as i128 && y as i128 <= py as i128 && (py as i128) < y as i128
            + height as i128,
        DrawOp::Blend { x, y, width, height, .. } => x as i128 <= px as i128 && (px as i128) < x
            as i128 + width as i128 && y as i128 <= py as i128 && (py as i128) < y as i128
            + height as i128,
        DrawOp::Circle { center_x, center_y, radius, .. } => {
            let dx = px as i128 - center_x as i128;
            let dy = py as i128 - center_y as i128;
            let r = radius as i128;
            if dx < -r || dx > r || dy < -r || dy > r {
                false
            } else {
                assert(0 <= dx * dx <= r * r) by (nonlinear_arith)
                    requires
                        -r <= dx <= r,
                ;
                assert(0 <= dy * dy <= r * r) by (nonlinear_arith)
                    requires
                        -r <= dy <= r,
                ;
                assert(r * r <= 0x4000_0000_0000_0000_0000_0000_0000_0000) by (nonlinear_arith)
                    requires
                        -0x8000_0000_0000_0000 <= r < 0x8000_0000_0000_0000,
                ;
                dx * dx <= r * r - dy * dy
            }
        },
    }
}

/// `color` blended over `under` with the top byte of `color` as opacity:
/// each channel is `(over * alpha + under * (255 - alpha)) / 255`.
fn blend_pixel(color: u32, under: u32) -> (res: u32)
    ensures
        res == spec_blend(color, under),
{
    let alpha = color / 0x100_0000;
    let inverse_alpha = 255 - alpha;
    let source_r = (color / 0x1_0000) % 0x100;
    let source_g = (color / 0x100) % 0x100;
    let source_b = color % 0x100;
    let destination_r = (under / 0x1_0000) % 0x100;
    let destination_g = (under / 0x100) % 0x100;
    let destination_b = under % 0x100;
    assert(source_r * alpha <= 255 * 255 && destination_r * inverse_alpha <= 255 * 255)
        by (nonlinear_arith)
        requires
            source_r < 256,
            destination_r < 256,
            alpha < 256,
            inverse_alpha < 256,
    ;
    assert(source_g * alpha <= 255 * 255 && destination_g * inverse_alpha <= 255 * 255)
        by (nonlinear_arith)
        requires
            source_g < 256,
            destination_g < 256,
            alpha < 256,
            inverse_alpha < 256,
    ;
    assert(source_b * alpha <= 255 * 255 && destination_b * inverse_alpha <= 255 * 255)
        by (nonlinear_arith)
        requires
            source_b < 256,
            destination_b < 256,
            alpha < 256,
            inverse_alpha < 256,
    ;
    let r = (source_r * alpha + destination_r * inverse_alpha) / 255;
    let g = (source_g * alpha + destination_g * inverse_alpha) / 255;
    let b = (source_b * alpha + destination_b * inverse_alpha) / 255;
    assert(r <= 255 && g <= 255 && b <= 255) by (nonlinear_arith)
        requires
            r == (source_r * alpha + destination_r * inverse_alpha) / 255,
            g == (source_g * alpha + destination_g * inverse_alpha) / 255,
            b == (source_b * alpha + destination_b * inverse_alpha) / 255,
            source_r * alpha + destination_r * inverse_alpha <= 255 * 255 + 255 * 255,
            source_g * alpha + destination_g * inverse_alpha <= 255 * 255 + 255 * 255,
            source_b * alpha + destination_b * inverse_alpha <= 255 * 255 + 255 * 255,
            alpha + inverse_alpha == 255,
            source_r < 256,
            destination_r < 256,
            source_g < 256,
            destination_g < 256,
            source_b < 256,
            destination_b < 256,
    ;
    r * 0x1_0000 + g * 0x100 + b
}

/// The colour a drawing operation leaves on a covered pixel that held
/// `under`.
fn shade(op: &DrawOp, under: u32) -> (res: u32)
    ensures
        res == spec_shade(op@, under),
{
    match *op {
        DrawOp::Fill { color, .. } => color,
        DrawOp::Blend { color, .. } => blend_pixel(color, under),
        DrawOp::Circle { color, .. } => color,
    }
}

/// Paint one drawing operation into `buffer`, `width` pixels per row and
/// `height` rows, clipped to the frame.
fn paint(buffer: &mut Vec<u32>, width: usize, height: usize, op: &DrawOp)
    requires
        0 < width <= i32::MAX,
        0 < height <= i32::MAX,
        width * height <= old(buffer)@.len(),
    ensures
        final(buffer)@ == spec_paint(old(buffer)@, width as int, height as int, op@),
{
    let ghost w = width as int;
    let ghost h = height as int;
    let ghost frame = buffer@;
    let ghost shape = op@;
    let length = buffer.len();
    let (left, right, top, bottom) = op_bounds(op);
    let x0: i128 = if left < 0 {
        0
    } else if left > width as i128 {
        width as i128
    } else {
        left
    };
    let x1: i128 = if right < x0 {
        x0
    } else if right > width as i128 {
        width as i128
    } else {
        right
    };
    let y0: i128 = if top < 0 {
        0
    } else if top > height as i128 {
        height as i128
    } else {
        top
    };
    let y1: i128 = if bottom < y0 {
        y0
    } else if bottom > height as i128 {
        height as i128
    } else {
        bottom
    };
    let x_start = x0 as usize;
    let x_end = x1 as usize;
    let y_end = y1 as usize;
    let mut py = y0 as usize;
    while py < y_end
        invariant
            0 <= x_start <= x_end <= w,
            py <= y_end <= h,
            w == width,
            h == height,
            width <= i32::MAX,
            height <= i32::MAX,
            w * h <= frame.len(),
            frame.len() == length,
            shape == op@,
            forall|px: int, qy: int|
                spec_covers(shape, px, qy) && 0 <= px < w && 0 <= qy < h ==> x_start <= px
                    < x_end && y0 <= qy < y_end,
            buffer@.len() == frame.len(),
            forall|i: int|
                0 <= i < frame.len() ==> buffer@[i] == if i < w * h && spec_covers(
                    shape,
                    i % w,
                    i / w,
                ) && i / w < py {
                    spec_shade(shape, frame[i])
                } else {
                    frame[i]
                },
        decreases y_end - py,
    {
        proof {
            assert forall|i: int| 0 <= i < frame.len() implies buffer@[i] == if i < w * h
                && spec_covers(shape, i % w, i / w) && (i / w < py || (i / w == py && i % w
                < x_start)) {
                spec_shade(shape, frame[i])
            } else {
                frame[i]
            } by {
                if i < w * h {
                    lemma_pixel_coords(i, w, h);
                }
            }
        }
        let mut px = x_start;
        while px < x_end
            invariant
                0 <= x_start <= px <= x_end <= w,
                py < y_end <= h,
                w == width,
                h == height,
                width <= i32::MAX,
                height <= i32::MAX,
                w * h <= frame.len(),
                frame.len() == length,
                shape == op@,
                forall|qx: int, qy: int|
                    spec_covers(shape, qx, qy) && 0 <= qx < w && 0 <= qy < h ==> x_start <= qx
                        < x_end && y0 <= qy < y_end,
                buffer@.len() == frame.len(),
                forall|i: int|
                    0 <= i < frame.len() ==> buffer@[i] == if i < w * h && spec_covers(
                        shape,
                        i % w,
                        i / w,
                    ) && (i / w < py || (i / w == py && i % w < px)) {
                        spec_shade(shape, frame[i])
                    } else {
                        frame[i]
                    },
            decreases x_end - px,
        {
            proof {
                lemma_pixel_index(px as int, py as int, w, h);
            }
            let index = py * width + px;
            if covers(op, px as i64, py as i64) {
                let under = buffer[index];
                let painted = shade(op, under);
                buffer.set(index, painted);
            }
            proof {
                assert forall|i: int| 0 <= i < frame.len() implies buffer@[i] == if i < w * h
                    && spec_covers(shape, i % w, i / w) && (i / w < py || (i / w == py && i % w
                    < px + 1)) {
                    spec_shade(shape, frame[i])
                } else {
                    frame[i]
                } by {
                    if i < w * h && i != index {
                        lemma_pixel_coords(i, w, h);
                        if i / w == py && i % w == px {
                            assert(i == py * w + px);
                        }
                    }
                }
            }
            px = px + 1;
        }
        proof {
            assert forall|i: int| 0 <= i < frame.len() implies buffer@[i] == if i < w * h
                && spec_covers(shape, i % w, i / w) && i / w < py + 1 {
                spec_shade(shape, frame[i])
            } else {
                frame[i]
            } by {
                if i < w * h {
                    lemma_pixel_coords(i, w, h);
                }
            }
        }
        py = py + 1;
    }
    proof {
        assert forall|i: int| 0 <= i < frame.len() implies buffer@[i] == spec_paint(
            frame,
            w,
            h,
            shape,
        )[i] by {
            if i < w * h {
                lemma_pixel_coords(i, w, h);
            }
        }
        assert(buffer@ =~= spec_paint(frame, w, h, shape));
    }
}

/// Appending an operation appends its shape.
proof fn lemma_shapes_push(ops: Seq<DrawOp>, op: DrawOp)
    ensures
        spec_shapes_of(ops.push(op)) == spec_shapes_of(ops).push(op@),
{
    assert(spec_shapes_of(ops.push(op)) =~= spec_shapes_of(ops).push(op@));
}

/// Append `op` to the display list.
fn push_op(ops: &mut Vec<DrawOp>, op: DrawOp)
    ensures
        spec_shapes_of(final(ops)@) == spec_shapes_of(old(ops)@).push(op@),
{
    proof {
        lemma_shapes_push(ops@, op);
    }
    ops.push(op);
}

/// `v / 2` rounded toward zero, as machine division does.
pub open spec fn spec_half_toward_zero(v: int) -> int {
    if v >= 0 {
        v / 2
    } else {
        -((-v) / 2)
    }
}

fn half_toward_zero(v: i64) -> (res: i64)
    requires
        -0x1_0000_0000_0000 <= v <= 0x1_0000_0000_0000,
    ensures
        res == spec_half_toward_zero(v as int),
{
    if v >= 0 {
        v / 2
    } else {
        -((-v) / 2)
    }
}

/// The rows of the three-pixel-wide font glyph of `character`, top row
/// first, bit 2 the leftmost column; `None` for a character the font lacks.
pub open spec fn spec_glyph(character: char) -> Option<Seq<u8>> {
    if character == '0' {
        Some(seq![0b011u8, 0b101, 0b101, 0b101, 0b101, 0b011])
    } else if character == '1' {
        Some(seq![0b010u8, 0b110, 0b010, 0b010, 0b010, 0b111])
    } else if character == '2' {
        Some(seq![0b111u8, 0b001, 0b011, 0b100, 0b100, 0b111])
    } else if character == '3' {
        Some(seq![0b111u8, 0b001, 0b011, 0b001, 0b001, 0b111])
    } else if character == '4' {
        Some(seq![0b101u8, 0b101, 0b111, 0b001, 0b001, 0b001])
    } else if character == '5' {
        Some(seq![0b111u8, 0b100, 0b111, 0b001, 0b001, 0b111])
    } else if character == '6' {
        Some(seq![0b011u8, 0b100, 0b111, 0b101, 0b101, 0b011])
    } else if character == '7' {
        Some(seq![0b111u8, 0b001, 0b010, 0b010, 0b010, 0b010])
    } else if character == '8' {
        Some(seq![0b011u8, 0b101, 0b011, 0b101, 0b101, 0b011])
    } else if character == '9' {
        Some(seq![0b011u8, 0b101, 0b111, 0b001, 0b001, 0b011])
    } else if character == 'D' {
        Some(seq![0b110u8, 0b101, 0b101, 0b101, 0b101, 0b110])
    } else if character == 'E' {
        Some(seq![0b111u8, 0b100, 0b110, 0b100, 0b100, 0b111])
    } else if character == 'K' {
        Some(seq![0b101u8, 0b101, 0b110, 0b101, 0b101, 0b101])
    } else if character == 'L' {
        Some(seq![0b100u8, 0b100, 0b100, 0b100, 0b100, 0b111])
    } else if character == 'M' {
        Some(seq![0b101u8, 0b111, 0b111, 0b101, 0b101, 0b101])
    } else if character == 'N' {
        Some(seq![0b101u8, 0b111, 0b111, 0b101, 0b101, 0b101])
    } else if character == 'O' {
        Some(seq![0b011u8, 0b101, 0b101, 0b101, 0b101, 0b011])
    } else if character == 'Q' {
        Some(seq![0b011u8, 0b101, 0b101, 0b101, 0b011, 0b001])
    } else if character == 'R' {
        Some(seq![0b110u8, 0b101, 0b110, 0b101, 0b101, 0b101])
    } else if character == 'U' {
        Some(seq![0b101u8, 0b101, 0b101, 0b101, 0b101, 0b111])
    } else {
        None
    }
}

fn glyph(character: char) -> (res: Option<[u8; 6]>)
    ensures
        match res {
            Some(rows) => spec_glyph(character) == Some(rows@),
            None => spec_glyph(character) is None,
        },
{
    let rows: [u8; 6] = match character {
        '0' => [0b011, 0b101, 0b101, 0b101, 0b101, 0b011],
        '1' => [0b010, 0b110, 0b010, 0b010, 0b010, 0b111],
        '2' => [0b111, 0b001, 0b011, 0b100, 0b100, 0b111],
        '3' => [0b111, 0b001, 0b011, 0b001, 0b001, 0b111],
        '4' => [0b101, 0b101, 0b111, 0b001, 0b001, 0b001],
        '5' => [0b111, 0b100, 0b111, 0b001, 0b001, 0b111],
        '6' => [0b011, 0b100, 0b111, 0b101, 0b101, 0b011],
        '7' => [0b111, 0b001, 0b010, 0b010, 0b010, 0b010],
        '8' => [0b011, 0b101, 0b011, 0b101, 0b101, 0b011],
        '9' => [0b011, 0b101, 0b111, 0b001, 0b001, 0b011],
        'D' => [0b110, 0b101, 0b101, 0b101, 0b101, 0b110],
        'E' => [0b111, 0b100, 0b110, 0b100, 0b100, 0b111],
        'K' => [0b101, 0b101, 0b110, 0b101, 0b101, 0b101],
        'L' => [0b100, 0b100, 0b100, 0b100, 0b100, 0b111],
        'M' => [0b101, 0b111, 0b111, 0b101, 0b101, 0b101],
        'N' => [0b101, 0b111, 0b111, 0b101, 0b101, 0b101],
        'O' => [0b011, 0b101, 0b101, 0b101, 0b101, 0b011],
        'Q' => [0b011, 0b101, 0b101, 0b101, 0b011, 0b001],
        'R' => [0b110, 0b101, 0b110, 0b101, 0b101, 0b101],
        'U' => [0b101, 0b101, 0b101, 0b101, 0b101, 0b111],
        _ => {
            return None;
        },
    };
    assert(spec_glyph(character) == Some(rows@));
    Some(rows)
}

/// Size of one font pixel for text centred in a cell `cell_height` high.
pub open spec fn spec_text_scale(cell_height: int) -> int {
    if cell_height / 7 > 1 {
        cell_height / 7
    } else {
        1
    }
}

/// A `scale`-sized font pixel at (`x`, `y`) when `on`, nothing otherwise.
pub open spec fn spec_cell(on: bool, x: int, y: int, scale: int, color: u32) -> Seq<Shape> {
    if on {
        seq![Shape::Solid { left: x, top: y, width: scale, height: scale, color }]
    } else {
        seq![]
    }
}

/// The font pixels of one glyph row `bits` of the character at position
/// `index` of a label, at height `y`, left column first.
pub open spec fn spec_glyph_row_cells(
    origin_x: int,
    y: int,
    scale: int,
    index: int,
    bits: u8,
    color: u32,
) -> Seq<Shape> {
    spec_cell(bits / 4 % 2 == 1, origin_x + (index * 4) * scale, y, scale, color) + spec_cell(
        bits / 2 % 2 == 1,
        origin_x + (index * 4 + 1) * scale,
        y,
        scale,
        color,
    ) + spec_cell(bits % 2 == 1, origin_x + (index * 4 + 2) * scale, y, scale, color)
}

/// The font pixels of the first `count` rows of a glyph.
pub open spec fn spec_glyph_cells(
    origin_x: int,
    origin_y: int,
    scale: int,
    index: int,
    rows: Seq<u8>,
    count: nat,
    color: u32,
) -> Seq<Shape>
    decreases count,
{
    if count == 0 {
        seq![]
    } else {
        spec_glyph_cells(origin_x, origin_y, scale, index, rows, (count - 1) as nat, color)
            + spec_glyph_row_cells(
            origin_x,
            origin_y + (count - 1) * scale,
            scale,
            index,
            rows[count - 1],
            color,
        )
    }
}

/// The font pixels of the character at position `index` of a label.
pub open spec fn spec_char_cells(
    origin_x: int,
    origin_y: int,
    scale: int,
    index: int,
    character: char,
    color: u32,
) -> Seq<Shape> {
    match spec_glyph(character) {
        Some(rows) => spec_glyph_cells(origin_x, origin_y, scale, index, rows, 6, color),
        None => seq![],
    }
}

/// The font pixels of the first `count` characters of `text`.
pub open spec fn spec_label_cells(
    origin_x: int,
    origin_y: int,
    scale: int,
    text: Seq<char>,
    count: nat,
    color: u32,
) -> Seq<Shape>
    decreases count,
{
    if count == 0 {
        seq![]
    } else {
        spec_label_cells(origin_x, origin_y, scale, text, (count - 1) as nat, color)
            + spec_char_cells(origin_x, origin_y, scale, count - 1, text[count - 1], color)
    }
}

/// `text` centred in the cell at (`x`, `y`) of the given size: four font
/// pixels per character (three of glyph, one of spacing), six rows.
pub open spec fn spec_text_shapes(
    x: int,
    y: int,
    cell_width: int,
    cell_height: int,
    text: Seq<char>,
    color: u32,
) -> Seq<Shape> {
    let scale = spec_text_scale(cell_height);
    let text_width = text.len() * 4 * scale - scale;
    spec_label_cells(
        x + spec_half_toward_zero(cell_width - text_width),
        y + spec_half_toward_zero(cell_height - 6 * scale),
        scale,
        text,
        text.len(),
        color,
    )
}

/// Coordinates that the layout may place a cell at.
pub open spec fn spec_in_layout_range(v: int) -> bool {
    -0x1_0000_0000 <= v <= 0x1_0000_0000
}

/// Append the font pixels of `text` centred in a cell.
#[verifier::rlimit(30)]
fn draw_text_centered(
    ops: &mut Vec<DrawOp>,
    x: i64,
    y: i64,
    cell_width: i64,
    cell_height: i64,
    text: &[char],
    color: u32,
)
    requires
        -0x2_0000_0000 <= x <= 0x2_0000_0000,
        -0x2_0000_0000 <= y <= 0x2_0000_0000,
        0 <= cell_width <= 64,
        1 <= cell_height <= 64,
        text@.len() <= 2,
    ensures
        spec_shapes_of(final(ops)@) == spec_shapes_of(old(ops)@) + spec_text_shapes(
            x as int,
            y as int,
            cell_width as int,
            cell_height as int,
            text@,
            color,
        ),
{
    let ghost start = spec_shapes_of(ops@);
    let scale: i64 = if cell_height / 7 > 1 {
        cell_height / 7
    } else {
        1
    };
    let count = text.len() as i64;
    assert(count * 4 * scale <= 2 * 4 * 9) by (nonlinear_arith)
        requires
            0 <= count <= 2,
            1 <= scale <= 9,
    ;
    assert(count * 4 * scale >= 0) by (nonlinear_arith)
        requires
            0 <= count <= 2,
            1 <= scale <= 9,
    ;
    let text_width = count * 4 * scale - scale;
    let origin_x = x + half_toward_zero(cell_width - text_width);
    let origin_y = y + half_toward_zero(cell_height - 6 * scale);
    let mut index: usize = 0;
    while index < text.len()
        invariant
            index <= text@.len() <= 2,
            1 <= scale <= 9,
            -0x2_0000_0100 <= origin_x <= 0x2_0000_0100,
            -0x2_0000_0100 <= origin_y <= 0x2_0000_0100,
            spec_shapes_of(ops@) == start + spec_label_cells(
                origin_x as int,
                origin_y as int,
                scale as int,
                text@,
                index as nat,
                color,
            ),
        decreases text@.len() - index,
    {
        let ghost before = spec_shapes_of(ops@);
        if let Some(rows) = glyph(text[index]) {
            let mut row: usize = 0;
            while row < 6
                invariant
                    row <= 6,
                    index < text@.len() <= 2,
                    1 <= scale <= 9,
                    -0x2_0000_0100 <= origin_x <= 0x2_0000_0100,
                    -0x2_0000_0100 <= origin_y <= 0x2_0000_0100,
                    spec_shapes_of(ops@) == before + spec_glyph_cells(
                        origin_x as int,
                        origin_y as int,
                        scale as int,
                        index as int,
                        rows@,
                        row as nat,
                        color,
                    ),
                decreases 6 - row,
            {
                let bits = rows[row];
                let column_base = index as i64 * 4;
                assert(0 <= column_base * scale <= (column_base + 1) * scale <= (column_base + 2)
                    * scale <= 6 * 9) by (nonlinear_arith)
                    requires
                        0 <= column_base <= 4,
                        1 <= scale <= 9,
                ;
                assert(0 <= row * scale <= 5 * 9) by (nonlinear_arith)
                    requires
                        row < 6,
                        1 <= scale <= 9,
                ;
                let y_cell = origin_y + row as i64 * scale;
                let ghost row_start = spec_shapes_of(ops@);
                let ghost left = spec_cell(
                    bits / 4 % 2 == 1,
                    origin_x + (index * 4) * scale,
                    y_cell as int,
                    scale as int,
                    color,
                );
                let ghost middle = spec_cell(
                    bits / 2 % 2 == 1,
                    origin_x + (index * 4 + 1) * scale,
                    y_cell as int,
                    scale as int,
                    color,
                );
                let ghost right = spec_cell(
                    bits % 2 == 1,
                    origin_x + (index * 4 + 2) * scale,
                    y_cell as int,
                    scale as int,
                    color,
                );
                if bits / 4 % 2 == 1 {
                    push_op(
                        ops,
                        DrawOp::Fill {
                            x: origin_x + column_base * scale,
                            y: y_cell,
                            width: scale,
                            height: scale,
                            color,
                        },
                    );
                }
                assert(spec_shapes_of(ops@) =~= row_start + left);
                if bits / 2 % 2 == 1 {
                    push_op(
                        ops,
                        DrawOp::Fill {
                            x: origin_x + (column_base + 1) * scale,
                            y: y_cell,
                            width: scale,
                            height: scale,
                            color,
                        },
                    );
                }
                assert(spec_shapes_of(ops@) =~= row_start + left + middle);
                if bits % 2 == 1 {
                    push_op(
                        ops,
                        DrawOp::Fill {
                            x: origin_x + (column_base + 2) * scale,
                            y: y_cell,
                            width: scale,
                            height: scale,
                            color,
                        },
                    );
                }
                assert(spec_shapes_of(ops@) =~= row_start + left + middle + right);
                assert(spec_shapes_of(ops@) =~= before + spec_glyph_cells(
                    origin_x as int,
                    origin_y as int,
                    scale as int,
                    index as int,
                    rows@,
                    (row + 1) as nat,
                    color,
                ));
                row = row + 1;
            }
            assert(spec_shapes_of(ops@) =~= start + spec_label_cells(
                origin_x as int,
                origin_y as int,
                scale as int,
                text@,
                (index + 1) as nat,
                color,
            ));
        } else {
            assert(spec_shapes_of(ops@) =~= start + spec_label_cells(
                origin_x as int,
                origin_y as int,
                scale as int,
                text@,
                (index + 1) as nat,
                color,
            ));
        }
        index = index + 1;
    }
}

/// A soft key: a backdrop two pixels wider on each side, the key face lit
/// in `pressed_color` while held, and its label.
pub open spec fn spec_soft_key_shapes(
    x: int,
    y: int,
    button_width: int,
    button_height: int,
    label: Seq<char>,
    pressed: bool,
    pressed_color: u32,
) -> Seq<Shape> {
    seq![
        Shape::Shaded {
            left: x - 2,
            top: y - 2,
            width: button_width + 4,
            height: button_height + 4,
            color: COLOR_BACKGROUND,
        },
        Shape::Solid {
            left: x,
            top: y,
            width: button_width,
            height: button_height,
            color: if pressed {
                pressed_color
            } else {
                COLOR_IDLE
            },
        },
    ] + spec_text_shapes(x, y, button_width, button_height, label, COLOR_LABEL)
}

/// A direction button: a square of three units, lit while held, and its
/// label.
pub open spec fn spec_dpad_button_shapes(
    x: int,
    y: int,
    unit: int,
    label: Seq<char>,
    pressed: bool,
) -> Seq<Shape> {
    seq![
        Shape::Solid {
            left: x,
            top: y,
            width: 3 * unit,
            height: 3 * unit,
            color: if pressed {
                COLOR_DPAD_PRESSED
            } else {
                COLOR_IDLE
            },
        },
    ] + spec_text_shapes(x, y, 3 * unit, 3 * unit, label, COLOR_LABEL)
}

/// A round button: a square backdrop, a disc in `color` and its label.
pub open spec fn spec_action_button_shapes(
    center_x: int,
    center_y: int,
    radius: int,
    label: Seq<char>,
    color: u32,
) -> Seq<Shape> {
    seq![
        Shape::Shaded {
            left: center_x - radius - 3,
            top: center_y - radius - 3,
            width: radius * 2 + 7,
            height: radius * 2 + 7,
            color: COLOR_BACKGROUND,
        },
        Shape::Disc { center_x, center_y, radius, color },
    ] + spec_text_shapes(
        center_x - radius,
        center_y - radius,
        radius * 2 + 1,
        radius * 2 + 1,
        label,
        COLOR_LABEL,
    )
}

fn draw_soft_key(
    ops: &mut Vec<DrawOp>,
    x: i64,
    y: i64,
    button_width: i64,
    button_height: i64,
    label: &[char],
    pressed: bool,
    pressed_color: u32,
)
    requires
        spec_in_layout_range(x as int),
        spec_in_layout_range(y as int),
        0 <= button_width <= 64,
        1 <= button_height <= 64,
        label@.len() <= 2,
    ensures
        spec_shapes_of(final(ops)@) == spec_shapes_of(old(ops)@) + spec_soft_key_shapes(
            x as int,
            y as int,
            button_width as int,
            button_height as int,
            label@,
            pressed,
            pressed_color,
        ),
{
    let ghost start = spec_shapes_of(ops@);
    push_op(
        ops,
        DrawOp::Blend {
            x: x - 2,
            y: y - 2,
            width: button_width + 4,
            height: button_height + 4,
            color: COLOR_BACKGROUND,
        },
    );
    push_op(
        ops,
        DrawOp::Fill {
            x,
            y,
            width: button_width,
            height: button_height,
            color: if pressed {
                pressed_color
            } else {
                COLOR_IDLE
            },
        },
    );
    let ghost faces = spec_shapes_of(ops@);
    draw_text_centered(ops, x, y, button_width, button_height, label, COLOR_LABEL);
    assert(spec_shapes_of(ops@) =~= start + spec_soft_key_shapes(
        x as int,
        y as int,
        button_width as int,
        button_height as int,
        label@,
        pressed,
        pressed_color,
    ));
}

fn draw_dpad_button(
    ops: &mut Vec<DrawOp>,
    x: i64,
    y: i64,
    unit: i64,
    label: &[char],
    pressed: bool,
)
    requires
        spec_in_layout_range(x as int),
        spec_in_layout_range(y as int),
        1 <= unit <= 6,
        label@.len() <= 2,
    ensures
        spec_shapes_of(final(ops)@) == spec_shapes_of(old(ops)@) + spec_dpad_button_shapes(
            x as int,
            y as int,
            unit as int,
            label@,
            pressed,
        ),
{
    let ghost start = spec_shapes_of(ops@);
    push_op(
        ops,
        DrawOp::Fill {
            x,
            y,
            width: 3 * unit,
            height: 3 * unit,
            color: if pressed {
                COLOR_DPAD_PRESSED
            } else {
                COLOR_IDLE
            },
        },
    );
    draw_text_centered(ops, x, y, 3 * unit, 3 * unit, label, COLOR_LABEL);
    assert(spec_shapes_of(ops@) =~= start + spec_dpad_button_shapes(
        x as int,
        y as int,
        unit as int,
        label@,
        pressed,
    ));
}

fn draw_action_button(
    ops: &mut Vec<DrawOp>,
    center_x: i64,
    center_y: i64,
    radius: i64,
    label: &[char],
    color: u32,
)
    requires
        spec_in_layout_range(center_x as int),
        spec_in_layout_range(center_y as int),
        1 <= radius <= 12,
        label@.len() <= 2,
    ensures
        spec_shapes_of(final(ops)@) == spec_shapes_of(old(ops)@) + spec_action_button_shapes(
            center_x as int,
            center_y as int,
            radius as int,
            label@,
            color,
        ),
{
    let ghost start = spec_shapes_of(ops@);
    push_op(
        ops,
        DrawOp::Blend {
            x: center_x - radius - 3,
            y: center_y - radius - 3,
            width: radius * 2 + 7,
            height: radius * 2 + 7,
            color: COLOR_BACKGROUND,
        },
    );
    push_op(ops, DrawOp::Circle { center_x, center_y, radius, color });
    draw_text_centered(
        ops,
        center_x - radius,
        center_y - radius,
        radius * 2 + 1,
        radius * 2 + 1,
        label,
        COLOR_LABEL,
    );
    assert(spec_shapes_of(ops@) =~= start + spec_action_button_shapes(
        center_x as int,
        center_y as int,
        radius as int,
        label@,
        color,
    ));
}

/// The label of digit key `index`.
pub open spec fn spec_digit(index: int) -> char {
    if index == 0 {
        '0'
    } else if index == 1 {
        '1'
    } else if index == 2 {
        '2'
    } else if index == 3 {
        '3'
    } else if index == 4 {
        '4'
    } else if index == 5 {
        '5'
    } else if index == 6 {
        '6'
    } else if index == 7 {
        '7'
    } else if index == 8 {
        '8'
    } else {
        '9'
    }
}

fn digit_label(index: usize) -> (res: char)
    requires
        index < 10,
    ensures
        res == spec_digit(index as int),
{
    match index {
        0 => '0',
        1 => '1',
        2 => '2',
        3 => '3',
        4 => '4',
        5 => '5',
        6 => '6',
        7 => '7',
        8 => '8',
        _ => '9',
    }
}

/// The first `count` digit keys: five columns a pitch of four units apart,
/// two rows three units apart, key `index` lit while bit `index` of `held`
/// is set.
pub open spec fn spec_digit_keys(start_x: int, unit: int, held: u32, count: nat) -> Seq<Shape>
    decreases count,
{
    if count == 0 {
        seq![]
    } else {
        let index = count - 1;
        spec_digit_keys(start_x, unit, held, index as nat) + spec_soft_key_shapes(
            start_x + (index % 5) * (4 * unit),
            2 * unit + (index / 5) * (2 * unit + unit),
            3 * unit,
            2 * unit,
            seq![spec_digit(index)],
            held & (1u32 << (index as u32)) != 0,
            COLOR_NUM_PRESSED,
        )
    }
}

/// The numeric keypad centred along the top edge of a frame `width` wide:
/// a backdrop, then the ten digit keys.
pub open spec fn spec_keypad_shapes(width: int, unit: int, held: u32) -> Seq<Shape> {
    let keypad_width = 5 * (3 * unit) + 4 * unit;
    let start_x = spec_half_toward_zero(width - keypad_width);
    let start_y = 2 * unit;
    seq![
        Shape::Shaded {
            left: start_x - unit,
            top: start_y - unit,
            width: keypad_width + 2 * unit,
            height: 2 * (2 * unit) + 3 * unit,
            color: COLOR_BACKGROUND,
        },
    ] + spec_digit_keys(start_x, unit, held, 10)
}

/// The layout unit of a `width` by `height` frame: a 48th of its smaller
/// side, between 1 and 6 pixels.
pub open spec fn spec_unit(width: int, height: int) -> int {
    let smaller = if width < height {
        width
    } else {
        height
    };
    if smaller / 48 < 1 {
        1
    } else if smaller / 48 > 6 {
        6
    } else {
        smaller / 48
    }
}

/// The direction pad centred at (`dpad_x`, `dpad_y`): a backdrop, the four
/// direction buttons and the centre square.
pub open spec fn spec_dpad_shapes(dpad_x: int, dpad_y: int, unit: int, held: u32) -> Seq<Shape> {
    seq![
        Shape::Shaded {
            left: dpad_x - 4 * unit,
            top: dpad_y - 4 * unit,
            width: 9 * unit,
            height: 9 * unit,
            color: COLOR_BACKGROUND,
        },
    ] + spec_dpad_button_shapes(
        dpad_x - unit,
        dpad_y - 4 * unit,
        unit,
        seq!['U'],
        held & KEY_UP != 0,
    ) + spec_dpad_button_shapes(
        dpad_x - unit,
        dpad_y + 2 * unit,
        unit,
        seq!['D'],
        held & KEY_DOWN != 0,
    ) + spec_dpad_button_shapes(
        dpad_x - 4 * unit,
        dpad_y - unit,
        unit,
        seq!['L'],
        held & KEY_LEFT != 0,
    ) + spec_dpad_button_shapes(
        dpad_x + 2 * unit,
        dpad_y - unit,
        unit,
        seq!['R'],
        held & KEY_RIGHT != 0,
    ) + seq![
        Shape::Solid {
            left: dpad_x - unit,
            top: dpad_y - unit,
            width: 3 * unit,
            height: 3 * unit,
            color: COLOR_IDLE,
        },
    ]
}

/// The four soft keys around the direction pad: the left and right soft
/// keys above it, the extra ones to its right.
pub open spec fn spec_side_keys_shapes(dpad_x: int, dpad_y: int, unit: int, held: u32) -> Seq<
    Shape,
> {
    spec_soft_key_shapes(
        dpad_x - 2 * unit,
        dpad_y - 8 * unit,
        4 * unit,
        2 * unit,
        seq!['Q'],
        held & KEY_Q != 0,
        COLOR_SOFT_PRESSED,
    ) + spec_soft_key_shapes(
        dpad_x - 2 * unit,
        dpad_y - 5 * unit,
        4 * unit,
        2 * unit,
        seq!['E'],
        held & KEY_E != 0,
        COLOR_SOFT_PRESSED,
    ) + spec_soft_key_shapes(
        dpad_x + 5 * unit,
        dpad_y - 4 * unit,
        4 * unit,
        2 * unit,
        seq!['N'],
        held & KEY_N != 0,
        COLOR_SOFT_PRESSED,
    ) + spec_soft_key_shapes(
        dpad_x + 5 * unit,
        dpad_y - unit,
        4 * unit,
        2 * unit,
        seq!['M'],
        held & KEY_M != 0,
        COLOR_SOFT_PRESSED,
    )
}

/// All shapes of the overlay, in painting order: the keypad, the direction
/// pad with its four buttons and centre, the four soft keys around it and
/// the confirm button in the bottom-right corner.
pub open spec fn spec_overlay_shapes(width: int, height: int, held: u32) -> Seq<Shape> {
    let unit = spec_unit(width, height);
    let margin = 2 * unit;
    let dpad_x = margin + 4 * unit;
    let dpad_y = height - margin - 4 * unit;
    let ok_x = width - margin - 3 * unit;
    let ok_y = height - margin - 5 * unit;
    spec_keypad_shapes(width, unit, held) + spec_dpad_shapes(dpad_x, dpad_y, unit, held)
        + spec_side_keys_shapes(dpad_x, dpad_y, unit, held) + spec_action_button_shapes(
        ok_x,
        ok_y,
        2 * unit,
        seq!['O', 'K'],
        if held & KEY_OK != 0 {
            COLOR_OK_PRESSED
        } else {
            COLOR_IDLE
        },
    )
}

/// Whether the overlay draws on a buffer of `len` entries holding a
/// `width` by `height` frame: a non-empty frame that the buffer holds
/// whole, with sides that fit a signed 32-bit coordinate.
pub open spec fn spec_overlay_fits(len: int, width: u32, height: u32) -> bool {
    &&& 0 < width <= i32::MAX
    &&& 0 < height <= i32::MAX
    &&& width * height <= len
}

/// Painting never changes the length of the buffer, nor its entries past
/// the frame.
proof fn lemma_paint_all_keeps_rest(frame: Seq<u32>, width: int, height: int, shapes: Seq<Shape>)
    ensures
        spec_paint_all(frame, width, height, shapes).len() == frame.len(),
        forall|i: int|
            0 <= i < frame.len() && width * height <= i ==> spec_paint_all(
                frame,
                width,
                height,
                shapes,
            )[i] == frame[i],
    decreases shapes.len(),
{
    if shapes.len() > 0 {
        lemma_paint_all_keeps_rest(frame, width, height, shapes.drop_last());
    }
}

/// Append the direction pad centred at (`dpad_x`, `dpad_y`).
#[verifier::rlimit(40)]
fn draw_dpad(ops: &mut Vec<DrawOp>, dpad_x: i64, dpad_y: i64, unit: i64, held: u32)
    requires
        -0x8000_0000 <= dpad_x <= 0x8000_0000,
        -0x8000_0000 <= dpad_y <= 0x8000_0000,
        1 <= unit <= 6,
    ensures
        spec_shapes_of(final(ops)@) == spec_shapes_of(old(ops)@) + spec_dpad_shapes(
            dpad_x as int,
            dpad_y as int,
            unit as int,
            held,
        ),
{
    let ghost start = spec_shapes_of(ops@);
    let label_u = ['U'];
    let label_d = ['D'];
    let label_l = ['L'];
    let label_r = ['R'];
    assert(label_u@ == seq!['U'] && label_d@ == seq!['D'] && label_l@ == seq!['L'] && label_r@
        == seq!['R']);
    push_op(
        ops,
        DrawOp::Blend {
            x: dpad_x - 4 * unit,
            y: dpad_y - 4 * unit,
            width: 9 * unit,
            height: 9 * unit,
            color: COLOR_BACKGROUND,
        },
    );
    let ghost backdrop = spec_shapes_of(ops@);
    draw_dpad_button(ops, dpad_x - unit, dpad_y - 4 * unit, unit, &label_u, held & KEY_UP != 0);
    draw_dpad_button(ops, dpad_x - unit, dpad_y + 2 * unit, unit, &label_d, held & KEY_DOWN != 0);
    let ghost vertical = spec_shapes_of(ops@);
    assert(vertical == backdrop + spec_dpad_button_shapes(
        dpad_x - unit,
        dpad_y - 4 * unit,
        unit as int,
        seq!['U'],
        held & KEY_UP != 0,
    ) + spec_dpad_button_shapes(
        dpad_x - unit,
        dpad_y + 2 * unit,
        unit as int,
        seq!['D'],
        held & KEY_DOWN != 0,
    ));
    draw_dpad_button(ops, dpad_x - 4 * unit, dpad_y - unit, unit, &label_l, held & KEY_LEFT != 0);
    draw_dpad_button(ops, dpad_x + 2 * unit, dpad_y - unit, unit, &label_r, held & KEY_RIGHT != 0);
    let ghost buttons = spec_shapes_of(ops@);
    push_op(
        ops,
        DrawOp::Fill {
            x: dpad_x - unit,
            y: dpad_y - unit,
            width: 3 * unit,
            height: 3 * unit,
            color: COLOR_IDLE,
        },
    );
    assert(spec_shapes_of(ops@) =~= buttons + seq![
        Shape::Solid {
            left: dpad_x - unit,
            top: dpad_y - unit,
            width: 3 * unit,
            height: 3 * unit,
            color: COLOR_IDLE,
        },
    ]);
    assert(spec_shapes_of(ops@) =~= start + spec_dpad_shapes(
        dpad_x as int,
        dpad_y as int,
        unit as int,
        held,
    ));
}

/// Append the left and right soft keys above the direction pad centred at
/// (`dpad_x`, `dpad_y`), and the extra soft keys to its right.
#[verifier::rlimit(40)]
fn draw_side_keys(ops: &mut Vec<DrawOp>, dpad_x: i64, dpad_y: i64, unit: i64, held: u32)
    requires
        -0x8000_0000 <= dpad_x <= 0x8000_0000,
        -0x8000_0000 <= dpad_y <= 0x8000_0000,
        1 <= unit <= 6,
    ensures
        spec_shapes_of(final(ops)@) == spec_shapes_of(old(ops)@) + spec_side_keys_shapes(
            dpad_x as int,
            dpad_y as int,
            unit as int,
            held,
        ),
{
    let ghost start = spec_shapes_of(ops@);
    let label_q = ['Q'];
    let label_e = ['E'];
    let label_n = ['N'];
    let label_m = ['M'];
    assert(label_q@ == seq!['Q'] && label_e@ == seq!['E'] && label_n@ == seq!['N'] && label_m@
        == seq!['M']);
    draw_soft_key(
        ops,
        dpad_x - 2 * unit,
        dpad_y - 8 * unit,
        4 * unit,
        2 * unit,
        &label_q,
        held & KEY_Q != 0,
        COLOR_SOFT_PRESSED,
    );
    draw_soft_key(
        ops,
        dpad_x - 2 * unit,
        dpad_y - 5 * unit,
        4 * unit,
        2 * unit,
        &label_e,
        held & KEY_E != 0,
        COLOR_SOFT_PRESSED,
    );
    draw_soft_key(
        ops,
        dpad_x + 5 * unit,
        dpad_y - 4 * unit,
        4 * unit,
        2 * unit,
        &label_n,
        held & KEY_N != 0,
        COLOR_SOFT_PRESSED,
    );
    draw_soft_key(
        ops,
        dpad_x + 5 * unit,
        dpad_y - unit,
        4 * unit,
        2 * unit,
        &label_m,
        held & KEY_M != 0,
        COLOR_SOFT_PRESSED,
    );
    assert(spec_shapes_of(ops@) =~= start + spec_side_keys_shapes(
        dpad_x as int,
        dpad_y as int,
        unit as int,
        held,
    ));
}

/// The virtual gamepad overlay.
pub struct GamepadOverlay;

impl GamepadOverlay {
    /// Draw the overlay for the guest keys set in `held` into a `width` by
    /// `height` frame, one `0x00RRGGBB` entry per pixel, row-major. A frame
    /// that the buffer does not hold whole, or with a side of zero, is left
    /// as it is.
    #[verifier::rlimit(40)]
    pub fn draw(buffer: &mut Vec<u32>, width: u32, height: u32, held: u32)
        ensures
            final(buffer)@.len() == old(buffer)@.len(),
            !spec_overlay_fits(old(buffer)@.len() as int, width, height) ==> final(buffer)@ == old(
                buffer,
            )@,
            spec_overlay_fits(old(buffer)@.len() as int, width, height) ==> final(buffer)@
                == spec_paint_all(
                old(buffer)@,
                width as int,
                height as int,
                spec_overlay_shapes(width as int, height as int, held),
            ),
            forall|i: int|
                width * height <= i < old(buffer)@.len() ==> final(buffer)@[i] == old(buffer)@[i],
    {
        assert(width * height <= 0xffff_ffff * 0xffff_ffff) by (nonlinear_arith)
            requires
                width <= 0xffff_ffff,
                height <= 0xffff_ffff,
        ;
        let expected_len = width as u64 * height as u64;
        if width == 0 || height == 0 || (buffer.len() as u64) < expected_len || width > 0x7fff_ffff
            || height > 0x7fff_ffff {
            return ;
        }
        let smaller = if width < height {
            width
        } else {
            height
        };
        let unit: i64 = if smaller / 48 < 1 {
            1
        } else if smaller / 48 > 6 {
            6
        } else {
            (smaller / 48) as i64
        };
        let ops = Self::layout(width as i64, height as i64, unit, held);
        let ghost shapes = spec_overlay_shapes(width as int, height as int, held);

        let ghost frame = buffer@;
        let frame_columns = width as usize;
        let frame_rows = height as usize;
        let mut k: usize = 0;
        while k < ops.len()
            invariant
                k <= ops@.len(),
                spec_shapes_of(ops@) == shapes,
                0 < frame_columns <= i32::MAX,
                0 < frame_rows <= i32::MAX,
                frame_columns == width,
                frame_rows == height,
                frame_columns * frame_rows <= frame.len(),
                buffer@ == spec_paint_all(frame, width as int, height as int, shapes.take(k as int)),
            decreases ops@.len() - k,
        {
            proof {
                lemma_paint_all_keeps_rest(frame, width as int, height as int, shapes.take(k as int));
            }
            paint(buffer, frame_columns, frame_rows, &ops[k]);
            proof {
                assert(shapes.take(k + 1).drop_last() =~= shapes.take(k as int));
                assert(shapes.take(k + 1).last() == ops@[k as int]@);
            }
            k = k + 1;
        }
        proof {
            assert(shapes.take(k as int) =~= shapes);
            lemma_paint_all_keeps_rest(frame, width as int, height as int, shapes);
        }
    }

    /// The shapes of the overlay for a `width` by `height` frame with layout
    /// unit `unit`, in painting order.
    fn layout(width: i64, height: i64, unit: i64, held: u32) -> (ops: Vec<DrawOp>)
        requires
            1 <= width <= i32::MAX,
            1 <= height <= i32::MAX,
            unit == spec_unit(width as int, height as int),
        ensures
            spec_shapes_of(ops@) == spec_overlay_shapes(width as int, height as int, held),
    {
        let margin = 2 * unit;
        let mut ops: Vec<DrawOp> = Vec::new();
        Self::draw_keypad(&mut ops, width, unit, held);
        assert(spec_shapes_of(ops@) =~= spec_keypad_shapes(width as int, unit as int, held));
        let dpad_x = margin + 4 * unit;
        let dpad_y = height - margin - 4 * unit;
        draw_dpad(&mut ops, dpad_x, dpad_y, unit, held);
        draw_side_keys(&mut ops, dpad_x, dpad_y, unit, held);

        // The confirm button sits in the bottom-right corner.
        let ok_x = width - margin - 3 * unit;
        let ok_y = height - margin - 5 * unit;
        let label_ok = ['O', 'K'];
        assert(label_ok@ == seq!['O', 'K']);
        draw_action_button(
            &mut ops,
            ok_x,
            ok_y,
            2 * unit,
            &label_ok,
            if held & KEY_OK != 0 {
                COLOR_OK_PRESSED
            } else {
                COLOR_IDLE
            },
        );
        ops
    }

    /// Append the two-row, five-column numeric keypad along the top edge.
    fn draw_keypad(ops: &mut Vec<DrawOp>, width: i64, unit: i64, held: u32)
        requires
            1 <= width <= i32::MAX,
            1 <= unit <= 6,
        ensures
            spec_shapes_of(final(ops)@) == spec_shapes_of(old(ops)@) + spec_keypad_shapes(
                width as int,
                unit as int,
                held,
            ),
    {
        let ghost start = spec_shapes_of(ops@);
        let cell_width = 3 * unit;
        let cell_height = 2 * unit;
        let pitch = 4 * unit;
        let keypad_width = 5 * cell_width + 4 * unit;
        let start_x = half_toward_zero(width - keypad_width);
        let start_y = 2 * unit;
        push_op(
            ops,
            DrawOp::Blend {
                x: start_x - unit,
                y: start_y - unit,
                width: keypad_width + 2 * unit,
                height: 2 * cell_height + 3 * unit,
                color: COLOR_BACKGROUND,
            },
        );
        let ghost backdrop = spec_shapes_of(ops@);
        assert(backdrop =~= start + seq![
            Shape::Shaded {
                left: start_x - unit,
                top: start_y - unit,
                width: keypad_width + 2 * unit,
                height: 2 * cell_height + 3 * unit,
                color: COLOR_BACKGROUND,
            },
        ]);
        let mut index: usize = 0;
        while index < 10
            invariant
                index <= 10,
                1 <= unit <= 6,
                cell_width == 3 * unit,
                cell_height == 2 * unit,
                pitch == 4 * unit,
                -0x4000_0000 <= start_x <= 0x4000_0000,
                start_y == 2 * unit,
                spec_shapes_of(ops@) == backdrop + spec_digit_keys(
                    start_x as int,
                    unit as int,
                    held,
                    index as nat,
                ),
            decreases 10 - index,
        {
            let column = (index % 5) as i64;
            let row = (index / 5) as i64;
            assert(0 <= column * pitch <= 4 * 24 && 0 <= row * (cell_height + unit) <= 18)
                by (nonlinear_arith)
                requires
                    0 <= column < 5,
                    0 <= row <= 1,
                    0 <= pitch <= 24,
                    0 <= cell_height + unit <= 18,
            ;
            let x = start_x + column * pitch;
            let y = start_y + row * (cell_height + unit);
            let mask = 1u32 << (index as u32);
            let label = [digit_label(index)];
            assert(label@ == seq![spec_digit(index as int)]);
            assert(x == start_x + (index % 5) * (4 * unit));
            assert(y == 2 * unit + (index / 5) * (2 * unit + unit));
            let ghost before = spec_shapes_of(ops@);
            draw_soft_key(
                ops,
                x,
                y,
                cell_width,
                cell_height,
                &label,
                held & mask != 0,
                COLOR_NUM_PRESSED,
            );
            assert(spec_shapes_of(ops@) == before + spec_soft_key_shapes(
                start_x + (index % 5) * (4 * unit),
                2 * unit + (index / 5) * (2 * unit + unit),
                3 * unit,
                2 * unit,
                seq![spec_digit(index as int)],
                held & (1u32 << (index as u32)) != 0,
                COLOR_NUM_PRESSED,
            ));
            assert(spec_shapes_of(ops@) =~= backdrop + spec_digit_keys(
                start_x as int,
                unit as int,
                held,
                (index + 1) as nat,
            ));
            index = index + 1;
        }
        assert(spec_shapes_of(ops@) =~= start + spec_keypad_shapes(width as int, unit as int, held));
    }
}

/// Whether `color` is the colour of a held key.
pub open spec fn spec_is_pressed_color(color: u32) -> bool {
    ||| color == COLOR_DPAD_PRESSED
    ||| color == COLOR_OK_PRESSED
    ||| color == COLOR_SOFT_PRESSED
    ||| color == COLOR_NUM_PRESSED
}

/// Whether `shape` paints only in the colours of a key that is not held:
/// the idle face, the label, or the translucent backdrop.
spec fn spec_idle_shape(shape: Shape) -> bool {
    match shape {
        Shape::Solid { color, .. } => color == COLOR_IDLE || color == COLOR_LABEL,
        Shape::Shaded { color, .. } => color == COLOR_BACKGROUND,
        Shape::Disc { color, .. } => color == COLOR_IDLE,
    }
}

spec fn spec_all_idle(shapes: Seq<Shape>) -> bool {
    forall|k: int| 0 <= k < shapes.len() ==> spec_idle_shape(#[trigger] shapes[k])
}

proof fn lemma_all_idle_concat(a: Seq<Shape>, b: Seq<Shape>)
    requires
        spec_all_idle(a),
        spec_all_idle(b),
    ensures
        spec_all_idle(a + b),
{
    assert forall|k: int| 0 <= k < (a + b).len() implies spec_idle_shape(#[trigger] (a + b)[k]) by {
        if k < a.len() {
            assert((a + b)[k] == a[k]);
        } else {
            assert((a + b)[k] == b[k - a.len()]);
        }
    }
}

/// The backdrop blended over any pixel leaves each channel between 16 and
/// 111, which no held-key colour has in all three channels.
proof fn lemma_backdrop_is_not_pressed(under: u32)
    ensures
        !spec_is_pressed_color(spec_blend(COLOR_BACKGROUND, under)),
{
    assert(spec_channel(COLOR_BACKGROUND, 3) == 160);
    assert(spec_channel(COLOR_BACKGROUND, 2) == 26);
    assert(spec_channel(COLOR_BACKGROUND, 1) == 26);
    assert(spec_channel(COLOR_BACKGROUND, 0) == 26);
    let r = spec_mix(26, spec_channel(under, 2), 160);
    let g = spec_mix(26, spec_channel(under, 1), 160);
    let b = spec_mix(26, spec_channel(under, 0), 160);
    assert(0 <= r <= 111 && 0 <= g <= 111 && 0 <= b <= 111);
    assert(spec_blend(COLOR_BACKGROUND, under) == r * 0x1_0000 + g * 0x100 + b);
}

/// The text shapes in the label colour are all idle.
proof fn lemma_label_cells_idle(
    origin_x: int,
    origin_y: int,
    scale: int,
    text: Seq<char>,
    count: nat,
)
    ensures
        spec_all_idle(spec_label_cells(origin_x, origin_y, scale, text, count, COLOR_LABEL)),
    decreases count,
{
    if count > 0 {
        lemma_label_cells_idle(origin_x, origin_y, scale, text, (count - 1) as nat);
        let index = count - 1;
        match spec_glyph(text[index]) {
            Some(rows) => {
                lemma_glyph_cells_idle(origin_x, origin_y, scale, index, rows, 6);
            },
            None => {},
        }
        lemma_all_idle_concat(
            spec_label_cells(origin_x, origin_y, scale, text, (count - 1) as nat, COLOR_LABEL),
            spec_char_cells(origin_x, origin_y, scale, index, text[index], COLOR_LABEL),
        );
    }
}

proof fn lemma_glyph_cells_idle(
    origin_x: int,
    origin_y: int,
    scale: int,
    index: int,
    rows: Seq<u8>,
    count: nat,
)
    ensures
        spec_all_idle(spec_glyph_cells(origin_x, origin_y, scale, index, rows, count, COLOR_LABEL)),
    decreases count,
{
    if count > 0 {
        lemma_glyph_cells_idle(origin_x, origin_y, scale, index, rows, (count - 1) as nat);
        let y = origin_y + (count - 1) * scale;
        let bits = rows[count - 1];
        let left = spec_cell(
            bits / 4 % 2 == 1,
            origin_x + (index * 4) * scale,
            y,
            scale,
            COLOR_LABEL,
        );
        let middle = spec_cell(
            bits / 2 % 2 == 1,
            origin_x + (index * 4 + 1) * scale,
            y,
            scale,
            COLOR_LABEL,
        );
        let right = spec_cell(bits % 2 == 1, origin_x + (index * 4 + 2) * scale, y, scale, COLOR_LABEL);
        lemma_all_idle_concat(left, middle);
        lemma_all_idle_concat(left + middle, right);
        lemma_all_idle_concat(
            spec_glyph_cells(origin_x, origin_y, scale, index, rows, (count - 1) as nat, COLOR_LABEL),
            left + middle + right,
        );
    }
}

proof fn lemma_text_idle(x: int, y: int, cell_width: int, cell_height: int, text: Seq<char>)
    ensures
        spec_all_idle(spec_text_shapes(x, y, cell_width, cell_height, text, COLOR_LABEL)),
{
    let scale = spec_text_scale(cell_height);
    let text_width = text.len() * 4 * scale - scale;
    lemma_label_cells_idle(
        x + spec_half_toward_zero(cell_width - text_width),
        y + spec_half_toward_zero(cell_height - 6 * scale),
        scale,
        text,
        text.len(),
    );
}

proof fn lemma_idle_soft_key(
    x: int,
    y: int,
    button_width: int,
    button_height: int,
    label: Seq<char>,
    pressed_color: u32,
)
    ensures
        spec_all_idle(
            spec_soft_key_shapes(x, y, button_width, button_height, label, false, pressed_color),
        ),
{
    lemma_text_idle(x, y, button_width, button_height, label);
    let faces = seq![
        Shape::Shaded {
            left: x - 2,
            top: y - 2,
            width: button_width + 4,
            height: button_height + 4,
            color: COLOR_BACKGROUND,
        },
        Shape::Solid { left: x, top: y, width: button_width, height: button_height, color: COLOR_IDLE },
    ];
    assert(spec_all_idle(faces));
    lemma_all_idle_concat(
        faces,
        spec_text_shapes(x, y, button_width, button_height, label, COLOR_LABEL),
    );
}

proof fn lemma_idle_dpad_button(x: int, y: int, unit: int, label: Seq<char>)
    ensures
        spec_all_idle(spec_dpad_button_shapes(x, y, unit, label, false)),
{
    lemma_text_idle(x, y, 3 * unit, 3 * unit, label);
    let face = seq![
        Shape::Solid { left: x, top: y, width: 3 * unit, height: 3 * unit, color: COLOR_IDLE },
    ];
    assert(spec_all_idle(face));
    lemma_all_idle_concat(face, spec_text_shapes(x, y, 3 * unit, 3 * unit, label, COLOR_LABEL));
}

proof fn lemma_idle_digit_keys(start_x: int, unit: int, count: nat)
    requires
        count <= 10,
    ensures
        spec_all_idle(spec_digit_keys(start_x, unit, 0, count)),
    decreases count,
{
    if count > 0 {
        let index = count - 1;
        lemma_idle_digit_keys(start_x, unit, index as nat);
        let mask = 1u32 << (index as u32);
        assert(0u32 & mask == 0) by (bit_vector);
        lemma_idle_soft_key(
            start_x + (index % 5) * (4 * unit),
            2 * unit + (index / 5) * (2 * unit + unit),
            3 * unit,
            2 * unit,
            seq![spec_digit(index)],
            COLOR_NUM_PRESSED,
        );
        lemma_all_idle_concat(
            spec_digit_keys(start_x, unit, 0, index as nat),
            spec_soft_key_shapes(
                start_x + (index % 5) * (4 * unit),
                2 * unit + (index / 5) * (2 * unit + unit),
                3 * unit,
                2 * unit,
                seq![spec_digit(index)],
                false,
                COLOR_NUM_PRESSED,
            ),
        );
    }
}

proof fn lemma_idle_overlay_shapes(width: int, height: int)
    ensures
        spec_all_idle(spec_overlay_shapes(width, height, 0)),
{
    let unit = spec_unit(width, height);
    let margin = 2 * unit;
    let dpad_x = margin + 4 * unit;
    let dpad_y = height - margin - 4 * unit;
    let ok_x = width - margin - 3 * unit;
    let ok_y = height - margin - 5 * unit;
    assert(forall|mask: u32| #[trigger] (0u32 & mask) == 0) by (bit_vector);
    assert(0u32 & KEY_OK == 0);

    let keypad_width = 5 * (3 * unit) + 4 * unit;
    let start_x = spec_half_toward_zero(width - keypad_width);
    let backdrop = seq![
        Shape::Shaded {
            left: start_x - unit,
            top: 2 * unit - unit,
            width: keypad_width + 2 * unit,
            height: 2 * (2 * unit) + 3 * unit,
            color: COLOR_BACKGROUND,
        },
    ];
    assert(spec_all_idle(backdrop));
    lemma_idle_digit_keys(start_x, unit, 10);
    lemma_all_idle_concat(backdrop, spec_digit_keys(start_x, unit, 0, 10));
    let keypad = spec_keypad_shapes(width, unit, 0);

    let pad_backdrop = seq![
        Shape::Shaded {
            left: dpad_x - 4 * unit,
            top: dpad_y - 4 * unit,
            width: 9 * unit,
            height: 9 * unit,
            color: COLOR_BACKGROUND,
        },
    ];
    let centre = seq![
        Shape::Solid {
            left: dpad_x - unit,
            top: dpad_y - unit,
            width: 3 * unit,
            height: 3 * unit,
            color: COLOR_IDLE,
        },
    ];
    assert(spec_all_idle(pad_backdrop));
    assert(spec_all_idle(centre));
    let up = spec_dpad_button_shapes(dpad_x - unit, dpad_y - 4 * unit, unit, seq!['U'], false);
    let down = spec_dpad_button_shapes(dpad_x - unit, dpad_y + 2 * unit, unit, seq!['D'], false);
    let left = spec_dpad_button_shapes(dpad_x - 4 * unit, dpad_y - unit, unit, seq!['L'], false);
    let right = spec_dpad_button_shapes(dpad_x + 2 * unit, dpad_y - unit, unit, seq!['R'], false);
    lemma_idle_dpad_button(dpad_x - unit, dpad_y - 4 * unit, unit, seq!['U']);
    lemma_idle_dpad_button(dpad_x - unit, dpad_y + 2 * unit, unit, seq!['D']);
    lemma_idle_dpad_button(dpad_x - 4 * unit, dpad_y - unit, unit, seq!['L']);
    lemma_idle_dpad_button(dpad_x + 2 * unit, dpad_y - unit, unit, seq!['R']);
    lemma_all_idle_concat(pad_backdrop, up);
    lemma_all_idle_concat(pad_backdrop + up, down);
    lemma_all_idle_concat(pad_backdrop + up + down, left);
    lemma_all_idle_concat(pad_backdrop + up + down + left, right);
    lemma_all_idle_concat(pad_backdrop + up + down + left + right, centre);
    assert(spec_dpad_shapes(dpad_x, dpad_y, unit, 0) == pad_backdrop + up + down + left + right
        + centre);

    let q = spec_soft_key_shapes(
        dpad_x - 2 * unit,
        dpad_y - 8 * unit,
        4 * unit,
        2 * unit,
        seq!['Q'],
        false,
        COLOR_SOFT_PRESSED,
    );
    let e = spec_soft_key_shapes(
        dpad_x - 2 * unit,
        dpad_y - 5 * unit,
        4 * unit,
        2 * unit,
        seq!['E'],
        false,
        COLOR_SOFT_PRESSED,
    );
    let n = spec_soft_key_shapes(
        dpad_x + 5 * unit,
        dpad_y - 4 * unit,
        4 * unit,
        2 * unit,
        seq!['N'],
        false,
        COLOR_SOFT_PRESSED,
    );
    let m = spec_soft_key_shapes(
        dpad_x + 5 * unit,
        dpad_y - unit,
        4 * unit,
        2 * unit,
        seq!['M'],
        false,
        COLOR_SOFT_PRESSED,
    );
    lemma_idle_soft_key(dpad_x - 2 * unit, dpad_y - 8 * unit, 4 * unit, 2 * unit, seq!['Q'], COLOR_SOFT_PRESSED);
    lemma_idle_soft_key(dpad_x - 2 * unit, dpad_y - 5 * unit, 4 * unit, 2 * unit, seq!['E'], COLOR_SOFT_PRESSED);
    lemma_idle_soft_key(dpad_x + 5 * unit, dpad_y - 4 * unit, 4 * unit, 2 * unit, seq!['N'], COLOR_SOFT_PRESSED);
    lemma_idle_soft_key(dpad_x + 5 * unit, dpad_y - unit, 4 * unit, 2 * unit, seq!['M'], COLOR_SOFT_PRESSED);
    lemma_all_idle_concat(q, e);
    lemma_all_idle_concat(q + e, n);
    lemma_all_idle_concat(q + e + n, m);
    assert(spec_side_keys_shapes(dpad_x, dpad_y, unit, 0) == q + e + n + m);

    let ok_face = seq![
        Shape::Shaded {
            left: ok_x - 2 * unit - 3,
            top: ok_y - 2 * unit - 3,
            width: 2 * unit * 2 + 7,
            height: 2 * unit * 2 + 7,
            color: COLOR_BACKGROUND,
        },
        Shape::Disc { center_x: ok_x, center_y: ok_y, radius: 2 * unit, color: COLOR_IDLE },
    ];
    assert(spec_all_idle(ok_face));
    lemma_text_idle(
        ok_x - 2 * unit,
        ok_y - 2 * unit,
        2 * unit * 2 + 1,
        2 * unit * 2 + 1,
        seq!['O', 'K'],
    );
    lemma_all_idle_concat(
        ok_face,
        spec_text_shapes(
            ok_x - 2 * unit,
            ok_y - 2 * unit,
            2 * unit * 2 + 1,
            2 * unit * 2 + 1,
            seq!['O', 'K'],
            COLOR_LABEL,
        ),
    );
    let ok = spec_action_button_shapes(ok_x, ok_y, 2 * unit, seq!['O', 'K'], COLOR_IDLE);

    lemma_all_idle_concat(keypad, spec_dpad_shapes(dpad_x, dpad_y, unit, 0));
    lemma_all_idle_concat(
        keypad + spec_dpad_shapes(dpad_x, dpad_y, unit, 0),
        spec_side_keys_shapes(dpad_x, dpad_y, unit, 0),
    );
    lemma_all_idle_concat(
        keypad + spec_dpad_shapes(dpad_x, dpad_y, unit, 0) + spec_side_keys_shapes(
            dpad_x,
            dpad_y,
            unit,
            0,
        ),
        ok,
    );
}

/// Painting idle shapes turns no pixel into a held-key colour.
proof fn lemma_idle_paint(frame: Seq<u32>, width: int, height: int, shapes: Seq<Shape>)
    requires
        spec_all_idle(shapes),
    ensures
        forall|i: int|
            0 <= i < frame.len() ==> #[trigger] spec_paint_all(frame, width, height, shapes)[i]
                == frame[i] || !spec_is_pressed_color(
                spec_paint_all(frame, width, height, shapes)[i],
            ),
    decreases shapes.len(),
{
    if shapes.len() > 0 {
        let rest = shapes.drop_last();
        assert forall|k: int| 0 <= k < rest.len() implies spec_idle_shape(#[trigger] rest[k]) by {
            assert(rest[k] == shapes[k]);
        }
        lemma_idle_paint(frame, width, height, rest);
        lemma_paint_all_keeps_rest(frame, width, height, rest);
        let middle = spec_paint_all(frame, width, height, rest);
        let last = shapes.last();
        assert(spec_idle_shape(shapes[shapes.len() - 1]));
        assert forall|i: int| 0 <= i < frame.len() implies #[trigger] spec_paint_all(
            frame,
            width,
            height,
            shapes,
        )[i] == frame[i] || !spec_is_pressed_color(
            spec_paint_all(frame, width, height, shapes)[i],
        ) by {
            assert(middle[i] == frame[i] || !spec_is_pressed_color(middle[i]));
            match last {
                Shape::Shaded { .. } => {
                    lemma_backdrop_is_not_pressed(middle[i]);
                },
                _ => {},
            }
        }
    }
}

/// With no key held, the overlay turns no pixel into one of the held-key
/// colours: every pixel it changes is idle, a label or the backdrop.
pub proof fn lemma_idle_overlay_uses_no_pressed_color(frame: Seq<u32>, width: u32, height: u32)
    ensures
        forall|i: int|
            0 <= i < frame.len() ==> #[trigger] spec_paint_all(
                frame,
                width as int,
                height as int,
                spec_overlay_shapes(width as int, height as int, 0),
            )[i] == frame[i] || !spec_is_pressed_color(
                spec_paint_all(
                    frame,
                    width as int,
                    height as int,
                    spec_overlay_shapes(width as int, height as int, 0),
                )[i],
            ),
{
    lemma_idle_overlay_shapes(width as int, height as int);
    lemma_idle_paint(
        frame,
        width as int,
        height as int,
        spec_overlay_shapes(width as int, height as int, 0),
    );
}

} // verus!
