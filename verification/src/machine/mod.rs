//! The machine side of the emulator: executable image parsing, guest memory,
//! resource packages, the virtual file system, display rotation, pointer and
//! key state, and small helpers of the ARM/Thumb service bridge.
use vstd::prelude::*;

use crate::bytes::{crc32_hash, spec_crc32};
use crate::image_decoder::{spec_firmware_png_signature, spec_image_format_known};
use crate::rotation_profile::{builtin_rotation, spec_builtin_landscape};

pub mod audio;
pub mod cpu;
pub mod dispatch;
pub mod executable;
pub mod files;
pub mod frame;
pub mod game;
pub mod heap;
pub mod images;
pub mod memory;
pub mod nicai;
pub mod packages;
pub mod resources;
pub mod screens;
pub mod services;
pub mod stdio;
pub mod strings;
pub mod tables;
pub mod timers;
pub mod virtual_fs;

verus! {

/// Native guest framebuffer width in pixels.
pub const FRAME_WIDTH: u32 = 240;

/// Native guest framebuffer height in pixels.
pub const FRAME_HEIGHT: u32 = 400;

/// Display rotation applied to the guest framebuffer before presentation.
#[derive(Debug, Clone, Copy, PartialEq, Eq, Structural)]
pub enum Rotation {
    /// Resolve automatically from the guest's rendering (default).
    Auto,
    /// Present the framebuffer as-is (portrait 240x400).
    Unrotated,
    /// Rotate the framebuffer 90 degrees clockwise (400x240 output).
    Cw,
    /// Rotate the framebuffer 90 degrees counterclockwise (400x240 output).
    Ccw,
}

impl Default for Rotation {
    fn default() -> (res: Self)
        ensures
            res == Rotation::Auto,
    {
        Rotation::Auto
    }
}

/// Whether a rotation swaps the output dimensions.
pub open spec fn spec_swaps_dimensions(r: Rotation) -> bool {
    r == Rotation::Cw || r == Rotation::Ccw
}

/// The framebuffer coordinate that a displayed coordinate shows.
pub open spec fn spec_unrotate(r: Rotation, x: int, y: int) -> (int, int) {
    match r {
        Rotation::Auto | Rotation::Unrotated => (x, y),
        Rotation::Cw => (y, FRAME_HEIGHT - 1 - x),
        Rotation::Ccw => (FRAME_WIDTH - 1 - y, x),
    }
}

impl Rotation {
    /// Whether this rotation changes the output dimensions.
    pub fn swaps_dimensions(self) -> (res: bool)
        ensures
            res == spec_swaps_dimensions(self),
    {
        match self {
            Rotation::Cw | Rotation::Ccw => true,
            _ => false,
        }
    }

    /// Map a presented display coordinate back to a guest framebuffer
    /// coordinate.
    pub fn unrotate(self, display_x: i32, display_y: i32) -> (res: (i32, i32))
        requires
            self == Rotation::Cw ==> FRAME_HEIGHT - 1 - display_x <= i32::MAX,
            self == Rotation::Ccw ==> FRAME_WIDTH - 1 - display_y <= i32::MAX,
        ensures
            (res.0 as int, res.1 as int) == spec_unrotate(self, display_x as int, display_y as int),
    {
        match self {
            Rotation::Auto | Rotation::Unrotated => (display_x, display_y),
            Rotation::Cw => (display_y, 399 - display_x),
            Rotation::Ccw => (239 - display_y, display_x),
        }
    }
}

/// The source index of output pixel (`row`, `col`) of a `width` x `height`
/// frame rotated by a quarter turn: clockwise output (x, y) shows source
/// (y, height - 1 - x); counterclockwise output (x, y) shows source
/// (width - 1 - y, x). Output rows are `height` pixels long.
pub open spec fn spec_rotated_source(width: int, height: int, rotation: Rotation, row: int, col: int) -> int {
    if rotation == Rotation::Cw {
        (height - 1 - col) * width + row
    } else {
        col * width + (width - 1 - row)
    }
}

/// The frame that `rotate_frame` produces.
pub open spec fn spec_rotate_frame_ok(pixels: Seq<u32>, width: int, height: int, rotation: Rotation, out: Seq<u32>) -> bool {
    if !spec_swaps_dimensions(rotation) {
        out == pixels
    } else {
        &&& out.len() == width * height
        &&& forall|row: int, col: int|
            0 <= row < width && 0 <= col < height ==> #[trigger] out[row * height + col]
                == pixels[spec_rotated_source(width, height, rotation, row, col)]
    }
}

proof fn lemma_grid_index(row: int, col: int, width: int, height: int)
    requires
        0 <= row < width,
        0 <= col < height,
    ensures
        0 <= row * height + col < width * height,
        0 <= (height - 1 - col) * width + row < width * height,
        0 <= col * width + (width - 1 - row) < width * height,
{
    assert(0 <= row * height + col < width * height) by (nonlinear_arith)
        requires
            0 <= row < width,
            0 <= col < height,
    ;
    assert(0 <= (height - 1 - col) * width + row < width * height) by (nonlinear_arith)
        requires
            0 <= row < width,
            0 <= col < height,
    ;
    assert(0 <= col * width + (width - 1 - row) < width * height) by (nonlinear_arith)
        requires
            0 <= row < width,
            0 <= col < height,
    ;
}

proof fn lemma_grid_unique(a: int, b: int, row: int, col: int, height: int)
    requires
        0 <= b < height,
        0 <= col < height,
        0 <= a,
        0 <= row,
        a * height + b == row * height + col,
    ensures
        a == row,
        b == col,
{
    assert(a == row && b == col) by (nonlinear_arith)
        requires
            0 <= b < height,
            0 <= col < height,
            0 <= a,
            0 <= row,
            a * height + b == row * height + col,
    ;
}

/// Rotate a row-major pixel buffer 90 degrees for presentation; the output
/// is `height` pixels wide and `width` pixels high.
pub fn rotate_frame(pixels: &[u32], width: u32, height: u32, rotation: Rotation) -> (res: Vec<u32>)
    requires
        (width as int) * (height as int) <= pixels@.len(),
        (width as int) * (height as int) <= u32::MAX + 1,
    ensures
        spec_rotate_frame_ok(pixels@, width as int, height as int, rotation, res@),
{
    if !rotation.swaps_dimensions() {
        return vstd::slice::slice_to_vec(pixels);
    }
    let ghost w = width as int;
    let ghost h = height as int;
    let mut rotated: Vec<u32> = Vec::new();
    let mut row: u32 = 0;
    while row < width
        invariant
            w == width,
            h == height,
            w * h <= pixels@.len(),
            w * h <= u32::MAX + 1,
            spec_swaps_dimensions(rotation),
            row <= width,
            rotated@.len() == row * h,
            forall|a: int, b: int|
                0 <= a < w && 0 <= b < h && a * h + b < rotated@.len() ==> #[trigger] rotated@[a * h + b]
                    == pixels@[spec_rotated_source(w, h, rotation, a, b)],
        decreases width - row,
    {
        let mut col: u32 = 0;
        while col < height
            invariant
                w == width,
                h == height,
                w * h <= pixels@.len(),
                w * h <= u32::MAX + 1,
                spec_swaps_dimensions(rotation),
                row < width,
                col <= height,
                rotated@.len() == row * h + col,
                forall|a: int, b: int|
                    0 <= a < w && 0 <= b < h && a * h + b < rotated@.len() ==> #[trigger] rotated@[a * h
                        + b] == pixels@[spec_rotated_source(w, h, rotation, a, b)],
            decreases height - col,
        {
            proof {
                lemma_grid_index(row as int, col as int, w, h);
            }
            let index = if rotation == Rotation::Cw {
                (height - 1 - col) * width + row
            } else {
                col * width + (width - 1 - row)
            };
            let value = pixels[index as usize];
            let ghost prev = rotated@;
            rotated.push(value);
            proof {
                assert forall|a: int, b: int|
                    0 <= a < w && 0 <= b < h && a * h + b < rotated@.len() implies #[trigger] rotated@[a * h
                        + b] == pixels@[spec_rotated_source(w, h, rotation, a, b)] by {
                    if a * h + b == prev.len() {
                        lemma_grid_unique(a, b, row as int, col as int, h);
                    }
                }
            }
            col = col + 1;
        }
        assert(row * h + h == (row + 1) * h) by (nonlinear_arith);
        row = row + 1;
    }
    assert(rotated@.len() == w * h);
    assert forall|a: int, b: int| 0 <= a < w && 0 <= b < h implies #[trigger] rotated@[a * h + b]
        == pixels@[spec_rotated_source(w, h, rotation, a, b)] by {
        lemma_grid_index(a, b, w, h);
    }
    rotated
}

/// Resolve the automatic rotation from the built-in content-identity
/// profile: landscape titles rotate counterclockwise, all others not at all.
pub fn rotation_for_archive(bytes: &[u8]) -> (res: Rotation)
    ensures
        res == if spec_builtin_landscape(spec_crc32(bytes@), bytes@.len() as int) {
            Rotation::Ccw
        } else {
            Rotation::Unrotated
        },
{
    let crc = crc32_hash(bytes);
    match builtin_rotation(crc, bytes.len() as u64) {
        Some(_) => Rotation::Ccw,
        None => Rotation::Unrotated,
    }
}

/// Firmware manager table layout: (directory slot, manager index, method
/// count) for each fixed manager.
pub open spec fn spec_fixed_manager_specs() -> Seq<(u32, u32, u32)> {
    seq![
        (0x00u32, 5u32, 0x60u32 / 4),
        (0x08u32, 4u32, 0xfcu32 / 4),
        (0x10u32, 7u32, 0x18u32 / 4),
        (0x18u32, 8u32, 0x3cu32 / 4),
        (0x20u32, 2u32, 0x48u32 / 4),
        (0x28u32, 12u32, 0x40u32 / 4),
        (0x30u32, 14u32, 0x2cu32 / 4),
        (0x38u32, 9u32, 0x1cu32 / 4),
        (0x40u32, 13u32, 0x30u32 / 4),
        (0x48u32, 1u32, 0x6cu32 / 4),
        (0x50u32, 15u32, 0x58u32 / 4),
        (0x58u32, 16u32, 0xa0u32 / 4),
        (0x60u32, 10u32, 0xa0u32 / 4),
        (0x68u32, 11u32, 0x3cu32 / 4),
        (0x70u32, 17u32, 0xf0u32 / 4),
        (0x78u32, 18u32, 0x24u32 / 4),
        (0x80u32, 3u32, 0x27cu32 / 4),
        (0x8cu32, 19u32, 0x1cu32 / 4),
    ]
}

/// The fixed manager table used by fixed-address games.
pub fn fixed_manager_specs() -> (res: Vec<(u32, u32, u32)>)
    ensures
        res@ == spec_fixed_manager_specs(),
{
    let res = vec![
        (0x00, 5, 0x60 / 4),
        (0x08, 4, 0xfc / 4),
        (0x10, 7, 0x18 / 4),
        (0x18, 8, 0x3c / 4),
        (0x20, 2, 0x48 / 4),
        (0x28, 12, 0x40 / 4),
        (0x30, 14, 0x2c / 4),
        (0x38, 9, 0x1c / 4),
        (0x40, 13, 0x30 / 4),
        (0x48, 1, 0x6c / 4),
        (0x50, 15, 0x58 / 4),
        (0x58, 16, 0xa0 / 4),
        (0x60, 10, 0xa0 / 4),
        (0x68, 11, 0x3c / 4),
        (0x70, 17, 0xf0 / 4),
        (0x78, 18, 0x24 / 4),
        (0x80, 3, 0x27c / 4),
        (0x8c, 19, 0x1c / 4),
    ];
    assert(res@ =~= spec_fixed_manager_specs());
    res
}

/// Number of initializer entries of each firmware manager table.
pub open spec fn spec_manager_initializer_count(index: u32) -> Option<u32> {
    if index == 0 {
        Some(30)
    } else if index == 2 {
        Some(95)
    } else if index == 4 {
        Some(10)
    } else if index == 6 {
        Some(21)
    } else if index == 8 {
        Some(27)
    } else if index == 10 {
        Some(38)
    } else if index == 12 {
        Some(12)
    } else if index == 14 {
        Some(43)
    } else if index == 16 {
        Some(11)
    } else if index == 18 {
        Some(115)
    } else if index == 20 {
        Some(0x100)
    } else if index == 22 {
        Some(24)
    } else if index == 24 {
        Some(40)
    } else if index == 30 {
        Some(31)
    } else if index == 32 {
        Some(144)
    } else if index == 35 {
        Some(11)
    } else if index == 37 {
        Some(22)
    } else if index == 45 {
        Some(6)
    } else {
        None
    }
}

/// Number of initializer entries of a firmware manager table.
pub fn manager_initializer_count(index: u32) -> (res: Option<u32>)
    ensures
        res == spec_manager_initializer_count(index),
{
    match index {
        0 => Some(30),
        2 => Some(95),
        4 => Some(10),
        6 => Some(21),
        8 => Some(27),
        10 => Some(38),
        12 => Some(12),
        14 => Some(43),
        16 => Some(11),
        18 => Some(115),
        20 => Some(0x100),
        22 => Some(24),
        24 => Some(40),
        30 => Some(31),
        32 => Some(144),
        35 => Some(11),
        37 => Some(22),
        45 => Some(6),
        _ => None,
    }
}

/// Whether a game-service string reader takes a 16-bit length prefix.
pub fn game_service_string_uses_wide_length(index: u32) -> (res: Option<bool>)
    ensures
        res == if index == 97 {
            Some(false)
        } else if index == 101 {
            Some(true)
        } else {
            None::<bool>
        },
{
    match index {
        97 => Some(false),
        101 => Some(true),
        _ => None,
    }
}

/// Where a variadic argument lives: in a register or at a stack offset.
#[derive(Debug, Clone, Copy, PartialEq, Eq, Structural)]
pub enum VariadicArgument {
    Register(u8),
    Stack(u32),
}

/// Location of variadic argument `argument_index` when the variadic
/// arguments start at register `first_register`: registers r0-r3, then
/// consecutive stack words.
pub fn variadic_argument_location(first_register: u32, argument_index: u32) -> (res: VariadicArgument)
    requires
        first_register + argument_index <= u32::MAX,
        first_register + argument_index <= 3 || (first_register + argument_index - 4) * 4 <= u32::MAX,
    ensures
        first_register + argument_index <= 3 ==> res == VariadicArgument::Register(
            (first_register + argument_index) as u8,
        ),
        first_register + argument_index > 3 ==> res == VariadicArgument::Stack(
            ((first_register + argument_index - 4) * 4) as u32,
        ),
{
    let register_index = first_register + argument_index;
    if register_index <= 3 {
        VariadicArgument::Register(register_index as u8)
    } else {
        VariadicArgument::Stack((register_index - 4) * 4)
    }
}

/// The low 16 bits of a value read as a signed coordinate.
pub open spec fn spec_signed_coord(value: u32) -> int {
    let low = value % 0x1_0000;
    if low >= 0x8000 {
        low - 0x1_0000
    } else {
        low as int
    }
}

/// The low 16 bits of a value as a signed coordinate.
pub fn signed_coord(value: u32) -> (res: i32)
    ensures
        res as int == spec_signed_coord(value),
{
    let low = value % 0x1_0000;
    if low >= 0x8000 {
        (low as i32) - 0x1_0000
    } else {
        low as i32
    }
}

/// 24-bit two's-complement value.
pub open spec fn spec_sign_extend24(v: int) -> int {
    if v >= 0x80_0000 {
        v - 0x100_0000
    } else {
        v
    }
}

/// Target of an ARM `BLX <imm>` at `pc`: pc + 8 + SignExtend(imm24:H:0),
/// modulo 2^32; `None` for other instructions.
pub open spec fn spec_arm_blx_immediate_target(pc: u32, instruction: u32) -> Option<u32> {
    if instruction & 0xfe00_0000 != 0xfa00_0000 {
        None
    } else {
        let imm24 = (instruction & 0x00ff_ffff) as int;
        let h = ((instruction >> 24u32) & 1) as int;
        Some(((pc + 8 + 4 * spec_sign_extend24(imm24) + 2 * h) % 0x1_0000_0000) as u32)
    }
}

/// Branch target of an ARM `BLX <imm>` instruction.
pub fn arm_blx_immediate_target(pc: u32, instruction: u32) -> (res: Option<u32>)
    ensures
        res == spec_arm_blx_immediate_target(pc, instruction),
{
    if instruction & 0xfe00_0000 != 0xfa00_0000 {
        return None;
    }
    let imm24 = instruction & 0x00ff_ffff;
    let h = (instruction >> 24u32) & 1;
    assert(imm24 < 0x100_0000) by (bit_vector)
        requires
            imm24 == instruction & 0x00ff_ffff,
    ;
    assert(h <= 1) by (bit_vector)
        requires
            h == (instruction >> 24u32) & 1,
    ;
    let positive: u64 = pc as u64 + 8 + 4 * (imm24 as u64) + 2 * (h as u64);
    let total: u64 = if imm24 >= 0x80_0000 {
        positive + 0x1_0000_0000 - 0x400_0000
    } else {
        positive
    };
    Some((total % 0x1_0000_0000) as u32)
}

/// Target of a Thumb `ADD PC, Rm`: pc + 4 + Rm modulo 2^32, with bit 0
/// cleared; `None` for other instructions.
pub open spec fn spec_thumb_add_pc_target(pc: u32, instruction: u16, source_value: u32) -> Option<u32> {
    if instruction & 0xff87 != 0x4487 {
        None
    } else {
        let sum = (pc + 4 + source_value) % 0x1_0000_0000;
        Some((sum - sum % 2) as u32)
    }
}

/// Branch target of a Thumb `ADD PC, Rm` instruction.
pub fn thumb_add_pc_target(pc: u32, instruction: u16, source_value: u32) -> (res: Option<u32>)
    ensures
        res == spec_thumb_add_pc_target(pc, instruction, source_value),
{
    if instruction & 0xff87 != 0x4487 {
        return None;
    }
    let sum = ((pc as u64 + 4 + source_value as u64) % 0x1_0000_0000) as u32;
    Some(sum - sum % 2)
}

/// ASCII uppercase of one UTF-16 code unit.
pub fn ascii_uppercase(value: u16) -> (res: u16)
    ensures
        res == if 0x61 <= value <= 0x7a {
            (value - 0x20) as u16
        } else {
            value
        },
{
    if 0x61 <= value && value <= 0x7a {
        value - 0x20
    } else {
        value
    }
}

/// The image inside a packaged image resource (see `image_payload`).
pub open spec fn spec_image_payload(resource: Seq<u8>) -> Seq<u8> {
    if resource.len() >= 17 && resource[0] == 3 && (spec_image_format_known(
        resource.subrange(9, resource.len() as int),
    ) || resource.subrange(9, 17) == spec_firmware_png_signature()) {
        resource.subrange(9, resource.len() as int)
    } else if resource.len() >= 1 && (resource[0] == 1 || resource[0] == 3) {
        resource.subrange(1, resource.len() as int)
    } else {
        resource
    }
}

/// The image inside a packaged image resource: a type-3 resource whose data
/// from byte 9 on is a known image format (or a firmware PNG) skips its
/// 9-byte stream header; other type-1 and type-3 resources skip their type
/// byte; anything else is the image itself.
pub fn image_payload(resource: &[u8]) -> (res: &[u8])
    ensures
        res@ == spec_image_payload(resource@),
{
    let n = resource.len();
    if n >= 17 && resource[0] == 3 {
        let rest = &resource[9..n];
        assert(rest@ =~= resource@.subrange(9, n as int));
        assert(rest@.subrange(0, 8) =~= resource@.subrange(9, 17));
        if crate::image_decoder::guess_format_ok(rest) || crate::image_decoder::has_firmware_png_signature(
            rest,
        ) {
            return rest;
        }
    }
    if n >= 1 && (resource[0] == 1 || resource[0] == 3) {
        assert(resource@.subrange(1, n as int) =~= resource@.subrange(1, resource@.len() as int));
        &resource[1..n]
    } else {
        resource
    }
}

/// Clip one axis of a blit: negative source or destination starts move
/// both starts forward and shrink the size; the size is then limited to
/// what remains of the source and destination.
pub open spec fn spec_clip_axis(source: int, size: int, destination: int, source_limit: int, destination_limit: int) -> (int, int, int) {
    let (s1, z1, d1) = if source < 0 {
        (0, size + source, destination - source)
    } else {
        (source, size, destination)
    };
    let (s2, z2, d2) = if d1 < 0 {
        (s1 - d1, z1 + d1, 0)
    } else {
        (s1, z1, d1)
    };
    let lim_s = spec_saturate_i32(source_limit - s2);
    let lim_d = spec_saturate_i32(destination_limit - d2);
    let z3 = if z2 <= lim_s {
        z2
    } else {
        lim_s
    };
    let z4 = if z3 <= lim_d {
        z3
    } else {
        lim_d
    };
    (s2, z4, d2)
}

/// A value clamped to the `i32` range.
pub open spec fn spec_saturate_i32(x: int) -> int {
    if x > i32::MAX {
        i32::MAX as int
    } else if x < i32::MIN {
        i32::MIN as int
    } else {
        x
    }
}

/// The intermediate values of `clip_axis` fit in `i32`.
pub open spec fn spec_clip_axis_fits(source: int, size: int, destination: int) -> bool {
    let (s1, z1, d1) = if source < 0 {
        (0, size + source, destination - source)
    } else {
        (source, size, destination)
    };
    &&& i32::MIN <= z1 <= i32::MAX
    &&& i32::MIN <= d1 <= i32::MAX
    &&& d1 < 0 ==> (s1 - d1 <= i32::MAX && i32::MIN <= z1 + d1)
}

/// `a - b`, clamped to the `i32` range.
fn saturating_sub_i32(a: i32, b: i32) -> (res: i32)
    ensures
        res as int == spec_saturate_i32(a - b),
{
    let d: i64 = a as i64 - b as i64;
    if d > i32::MAX as i64 {
        i32::MAX
    } else if d < i32::MIN as i64 {
        i32::MIN
    } else {
        d as i32
    }
}

/// Clip one axis of a blit in place.
pub fn clip_axis(
    source: &mut i32,
    size: &mut i32,
    destination: &mut i32,
    source_limit: i32,
    destination_limit: i32,
)
    requires
        spec_clip_axis_fits(*old(source) as int, *old(size) as int, *old(destination) as int),
    ensures
        (*final(source) as int, *final(size) as int, *final(destination) as int) == spec_clip_axis(
            *old(source) as int,
            *old(size) as int,
            *old(destination) as int,
            source_limit as int,
            destination_limit as int,
        ),
{
    if *source < 0 {
        *destination = *destination - *source;
        *size = *size + *source;
        *source = 0;
    }
    if *destination < 0 {
        *source = *source - *destination;
        *size = *size + *destination;
        *destination = 0;
    }
    let lim_s = saturating_sub_i32(source_limit, *source);
    let lim_d = saturating_sub_i32(destination_limit, *destination);
    let mut z = *size;
    if z > lim_s {
        z = lim_s;
    }
    if z > lim_d {
        z = lim_d;
    }
    *size = z;
}

/// Update the guest key bitmasks for one key event: a press marks the key
/// held and, when it was not held yet, records a down edge; a release
/// clears the held bit. Key codes of 31 and above are ignored.
pub fn update_key_bits(key_down: &mut u32, key_held: &mut u32, key: u8, pressed: bool)
    ensures
        key >= 31 ==> *final(key_down) == *old(key_down) && *final(key_held) == *old(key_held),
        key < 31 && pressed ==> *final(key_held) == (*old(key_held) | (1u32 << key)),
        key < 31 && pressed && (*old(key_held) & (1u32 << key)) == 0 ==> *final(key_down) == (
        *old(key_down) | (1u32 << key)),
        key < 31 && pressed && (*old(key_held) & (1u32 << key)) != 0 ==> *final(key_down) == *old(
        key_down),
        key < 31 && !pressed ==> *final(key_held) == (*old(key_held) & !(1u32 << key)),
        key < 31 && !pressed ==> *final(key_down) == *old(key_down),
{
    if key >= 31 {
        return;
    }
    let mask = 1u32 << key;
    if pressed {
        if *key_held & mask == 0 {
            *key_down = *key_down | mask;
        }
        *key_held = *key_held | mask;
    } else {
        *key_held = *key_held & !mask;
    }
}

/// Update the physically held key bitmask; returns whether the key's state
/// changed. Key codes of 31 and above are ignored.
pub fn update_physical_key_bits(key_held: &mut u32, key: u8, pressed: bool) -> (res: bool)
    ensures
        key >= 31 ==> *final(key_held) == *old(key_held) && !res,
        key < 31 ==> res == ((*old(key_held) & (1u32 << key) != 0) != pressed),
        key < 31 && pressed ==> *final(key_held) == *old(key_held) | (1u32 << key),
        key < 31 && !pressed ==> *final(key_held) == *old(key_held) & !(1u32 << key),
{
    if key >= 31 {
        return false;
    }
    let mask = 1u32 << key;
    let was_pressed = *key_held & mask != 0;
    if pressed {
        *key_held = *key_held | mask;
    } else {
        *key_held = *key_held & !mask;
    }
    was_pressed != pressed
}

/// Lifecycle state of the machine.
#[derive(Debug, Clone, Copy, PartialEq, Eq, Structural)]
pub enum MachineState {
    Created,
    Initializing,
    Ready,
    Halted,
    Faulted,
}

/// Guest touch/pointer state with press and release edges.
#[derive(Debug, Clone, Copy, PartialEq, Eq, Structural)]
pub struct PointerState {
    pub held: bool,
    pub down: bool,
    pub up: bool,
    pub x: i32,
    pub y: i32,
    pub press_x: i32,
    pub press_y: i32,
}

/// A value clamped to `lo..=hi`.
pub open spec fn spec_clamp(v: int, lo: int, hi: int) -> int {
    if v < lo {
        lo
    } else if v > hi {
        hi
    } else {
        v
    }
}

/// The pointer after a frontend update to (`x`, `y`) with the given
/// button state: coordinates are clamped to the screen, a press edge
/// records the press position, a release edge is flagged, and earlier
/// edges of the frame stay set.
pub open spec fn spec_pointer_set(p: PointerState, x: int, y: int, down: bool) -> PointerState {
    let cx = spec_clamp(x, 0, 239);
    let cy = spec_clamp(y, 0, 399);
    let pressed_now = down && !p.held;
    PointerState {
        held: down,
        down: p.down || pressed_now,
        up: p.up || (!down && p.held),
        x: cx as i32,
        y: cy as i32,
        press_x: if pressed_now {
            cx as i32
        } else {
            p.press_x
        },
        press_y: if pressed_now {
            cy as i32
        } else {
            p.press_y
        },
    }
}

impl PointerState {
    /// A released pointer at the origin.
    pub fn new() -> (res: Self)
        ensures
            res == (PointerState { held: false, down: false, up: false, x: 0, y: 0, press_x: 0, press_y: 0 }),
    {
        PointerState { held: false, down: false, up: false, x: 0, y: 0, press_x: 0, press_y: 0 }
    }

    /// Update the pointer from a frontend source; edges are derived here.
    pub fn set(&mut self, x: i32, y: i32, down: bool)
        ensures
            *final(self) == spec_pointer_set(*old(self), x as int, y as int, down),
    {
        self.x = if x < 0 {
            0
        } else if x > 239 {
            239
        } else {
            x
        };
        self.y = if y < 0 {
            0
        } else if y > 399 {
            399
        } else {
            y
        };
        if down && !self.held {
            self.down = true;
            self.press_x = self.x;
            self.press_y = self.y;
        }
        if !down && self.held {
            self.up = true;
        }
        self.held = down;
    }

    /// Clear per-frame edges after the guest frame consumed them.
    pub fn end_frame(&mut self)
        ensures
            *final(self) == (PointerState { down: false, up: false, ..*old(self) }),
    {
        self.down = false;
        self.up = false;
    }

    /// A held pointer that moved away from its press position.
    pub fn dragging(&self) -> (res: bool)
        ensures
            res == (self.held && (self.x != self.press_x || self.y != self.press_y)),
    {
        self.held && (self.x != self.press_x || self.y != self.press_y)
    }
}

} // verus!
