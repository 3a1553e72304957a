//! The C library services of the guest (group 6): memory copy and fill,
//! string length, copy, concatenation and comparison, `atoi`, and
//! `sprintf` with its argument list in registers and on the stack.
//!
//! Guest addresses are computed with wrapping arithmetic, as 32-bit guest
//! pointers wrap.
use vstd::prelude::*;
use vstd::arithmetic::div_mod::lemma_div_decreases;

use crate::machine::memory::{spec_read, spec_write, spec_write_bytes, MachineMemory, MemoryView};
use crate::machine::strings::{
    copy_elements,
    element,
    element_at,
    read_c_bytes,
    spec_c_bytes,
    spec_copy_from,
    spec_element,
};
use crate::text::{parse_i32, spec_parse_i32, spec_trim, spec_utf8_lossy, trim_chars, utf8_lossy, chars_of};

verus! {

/// The first argument registers and the stack pointer at a service call.
#[derive(Debug, Clone, Copy, PartialEq, Eq, Structural)]
pub struct ServiceRegisters {
    pub r0: u32,
    pub r1: u32,
    pub r2: u32,
    pub r3: u32,
    pub sp: u32,
}

/// `count` bytes read one by one from `source`, from the `offset`-th on.
pub open spec fn spec_read_span_from(m: MemoryView, source: u32, count: u32, offset: int, read: Seq<u8>) -> (
    Seq<u8>,
    MemoryView,
)
    decreases count - offset,
{
    if offset >= count {
        (read, m)
    } else {
        let (byte, m1) = spec_read(m, spec_element(source, offset, 1), 1);
        spec_read_span_from(m1, source, count, offset + 1, read.push(byte as u8))
    }
}

pub(crate) fn read_span(memory: &mut MachineMemory, source: u32, count: u32) -> (res: Vec<u8>)
    ensures
        (res@, final(memory)@) == spec_read_span_from(old(memory)@, source, count, 0, Seq::empty()),
{
    let mut bytes: Vec<u8> = Vec::new();
    let mut offset: u32 = 0;
    while offset < count
        invariant
            offset <= count,
            spec_read_span_from(memory@, source, count, offset as int, bytes@) == spec_read_span_from(
                old(memory)@,
                source,
                count,
                0,
                Seq::empty(),
            ),
        decreases count - offset,
    {
        let byte = memory.r8(element(source, offset, 1));
        bytes.push(byte);
        offset = offset + 1;
    }
    bytes
}

/// Write `value` to the `count` bytes at `destination`, from the
/// `offset`-th on.
pub open spec fn spec_fill_from(m: MemoryView, destination: u32, value: u8, count: u32, offset: int) -> MemoryView
    decreases count - offset,
{
    if offset >= count {
        m
    } else {
        spec_fill_from(
            spec_write(m, spec_element(destination, offset, 1), value as u32, 1),
            destination,
            value,
            count,
            offset + 1,
        )
    }
}

fn fill(memory: &mut MachineMemory, destination: u32, value: u8, count: u32)
    ensures
        final(memory)@ == spec_fill_from(old(memory)@, destination, value, count, 0),
{
    let mut offset: u32 = 0;
    while offset < count
        invariant
            offset <= count,
            spec_fill_from(memory@, destination, value, count, offset as int) == spec_fill_from(
                old(memory)@,
                destination,
                value,
                count,
                0,
            ),
        decreases count - offset,
    {
        memory.w8(element(destination, offset, 1), value);
        offset = offset + 1;
    }
}

/// Write each byte of `bytes` at `destination + i`, from the `from`-th on.
pub open spec fn spec_write_each_from(m: MemoryView, destination: u32, bytes: Seq<u8>, from: int) -> MemoryView
    decreases bytes.len() - from,
{
    if from < 0 || from >= bytes.len() {
        m
    } else {
        spec_write_each_from(
            spec_write(m, spec_element(destination, from, 1), bytes[from] as u32, 1),
            destination,
            bytes,
            from + 1,
        )
    }
}

fn write_each(memory: &mut MachineMemory, destination: u32, bytes: &Vec<u8>)
    ensures
        final(memory)@ == spec_write_each_from(old(memory)@, destination, bytes@, 0),
{
    let mut i: usize = 0;
    while i < bytes.len()
        invariant
            i <= bytes@.len(),
            spec_write_each_from(memory@, destination, bytes@, i as int) == spec_write_each_from(
                old(memory)@,
                destination,
                bytes@,
                0,
            ),
        decreases bytes@.len() - i,
    {
        memory.w8(element_at(destination, i, 1), bytes[i]);
        i = i + 1;
    }
}

/// A byte with ASCII letters lower-cased when `fold_case`.
pub open spec fn spec_lower(byte: u32, fold_case: bool) -> u32 {
    if fold_case && 0x41 <= byte <= 0x5a {
        (byte + 0x20) as u32
    } else {
        byte
    }
}

/// Compare the byte strings at `left` and `right` from the `offset`-th
/// byte on, up to `limit` bytes: the difference of the first differing
/// bytes; 0 when they agree up to the limit or, when `stop_at_nul`, up to
/// a terminator in either.
pub open spec fn spec_compare_from(
    m: MemoryView,
    left: u32,
    right: u32,
    limit: u32,
    stop_at_nul: bool,
    fold_case: bool,
    offset: int,
) -> (i32, MemoryView)
    decreases limit - offset,
{
    if offset >= limit {
        (0, m)
    } else {
        let (a, m1) = spec_read(m, spec_element(left, offset, 1), 1);
        let (b, m2) = spec_read(m1, spec_element(right, offset, 1), 1);
        let la = spec_lower(a, fold_case);
        let lb = spec_lower(b, fold_case);
        if la != lb {
            ((la - lb) as i32, m2)
        } else if stop_at_nul && (la == 0 || lb == 0) {
            (0, m2)
        } else {
            spec_compare_from(m2, left, right, limit, stop_at_nul, fold_case, offset + 1)
        }
    }
}

/// Compare two byte strings; see `spec_compare_from`.
pub fn compare_c_bytes(
    memory: &mut MachineMemory,
    left: u32,
    right: u32,
    limit: u32,
    stop_at_nul: bool,
    ignore_ascii_case: bool,
) -> (res: i32)
    ensures
        (res, final(memory)@) == spec_compare_from(
            old(memory)@,
            left,
            right,
            limit,
            stop_at_nul,
            ignore_ascii_case,
            0,
        ),
{
    let mut offset: u32 = 0;
    while offset < limit
        invariant
            offset <= limit,
            spec_compare_from(memory@, left, right, limit, stop_at_nul, ignore_ascii_case, offset as int)
                == spec_compare_from(old(memory)@, left, right, limit, stop_at_nul, ignore_ascii_case, 0),
        decreases limit - offset,
    {
        let mut a = memory.r8(element(left, offset, 1));
        let mut b = memory.r8(element(right, offset, 1));
        if ignore_ascii_case {
            if 0x41 <= a && a <= 0x5a {
                a = a + 0x20;
            }
            if 0x41 <= b && b <= 0x5a {
                b = b + 0x20;
            }
        }
        if a != b {
            return a as i32 - b as i32;
        }
        if stop_at_nul && (a == 0 || b == 0) {
            return 0;
        }
        offset = offset + 1;
    }
    0
}

/// The digits of `n` in `radix` (10 or 16), most significant first,
/// upper-case letters when `upper`.
pub open spec fn spec_digits(n: nat, radix: nat, upper: bool) -> Seq<u8>
    decreases n,
{
    if radix < 2 || n < radix {
        seq![spec_digit_char(n, upper)]
    } else {
        proof {
            lemma_div_decreases(n as int, radix as int);
        }
        spec_digits(n / radix, radix, upper).push(spec_digit_char(n % radix, upper))
    }
}

/// The ASCII character of a digit value below 16.
pub open spec fn spec_digit_char(d: nat, upper: bool) -> u8 {
    if d < 10 {
        (0x30 + d) as u8
    } else if upper {
        (0x41 + d - 10) as u8
    } else {
        (0x61 + d - 10) as u8
    }
}

fn digit_char(d: u32, upper: bool) -> (res: u8)
    requires
        d < 16,
    ensures
        res == spec_digit_char(d as nat, upper),
{
    if d < 10 {
        (0x30 + d) as u8
    } else if upper {
        (0x41 + d - 10) as u8
    } else {
        (0x61 + d - 10) as u8
    }
}

fn digits(n: u32, radix: u32, upper: bool) -> (res: Vec<u8>)
    requires
        radix == 10 || radix == 16,
    ensures
        res@ == spec_digits(n as nat, radix as nat, upper),
    decreases n,
{
    if n < radix {
        let mut v: Vec<u8> = Vec::new();
        v.push(digit_char(n, upper));
        assert(v@ =~= seq![spec_digit_char(n as nat, upper)]);
        v
    } else {
        let mut v = digits(n / radix, radix, upper);
        v.push(digit_char(n % radix, upper));
        v
    }
}

/// Where a `sprintf` argument is: in register `first_register + index`
/// while that is one of r0 to r3, then in consecutive stack words; the
/// value and the memory after reading it.
pub open spec fn spec_format_argument(
    m: MemoryView,
    registers: ServiceRegisters,
    first_register: u32,
    index: u32,
) -> (u32, MemoryView) {
    let location = first_register + index;
    if location == 0 {
        (registers.r0, m)
    } else if location == 1 {
        (registers.r1, m)
    } else if location == 2 {
        (registers.r2, m)
    } else if location == 3 {
        (registers.r3, m)
    } else {
        spec_read(m, registers.sp.wrapping_add(((location - 4) * 4) as u32), 4)
    }
}

/// A field width given by the decimal digits at `position`, at most
/// `u32::MAX`, and the position after them.
pub open spec fn spec_width_from(format: Seq<u8>, position: int, width: u32) -> (u32, int)
    decreases format.len() - position,
{
    if position < 0 || position >= format.len() || !(0x30 <= format[position] <= 0x39) {
        (width, position)
    } else {
        let next = width * 10 + (format[position] - 0x30);
        spec_width_from(
            format,
            position + 1,
            if next > u32::MAX {
                u32::MAX
            } else {
                next as u32
            },
        )
    }
}

/// Reading a width never moves backwards.
pub proof fn lemma_width_advances(format: Seq<u8>, position: int, width: u32)
    ensures
        spec_width_from(format, position, width).1 >= position,
    decreases format.len() - position,
{
    if !(position < 0 || position >= format.len() || !(0x30 <= format[position] <= 0x39)) {
        let next = width * 10 + (format[position] - 0x30);
        lemma_width_advances(
            format,
            position + 1,
            if next > u32::MAX {
                u32::MAX
            } else {
                next as u32
            },
        );
    }
}

/// Skipping length modifiers never moves backwards.
pub proof fn lemma_skip_advances(format: Seq<u8>, position: int)
    ensures
        spec_skip_modifiers(format, position) >= position,
    decreases format.len() - position,
{
    if 0 <= position < format.len() && (format[position] == 0x6c || format[position] == 0x68) {
        lemma_skip_advances(format, position + 1);
    }
}

/// The position after any `l` and `h` length modifiers at `position`.
pub open spec fn spec_skip_modifiers(format: Seq<u8>, position: int) -> int
    decreases format.len() - position,
{
    if 0 <= position < format.len() && (format[position] == 0x6c || format[position] == 0x68) {
        spec_skip_modifiers(format, position + 1)
    } else {
        position
    }
}

/// The text of one conversion of `argument`: `s` a string read from guest
/// memory (at most 4096 bytes), `c` a byte, `d` and `i` a signed decimal,
/// `u` an unsigned decimal, `x` and `X` hexadecimal; any other specifier
/// is copied with its `%`.
pub open spec fn spec_convert(m: MemoryView, specifier: u8, argument: u32) -> (Seq<u8>, MemoryView) {
    if specifier == 0x73 {
        spec_c_bytes(m, argument, 4096)
    } else if specifier == 0x63 {
        (seq![argument as u8], m)
    } else if specifier == 0x64 || specifier == 0x69 {
        if argument >= 0x8000_0000 {
            (seq![0x2du8] + spec_digits((0x1_0000_0000 - argument) as nat, 10, false), m)
        } else {
            (spec_digits(argument as nat, 10, false), m)
        }
    } else if specifier == 0x75 {
        (spec_digits(argument as nat, 10, false), m)
    } else if specifier == 0x78 {
        (spec_digits(argument as nat, 16, false), m)
    } else if specifier == 0x58 {
        (spec_digits(argument as nat, 16, true), m)
    } else {
        (seq![0x25u8, specifier], m)
    }
}

/// `sprintf` from `position` of the format on, with `index` arguments
/// taken and `output` written so far: plain bytes are copied, `%%` gives
/// `%`, and a conversion `%[0][width][l|h]*specifier` takes the next
/// argument and pads its text on the left to the width with zeros or
/// spaces. A conversion cut off by the end of the format ends the output.
pub open spec fn spec_format_from(
    m: MemoryView,
    format: Seq<u8>,
    registers: ServiceRegisters,
    first_register: u32,
    position: int,
    index: u32,
    output: Seq<u8>,
) -> (Seq<u8>, MemoryView)
    decreases format.len() - position,
{
    if position < 0 || position >= format.len() {
        (output, m)
    } else if format[position] != 0x25 {
        spec_format_from(m, format, registers, first_register, position + 1, index, output.push(format[position]))
    } else if position + 1 < format.len() && format[position + 1] == 0x25 {
        spec_format_from(m, format, registers, first_register, position + 2, index, output.push(0x25))
    } else {
        let zero_pad = position + 1 < format.len() && format[position + 1] == 0x30;
        let after_flag = if zero_pad {
            position + 2
        } else {
            position + 1
        };
        let (width, after_width) = spec_width_from(format, after_flag, 0);
        let at = spec_skip_modifiers(format, after_width);
        proof {
            lemma_width_advances(format, after_flag, 0);
            lemma_skip_advances(format, after_width);
        }
        if at >= format.len() {
            (output, m)
        } else {
            let (argument, m1) = spec_format_argument(m, registers, first_register, index);
            let (text, m2) = spec_convert(m1, format[at], argument);
            let padding = if text.len() < width {
                Seq::new((width - text.len()) as nat, |i: int| if zero_pad { 0x30u8 } else { 0x20u8 })
            } else {
                Seq::empty()
            };
            spec_format_from(
                m2,
                format,
                registers,
                first_register,
                at + 1,
                (index + 1) as u32,
                output + padding + text,
            )
        }
    }
}

fn format_argument(memory: &mut MachineMemory, registers: ServiceRegisters, first_register: u32, index: u32) -> (res: u32)
    requires
        first_register <= 3,
        index <= 0x1000,
    ensures
        (res, final(memory)@) == spec_format_argument(old(memory)@, registers, first_register, index),
{
    let location = first_register + index;
    if location == 0 {
        registers.r0
    } else if location == 1 {
        registers.r1
    } else if location == 2 {
        registers.r2
    } else if location == 3 {
        registers.r3
    } else {
        memory.r32(registers.sp.wrapping_add((location - 4) * 4))
    }
}

fn convert(memory: &mut MachineMemory, specifier: u8, argument: u32) -> (res: Vec<u8>)
    ensures
        (res@, final(memory)@) == spec_convert(old(memory)@, specifier, argument),
{
    if specifier == 0x73 {
        read_c_bytes(memory, argument, 4096)
    } else if specifier == 0x63 {
        let mut v: Vec<u8> = Vec::new();
        v.push(argument as u8);
        assert(v@ =~= seq![argument as u8]);
        v
    } else if specifier == 0x64 || specifier == 0x69 {
        if argument >= 0x8000_0000 {
            let magnitude = digits((0xffff_ffff - argument) + 1, 10, false);
            let mut v: Vec<u8> = Vec::new();
            v.push(0x2d);
            let mut i: usize = 0;
            while i < magnitude.len()
                invariant
                    i <= magnitude@.len(),
                    v@ == seq![0x2du8] + magnitude@.subrange(0, i as int),
                decreases magnitude@.len() - i,
            {
                v.push(magnitude[i]);
                assert(magnitude@.subrange(0, i + 1) =~= magnitude@.subrange(0, i as int).push(magnitude@[i as int]));
                i = i + 1;
            }
            assert(magnitude@.subrange(0, magnitude@.len() as int) =~= magnitude@);
            v
        } else {
            digits(argument, 10, false)
        }
    } else if specifier == 0x75 {
        digits(argument, 10, false)
    } else if specifier == 0x78 {
        digits(argument, 16, false)
    } else if specifier == 0x58 {
        digits(argument, 16, true)
    } else {
        let mut v: Vec<u8> = Vec::new();
        v.push(0x25);
        v.push(specifier);
        assert(v@ =~= seq![0x25u8, specifier]);
        v
    }
}

/// Expand a `sprintf` format whose arguments start at register
/// `first_register`.
#[verifier::rlimit(40)]
pub fn format_c_string_from(
    memory: &mut MachineMemory,
    format: &Vec<u8>,
    registers: ServiceRegisters,
    first_register: u32,
) -> (res: Vec<u8>)
    requires
        first_register <= 3,
        format@.len() <= 0x1000,
    ensures
        (res@, final(memory)@) == spec_format_from(
            old(memory)@,
            format@,
            registers,
            first_register,
            0,
            0,
            Seq::empty(),
        ),
{
    let ghost target = spec_format_from(
        memory@,
        format@,
        registers,
        first_register,
        0,
        0,
        Seq::empty(),
    );
    let length = format.len();
    let mut output: Vec<u8> = Vec::new();
    let mut position: usize = 0;
    let mut index: u32 = 0;
    while position < length
        invariant
            length == format@.len() <= 0x1000,
            first_register <= 3,
            position <= length,
            index <= position,
            target == spec_format_from(
                old(memory)@,
                format@,
                registers,
                first_register,
                0,
                0,
                Seq::empty(),
            ),
            spec_format_from(memory@, format@, registers, first_register, position as int, index, output@)
                == target,
        decreases length - position,
    {
        let ghost top = memory@;
        let ghost top_output = output@;
        let ghost start = position as int;
        if format[position] != 0x25 {
            output.push(format[position]);
            position = position + 1;
            continue ;
        }
        position = position + 1;
        if position < length && format[position] == 0x25 {
            output.push(0x25);
            position = position + 1;
            continue ;
        }
        let zero_pad = position < length && format[position] == 0x30;
        if zero_pad {
            position = position + 1;
        }
        let ghost after_flag = position as int;
        let mut width: u32 = 0;
        while position < length && 0x30 <= format[position] && format[position] <= 0x39
            invariant
                length == format@.len(),
                after_flag <= position <= length,
                spec_width_from(format@, position as int, width) == spec_width_from(
                    format@,
                    after_flag,
                    0,
                ),
            decreases length - position,
        {
            let next = width as u64 * 10 + (format[position] - 0x30) as u64;
            width = if next > 0xffff_ffff {
                0xffff_ffff
            } else {
                next as u32
            };
            position = position + 1;
        }
        let ghost after_width = position as int;
        assert(spec_width_from(format@, after_flag, 0) == (width, after_width));
        while position < length && (format[position] == 0x6c || format[position] == 0x68)
            invariant
                length == format@.len(),
                after_width <= position <= length,
                spec_skip_modifiers(format@, position as int) == spec_skip_modifiers(
                    format@,
                    after_width,
                ),
            decreases length - position,
        {
            position = position + 1;
        }
        assert(spec_skip_modifiers(format@, after_width) == position as int);
        if position >= length {
            assert(spec_format_from(top, format@, registers, first_register, start, index, top_output)
                == (top_output, top));
            return output;
        }
        let specifier = format[position];
        position = position + 1;
        let argument = format_argument(memory, registers, first_register, index);
        index = index + 1;
        let mut text = convert(memory, specifier, argument);
        let pad: u8 = if zero_pad {
            0x30
        } else {
            0x20
        };
        let ghost before_padding = output@;
        if (text.len() as u64) < (width as u64) {
            let count = width as usize - text.len();
            let mut k: usize = 0;
            while k < count
                invariant
                    k <= count,
                    output@ == before_padding + Seq::new(k as nat, |i: int| pad),
                decreases count - k,
            {
                output.push(pad);
                k = k + 1;
                assert(output@ =~= before_padding + Seq::new(k as nat, |i: int| pad));
            }
        }
        output.append(&mut text);
    }
    output
}

/// The C library services (group 6), by index, with the argument registers
/// and the instruction counter of the machine: the result and the memory
/// after the call. Index 13, a floating-point power, is left to the caller
/// (`None`).
pub open spec fn spec_stdio_service(
    m: MemoryView,
    index: u32,
    registers: ServiceRegisters,
    instruction_count: u64,
) -> (Option<u32>, MemoryView) {
    let r0 = registers.r0;
    let r1 = registers.r1;
    let r2 = registers.r2;
    if index == 0 || index == 11 {
        // memcpy: read the bytes one by one, then store them in one write.
        let (bytes, m1) = spec_read_span_from(m, r1, r2, 0, Seq::empty());
        (Some(r0), spec_write_bytes(m1, r0, bytes))
    } else if index == 1 {
        let (bytes, m1) = spec_c_bytes(m, r0, 0x1_0000);
        (Some(bytes.len() as u32), m1)
    } else if index == 2 {
        (Some(r0), spec_fill_from(m, r0, r1 as u8, r2, 0))
    } else if index == 3 {
        // sprintf into r0 with the format at r1, arguments from r2 on.
        let (format, m1) = spec_c_bytes(m, r1, 4096);
        let (output, m2) = spec_format_from(m1, format, registers, 2, 0, 0, Seq::empty());
        let m3 = spec_write_each_from(m2, r0, output, 0);
        (Some(r0), spec_write(m3, spec_element(r0, output.len() as int, 1), 0, 1))
    } else if index == 4 {
        (Some(0), m)
    } else if index == 5 {
        (Some(instruction_count as u32), m)
    } else if index == 7 {
        (Some(r0), spec_copy_from(m, r0, 1, r1, 1, r2, true, 0))
    } else if index == 8 || index == 9 {
        // strcpy and strcat.
        let (existing, m1) = if index == 9 {
            spec_c_bytes(m, r0, 0x1_0000)
        } else {
            (Seq::empty(), m)
        };
        let at = spec_element(r0, existing.len() as int, 1);
        let (bytes, m2) = spec_c_bytes(m1, r1, 0x1_0000);
        let m3 = spec_write_bytes(m2, at, bytes);
        (Some(r0), spec_write(m3, spec_element(at, bytes.len() as int, 1), 0, 1))
    } else if index == 10 || index == 12 {
        // atoi: the trimmed text as a decimal i32, else 0.
        let (bytes, m1) = spec_c_bytes(m, r0, 256);
        let value = match spec_parse_i32(spec_trim(spec_utf8_lossy(bytes))) {
            Some(v) => v as i32 as u32,
            None => 0,
        };
        (Some(value), m1)
    } else if index == 13 {
        (None, m)
    } else if 14 <= index <= 16 {
        let limit: u32 = if index == 14 {
            0x1_0000
        } else {
            r2
        };
        let (result, m1) = spec_compare_from(m, r0, r1, limit, index != 15, false, 0);
        (Some(result as u32), m1)
    } else if index == 20 || index == 21 {
        let limit: u32 = if index == 20 {
            0x1_0000
        } else {
            r2
        };
        let (result, m1) = spec_compare_from(m, r0, r1, limit, true, true, 0);
        (Some(result as u32), m1)
    } else {
        (Some(0), m)
    }
}

/// Run C library service `index` (group 6); `None` for the floating-point
/// power, which the caller computes.
pub fn handle_stdio_service(
    memory: &mut MachineMemory,
    index: u32,
    registers: ServiceRegisters,
    instruction_count: u64,
) -> (res: Option<u32>)
    ensures
        (res, final(memory)@) == spec_stdio_service(old(memory)@, index, registers, instruction_count),
{
    let r0 = registers.r0;
    let r1 = registers.r1;
    let r2 = registers.r2;
    match index {
        0 | 11 => {
            let bytes = read_span(memory, r1, r2);
            memory.write_bytes(r0, bytes.as_slice());
            Some(r0)
        },
        1 => {
            let bytes = read_c_bytes(memory, r0, 0x1_0000);
            Some(bytes.len() as u32)
        },
        2 => {
            fill(memory, r0, r1 as u8, r2);
            Some(r0)
        },
        3 => {
            let format = read_c_bytes(memory, r1, 4096);
            let output = format_c_string_from(memory, &format, registers, 2);
            write_each(memory, r0, &output);
            memory.w8(element_at(r0, output.len(), 1), 0);
            Some(r0)
        },
        4 => Some(0),
        5 => Some(instruction_count as u32),
        7 => {
            copy_elements(memory, r0, 1, r1, 1, r2, true);
            Some(r0)
        },
        8 | 9 => {
            let existing = if index == 9 {
                read_c_bytes(memory, r0, 0x1_0000)
            } else {
                Vec::new()
            };
            let at = element_at(r0, existing.len(), 1);
            let bytes = read_c_bytes(memory, r1, 0x1_0000);
            memory.write_bytes(at, bytes.as_slice());
            memory.w8(element_at(at, bytes.len(), 1), 0);
            Some(r0)
        },
        10 | 12 => {
            let bytes = read_c_bytes(memory, r0, 256);
            let text = utf8_lossy(bytes.as_slice());
            let chars = chars_of(text.as_str());
            let trimmed = trim_chars(chars.as_slice());
            match parse_i32(trimmed.as_slice()) {
                Some(v) => Some(v as u32),
                None => Some(0),
            }
        },
        13 => None,
        14 | 15 | 16 => {
            let limit: u32 = if index == 14 {
                0x1_0000
            } else {
                r2
            };
            let result = compare_c_bytes(memory, r0, r1, limit, index != 15, false);
            Some(result as u32)
        },
        20 | 21 => {
            let limit: u32 = if index == 20 {
                0x1_0000
            } else {
                r2
            };
            let result = compare_c_bytes(memory, r0, r1, limit, true, true);
            Some(result as u32)
        },
        _ => Some(0),
    }
}

} // verus!
