//! Guest string services: zero-terminated narrow (byte) and wide (UCS-2)
//! strings in guest memory, and the UCS-2 string service group.
//!
//! Guest addresses are computed with wrapping arithmetic, as 32-bit guest
//! pointers wrap.
use vstd::prelude::*;

use crate::machine::ascii_uppercase;
use crate::machine::memory::{spec_read, spec_write, MachineMemory, MemoryView};
use crate::text::{chars_of, encode_utf16, spec_utf16_encode};

verus! {

/// The address `offset` elements of `width` bytes past `base`, wrapping.
pub open spec fn spec_element(base: u32, offset: int, width: int) -> u32 {
    ((base + offset * width) % 0x1_0000_0000) as u32
}

pub(crate) fn element(base: u32, offset: u32, width: u32) -> (res: u32)
    requires
        width <= 2,
    ensures
        res == spec_element(base, offset as int, width as int),
{
    assert(offset as u64 * width as u64 <= 2 * 0xffff_ffff) by (nonlinear_arith)
        requires
            offset <= 0xffff_ffff,
            width <= 2,
    ;
    ((base as u64 + offset as u64 * width as u64) % 0x1_0000_0000) as u32
}

/// What `encoding_rs::GBK.decode` yields for the bytes.
pub uninterp spec fn spec_gbk_decode(bytes: Seq<u8>) -> Seq<char>;

/// What `encoding_rs::GBK.encode` yields for the text.
pub uninterp spec fn spec_gbk_encode(text: Seq<char>) -> Seq<u8>;

/// Encode text as GBK with `encoding_rs::GBK.encode`, which writes
/// characters that GBK cannot represent as decimal numeric character
/// references. The result is named by `spec_gbk_encode`. The length bound
/// keeps the encoder's buffer size computation far from overflow.
#[verifier::external_body]
pub fn gbk_encode(text: &str) -> (res: Vec<u8>)
    requires
        text@.len() <= 0x100_0000,
    ensures
        res@ == spec_gbk_encode(text@),
{
    encoding_rs::GBK.encode(text).0.into_owned()
}

/// Whether every byte is ASCII.
pub open spec fn spec_all_ascii(bytes: Seq<u8>) -> bool {
    forall|i: int| 0 <= i < bytes.len() ==> #[trigger] bytes[i] < 0x80
}

/// Decode GBK text with `encoding_rs::GBK.decode`, which also honours a
/// leading UTF-8 or UTF-16 byte-order mark and replaces malformed
/// sequences. The result is named by `spec_gbk_decode`; ASCII-only input,
/// which GBK leaves as it is and which cannot start with a byte-order mark,
/// gives one character per byte. The length bound keeps the decoder's
/// buffer size computation far from overflow.
#[verifier::external_body]
pub fn gbk_decode(bytes: &[u8]) -> (res: String)
    requires
        bytes@.len() <= 0x1_0000,
    ensures
        res@ == spec_gbk_decode(bytes@),
        spec_all_ascii(bytes@) ==> res@ == bytes@.map_values(|b: u8| b as char),
{
    encoding_rs::GBK.decode(bytes).0.into_owned()
}

/// Read the zero-terminated byte string at `address`, at most `limit`
/// bytes, from the `offset`-th byte on, after the bytes `read` so far.
pub open spec fn spec_c_bytes_from(
    m: MemoryView,
    address: u32,
    limit: u32,
    offset: int,
    read: Seq<u8>,
) -> (Seq<u8>, MemoryView)
    decreases limit - offset,
{
    if offset >= limit {
        (read, m)
    } else {
        let (byte, m1) = spec_read(m, spec_element(address, offset, 1), 1);
        if byte == 0 {
            (read, m1)
        } else {
            spec_c_bytes_from(m1, address, limit, offset + 1, read.push(byte as u8))
        }
    }
}

/// The zero-terminated byte string at `address`, without its terminator,
/// read up to `limit` bytes.
pub open spec fn spec_c_bytes(m: MemoryView, address: u32, limit: u32) -> (Seq<u8>, MemoryView) {
    spec_c_bytes_from(m, address, limit, 0, Seq::empty())
}

/// Read a zero-terminated byte string of at most `limit` bytes.
pub fn read_c_bytes(memory: &mut MachineMemory, address: u32, limit: u32) -> (res: Vec<u8>)
    ensures
        (res@, final(memory)@) == spec_c_bytes(old(memory)@, address, limit),
        res@.len() <= limit,
{
    let mut bytes: Vec<u8> = Vec::new();
    let mut offset: u32 = 0;
    while offset < limit
        invariant
            offset <= limit,
            bytes@.len() == offset,
            spec_c_bytes_from(memory@, address, limit, offset as int, bytes@) == spec_c_bytes(
                old(memory)@,
                address,
                limit,
            ),
        decreases limit - offset,
    {
        let at = element(address, offset, 1);
        let byte = memory.r8(at);
        if byte == 0 {
            return bytes;
        }
        bytes.push(byte);
        offset = offset + 1;
    }
    bytes
}

/// The number of UCS-2 units before the first zero unit at `address`,
/// searching from unit `offset` and at most `limit` units.
pub open spec fn spec_ucs2_len_from(m: MemoryView, address: u32, limit: u32, offset: int) -> (
    u32,
    MemoryView,
)
    decreases limit - offset,
{
    if offset >= limit {
        (limit, m)
    } else {
        let (unit, m1) = spec_read(m, spec_element(address, offset, 2), 2);
        if unit == 0 {
            (offset as u32, m1)
        } else {
            spec_ucs2_len_from(m1, address, limit, offset + 1)
        }
    }
}

/// Length of the UCS-2 string at `address`, or `limit` when no terminator
/// comes within `limit` units.
pub fn ucs2_len(memory: &mut MachineMemory, address: u32, limit: u32) -> (res: u32)
    ensures
        (res, final(memory)@) == spec_ucs2_len_from(old(memory)@, address, limit, 0),
        res <= limit,
{
    let mut offset: u32 = 0;
    while offset < limit
        invariant
            offset <= limit,
            spec_ucs2_len_from(memory@, address, limit, offset as int) == spec_ucs2_len_from(
                old(memory)@,
                address,
                limit,
                0,
            ),
        decreases limit - offset,
    {
        let unit = memory.r16(element(address, offset, 2));
        if unit == 0 {
            return offset;
        }
        offset = offset + 1;
    }
    limit
}

/// Zero the elements of `width` bytes at `destination` from index `from`
/// up to `count`.
pub open spec fn spec_zero_from(m: MemoryView, destination: u32, width: int, from: int, count: u32) -> MemoryView
    decreases count - from,
{
    if from >= count {
        m
    } else {
        spec_zero_from(
            spec_write(m, spec_element(destination, from, width), 0, width),
            destination,
            width,
            from + 1,
            count,
        )
    }
}

fn zero_from(memory: &mut MachineMemory, destination: u32, width: u32, from: u32, count: u32)
    requires
        1 <= width <= 2,
    ensures
        final(memory)@ == spec_zero_from(old(memory)@, destination, width as int, from as int, count),
{
    let mut k = from;
    while k < count
        invariant
            1 <= width <= 2,
            from <= k,
            spec_zero_from(memory@, destination, width as int, k as int, count) == spec_zero_from(
                old(memory)@,
                destination,
                width as int,
                from as int,
                count,
            ),
        decreases count - k,
    {
        memory.write(element(destination, k, width), 0, width as usize);
        k = k + 1;
    }
}

/// Copy at most `count` elements, each read with `source_width` bytes and
/// written with `destination_width` bytes, from unit `offset` on; after the
/// first zero element, when `stop_at_zero`, the rest up to `count` is
/// zeroed instead.
pub open spec fn spec_copy_from(
    m: MemoryView,
    destination: u32,
    destination_width: int,
    source: u32,
    source_width: int,
    count: u32,
    stop_at_zero: bool,
    offset: int,
) -> MemoryView
    decreases count - offset,
{
    if offset >= count {
        m
    } else {
        let (value, m1) = spec_read(m, spec_element(source, offset, source_width), source_width);
        let m2 = spec_write(m1, spec_element(destination, offset, destination_width), value, destination_width);
        if stop_at_zero && value == 0 {
            spec_zero_from(m2, destination, destination_width, offset + 1, count)
        } else {
            spec_copy_from(
                m2,
                destination,
                destination_width,
                source,
                source_width,
                count,
                stop_at_zero,
                offset + 1,
            )
        }
    }
}

/// Copy up to `count` elements; see `spec_copy_from`.
pub(crate) fn copy_elements(
    memory: &mut MachineMemory,
    destination: u32,
    destination_width: u32,
    source: u32,
    source_width: u32,
    count: u32,
    stop_at_zero: bool,
)
    requires
        1 <= destination_width <= 2,
        1 <= source_width <= 2,
    ensures
        final(memory)@ == spec_copy_from(
            old(memory)@,
            destination,
            destination_width as int,
            source,
            source_width as int,
            count,
            stop_at_zero,
            0,
        ),
{
    let ghost target = spec_copy_from(
        memory@,
        destination,
        destination_width as int,
        source,
        source_width as int,
        count,
        stop_at_zero,
        0,
    );
    let mut offset: u32 = 0;
    while offset < count
        invariant
            1 <= destination_width <= 2,
            1 <= source_width <= 2,
            offset <= count,
            target == spec_copy_from(
                old(memory)@,
                destination,
                destination_width as int,
                source,
                source_width as int,
                count,
                stop_at_zero,
                0,
            ),
            spec_copy_from(
                memory@,
                destination,
                destination_width as int,
                source,
                source_width as int,
                count,
                stop_at_zero,
                offset as int,
            ) == target,
        decreases count - offset,
    {
        let ghost before = memory@;
        let value = memory.read(element(source, offset, source_width), source_width as usize);
        memory.write(element(destination, offset, destination_width), value, destination_width as usize);
        assert(spec_copy_from(
            before,
            destination,
            destination_width as int,
            source,
            source_width as int,
            count,
            stop_at_zero,
            offset as int,
        ) == if stop_at_zero && value == 0 {
            spec_zero_from(memory@, destination, destination_width as int, offset + 1, count)
        } else {
            spec_copy_from(
                memory@,
                destination,
                destination_width as int,
                source,
                source_width as int,
                count,
                stop_at_zero,
                offset + 1,
            )
        });
        if stop_at_zero && value == 0 {
            zero_from(memory, destination, destination_width, offset + 1, count);
            return ;
        }
        offset = offset + 1;
    }
}

pub(crate) fn element_at(base: u32, offset: usize, width: u32) -> (res: u32)
    requires
        width <= 2,
    ensures
        res == spec_element(base, offset as int, width as int),
{
    assert(offset as u128 * width as u128 <= 2 * 0xffff_ffff_ffff_ffff) by (nonlinear_arith)
        requires
            offset <= 0xffff_ffff_ffff_ffff,
            width <= 2,
    ;
    ((base as u128 + offset as u128 * width as u128) % 0x1_0000_0000) as u32
}

/// Write `units` as consecutive halfwords at `destination`, wrapping.
pub open spec fn spec_write_units(m: MemoryView, destination: u32, units: Seq<u16>, from: int) -> MemoryView
    decreases units.len() - from,
{
    if from < 0 || from >= units.len() {
        m
    } else {
        spec_write_units(
            spec_write(m, spec_element(destination, from, 2), units[from] as u32, 2),
            destination,
            units,
            from + 1,
        )
    }
}

/// Where `character` first occurs in the UCS-2 string at `source`,
/// searching from unit `offset` and at most 0x8000 units; 0 when the
/// terminator or the limit comes first.
pub open spec fn spec_ucs2_find_from(m: MemoryView, source: u32, character: u16, offset: int) -> (
    u32,
    MemoryView,
)
    decreases 0x8000 - offset,
{
    if offset >= 0x8000 {
        (0, m)
    } else {
        let (unit, m1) = spec_read(m, spec_element(source, offset, 2), 2);
        if unit == character {
            (spec_element(source, offset, 2), m1)
        } else if unit == 0 {
            (0, m1)
        } else {
            spec_ucs2_find_from(m1, source, character, offset + 1)
        }
    }
}

/// ASCII letters upper-cased, other units unchanged.
pub open spec fn spec_upper(unit: u32, fold_case: bool) -> u32 {
    if fold_case && 0x61 <= unit <= 0x7a {
        (unit - 0x20) as u32
    } else {
        unit
    }
}

/// Compare the UCS-2 strings at `left` and `right` from unit `offset` on,
/// up to `limit` units: the difference of the first differing units, or
/// of the units where either string ends; 0 when they agree up to the
/// limit.
pub open spec fn spec_ucs2_compare_from(
    m: MemoryView,
    left: u32,
    right: u32,
    limit: u32,
    fold_case: bool,
    offset: int,
) -> (i32, MemoryView)
    decreases limit - offset,
{
    if offset >= limit {
        (0, m)
    } else {
        let (a, m1) = spec_read(m, spec_element(left, offset, 2), 2);
        let (b, m2) = spec_read(m1, spec_element(right, offset, 2), 2);
        let ua = spec_upper(a, fold_case);
        let ub = spec_upper(b, fold_case);
        if ua != ub || ua == 0 || ub == 0 {
            ((ua - ub) as i32, m2)
        } else {
            spec_ucs2_compare_from(m2, left, right, limit, fold_case, offset + 1)
        }
    }
}

/// Unit `k` of the UCS-2 string at `address`, upper-cased when folding.
pub open spec fn spec_ucs2_unit(m: MemoryView, address: u32, k: int, fold_case: bool) -> u32 {
    spec_upper(spec_read(m, spec_element(address, k, 2), 2).0, fold_case)
}

/// Whether the strings at `left` and `right` agree, without a terminator,
/// on units `from` to `k` (exclusive), and part at unit `k`: the units
/// there differ or one of them ends a string.
pub open spec fn spec_ucs2_first_stop(m: MemoryView, left: u32, right: u32, fold_case: bool, from: int, k: int) -> bool {
    &&& forall|j: int|
        from <= j < k ==> spec_ucs2_unit(m, left, j, fold_case) == #[trigger] spec_ucs2_unit(m, right, j, fold_case)
            && spec_ucs2_unit(m, left, j, fold_case) != 0
    &&& (spec_ucs2_unit(m, left, k, fold_case) != spec_ucs2_unit(m, right, k, fold_case) || spec_ucs2_unit(
        m,
        left,
        k,
        fold_case,
    ) == 0 || spec_ucs2_unit(m, right, k, fold_case) == 0)
}

/// A comparison that reaches the first unit where the strings part answers
/// the difference of those units; reads only add to the recorded bad
/// addresses, so units read the same throughout.
proof fn lemma_compare_reaches_stop(
    m0: MemoryView,
    m: MemoryView,
    left: u32,
    right: u32,
    limit: u32,
    fold_case: bool,
    offset: int,
    k: int,
)
    requires
        m.regions == m0.regions,
        m.big_endian == m0.big_endian,
        0 <= offset <= k < limit,
        spec_ucs2_first_stop(m0, left, right, fold_case, offset, k),
    ensures
        spec_ucs2_compare_from(m, left, right, limit, fold_case, offset).0 == (spec_ucs2_unit(
            m0,
            left,
            k,
            fold_case,
        ) - spec_ucs2_unit(m0, right, k, fold_case)) as i32,
    decreases k - offset,
{
    let (a, m1) = spec_read(m, spec_element(left, offset, 2), 2);
    let (b, m2) = spec_read(m1, spec_element(right, offset, 2), 2);
    assert(spec_upper(a, fold_case) == spec_ucs2_unit(m0, left, offset, fold_case));
    assert(spec_upper(b, fold_case) == spec_ucs2_unit(m0, right, offset, fold_case));
    if offset < k {
        assert(spec_ucs2_unit(m0, left, offset, fold_case) == spec_ucs2_unit(m0, right, offset, fold_case));
        lemma_compare_reaches_stop(m0, m2, left, right, limit, fold_case, offset + 1, k);
    }
}

/// The bounded comparison (method 10, bound `n` below 0x8000 units) answers
/// what the unbounded one (method 8) answers, the difference of the first
/// units where the strings part, whenever they part within the first `n`
/// units; both compare units, not bytes.
pub proof fn lemma_bounded_compare_agrees(m: MemoryView, left: u32, right: u32, n: u32, k: int, r2: u32)
    requires
        n < 0x8000,
        0 <= k < n,
        spec_ucs2_first_stop(m, left, right, false, 0, k),
    ensures
        spec_ucs2_service(m, 10, left, right, n).0 == spec_ucs2_service(m, 8, left, right, r2).0,
        spec_ucs2_service(m, 8, left, right, r2).0 == ((spec_ucs2_unit(m, left, k, false) - spec_ucs2_unit(
            m,
            right,
            k,
            false,
        )) as i32) as u32,
{
    lemma_compare_reaches_stop(m, m, left, right, n, false, 0, k);
    lemma_compare_reaches_stop(m, m, left, right, 0x8000, false, 0, k);
}

/// The UCS-2 string services (group 13), by index, with arguments `r0` to
/// `r2`: length, copy, append, GBK conversion, bounded copy, widening of
/// byte strings (stopping at the terminator or not), character search,
/// and comparison (plain, ignoring ASCII case, bounded).
pub open spec fn spec_ucs2_service(m: MemoryView, index: u32, r0: u32, r1: u32, r2: u32) -> (
    u32,
    MemoryView,
) {
    if index == 0 {
        spec_ucs2_len_from(m, r0, 0x8000, 0)
    } else if index == 1 {
        let (length, m1) = spec_ucs2_len_from(m, r1, 0x8000, 0);
        (r0, spec_copy_from(m1, r0, 2, r1, 2, (length + 1) as u32, true, 0))
    } else if index == 2 {
        let (destination_length, m1) = spec_ucs2_len_from(m, r0, 512, 0);
        let (source_length, m2) = spec_ucs2_len_from(m1, r1, 0x8000, 0);
        (
            r0,
            spec_copy_from(
                m2,
                spec_element(r0, destination_length as int, 2),
                2,
                r1,
                2,
                (source_length + 1) as u32,
                true,
                0,
            ),
        )
    } else if index == 3 {
        let (bytes, m1) = spec_c_bytes(m, r1, 0x8000);
        let text = spec_gbk_decode(bytes);
        let units = spec_utf16_encode(text, text.len() as int);
        let m2 = spec_write_units(m1, r0, units, 0);
        (r0, spec_write(m2, spec_element(r0, units.len() as int, 2), 0, 2))
    } else if index == 4 {
        (r0, spec_copy_from(m, r0, 2, r1, 2, r2, true, 0))
    } else if index == 5 || index == 6 {
        (r0, spec_copy_from(m, r0, 2, r1, 1, r2, index == 5, 0))
    } else if index == 7 {
        spec_ucs2_find_from(m, r0, r1 as u16, 0)
    } else if 8 <= index <= 10 {
        let limit: u32 = if index == 10 && r2 < 0x8000 {
            r2
        } else {
            0x8000
        };
        let (result, m1) = spec_ucs2_compare_from(m, r0, r1, limit, index == 9, 0);
        (result as u32, m1)
    } else {
        (0, m)
    }
}

fn write_units(memory: &mut MachineMemory, destination: u32, units: &Vec<u16>)
    ensures
        final(memory)@ == spec_write_units(old(memory)@, destination, units@, 0),
{
    let mut i: usize = 0;
    while i < units.len()
        invariant
            i <= units@.len(),
            spec_write_units(memory@, destination, units@, i as int) == spec_write_units(
                old(memory)@,
                destination,
                units@,
                0,
            ),
        decreases units@.len() - i,
    {
        memory.w16(element_at(destination, i, 2), units[i]);
        i = i + 1;
    }
}

fn ucs2_find(memory: &mut MachineMemory, source: u32, character: u16) -> (res: u32)
    ensures
        (res, final(memory)@) == spec_ucs2_find_from(old(memory)@, source, character, 0),
{
    let mut offset: u32 = 0;
    while offset < 0x8000
        invariant
            offset <= 0x8000,
            spec_ucs2_find_from(memory@, source, character, offset as int) == spec_ucs2_find_from(
                old(memory)@,
                source,
                character,
                0,
            ),
        decreases 0x8000 - offset,
    {
        let address = element(source, offset, 2);
        let unit = memory.r16(address);
        if unit == character {
            return address;
        }
        if unit == 0 {
            return 0;
        }
        offset = offset + 1;
    }
    0
}

fn ucs2_compare(memory: &mut MachineMemory, left: u32, right: u32, limit: u32, fold_case: bool) -> (res: i32)
    ensures
        (res, final(memory)@) == spec_ucs2_compare_from(old(memory)@, left, right, limit, fold_case, 0),
{
    let mut offset: u32 = 0;
    while offset < limit
        invariant
            offset <= limit,
            spec_ucs2_compare_from(memory@, left, right, limit, fold_case, offset as int)
                == spec_ucs2_compare_from(old(memory)@, left, right, limit, fold_case, 0),
        decreases limit - offset,
    {
        let mut a = memory.r16(element(left, offset, 2));
        let mut b = memory.r16(element(right, offset, 2));
        if fold_case {
            a = ascii_uppercase(a);
            b = ascii_uppercase(b);
        }
        let result = a as i32 - b as i32;
        if result != 0 || a == 0 || b == 0 {
            return result;
        }
        offset = offset + 1;
    }
    0
}

/// Run UCS-2 string service `index` (group 13).
pub fn handle_ucs2_service(memory: &mut MachineMemory, index: u32, r0: u32, r1: u32, r2: u32) -> (res: u32)
    ensures
        (res, final(memory)@) == spec_ucs2_service(old(memory)@, index, r0, r1, r2),
{
    match index {
        0 => ucs2_len(memory, r0, 0x8000),
        1 => {
            let length = ucs2_len(memory, r1, 0x8000);
            copy_elements(memory, r0, 2, r1, 2, length + 1, true);
            r0
        },
        2 => {
            let destination_length = ucs2_len(memory, r0, 512);
            let source_length = ucs2_len(memory, r1, 0x8000);
            copy_elements(memory, element(r0, destination_length, 2), 2, r1, 2, source_length + 1, true);
            r0
        },
        3 => {
            let bytes = read_c_bytes(memory, r1, 0x8000);
            let text = gbk_decode(bytes.as_slice());
            let chars = chars_of(text.as_str());
            let units = encode_utf16(chars.as_slice());
            write_units(memory, r0, &units);
            memory.w16(element_at(r0, units.len(), 2), 0);
            r0
        },
        4 => {
            copy_elements(memory, r0, 2, r1, 2, r2, true);
            r0
        },
        5 | 6 => {
            copy_elements(memory, r0, 2, r1, 1, r2, index == 5);
            r0
        },
        7 => ucs2_find(memory, r0, r1 as u16),
        8 | 9 | 10 => {
            let limit = if index == 10 && r2 < 0x8000 {
                r2
            } else {
                0x8000
            };
            let result = ucs2_compare(memory, r0, r1, limit, index == 9);
            result as u32
        },
        _ => 0,
    }
}

} // verus!
