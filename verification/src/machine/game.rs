//! The game services: the game manager (group 3), the engine utilities
//! (group 10), the engine manager (group 11), the fixed-layout game object
//! and region methods, the native dispatcher, and the download, payment
//! and download-resource managers (groups 22 to 26).
//!
//! Guest addresses are computed with wrapping arithmetic.
use vstd::prelude::*;

use crate::machine::heap::{spec_allocate, spec_heap_wf, GuestHeap, HeapView, HEAP_BASE};
use crate::machine::images::{blit, decode_resource_stream, fill_screen_rect, spec_blit, spec_create_image, spec_decode_resource_stream, spec_fill_rect};
use crate::machine::memory::{spec_read, spec_write, spec_write_bytes, MachineMemory, MemoryView};
use crate::machine::nicai::{
    spec_uses_fixed_manager_abi,
    MachineView,
    NicaiMachine,
    DREAM_FACTORY_FORMAT_BUFFER,
    DREAM_FACTORY_MEMORY_BLOCK_SLOT,
    DREAM_FACTORY_PACKAGE_SLOT,
    HEAP_SIZE,
    SCREEN_IMAGE_STRUCT,
};
use crate::machine::resources::{
    initialize_data_package,
    sat_mul,
    spec_at_least,
    spec_initialize_data_package,
    spec_resource_by_id,
    spec_resource_by_name,
    spec_resource_id_by_name,
    spec_resource_name_by_id,
    spec_sat_mul,
};
use crate::machine::screens::{ScreenView, SCREEN_IS_IN_QUIT};
use crate::machine::services::{
    initialize_memory_block,
    read_length_prefixed_string,
    spec_initialize_memory_block,
    spec_read_length_prefixed_string,
    MEMORY_BLOCK_PTR,
};
use crate::machine::stdio::{format_c_string_from, spec_format_from, ServiceRegisters};
use crate::machine::strings::{read_c_bytes, spec_c_bytes};
use crate::machine::tables::{FIXED_GAMEOLD_OBJECT_SERVICE, FIXED_GAMEOLD_REGION_SERVICE, NATIVE_DISPATCH_SERVICE};
use crate::machine::{signed_coord, spec_signed_coord};
use crate::text::{chars_of, chars_equal, spec_utf8_lossy, utf8_lossy};

verus! {

/// Read a value of `size` bytes at `buffer + *cursor` and advance the
/// cursor word past it.
pub open spec fn spec_cursor_read(m: MemoryView, buffer: u32, cursor: u32, size: u32) -> (u32, MemoryView) {
    let (offset, m1) = spec_read(m, cursor, 4);
    let (value, m2) = spec_read(m1, buffer.wrapping_add(offset), size as int);
    (value, spec_write(m2, cursor, offset.wrapping_add(size), 4))
}

/// Read a value at a cursor.
fn cursor_read(memory: &mut MachineMemory, buffer: u32, cursor: u32, size: u32) -> (res: u32)
    requires
        size == 2 || size == 4,
    ensures
        (res, final(memory)@) == spec_cursor_read(old(memory)@, buffer, cursor, size),
{
    let offset = memory.r32(cursor);
    let value = memory.read(buffer.wrapping_add(offset), size as usize);
    memory.w32(cursor, offset.wrapping_add(size));
    value
}

/// Write the low `size` bytes of `value` at `buffer + *cursor` and advance
/// the cursor word past them; the result is the new cursor.
pub open spec fn spec_cursor_write(m: MemoryView, buffer: u32, cursor: u32, value: u32, size: u32) -> (u32, MemoryView) {
    let (offset, m1) = spec_read(m, cursor, 4);
    let stored = if size == 2 {
        (value as u16) as u32
    } else {
        value
    };
    let m2 = spec_write(m1, buffer.wrapping_add(offset), stored, size as int);
    (offset.wrapping_add(size), spec_write(m2, cursor, offset.wrapping_add(size), 4))
}

/// Write a value at a cursor.
fn cursor_write(memory: &mut MachineMemory, buffer: u32, cursor: u32, value: u32, size: u32) -> (res: u32)
    requires
        size == 2 || size == 4,
    ensures
        (res, final(memory)@) == spec_cursor_write(old(memory)@, buffer, cursor, value, size),
{
    let offset = memory.r32(cursor);
    if size == 2 {
        memory.w16(buffer.wrapping_add(offset), value as u16);
    } else {
        memory.w32(buffer.wrapping_add(offset), value);
    }
    memory.w32(cursor, offset.wrapping_add(size));
    offset.wrapping_add(size)
}

/// The first `count` method entries of an object, at `object + first`,
/// pointing to consecutive entry points from `service`.
pub open spec fn spec_method_table(m: MemoryView, object: u32, first: u32, service: u32, count: int) -> MemoryView
    decreases count,
{
    if count <= 0 {
        m
    } else {
        spec_write(
            spec_method_table(m, object, first, service, count - 1),
            object.wrapping_add((first + (count - 1) * 4) as u32),
            (service + (count - 1) * 4) as u32,
            4,
        )
    }
}

/// Write an object's method entries.
fn method_table(memory: &mut MachineMemory, object: u32, first: u32, service: u32, count: u32)
    requires
        first <= 0x100,
        count <= 16,
        service <= 0x0c00_ffff,
    ensures
        final(memory)@ == spec_method_table(old(memory)@, object, first, service, count as int),
{
    let mut method: u32 = 0;
    while method < count
        invariant
            method <= count <= 16,
            first <= 0x100,
            service <= 0x0c00_ffff,
            memory@ == spec_method_table(old(memory)@, object, first, service, method as int),
        decreases count - method,
    {
        memory.w32(object.wrapping_add(first + method * 4), service + method * 4);
        method = method + 1;
    }
}

/// A fixed-layout game object set up at `object` for `capacity` (its low
/// 16 bits) pictures: a scanline buffer of 240 pixels, resource id and
/// picture tables from the heap, an empty count and fifteen methods. The
/// result says whether all three blocks were allocated.
pub open spec fn spec_gameold_object(h: HeapView, m: MemoryView, object: u32, capacity_register: u32) -> (
    u32,
    HeapView,
    MemoryView,
) {
    let capacity = capacity_register % 0x1_0000;
    let (scanline, h1) = spec_allocate(h, 480);
    let (ids, h2) = spec_allocate(h1, spec_at_least(spec_sat_mul(capacity as u32, 2), 2));
    let (pictures, h3) = spec_allocate(h2, spec_at_least(spec_sat_mul(capacity as u32, 4), 4));
    let m1 = spec_write(m, object, scanline, 4);
    let m2 = spec_write(m1, object.wrapping_add(8), capacity as u32, 2);
    let m3 = spec_write(m2, object.wrapping_add(12), ids, 4);
    let m4 = spec_write(m3, object.wrapping_add(16), pictures, 4);
    let m5 = spec_write(m4, object.wrapping_add(20), 0, 2);
    let m6 = spec_method_table(m5, object, 0x18, FIXED_GAMEOLD_OBJECT_SERVICE, 15);
    (if scanline != 0 && ids != 0 && pictures != 0 {
        1
    } else {
        0
    }, h3, m6)
}

/// Set up a fixed-layout game object (see `spec_gameold_object`).
fn gameold_object(heap: &mut GuestHeap, memory: &mut MachineMemory, object: u32, capacity_register: u32) -> (res: u32)
    requires
        spec_heap_wf(old(heap)@),
    ensures
        spec_heap_wf(final(heap)@),
        (res, final(heap)@, final(memory)@) == spec_gameold_object(old(heap)@, old(memory)@, object, capacity_register),
{
    let capacity = capacity_register % 0x1_0000;
    let scanline = heap.allocate(480);
    let c2 = sat_mul(capacity, 2);
    let ids = heap.allocate(
        if c2 > 2 {
            c2
        } else {
            2
        },
    );
    let c4 = sat_mul(capacity, 4);
    let pictures = heap.allocate(
        if c4 > 4 {
            c4
        } else {
            4
        },
    );
    memory.w32(object, scanline);
    memory.w16(object.wrapping_add(8), capacity as u16);
    memory.w32(object.wrapping_add(12), ids);
    memory.w32(object.wrapping_add(16), pictures);
    memory.w16(object.wrapping_add(20), 0);
    method_table(memory, object, 0x18, FIXED_GAMEOLD_OBJECT_SERVICE, 15);
    if scanline != 0 && ids != 0 && pictures != 0 {
        1
    } else {
        0
    }
}

/// The first `count` region rectangles: each a fresh 8-byte heap block
/// whose address goes to the entry table.
pub open spec fn spec_region_rectangles(h: HeapView, m: MemoryView, entries: u32, count: int) -> (HeapView, MemoryView)
    decreases count,
{
    if count <= 0 {
        (h, m)
    } else {
        let (h1, m1) = spec_region_rectangles(h, m, entries, count - 1);
        let (rectangle, h2) = spec_allocate(h1, 8);
        (h2, spec_write(m1, entries.wrapping_add((((count - 1) * 4) % 0x1_0000_0000) as u32), rectangle, 4))
    }
}

/// A fixed-layout game region set up at `object` (r0) with two bounds (r1,
/// r2), two owners (r3 and the first stack word) and room for the number
/// of rectangles in the second stack word: an entry table with a fresh
/// rectangle per entry, eight methods, and the first rectangle holding the
/// two bounds. The result says whether the entry table was allocated.
pub open spec fn spec_gameold_region(h: HeapView, m: MemoryView, registers: ServiceRegisters) -> (u32, HeapView, MemoryView) {
    let object = registers.r0;
    let first_bounds = registers.r1;
    let second_bounds = registers.r2;
    let owner_a = registers.r3;
    let (owner_b, m1) = spec_read(m, registers.sp, 4);
    let (capacity, m2) = spec_read(m1, registers.sp.wrapping_add(4), 4);
    let (entries, h1) = spec_allocate(h, spec_at_least(spec_sat_mul(capacity, 4), 4));
    let (h2, m3) = spec_region_rectangles(h1, m2, entries, capacity as int);
    let m4 = spec_write(m3, object.wrapping_add(4), 0, 4);
    let m5 = spec_write(m4, object.wrapping_add(8), capacity, 4);
    let m6 = spec_write(m5, object.wrapping_add(12), entries, 4);
    let m7 = spec_write(m6, object.wrapping_add(16), owner_a, 4);
    let m8 = spec_write(m7, object.wrapping_add(20), owner_b, 4);
    let m9 = spec_write(m8, object.wrapping_add(24), first_bounds, 4);
    let m10 = spec_write(m9, object.wrapping_add(28), second_bounds, 4);
    let m11 = spec_write(m10, object.wrapping_add(32), 0, 4);
    let m12 = spec_write(m11, object.wrapping_add(36), 0, 4);
    let m13 = spec_method_table(m12, object, 0x28, FIXED_GAMEOLD_REGION_SERVICE, 8);
    let m14 = if capacity != 0 {
        let (first, n1) = spec_read(m13, entries, 4);
        let n2 = spec_write(n1, first, first_bounds, 4);
        let n3 = spec_write(n2, first.wrapping_add(4), second_bounds, 4);
        spec_write(n3, object.wrapping_add(4), 1, 4)
    } else {
        m13
    };
    (if entries != 0 {
        1
    } else {
        0
    }, h2, m14)
}

/// Set up a fixed-layout game region (see `spec_gameold_region`).
fn gameold_region(heap: &mut GuestHeap, memory: &mut MachineMemory, registers: ServiceRegisters) -> (res: u32)
    requires
        spec_heap_wf(old(heap)@),
    ensures
        spec_heap_wf(final(heap)@),
        (res, final(heap)@, final(memory)@) == spec_gameold_region(old(heap)@, old(memory)@, registers),
{
    let object = registers.r0;
    let first_bounds = registers.r1;
    let second_bounds = registers.r2;
    let owner_a = registers.r3;
    let owner_b = memory.r32(registers.sp);
    let capacity = memory.r32(registers.sp.wrapping_add(4));
    let c4 = sat_mul(capacity, 4);
    let entries = heap.allocate(
        if c4 > 4 {
            c4
        } else {
            4
        },
    );
    let ghost h1 = heap@;
    let ghost m2 = memory@;
    let mut index: u32 = 0;
    while index < capacity
        invariant
            index <= capacity,
            spec_heap_wf(heap@),
            (heap@, memory@) == spec_region_rectangles(h1, m2, entries, index as int),
        decreases capacity - index,
    {
        let rectangle = heap.allocate(8);
        memory.w32(entries.wrapping_add(((index as u64 * 4) % 0x1_0000_0000) as u32), rectangle);
        index = index + 1;
    }
    memory.w32(object.wrapping_add(4), 0);
    memory.w32(object.wrapping_add(8), capacity);
    memory.w32(object.wrapping_add(12), entries);
    memory.w32(object.wrapping_add(16), owner_a);
    memory.w32(object.wrapping_add(20), owner_b);
    memory.w32(object.wrapping_add(24), first_bounds);
    memory.w32(object.wrapping_add(28), second_bounds);
    memory.w32(object.wrapping_add(32), 0);
    memory.w32(object.wrapping_add(36), 0);
    method_table(memory, object, 0x28, FIXED_GAMEOLD_REGION_SERVICE, 8);
    if capacity != 0 {
        let first = memory.r32(entries);
        memory.w32(first, first_bounds);
        memory.w32(first.wrapping_add(4), second_bounds);
        memory.w32(object.wrapping_add(4), 1);
    }
    if entries != 0 {
        1
    } else {
        0
    }
}

/// The fixed-layout game object methods: method 4 fills a rectangle of the
/// screen (position in r1, r2, width in r3, height and color on the
/// stack); every method answers 0.
pub open spec fn spec_gameold_object_service(m: MemoryView, index: u32, registers: ServiceRegisters) -> MemoryView {
    if index == 4 {
        let (height, m1) = spec_read(m, registers.sp, 4);
        let (color, m2) = spec_read(m1, registers.sp.wrapping_add(4), 4);
        let x = spec_signed_coord(registers.r1);
        let y = spec_signed_coord(registers.r2);
        let w = spec_signed_coord(registers.r3);
        let h = spec_signed_coord(height);
        if w <= 0 || h <= 0 {
            m2
        } else {
            spec_fill_rect(m2, x, y, w, color as u16, w * h)
        }
    } else {
        m
    }
}

/// Run a fixed-layout game object method.
pub fn handle_gameold_object_service(memory: &mut MachineMemory, index: u32, registers: ServiceRegisters) -> (res: u32)
    ensures
        res == 0,
        final(memory)@ == spec_gameold_object_service(old(memory)@, index, registers),
{
    if index == 4 {
        let height = memory.r32(registers.sp);
        let color = memory.r32(registers.sp.wrapping_add(4)) as u16;
        fill_screen_rect(
            memory,
            signed_coord(registers.r1),
            signed_coord(registers.r2),
            signed_coord(registers.r3),
            signed_coord(height),
            color,
        );
    }
    0
}

/// The fixed-layout game region methods on the region in r0: set bound 0 or
/// 1 (r2) to r1 (0, result the region), clear the rectangles (4), add a
/// copy of the rectangle at r2 while there is room (5); others answer 0.
pub open spec fn spec_gameold_region_service(m: MemoryView, index: u32, registers: ServiceRegisters) -> (u32, MemoryView) {
    let object = registers.r0;
    if index == 0 {
        let slot = registers.r2;
        if slot <= 1 {
            (object, spec_write(m, object.wrapping_add((0x20 + slot * 4) as u32), registers.r1, 4))
        } else {
            (object, m)
        }
    } else if index == 4 {
        (0, spec_write(m, object.wrapping_add(4), 0, 4))
    } else if index == 5 {
        let rectangle = registers.r2;
        let (used, m1) = spec_read(m, object.wrapping_add(4), 4);
        let (capacity, m2) = spec_read(m1, object.wrapping_add(8), 4);
        let (entries, m3) = spec_read(m2, object.wrapping_add(12), 4);
        if rectangle != 0 && entries != 0 && used < capacity {
            let (entry, m4) = spec_read(m3, entries.wrapping_add(((used * 4) % 0x1_0000_0000) as u32), 4);
            if entry != 0 {
                let m5 = spec_copy_halfwords(m4, rectangle, entry, 4);
                (0, spec_write(m5, object.wrapping_add(4), (used + 1) as u32, 4))
            } else {
                (0, m4)
            }
        } else {
            (0, m3)
        }
    } else {
        (0, m)
    }
}

/// The first `count` halfwords copied from `from` to `to`.
pub open spec fn spec_copy_halfwords(m: MemoryView, from: u32, to: u32, count: int) -> MemoryView
    decreases count,
{
    if count <= 0 {
        m
    } else {
        let m1 = spec_copy_halfwords(m, from, to, count - 1);
        let offset = ((count - 1) * 2) as u32;
        let (value, m2) = spec_read(m1, from.wrapping_add(offset), 2);
        spec_write(m2, to.wrapping_add(offset), value, 2)
    }
}

/// Run a fixed-layout game region method.
pub fn handle_gameold_region_service(memory: &mut MachineMemory, index: u32, registers: ServiceRegisters) -> (res: u32)
    ensures
        (res, final(memory)@) == spec_gameold_region_service(old(memory)@, index, registers),
{
    let object = registers.r0;
    match index {
        0 => {
            let slot = registers.r2;
            if slot <= 1 {
                memory.w32(object.wrapping_add(0x20 + slot * 4), registers.r1);
            }
            object
        },
        4 => {
            memory.w32(object.wrapping_add(4), 0);
            0
        },
        5 => {
            let rectangle = registers.r2;
            let used = memory.r32(object.wrapping_add(4));
            let capacity = memory.r32(object.wrapping_add(8));
            let entries = memory.r32(object.wrapping_add(12));
            if rectangle != 0 && entries != 0 && used < capacity {
                let entry = memory.r32(entries.wrapping_add(((used as u64 * 4) % 0x1_0000_0000) as u32));
                if entry != 0 {
                    let mut k: u32 = 0;
                    while k < 4
                        invariant
                            k <= 4,
                            memory@ == spec_copy_halfwords(
                                spec_read(spec_read(spec_read(spec_read(old(memory)@, object.wrapping_add(4), 4).1, object.wrapping_add(8), 4).1, object.wrapping_add(12), 4).1, entries.wrapping_add(((used * 4) % 0x1_0000_0000) as u32), 4).1,
                                rectangle,
                                entry,
                                k as int,
                            ),
                        decreases 4 - k,
                    {
                        let value = memory.r16(rectangle.wrapping_add(k * 2));
                        memory.w16(entry.wrapping_add(k * 2), value);
                        k = k + 1;
                    }
                    memory.w32(object.wrapping_add(4), used + 1);
                }
            }
            0
        },
        _ => 0,
    }
}

/// Memory after writing each (offset, value) pair at `base + offset`, the
/// first `count` pairs in order.
pub open spec fn spec_write_pairs(m: MemoryView, base: u32, pairs: Seq<(u32, u32)>, count: int) -> MemoryView
    decreases count,
{
    if count <= 0 {
        m
    } else {
        let (offset, value) = pairs[count - 1];
        spec_write(spec_write_pairs(m, base, pairs, count - 1), base.wrapping_add(offset), value, 4)
    }
}

/// Write (offset, value) pairs.
fn write_pairs(memory: &mut MachineMemory, base: u32, pairs: &[(u32, u32)])
    ensures
        final(memory)@ == spec_write_pairs(old(memory)@, base, pairs@, pairs@.len() as int),
{
    let mut k: usize = 0;
    while k < pairs.len()
        invariant
            k <= pairs@.len(),
            memory@ == spec_write_pairs(old(memory)@, base, pairs@, k as int),
        decreases pairs@.len() - k,
    {
        let (offset, value) = pairs[k];
        memory.w32(base.wrapping_add(offset), value);
        k = k + 1;
    }
}

/// The entry point of service `index` of `group`.
pub open spec fn spec_entry(group: int, index: int) -> u32 {
    (crate::machine::services::SERVICE_BASE + crate::machine::tables::TABLE_STRIDE * group + index * 4) as u32
}

/// The native system-information block: entry points of the timer, file,
/// string and time services and of the native dispatcher, at their offsets.
pub open spec fn spec_system_info_pairs() -> Seq<(u32, u32)> {
    seq![
        (0x9cu32, spec_entry(2, 13)),
        (0xa0u32, spec_entry(2, 14)),
        (0x24u32, spec_entry(4, 9)),
        (0x58u32, spec_entry(4, 19)),
        (0x70u32, spec_entry(4, 5)),
        (0x74u32, spec_entry(4, 5)),
        (0x78u32, spec_entry(4, 6)),
        (0x20cu32, spec_entry(6, 0)),
        (0x210u32, spec_entry(6, 1)),
        (0x214u32, spec_entry(6, 2)),
        (0x22cu32, spec_entry(6, 8)),
        (0xa4u32, (crate::machine::tables::NATIVE_SYSTEM_TIME_SERVICE + 2 * 4) as u32),
        (0xa8u32, (crate::machine::tables::NATIVE_SYSTEM_TIME_SERVICE + 1 * 4) as u32),
        (0xacu32, crate::machine::tables::NATIVE_SYSTEM_TIME_SERVICE),
        (0xb0u32, (crate::machine::tables::NATIVE_SYSTEM_TIME_SERVICE + 3 * 4) as u32),
        (0xb4u32, (crate::machine::tables::NATIVE_SYSTEM_TIME_SERVICE + 4 * 4) as u32),
        (0xb8u32, (crate::machine::tables::NATIVE_SYSTEM_TIME_SERVICE + 5 * 4) as u32),
        (0xf0u32, (NATIVE_DISPATCH_SERVICE + 1) as u32),
    ]
}

/// The system-information pairs.
fn system_info_pairs() -> (res: Vec<(u32, u32)>)
    ensures
        res@ == spec_system_info_pairs(),
{
    let base = crate::machine::services::SERVICE_BASE;
    let stride = crate::machine::tables::TABLE_STRIDE;
    let time = crate::machine::tables::NATIVE_SYSTEM_TIME_SERVICE;
    let res = vec![
        (0x9cu32, base + stride * 2 + 13 * 4),
        (0xa0u32, base + stride * 2 + 14 * 4),
        (0x24u32, base + stride * 4 + 9 * 4),
        (0x58u32, base + stride * 4 + 19 * 4),
        (0x70u32, base + stride * 4 + 5 * 4),
        (0x74u32, base + stride * 4 + 5 * 4),
        (0x78u32, base + stride * 4 + 6 * 4),
        (0x20cu32, base + stride * 6),
        (0x210u32, base + stride * 6 + 4),
        (0x214u32, base + stride * 6 + 8),
        (0x22cu32, base + stride * 6 + 8 * 4),
        (0xa4u32, time + 2 * 4),
        (0xa8u32, time + 1 * 4),
        (0xacu32, time),
        (0xb0u32, time + 3 * 4),
        (0xb4u32, time + 4 * 4),
        (0xb8u32, time + 5 * 4),
        (0xf0u32, NATIVE_DISPATCH_SERVICE + 1),
    ];
    assert(res@ =~= spec_system_info_pairs());
    res
}

/// A request of the native interface described at `argument`: the output
/// word, a handle and the output size; with an output of at least four
/// bytes the output is cleared, then the system-information block (0x8f,
/// made once) or the property block (0x8e, made once) or `u32::MAX`
/// (0x41a) goes there.
pub open spec fn spec_native_interface(v: MachineView, argument: u32) -> MachineView {
    if argument == 0 {
        v
    } else {
        let (output, m1) = spec_read(v.memory, argument, 4);
        let (handle, m2) = spec_read(m1, argument.wrapping_add(4), 4);
        let (size, m3) = spec_read(m2, argument.wrapping_add(8), 4);
        if output == 0 || size < 4 {
            MachineView { memory: m3, ..v }
        } else {
            let m4 = spec_write(m3, output, 0, 4);
            if handle == 0x8f {
                let (info, h1, m5) = if v.native_system_info == 0 {
                    let (info, h1) = spec_allocate(v.heap, 0x400);
                    (info, h1, spec_write_pairs(m4, info, spec_system_info_pairs(), 18))
                } else {
                    (v.native_system_info, v.heap, m4)
                };
                MachineView { heap: h1, memory: spec_write(m5, output, info, 4), native_system_info: info, ..v }
            } else if handle == 0x8e {
                let (info, h1, m5) = if v.native_property_info == 0 {
                    let (info, h1) = spec_allocate(v.heap, 0x100);
                    (info, h1, spec_write(m4, info.wrapping_add(0x14), (NATIVE_DISPATCH_SERVICE + 1) as u32, 4))
                } else {
                    (v.native_property_info, v.heap, m4)
                };
                MachineView { heap: h1, memory: spec_write(m5, output, info, 4), native_property_info: info, ..v }
            } else if handle == 0x41a {
                MachineView { memory: spec_write(m4, output, u32::MAX, 4), ..v }
            } else {
                MachineView { memory: m4, ..v }
            }
        }
    }
}

/// `a + b`, saturating at `u32::MAX`.
pub open spec fn spec_sat_add32(a: u32, b: u32) -> u32 {
    if a + b > u32::MAX {
        u32::MAX
    } else {
        (a + b) as u32
    }
}

/// The native dispatcher with the request id in r0 and its argument in r1.
/// Ids that are addresses of the code, data or heap images answer 0.
/// Request 0x79e registers the application parser and initializer read
/// from the argument and answers the dispatcher; 0x52 stores the argument
/// in the data image; some ids answer themselves; 0x3ed and 0x3ec/0x3ee
/// clear one or four bytes at the argument; 0x7d1 is an interface request.
pub open spec fn spec_native_dispatch(v: MachineView, id: u32, argument: u32) -> (u32, MachineView) {
    let e = v.executable;
    let code_start = crate::machine::executable::spec_code_address(e);
    let code_end = spec_sat_add32(code_start, e.code_image_size);
    let data_start = crate::machine::executable::spec_data_address(e);
    let data_end = spec_sat_add32(data_start, e.data_image_size);
    if (code_start <= id < code_end) || (data_start <= id < data_end) || (HEAP_BASE <= id < HEAP_BASE + HEAP_SIZE) {
        (0, v)
    } else if id == 0x79e {
        if argument != 0 {
            let (parser, m1) = spec_read(v.memory, argument, 4);
            let (init, m2) = spec_read(m1, argument.wrapping_add(4), 4);
            let m3 = spec_write(m2, argument.wrapping_add(8), (NATIVE_DISPATCH_SERVICE + 1) as u32, 4);
            (
                (NATIVE_DISPATCH_SERVICE + 1) as u32,
                MachineView { memory: m3, native_app_parser: parser, native_app_init: init, ..v },
            )
        } else {
            ((NATIVE_DISPATCH_SERVICE + 1) as u32, v)
        }
    } else if id == 0x52 {
        if argument != 0 {
            (0, MachineView { memory: spec_write(v.memory, data_start.wrapping_add(0x1724), argument, 4), ..v })
        } else {
            (0, v)
        }
    } else if id == 0x8e || id == 0x8f || id == 0x97 || id == 0xac || id == 0x421 || id == 0x41a {
        (id, v)
    } else if id == 0x3ed {
        if argument != 0 {
            (0, MachineView { memory: spec_write(v.memory, argument, 0, 1), ..v })
        } else {
            (0, v)
        }
    } else if id == 0x3ec || id == 0x3ee {
        if argument != 0 {
            let m1 = spec_write(v.memory, argument, 0, 1);
            let m2 = spec_write(m1, argument.wrapping_add(1), 0, 1);
            let m3 = spec_write(m2, argument.wrapping_add(2), 0, 1);
            (0, MachineView { memory: spec_write(m3, argument.wrapping_add(3), 0, 1), ..v })
        } else {
            (0, v)
        }
    } else if id == 0x7d1 {
        (0, spec_native_interface(v, argument))
    } else {
        (0, v)
    }
}

impl NicaiMachine {
    /// The native system-information block, made on first use.
    fn system_info_block(&mut self) -> (res: u32)
        requires
            old(self).wf(),
        ensures
            final(self).wf(),
            res == final(self)@.native_system_info,
            old(self)@.native_system_info != 0 ==> final(self)@ == old(self)@,
            old(self)@.native_system_info == 0 ==> ({
                let (info, h1) = spec_allocate(old(self)@.heap, 0x400);
                final(self)@ == (MachineView {
                    heap: h1,
                    memory: spec_write_pairs(old(self)@.memory, info, spec_system_info_pairs(), 18),
                    native_system_info: info,
                    ..old(self)@
                })
            }),
    {
        if self.native_system_info == 0 {
            let info = self.heap.allocate(0x400);
            self.native_system_info = info;
            let pairs = system_info_pairs();
            write_pairs(&mut self.memory, info, pairs.as_slice());
        }
        self.native_system_info
    }

    /// The native property block, made on first use.
    fn property_block(&mut self) -> (res: u32)
        requires
            old(self).wf(),
        ensures
            final(self).wf(),
            res == final(self)@.native_property_info,
            old(self)@.native_property_info != 0 ==> final(self)@ == old(self)@,
            old(self)@.native_property_info == 0 ==> ({
                let (info, h1) = spec_allocate(old(self)@.heap, 0x100);
                final(self)@ == (MachineView {
                    heap: h1,
                    memory: spec_write(old(self)@.memory, info.wrapping_add(0x14), (NATIVE_DISPATCH_SERVICE + 1) as u32, 4),
                    native_property_info: info,
                    ..old(self)@
                })
            }),
    {
        if self.native_property_info == 0 {
            let info = self.heap.allocate(0x100);
            self.native_property_info = info;
            self.memory.w32(info.wrapping_add(0x14), NATIVE_DISPATCH_SERVICE + 1);
        }
        self.native_property_info
    }

    /// Answer a native interface request (see `spec_native_interface`).
    fn native_interface(&mut self, argument: u32)
        requires
            old(self).wf(),
        ensures
            final(self).wf(),
            final(self)@ == spec_native_interface(old(self)@, argument),
    {
        if argument == 0 {
            return;
        }
        let output = self.memory.r32(argument);
        let handle = self.memory.r32(argument.wrapping_add(4));
        let size = self.memory.r32(argument.wrapping_add(8));
        if output == 0 || size < 4 {
            return;
        }
        self.memory.w32(output, 0);
        if handle == 0x8f {
            let info = self.system_info_block();
            self.memory.w32(output, info);
        } else if handle == 0x8e {
            let info = self.property_block();
            self.memory.w32(output, info);
        } else if handle == 0x41a {
            self.memory.w32(output, u32::MAX);
        }
    }

    /// Run the native dispatcher (see `spec_native_dispatch`).
    pub fn handle_native_dispatch(&mut self, id: u32, argument: u32) -> (res: u32)
        requires
            old(self).wf(),
        ensures
            final(self).wf(),
            (res, final(self)@) == spec_native_dispatch(old(self)@, id, argument),
    {
        let code_start = self.executable.code_address();
        let code_end = code_start.saturating_add(self.executable.code_image_size);
        let data_start = self.executable.data_address();
        let data_end = data_start.saturating_add(self.executable.data_image_size);
        if (code_start <= id && id < code_end) || (data_start <= id && id < data_end) || (HEAP_BASE <= id && id
            < HEAP_BASE + HEAP_SIZE) {
            return 0;
        }
        if id == 0x79e {
            if argument != 0 {
                self.native_app_parser = self.memory.r32(argument);
                self.native_app_init = self.memory.r32(argument.wrapping_add(4));
                self.memory.w32(argument.wrapping_add(8), NATIVE_DISPATCH_SERVICE + 1);
            }
            NATIVE_DISPATCH_SERVICE + 1
        } else if id == 0x52 {
            if argument != 0 {
                self.memory.w32(data_start.wrapping_add(0x1724), argument);
            }
            0
        } else if id == 0x8e || id == 0x8f || id == 0x97 || id == 0xac || id == 0x421 || id == 0x41a {
            id
        } else if id == 0x3ed {
            if argument != 0 {
                self.memory.w8(argument, 0);
            }
            0
        } else if id == 0x3ec || id == 0x3ee {
            if argument != 0 {
                self.memory.w8(argument, 0);
                self.memory.w8(argument.wrapping_add(1), 0);
                self.memory.w8(argument.wrapping_add(2), 0);
                self.memory.w8(argument.wrapping_add(3), 0);
            }
            0
        } else if id == 0x7d1 {
            self.native_interface(argument);
            0
        } else {
            0
        }
    }
}

/// The fixed-manager blit of the game manager: the source image in r0,
/// source position in r1 and r2, width in r3, then height and destination
/// position on the stack, to the screen (transparent for method 2).
pub open spec fn spec_game_blit(m: MemoryView, registers: ServiceRegisters, transparent: bool) -> MemoryView {
    let (height, m1) = spec_read(m, registers.sp, 4);
    let (dx, m2) = spec_read(m1, registers.sp.wrapping_add(4), 4);
    let (dy, m3) = spec_read(m2, registers.sp.wrapping_add(8), 4);
    spec_blit(
        m3,
        SCREEN_IMAGE_STRUCT,
        registers.r0,
        spec_signed_coord(registers.r1),
        spec_signed_coord(registers.r2),
        spec_signed_coord(registers.r3),
        spec_signed_coord(height),
        spec_signed_coord(dx),
        spec_signed_coord(dy),
        transparent,
    )
}

/// The engine's formatted string: the format at r0 (up to 4096 bytes)
/// formatted with the arguments from r1 on, at most 63 bytes of it stored
/// zero-terminated in the format buffer, whose address is the result.
pub open spec fn spec_game_format(m: MemoryView, registers: ServiceRegisters) -> MemoryView {
    let (format, m1) = spec_c_bytes(m, registers.r0, 4096);
    let (output, m2) = spec_format_from(m1, format, registers, 1, 0, 0, Seq::empty());
    let length = if output.len() < 63 {
        output.len() as int
    } else {
        63
    };
    let m3 = spec_write_bytes(m2, DREAM_FACTORY_FORMAT_BUFFER, output.subrange(0, length));
    spec_write(m3, (DREAM_FACTORY_FORMAT_BUFFER + length) as u32, 0, 1)
}

/// A boolean as a guest result.
pub open spec fn spec_flag(b: bool) -> u32 {
    if b {
        1
    } else {
        0
    }
}

/// Whether game-manager method `index` reads or changes the input, pointer
/// or screen state (11, 12, 60 to 68).
pub open spec fn spec_is_game_input_method(index: u32) -> bool {
    index == 11 || index == 12 || (60 <= index && index <= 68)
}

/// Whether game-manager method `index` belongs to the fixed interface
/// (1, 2, 14 to 17, 75, 79).
pub open spec fn spec_is_game_fixed_method(index: u32) -> bool {
    index == 1 || index == 2 || (14 <= index && index <= 17) || index == 75 || index == 79
}

/// The game-manager services (group 3), by index: the input, pointer and
/// screen methods (see `spec_game_input_service`), those of the fixed
/// interface (see `spec_game_fixed_service`) and the rest (see
/// `spec_game_data_service`).
pub open spec fn spec_game_service(v: MachineView, index: u32, registers: ServiceRegisters) -> (u32, MachineView) {
    if spec_is_game_input_method(index) {
        spec_game_input_service(v, index, registers.r0)
    } else if spec_is_game_fixed_method(index) {
        spec_game_fixed_service(v, index, registers)
    } else {
        spec_game_data_service(v, index, registers)
    }
}

/// Key tests against r0 (11: keys down, 12: keys held); enter the screen r0
/// (60, answering the address of the quit flag, which it clears); request
/// the pending screen's resources (61); the pointer held, down, up,
/// dragged, its x and y (62 to 67); the keys down (68).
#[verifier::opaque]
pub open spec fn spec_game_input_service(v: MachineView, index: u32, r0: u32) -> (u32, MachineView) {
    if index == 11 {
        (spec_flag(v.key_down & r0 != 0), v)
    } else if index == 12 {
        (spec_flag(v.key_held & r0 != 0), v)
    } else if index == 60 {
        (
            SCREEN_IS_IN_QUIT,
            MachineView {
                screens: ScreenView { pending: r0, ..v.screens },
                memory: spec_write(v.memory, SCREEN_IS_IN_QUIT, 0, 4),
                ..v
            },
        )
    } else if index == 61 {
        (0, MachineView { screens: ScreenView { load_screen: v.screens.pending, load_pending: true, ..v.screens }, ..v })
    } else if index == 62 {
        (spec_flag(v.pointer.held), v)
    } else if index == 63 {
        (spec_flag(v.pointer.down), v)
    } else if index == 64 {
        (spec_flag(v.pointer.up), v)
    } else if index == 65 {
        (spec_flag(v.pointer.held && (v.pointer.x != v.pointer.press_x || v.pointer.y != v.pointer.press_y)), v)
    } else if index == 66 {
        (v.pointer.x as u32, v)
    } else if index == 67 {
        (v.pointer.y as u32, v)
    } else if index == 68 {
        (v.key_down, v)
    } else {
        (0, v)
    }
}

/// The methods of the fixed interface, answering 0 on another: a blit to
/// the screen (1, transparent 2), the sum r1 + r3 (14), the height (15) and
/// width (16) of the image at r0 (0 for none), the RGB565 color of r0, r1,
/// r2 (17), a game object (75) and a game region (79).
#[verifier::opaque]
pub open spec fn spec_game_fixed_service(v: MachineView, index: u32, registers: ServiceRegisters) -> (u32, MachineView) {
    let r0 = registers.r0;
    let r1 = registers.r1;
    let r2 = registers.r2;
    let r3 = registers.r3;
    if !spec_uses_fixed_manager_abi(v.executable) {
        (0, v)
    } else if index == 1 || index == 2 {
        (0, MachineView { memory: spec_game_blit(v.memory, registers, index == 2), ..v })
    } else if index == 14 {
        (r1.wrapping_add(r3), v)
    } else if index == 15 {
        if r0 == 0 {
            (0, v)
        } else {
            let (height, m) = spec_read(v.memory, r0.wrapping_add(6), 2);
            (height, MachineView { memory: m, ..v })
        }
    } else if index == 16 {
        if r0 == 0 {
            (0, v)
        } else {
            let (width, m) = spec_read(v.memory, r0.wrapping_add(4), 2);
            (width, MachineView { memory: m, ..v })
        }
    } else if index == 17 {
        let red = r0 as u16;
        let green = r1 as u16;
        let blue = r2 as u16;
        ((((red & 0xf8) << 8u16) | ((green & 0xfc) << 3u16) | ((blue & 0xf8) >> 3u16)) as u32, v)
    } else if index == 75 {
        let (res, h, m) = spec_gameold_object(v.heap, v.memory, r0, r1);
        (res, MachineView { heap: h, memory: m, ..v })
    } else if index == 79 {
        let (res, h, m) = spec_gameold_region(v.heap, v.memory, registers);
        (res, MachineView { heap: h, memory: m, ..v })
    } else {
        (0, v)
    }
}

/// The other game-manager methods: the string readers (97: byte length,
/// 101: word length); an image object from the resource with id r0 (0);
/// decode a resource stream (23); set up a memory block (58); the engine's
/// package and memory-block slots (80 to 82); resources by id, by name,
/// their names and ids (83 to 88); compare two C strings (90); cursor reads
/// and writes (91, 92, 95, 96); the system memory block (102); format a
/// string (108); set up a data package (110). Others answer 0.
#[verifier::opaque]
pub open spec fn spec_game_data_service(v: MachineView, index: u32, registers: ServiceRegisters) -> (u32, MachineView) {
    let r0 = registers.r0;
    let r1 = registers.r1;
    let r2 = registers.r2;
    if index == 97 || index == 101 {
        let (res, h, m) = spec_read_length_prefixed_string(v.heap, v.memory, r0, r1, index == 101);
        (res, MachineView { heap: h, memory: m, ..v })
    } else if index == 0 {
        let (source, v1) = spec_resource_by_id(v, r0);
        spec_create_image(v1, source, 0)
    } else if index == 23 {
        let (res, h, m) = spec_decode_resource_stream(v.heap, v.memory, r0);
        (res, MachineView { heap: h, memory: m, ..v })
    } else if index == 58 {
        let (h, m) = spec_initialize_memory_block(v.heap, v.memory, r0, r1);
        (r0, MachineView { heap: h, memory: m, ..v })
    } else if index == 80 {
        let m1 = spec_write(v.memory, DREAM_FACTORY_PACKAGE_SLOT, 0, 4);
        (0, MachineView { memory: spec_write(m1, DREAM_FACTORY_MEMORY_BLOCK_SLOT, MEMORY_BLOCK_PTR, 4), ..v })
    } else if index == 81 {
        (0, MachineView { memory: spec_write(v.memory, DREAM_FACTORY_PACKAGE_SLOT, r0, 4), ..v })
    } else if index == 82 {
        let (package, m) = spec_read(v.memory, DREAM_FACTORY_PACKAGE_SLOT, 4);
        (package, MachineView { memory: m, ..v })
    } else if index == 83 {
        spec_resource_by_id(v, r0)
    } else if index == 84 || index == 87 || index == 88 {
        spec_resource_by_name(v, r0)
    } else if index == 85 {
        spec_resource_name_by_id(v, r0)
    } else if index == 86 {
        let (id, v1) = spec_resource_id_by_name(v, r0);
        (match id {
            Some(i) => i,
            None => u32::MAX,
        }, v1)
    } else if index == 90 {
        let (left, m1) = spec_c_bytes(v.memory, r0, 4096);
        let (right, m2) = spec_c_bytes(m1, r1, 4096);
        (spec_flag(left == right), MachineView { memory: m2, ..v })
    } else if index == 91 {
        let (res, m) = spec_cursor_read(v.memory, r0, r1, 2);
        (res, MachineView { memory: m, ..v })
    } else if index == 92 {
        let (res, m) = spec_cursor_read(v.memory, r0, r1, 4);
        (res, MachineView { memory: m, ..v })
    } else if index == 95 {
        let (res, m) = spec_cursor_write(v.memory, r0, r1, r2, 2);
        (res, MachineView { memory: m, ..v })
    } else if index == 96 {
        let (res, m) = spec_cursor_write(v.memory, r0, r1, r2, 4);
        (res, MachineView { memory: m, ..v })
    } else if index == 102 {
        (MEMORY_BLOCK_PTR, v)
    } else if index == 108 {
        (DREAM_FACTORY_FORMAT_BUFFER, MachineView { memory: spec_game_format(v.memory, registers), ..v })
    } else if index == 110 {
        let (res, h, m) = spec_initialize_data_package(v.heap, v.memory, r0, r1);
        (res, MachineView { heap: h, memory: m, ..v })
    } else {
        (0, v)
    }
}

/// Format the engine's string (see `spec_game_format`).
fn game_format(memory: &mut MachineMemory, registers: ServiceRegisters)
    ensures
        final(memory)@ == spec_game_format(old(memory)@, registers),
{
    let format = read_c_bytes(memory, registers.r0, 4096);
    let output = format_c_string_from(memory, &format, registers, 1);
    let length: usize = if output.len() < 63 {
        output.len()
    } else {
        63
    };
    memory.write_bytes(DREAM_FACTORY_FORMAT_BUFFER, vstd::slice::slice_subrange(output.as_slice(), 0, length));
    memory.w8(DREAM_FACTORY_FORMAT_BUFFER + length as u32, 0);
}

/// The fixed-manager blit (see `spec_game_blit`).
fn game_blit(memory: &mut MachineMemory, registers: ServiceRegisters, transparent: bool)
    ensures
        final(memory)@ == spec_game_blit(old(memory)@, registers, transparent),
{
    let height = signed_coord(memory.r32(registers.sp));
    let dx = signed_coord(memory.r32(registers.sp.wrapping_add(4)));
    let dy = signed_coord(memory.r32(registers.sp.wrapping_add(8)));
    blit(
        memory,
        SCREEN_IMAGE_STRUCT,
        registers.r0,
        signed_coord(registers.r1),
        signed_coord(registers.r2),
        signed_coord(registers.r3),
        height,
        dx,
        dy,
        transparent,
    );
}

impl NicaiMachine {
    /// Run game-manager service `index` (group 3).
    pub fn handle_game_service(&mut self, index: u32, registers: ServiceRegisters) -> (res: u32)
        requires
            old(self).wf(),
        ensures
            final(self).wf(),
            (res, final(self)@) == spec_game_service(old(self)@, index, registers),
    {
        if index == 11 || index == 12 || (60 <= index && index <= 68) {
            self.game_input_service(index, registers.r0)
        } else if index == 1 || index == 2 || (14 <= index && index <= 17) || index == 75 || index == 79 {
            self.game_fixed_service(index, registers)
        } else {
            self.game_data_service(index, registers)
        }
    }

    /// The input, pointer and screen methods (see `spec_game_input_service`).
    fn game_input_service(&mut self, index: u32, r0: u32) -> (res: u32)
        requires
            old(self).wf(),
        ensures
            final(self).wf(),
            (res, final(self)@) == spec_game_input_service(old(self)@, index, r0),
    {
        reveal(spec_game_input_service);
        match index {
            11 => if self.key_down & r0 != 0 {
                1
            } else {
                0
            },
            12 => if self.key_held & r0 != 0 {
                1
            } else {
                0
            },
            60 => {
                self.screens.set_pending(r0);
                self.memory.w32(SCREEN_IS_IN_QUIT, 0);
                SCREEN_IS_IN_QUIT
            },
            61 => {
                let pending = self.screens.pending();
                self.screens.request_load(pending);
                0
            },
            62 => if self.pointer.held {
                1
            } else {
                0
            },
            63 => if self.pointer.down {
                1
            } else {
                0
            },
            64 => if self.pointer.up {
                1
            } else {
                0
            },
            65 => if self.pointer.dragging() {
                1
            } else {
                0
            },
            66 => self.pointer.x as u32,
            67 => self.pointer.y as u32,
            68 => self.key_down,
            _ => 0,
        }
    }

    /// The methods of the fixed interface (see `spec_game_fixed_service`).
    fn game_fixed_service(&mut self, index: u32, registers: ServiceRegisters) -> (res: u32)
        requires
            old(self).wf(),
        ensures
            final(self).wf(),
            (res, final(self)@) == spec_game_fixed_service(old(self)@, index, registers),
    {
        reveal(spec_game_fixed_service);
        let r0 = registers.r0;
        let r1 = registers.r1;
        let r2 = registers.r2;
        let r3 = registers.r3;
        if !self.uses_fixed_manager_abi() {
            return 0;
        }
        match index {
            1 => {
                game_blit(&mut self.memory, registers, false);
                0
            },
            2 => {
                game_blit(&mut self.memory, registers, true);
                0
            },
            14 => r1.wrapping_add(r3),
            15 => if r0 == 0 {
                0
            } else {
                self.memory.r16(r0.wrapping_add(6)) as u32
            },
            16 => if r0 == 0 {
                0
            } else {
                self.memory.r16(r0.wrapping_add(4)) as u32
            },
            17 => {
                let red = r0 as u16;
                let green = r1 as u16;
                let blue = r2 as u16;
                (((red & 0xf8) << 8u16) | ((green & 0xfc) << 3u16) | ((blue & 0xf8) >> 3u16)) as u32
            },
            75 => gameold_object(&mut self.heap, &mut self.memory, r0, r1),
            79 => gameold_region(&mut self.heap, &mut self.memory, registers),
            _ => 0,
        }
    }

    /// The other game-manager methods (see `spec_game_data_service`).
    fn game_data_service(&mut self, index: u32, registers: ServiceRegisters) -> (res: u32)
        requires
            old(self).wf(),
        ensures
            final(self).wf(),
            (res, final(self)@) == spec_game_data_service(old(self)@, index, registers),
    {
        reveal(spec_game_data_service);
        let r0 = registers.r0;
        let r1 = registers.r1;
        let r2 = registers.r2;
        match index {
            97 => read_length_prefixed_string(&mut self.heap, &mut self.memory, r0, r1, false),
            101 => read_length_prefixed_string(&mut self.heap, &mut self.memory, r0, r1, true),
            0 => {
                let source = self.resource_by_id(r0);
                self.create_image_from_stream(source, 0)
            },
            23 => decode_resource_stream(&mut self.heap, &mut self.memory, r0),
            58 => {
                initialize_memory_block(&mut self.heap, &mut self.memory, r0, r1);
                r0
            },
            80 => {
                self.memory.w32(DREAM_FACTORY_PACKAGE_SLOT, 0);
                self.memory.w32(DREAM_FACTORY_MEMORY_BLOCK_SLOT, MEMORY_BLOCK_PTR);
                0
            },
            81 => {
                self.memory.w32(DREAM_FACTORY_PACKAGE_SLOT, r0);
                0
            },
            82 => self.memory.r32(DREAM_FACTORY_PACKAGE_SLOT),
            83 => self.resource_by_id(r0),
            84 | 87 | 88 => self.resource_by_name(r0),
            85 => self.resource_name_by_id(r0),
            86 => match self.resource_id_by_name(r0) {
                Some(id) => id,
                None => u32::MAX,
            },
            90 => {
                let left = read_c_bytes(&mut self.memory, r0, 4096);
                let right = read_c_bytes(&mut self.memory, r1, 4096);
                if bytes_equal(left.as_slice(), right.as_slice()) {
                    1
                } else {
                    0
                }
            },
            91 => cursor_read(&mut self.memory, r0, r1, 2),
            92 => cursor_read(&mut self.memory, r0, r1, 4),
            95 => cursor_write(&mut self.memory, r0, r1, r2, 2),
            96 => cursor_write(&mut self.memory, r0, r1, r2, 4),
            102 => MEMORY_BLOCK_PTR,
            108 => {
                game_format(&mut self.memory, registers);
                DREAM_FACTORY_FORMAT_BUFFER
            },
            110 => initialize_data_package(&mut self.heap, &mut self.memory, r0, r1),
            _ => 0,
        }
    }
}

/// The engine utilities (group 10), by index: set (9) and read (10) the
/// engine's package slot; resources by id (11), by name (12, 15, 16), a
/// resource's name (13) and id (14, all ones for none); whether the C
/// strings at r0 and r1 read the same as text (18); cursor reads (19, 20)
/// and writes (23, 24); the string readers (25: byte length, 29: word
/// length); the system memory block (30). Others answer 0.
#[verifier::opaque]
pub open spec fn spec_game_util_service(v: MachineView, index: u32, registers: ServiceRegisters) -> (u32, MachineView) {
    let r0 = registers.r0;
    let r1 = registers.r1;
    let r2 = registers.r2;
    if index == 9 {
        (0, MachineView { memory: spec_write(v.memory, DREAM_FACTORY_PACKAGE_SLOT, r0, 4), ..v })
    } else if index == 10 {
        let (package, m) = spec_read(v.memory, DREAM_FACTORY_PACKAGE_SLOT, 4);
        (package, MachineView { memory: m, ..v })
    } else if index == 11 {
        spec_resource_by_id(v, r0)
    } else if index == 12 || index == 15 || index == 16 {
        spec_resource_by_name(v, r0)
    } else if index == 13 {
        spec_resource_name_by_id(v, r0)
    } else if index == 14 {
        let (id, v1) = spec_resource_id_by_name(v, r0);
        (match id {
            Some(i) => i,
            None => u32::MAX,
        }, v1)
    } else if index == 18 {
        let (left, m1) = spec_c_bytes(v.memory, r0, 4096);
        let (right, m2) = spec_c_bytes(m1, r1, 4096);
        (spec_flag(spec_utf8_lossy(left) == spec_utf8_lossy(right)), MachineView { memory: m2, ..v })
    } else if index == 19 || index == 20 {
        let (res, m) = spec_cursor_read(v.memory, r0, r1, if index == 19 { 2 } else { 4 });
        (res, MachineView { memory: m, ..v })
    } else if index == 23 || index == 24 {
        let (res, m) = spec_cursor_write(v.memory, r0, r1, r2, if index == 23 { 2 } else { 4 });
        (res, MachineView { memory: m, ..v })
    } else if index == 25 || index == 29 {
        let (res, h, m) = spec_read_length_prefixed_string(v.heap, v.memory, r0, r1, index == 29);
        (res, MachineView { heap: h, memory: m, ..v })
    } else if index == 30 {
        (MEMORY_BLOCK_PTR, v)
    } else {
        (0, v)
    }
}

/// The engine manager (group 11): reset the engine's package and
/// memory-block slots (8), set up the data package r0 for r1 children
/// (10). Others answer 0.
pub open spec fn spec_engine_service(v: MachineView, index: u32, r0: u32, r1: u32) -> (u32, MachineView) {
    if index == 8 {
        let m1 = spec_write(v.memory, DREAM_FACTORY_PACKAGE_SLOT, 0, 4);
        (0, MachineView { memory: spec_write(m1, DREAM_FACTORY_MEMORY_BLOCK_SLOT, MEMORY_BLOCK_PTR, 4), ..v })
    } else if index == 10 {
        let (res, h, m) = spec_initialize_data_package(v.heap, v.memory, r0, r1);
        (res, MachineView { heap: h, memory: m, ..v })
    } else {
        (0, v)
    }
}

/// The identifier that the payment manager hands out: fifteen `1` digits
/// and a terminator.
pub open spec fn spec_payment_identifier() -> Seq<u8> {
    Seq::new(16, |i: int| if i < 15 { 0x31u8 } else { 0u8 })
}

/// The payment manager (group 24): method 7 copies the identifier, cut to
/// the capacity r1, to r0 and terminates it in its last byte copied (no
/// change where r0 or the count is 0). The result is 0.
pub open spec fn spec_payment_service(m: MemoryView, index: u32, r0: u32, r1: u32) -> MemoryView {
    let count: u32 = if r1 < 16 { r1 } else { 16 };
    if index == 7 && r0 != 0 && count != 0 {
        let m1 = spec_write_bytes(m, r0, spec_payment_identifier().take(count as int));
        spec_write(m1, r0.wrapping_add(count).wrapping_sub(1), 0, 1)
    } else {
        m
    }
}

/// The download-resource manager (group 25): the engine's package slot
/// (0), an image object from the resource data at r0 into r1 (10). Others
/// answer 0.
pub open spec fn spec_download_resource_service(v: MachineView, index: u32, r0: u32, r1: u32) -> (u32, MachineView) {
    if index == 0 {
        let (package, m) = spec_read(v.memory, DREAM_FACTORY_PACKAGE_SLOT, 4);
        (package, MachineView { memory: m, ..v })
    } else if index == 10 {
        spec_create_image(v, r0, r1)
    } else {
        (0, v)
    }
}

impl NicaiMachine {
    /// Run engine-utility service `index` (group 10).
    pub fn handle_game_util_service(&mut self, index: u32, registers: ServiceRegisters) -> (res: u32)
        requires
            old(self).wf(),
        ensures
            final(self).wf(),
            (res, final(self)@) == spec_game_util_service(old(self)@, index, registers),
    {
        reveal(spec_game_util_service);
        let r0 = registers.r0;
        let r1 = registers.r1;
        let r2 = registers.r2;
        match index {
            9 => {
                self.memory.w32(DREAM_FACTORY_PACKAGE_SLOT, r0);
                0
            },
            10 => self.memory.r32(DREAM_FACTORY_PACKAGE_SLOT),
            11 => self.resource_by_id(r0),
            12 | 15 | 16 => self.resource_by_name(r0),
            13 => self.resource_name_by_id(r0),
            14 => match self.resource_id_by_name(r0) {
                Some(id) => id,
                None => u32::MAX,
            },
            18 => {
                let left = read_c_bytes(&mut self.memory, r0, 4096);
                let right = read_c_bytes(&mut self.memory, r1, 4096);
                let left_text = chars_of(utf8_lossy(left.as_slice()).as_str());
                let right_text = chars_of(utf8_lossy(right.as_slice()).as_str());
                if chars_equal(left_text.as_slice(), right_text.as_slice()) {
                    1
                } else {
                    0
                }
            },
            19 => cursor_read(&mut self.memory, r0, r1, 2),
            20 => cursor_read(&mut self.memory, r0, r1, 4),
            23 => cursor_write(&mut self.memory, r0, r1, r2, 2),
            24 => cursor_write(&mut self.memory, r0, r1, r2, 4),
            25 => read_length_prefixed_string(&mut self.heap, &mut self.memory, r0, r1, false),
            29 => read_length_prefixed_string(&mut self.heap, &mut self.memory, r0, r1, true),
            30 => MEMORY_BLOCK_PTR,
            _ => 0,
        }
    }

    /// Run engine-manager service `index` (group 11).
    pub fn handle_engine_service(&mut self, index: u32, r0: u32, r1: u32) -> (res: u32)
        requires
            old(self).wf(),
        ensures
            final(self).wf(),
            (res, final(self)@) == spec_engine_service(old(self)@, index, r0, r1),
    {
        if index == 8 {
            self.memory.w32(DREAM_FACTORY_PACKAGE_SLOT, 0);
            self.memory.w32(DREAM_FACTORY_MEMORY_BLOCK_SLOT, MEMORY_BLOCK_PTR);
            0
        } else if index == 10 {
            initialize_data_package(&mut self.heap, &mut self.memory, r0, r1)
        } else {
            0
        }
    }

    /// Run download-resource service `index` (group 25).
    pub fn handle_download_resource_service(&mut self, index: u32, r0: u32, r1: u32) -> (res: u32)
        requires
            old(self).wf(),
        ensures
            final(self).wf(),
            (res, final(self)@) == spec_download_resource_service(old(self)@, index, r0, r1),
    {
        if index == 0 {
            self.memory.r32(DREAM_FACTORY_PACKAGE_SLOT)
        } else if index == 10 {
            self.create_image_from_stream(r0, r1)
        } else {
            0
        }
    }

    /// Run download-image service `index` (group 26): method 4 allocates r0
    /// bytes from the guest heap; others answer 0.
    pub fn handle_download_image_service(&mut self, index: u32, r0: u32) -> (res: u32)
        requires
            old(self).wf(),
        ensures
            final(self).wf(),
            index == 4 ==> (res, final(self)@.heap) == spec_allocate(old(self)@.heap, r0)
                && final(self)@ == (MachineView { heap: final(self)@.heap, ..old(self)@ }),
            index != 4 ==> res == 0 && final(self)@ == old(self)@,
    {
        if index == 4 {
            self.heap.allocate(r0)
        } else {
            0
        }
    }
}

/// The download manager (group 22): method 4 answers all ones, others 0.
pub fn download_service(index: u32) -> (res: u32)
    ensures
        res == (if index == 4 { u32::MAX } else { 0 }),
{
    if index == 4 {
        u32::MAX
    } else {
        0
    }
}

/// Run payment service `index` (group 24) on guest memory; the result is 0.
pub fn payment_service(memory: &mut MachineMemory, index: u32, r0: u32, r1: u32) -> (res: u32)
    ensures
        res == 0,
        final(memory)@ == spec_payment_service(old(memory)@, index, r0, r1),
{
    let count: u32 = if r1 < 16 {
        r1
    } else {
        16
    };
    if index == 7 && r0 != 0 && count != 0 {
        let identifier: [u8; 16] = [0x31, 0x31, 0x31, 0x31, 0x31, 0x31, 0x31, 0x31, 0x31, 0x31, 0x31, 0x31, 0x31, 0x31, 0x31, 0];
        assert(identifier@ =~= spec_payment_identifier());
        let slice = vstd::slice::slice_subrange(identifier.as_slice(), 0, count as usize);
        assert(slice@ =~= spec_payment_identifier().take(count as int));
        memory.write_bytes(r0, slice);
        memory.w8(r0.wrapping_add(count).wrapping_sub(1), 0);
    }
    0
}

/// Whether two byte strings are equal.
pub fn bytes_equal(a: &[u8], b: &[u8]) -> (res: bool)
    ensures
        res == (a@ == b@),
{
    if a.len() != b.len() {
        return false;
    }
    let mut i: usize = 0;
    while i < a.len()
        invariant
            i <= a@.len() == b@.len(),
            forall|k: int| 0 <= k < i ==> a@[k] == b@[k],
        decreases a@.len() - i,
    {
        if a[i] != b[i] {
            return false;
        }
        i = i + 1;
    }
    assert(a@ =~= b@);
    true
}

} // verus!
