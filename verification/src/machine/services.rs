//! Guest services that act on guest memory and the guest heap: heap
//! allocation, bump-allocated memory blocks, and the wide (UCS-2) and
//! narrow C string helpers. Each service reads its arguments from the
//! first argument registers and returns the value for the result register.
//!
//! Guest addresses are computed with wrapping arithmetic, as 32-bit guest
//! pointers wrap.
use vstd::prelude::*;

use crate::machine::heap::{
    spec_allocate,
    spec_deallocate,
    spec_heap_wf,
    GuestHeap,
    HeapView,
    MEMORY_BLOCK_POOL,
};
use crate::machine::memory::{spec_read, spec_write, spec_write_bytes, MachineMemory, MemoryView};

verus! {

/// First guest address of the service entry points.
pub const SERVICE_BASE: u32 = 0x0c00_0000;

/// Guest address of the system memory-block descriptor.
pub const MEMORY_BLOCK_PTR: u32 = 0x0580_0000;

/// Entry point of the memory-block methods stored in each descriptor.
pub const MEMORY_BLOCK_SERVICE: u32 = 0x0c00_6c48;

/// Size of the system memory block (4 MiB).
pub const SYSTEM_BLOCK_SIZE: u32 = 0x40_0000;

/// Guest memory after writing `values` as consecutive words at `address`,
/// `address + 4`, ...
pub open spec fn spec_write_words(m: MemoryView, address: u32, values: Seq<u32>) -> MemoryView
    decreases values.len(),
{
    if values.len() == 0 {
        m
    } else {
        spec_write_words(
            spec_write(m, address, values[0], 4),
            address.wrapping_add(4),
            values.drop_first(),
        )
    }
}

/// Set up the memory-block descriptor at `block` for a block of `size`
/// bytes: the system descriptor uses the fixed pool, any other gets its
/// block from the heap. The descriptor holds the base, the used offset
/// (0), the size and the entry points of its three methods.
pub open spec fn spec_initialize_memory_block(h: HeapView, m: MemoryView, block: u32, size: u32) -> (
    HeapView,
    MemoryView,
) {
    let (base, h1) = if block == MEMORY_BLOCK_PTR {
        (MEMORY_BLOCK_POOL, h)
    } else {
        spec_allocate(h, size)
    };
    (
        h1,
        spec_write_words(
            m,
            block,
            seq![
                base,
                0u32,
                size,
                MEMORY_BLOCK_SERVICE,
                (MEMORY_BLOCK_SERVICE + 4) as u32,
                (MEMORY_BLOCK_SERVICE + 8) as u32,
            ],
        ),
    )
}

/// Take `requested` bytes, rounded up to 4, from the memory block whose
/// descriptor is at `block`: the address past the used part, or 0 when the
/// block has no base or not enough room left.
pub open spec fn spec_allocate_from_memory_block(m: MemoryView, block: u32, requested: u32) -> (
    u32,
    MemoryView,
) {
    let aligned = (requested.saturating_add(3) / 4 * 4) as u32;
    let (base, m1) = spec_read(m, block, 4);
    let (offset, m2) = spec_read(m1, block.wrapping_add(4), 4);
    let (size, m3) = spec_read(m2, block.wrapping_add(8), 4);
    if base != 0 && offset.saturating_add(aligned) <= size {
        (
            base.wrapping_add(offset),
            spec_write(m3, block.wrapping_add(4), offset.wrapping_add(aligned), 4),
        )
    } else {
        (0, m3)
    }
}

/// Write `values` as consecutive words from `address` on.
fn write_words(memory: &mut MachineMemory, address: u32, values: &[u32])
    ensures
        final(memory)@ == spec_write_words(old(memory)@, address, values@),
{
    let mut at = address;
    let mut i: usize = 0;
    assert(values@.subrange(0, values@.len() as int) =~= values@);
    while i < values.len()
        invariant
            i <= values@.len(),
            spec_write_words(memory@, at, values@.subrange(i as int, values@.len() as int))
                == spec_write_words(old(memory)@, address, values@),
        decreases values@.len() - i,
    {
        let ghost rest = values@.subrange(i as int, values@.len() as int);
        assert(rest.drop_first() =~= values@.subrange(i + 1, values@.len() as int));
        memory.w32(at, values[i]);
        at = at.wrapping_add(4);
        i = i + 1;
    }
    assert(values@.subrange(0, values@.len() as int) =~= values@);
}

/// Set up a memory-block descriptor.
pub fn initialize_memory_block(heap: &mut GuestHeap, memory: &mut MachineMemory, block: u32, size: u32)
    requires
        spec_heap_wf(old(heap)@),
    ensures
        (final(heap)@, final(memory)@) == spec_initialize_memory_block(
            old(heap)@,
            old(memory)@,
            block,
            size,
        ),
        spec_heap_wf(final(heap)@),
{
    let base = if block == MEMORY_BLOCK_PTR {
        MEMORY_BLOCK_POOL
    } else {
        heap.allocate(size)
    };
    let words = [
        base,
        0,
        size,
        MEMORY_BLOCK_SERVICE,
        MEMORY_BLOCK_SERVICE + 4,
        MEMORY_BLOCK_SERVICE + 8,
    ];
    assert(words@ == seq![
        base,
        0u32,
        size,
        MEMORY_BLOCK_SERVICE,
        (MEMORY_BLOCK_SERVICE + 4) as u32,
        (MEMORY_BLOCK_SERVICE + 8) as u32,
    ]);
    write_words(memory, block, &words);
}

/// Take bytes from a memory block; 0 when it has no room.
pub fn allocate_from_memory_block(memory: &mut MachineMemory, block: u32, requested: u32) -> (res: u32)
    ensures
        (res, final(memory)@) == spec_allocate_from_memory_block(old(memory)@, block, requested),
{
    let padded = requested.saturating_add(3);
    let aligned = padded / 4 * 4;
    let base = memory.r32(block);
    let offset = memory.r32(block.wrapping_add(4));
    let size = memory.r32(block.wrapping_add(8));
    if base != 0 && offset.saturating_add(aligned) <= size {
        memory.w32(block.wrapping_add(4), offset.wrapping_add(aligned));
        base.wrapping_add(offset)
    } else {
        0
    }
}

/// The memory manager services (group 2), by index, with arguments `r0`
/// and `r1`: the result and the heap and memory after the call.
pub open spec fn spec_memory_service(h: HeapView, m: MemoryView, index: u32, r0: u32, r1: u32) -> (
    u32,
    HeapView,
    MemoryView,
) {
    if index == 2 {
        // Allocate at least 2 bytes and store the address at r0.
        let size = if r1 > 2 {
            r1
        } else {
            2
        };
        let (pointer, h1) = spec_allocate(h, size);
        (1, h1, spec_write(m, r0, pointer, 4))
    } else if index == 3 {
        // Free the allocation whose address is stored at r0 and clear it.
        if r0 == 0 {
            (0, h, m)
        } else {
            let (pointer, m1) = spec_read(m, r0, 4);
            (0, spec_deallocate(h, pointer), spec_write(m1, r0, 0, 4))
        }
    } else if index == 5 {
        let (h1, m1) = spec_initialize_memory_block(h, m, r0, r1);
        (r0, h1, m1)
    } else if index == 6 {
        let (pointer, m1) = spec_allocate_from_memory_block(m, r0, r1);
        (pointer, h, m1)
    } else if index == 7 {
        // Reset the used offset of the block at r0.
        (r0, h, spec_write(m, r0.wrapping_add(4), 0, 4))
    } else if index == 8 {
        (MEMORY_BLOCK_PTR, h, m)
    } else if index == 9 {
        let (h1, m1) = spec_initialize_memory_block(h, m, MEMORY_BLOCK_PTR, SYSTEM_BLOCK_SIZE);
        (MEMORY_BLOCK_PTR, h1, m1)
    } else if index == 10 || index == 11 {
        // Set up the system block on first use, else reset it.
        let (base, m1) = spec_read(m, MEMORY_BLOCK_PTR, 4);
        if base == 0 {
            let (h1, m2) = spec_initialize_memory_block(h, m1, MEMORY_BLOCK_PTR, SYSTEM_BLOCK_SIZE);
            (MEMORY_BLOCK_PTR, h1, m2)
        } else {
            (MEMORY_BLOCK_PTR, h, spec_write(m1, (MEMORY_BLOCK_PTR + 4) as u32, 0, 4))
        }
    } else if index == 12 {
        // Take r0 bytes from the system block, setting it up on first use.
        let (base, m1) = spec_read(m, MEMORY_BLOCK_PTR, 4);
        let (h1, m2) = if base == 0 {
            spec_initialize_memory_block(h, m1, MEMORY_BLOCK_PTR, SYSTEM_BLOCK_SIZE)
        } else {
            (h, m1)
        };
        let (pointer, m3) = spec_allocate_from_memory_block(m2, MEMORY_BLOCK_PTR, r0);
        (pointer, h1, m3)
    } else if index == 13 {
        // Allocate at least one byte and return the address.
        let size = if r0 > 1 {
            r0
        } else {
            1
        };
        let (pointer, h1) = spec_allocate(h, size);
        (pointer, h1, m)
    } else if index == 14 {
        (0, spec_deallocate(h, r0), m)
    } else {
        (0, h, m)
    }
}

/// Run memory manager service `index` (group 2).
pub fn handle_memory_service(
    heap: &mut GuestHeap,
    memory: &mut MachineMemory,
    index: u32,
    r0: u32,
    r1: u32,
) -> (res: u32)
    requires
        spec_heap_wf(old(heap)@),
    ensures
        (res, final(heap)@, final(memory)@) == spec_memory_service(
            old(heap)@,
            old(memory)@,
            index,
            r0,
            r1,
        ),
        spec_heap_wf(final(heap)@),
{
    match index {
        2 => {
            let size = if r1 > 2 {
                r1
            } else {
                2
            };
            let pointer = heap.allocate(size);
            memory.w32(r0, pointer);
            1
        },
        3 => {
            if r0 != 0 {
                let pointer = memory.r32(r0);
                heap.deallocate(pointer);
                memory.w32(r0, 0);
            }
            0
        },
        5 => {
            initialize_memory_block(heap, memory, r0, r1);
            r0
        },
        6 => allocate_from_memory_block(memory, r0, r1),
        7 => {
            memory.w32(r0.wrapping_add(4), 0);
            r0
        },
        8 => MEMORY_BLOCK_PTR,
        9 => {
            initialize_memory_block(heap, memory, MEMORY_BLOCK_PTR, SYSTEM_BLOCK_SIZE);
            MEMORY_BLOCK_PTR
        },
        10 | 11 => {
            if memory.r32(MEMORY_BLOCK_PTR) == 0 {
                initialize_memory_block(heap, memory, MEMORY_BLOCK_PTR, SYSTEM_BLOCK_SIZE);
            } else {
                memory.w32(MEMORY_BLOCK_PTR + 4, 0);
            }
            MEMORY_BLOCK_PTR
        },
        12 => {
            if memory.r32(MEMORY_BLOCK_PTR) == 0 {
                initialize_memory_block(heap, memory, MEMORY_BLOCK_PTR, SYSTEM_BLOCK_SIZE);
            }
            allocate_from_memory_block(memory, MEMORY_BLOCK_PTR, r0)
        },
        13 => {
            let size = if r0 > 1 {
                r0
            } else {
                1
            };
            heap.allocate(size)
        },
        14 => {
            heap.deallocate(r0);
            0
        },
        _ => 0,
    }
}

/// The methods of a memory block (group 27), by index, on the block whose
/// descriptor is at `r0`: take `r1` bytes, reset the used offset, or
/// release the block (returning a heap block to the heap) and clear the
/// descriptor.
pub open spec fn spec_memory_block_service(h: HeapView, m: MemoryView, index: u32, r0: u32, r1: u32) -> (
    u32,
    HeapView,
    MemoryView,
) {
    if index == 0 {
        let (pointer, m1) = spec_allocate_from_memory_block(m, r0, r1);
        (pointer, h, m1)
    } else if index == 1 {
        (r0, h, spec_write(m, r0.wrapping_add(4), 0, 4))
    } else if index == 2 {
        let (base, m1) = spec_read(m, r0, 4);
        let h1 = if r0 != MEMORY_BLOCK_PTR {
            spec_deallocate(h, base)
        } else {
            h
        };
        (0, h1, spec_write_words(m1, r0, seq![0u32, 0u32, 0u32]))
    } else {
        (0, h, m)
    }
}

/// Run memory-block method `index` (group 27).
pub fn handle_memory_block_service(
    heap: &mut GuestHeap,
    memory: &mut MachineMemory,
    index: u32,
    r0: u32,
    r1: u32,
) -> (res: u32)
    requires
        spec_heap_wf(old(heap)@),
    ensures
        (res, final(heap)@, final(memory)@) == spec_memory_block_service(
            old(heap)@,
            old(memory)@,
            index,
            r0,
            r1,
        ),
        spec_heap_wf(final(heap)@),
{
    let block = r0;
    match index {
        0 => allocate_from_memory_block(memory, block, r1),
        1 => {
            memory.w32(block.wrapping_add(4), 0);
            block
        },
        2 => {
            let base = memory.r32(block);
            if block != MEMORY_BLOCK_PTR {
                heap.deallocate(base);
            }
            let zeros = [0u32, 0, 0];
            assert(zeros@ == seq![0u32, 0u32, 0u32]);
            write_words(memory, block, &zeros);
            0
        },
        _ => 0,
    }
}

/// The identification string of the system service, with its terminator.
pub open spec fn spec_system_name() -> Seq<u8> {
    seq![0x63u8, 0x62, 0x65, 0x5f, 0x65, 0x6d, 0x75, 0]
}

/// The system services (group 1), by index, with arguments `r0` to `r2`
/// and the instruction counter: fixed answers about the device, the
/// working directory ("./" in UCS-2), the name "cbe_emu" cut to the
/// capacity in `r1`, and clearing of an optional output byte.
pub open spec fn spec_system_service(
    m: MemoryView,
    index: u32,
    r0: u32,
    r1: u32,
    r2: u32,
    instruction_count: u64,
) -> (u32, MemoryView) {
    if index == 3 {
        (3, m)
    } else if index == 15 || index == 37 || index == 80 || index == 89 {
        (1, m)
    } else if index == 17 {
        let m1 = spec_write(m, r0, 0x2e, 2);
        let m2 = spec_write(m1, r0.wrapping_add(2), 0x2f, 2);
        (4, spec_write(m2, r0.wrapping_add(4), 0, 2))
    } else if index == 22 {
        (255, m)
    } else if index == 25 {
        let length = if r1 < 8 {
            r1 as int
        } else {
            8
        };
        (0, spec_write_bytes(m, r0, spec_system_name().subrange(0, length)))
    } else if index == 30 {
        (46, m)
    } else if index == 33 {
        (1002, m)
    } else if index == 47 {
        ((instruction_count % 0x1_0000_0000) as u32, m)
    } else if index == 64 {
        (0x0e, m)
    } else if index == 65 {
        (5, m)
    } else if index == 106 {
        (0, if r1 != 0 && r2 != 0 {
            spec_write(m, r1, 0, 1)
        } else {
            m
        })
    } else {
        (0, m)
    }
}

/// Run system service `index` (group 1).
pub fn handle_system_service(
    memory: &mut MachineMemory,
    index: u32,
    r0: u32,
    r1: u32,
    r2: u32,
    instruction_count: u64,
) -> (res: u32)
    ensures
        (res, final(memory)@) == spec_system_service(old(memory)@, index, r0, r1, r2, instruction_count),
{
    match index {
        3 => 3,
        15 | 37 | 80 | 89 => 1,
        17 => {
            memory.w16(r0, 0x2e);
            memory.w16(r0.wrapping_add(2), 0x2f);
            memory.w16(r0.wrapping_add(4), 0);
            4
        },
        22 => 255,
        25 => {
            let name: [u8; 8] = [0x63, 0x62, 0x65, 0x5f, 0x65, 0x6d, 0x75, 0];
            let length: usize = if r1 < 8 {
                r1 as usize
            } else {
                8
            };
            assert(name@ == spec_system_name());
            let part = vstd::slice::slice_subrange(name.as_slice(), 0, length);
            memory.write_bytes(r0, part);
            0
        },
        30 => 46,
        33 => 1002,
        47 => (instruction_count % 0x1_0000_0000) as u32,
        64 => 0x0e,
        65 => 5,
        106 => {
            if r1 != 0 && r2 != 0 {
                memory.w8(r1, 0);
            }
            0
        },
        _ => 0,
    }
}

/// Largest string length accepted by the length-prefixed reader (the heap
/// size, 16 MiB).
pub const MAX_PREFIXED_LENGTH: u32 = 0x100_0000;

/// Copy `count` bytes from `buffer + start + k` to `destination + k`, for
/// `k` from `from` on, reading and writing one byte at a time.
pub open spec fn spec_copy_bytes_from(
    m: MemoryView,
    buffer: u32,
    start: u32,
    destination: u32,
    count: u32,
    from: int,
) -> MemoryView
    decreases count - from,
{
    if from < 0 || from >= count {
        m
    } else {
        let (byte, m1) = spec_read(m, buffer.wrapping_add(start.wrapping_add(from as u32)), 1);
        spec_copy_bytes_from(
            spec_write(m1, destination.wrapping_add(from as u32), byte, 1),
            buffer,
            start,
            destination,
            count,
            from + 1,
        )
    }
}

/// Read a length-prefixed string from `buffer` at the offset stored at
/// `cursor`: the length is a byte, or a word when `wide_length`; the bytes
/// are copied into a fresh heap block with a terminator, the cursor moves
/// past them, and the block's address is returned. A length above
/// `MAX_PREFIXED_LENGTH` gives 0 and changes nothing but the reads.
pub open spec fn spec_read_length_prefixed_string(
    h: HeapView,
    m: MemoryView,
    buffer: u32,
    cursor: u32,
    wide_length: bool,
) -> (u32, HeapView, MemoryView) {
    let (offset, m1) = spec_read(m, cursor, 4);
    let (length, m2) = spec_read(m1, buffer.wrapping_add(offset), if wide_length { 4 } else { 1 });
    let start = offset.wrapping_add(if wide_length { 4 } else { 1 });
    if length > MAX_PREFIXED_LENGTH {
        (0, h, m2)
    } else {
        let (result, h1) = spec_allocate(h, (length + 1) as u32);
        let m3 = spec_copy_bytes_from(m2, buffer, start, result, length, 0);
        let m4 = spec_write(m3, result.wrapping_add(length), 0, 1);
        (result, h1, spec_write(m4, cursor, start.wrapping_add(length), 4))
    }
}

/// Read a length-prefixed string into a fresh heap block.
pub fn read_length_prefixed_string(
    heap: &mut GuestHeap,
    memory: &mut MachineMemory,
    buffer: u32,
    cursor: u32,
    wide_length: bool,
) -> (res: u32)
    requires
        spec_heap_wf(old(heap)@),
    ensures
        (res, final(heap)@, final(memory)@) == spec_read_length_prefixed_string(
            old(heap)@,
            old(memory)@,
            buffer,
            cursor,
            wide_length,
        ),
        spec_heap_wf(final(heap)@),
{
    let offset = memory.r32(cursor);
    let length = if wide_length {
        memory.r32(buffer.wrapping_add(offset))
    } else {
        memory.r8(buffer.wrapping_add(offset)) as u32
    };
    let start = offset.wrapping_add(if wide_length {
        4
    } else {
        1
    });
    if length > MAX_PREFIXED_LENGTH {
        return 0;
    }
    let result = heap.allocate(length + 1);
    let ghost copied_from = memory@;
    let mut index: u32 = 0;
    while index < length
        invariant
            index <= length,
            spec_copy_bytes_from(memory@, buffer, start, result, length, index as int)
                == spec_copy_bytes_from(copied_from, buffer, start, result, length, 0),
        decreases length - index,
    {
        let byte = memory.r8(buffer.wrapping_add(start.wrapping_add(index)));
        memory.w8(result.wrapping_add(index), byte);
        index = index + 1;
    }
    memory.w8(result.wrapping_add(length), 0);
    memory.w32(cursor, start.wrapping_add(length));
    result
}

} // verus!
