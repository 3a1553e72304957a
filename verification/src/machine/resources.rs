//! Data packages in guest memory (service group 21) and the lookups of
//! packaged resources by id and by name.
//!
//! A data package object holds, at these offsets: a loaded flag (0), the id
//! high byte of a child package (1), its name (4), the resource count (8),
//! the child count (10), the name, data and id tables (12, 16, 20), a base
//! added to data offsets (24), the child table (28), eleven method entries
//! (32) and one more (80), a file-backed flag (84) with the file offset
//! (88), handle (92) and data end (96) of a package read from a file.
//!
//! Nested packages are searched to a depth of `MAX_PACKAGE_DEPTH`.
//! Guest addresses are computed with wrapping arithmetic.
use vstd::prelude::*;

use crate::machine::nicai::{spec_machine_wf, MachineView, NicaiMachine, DATA_PACKAGE_SIZE, DREAM_FACTORY_PACKAGE_SLOT};
use crate::machine::packages::resources_view;
use crate::machine::heap::{spec_allocate, spec_heap_wf, GuestHeap, HeapView};
use crate::machine::memory::{spec_read, spec_write, spec_write_bytes, MachineMemory, MemoryView};
use crate::machine::services::SERVICE_BASE;
use crate::machine::strings::{gbk_decode, gbk_encode, read_c_bytes, spec_c_bytes, spec_gbk_decode, spec_gbk_encode};
use crate::machine::tables::TABLE_STRIDE;
use crate::text::{chars_of, copy_chars, eq_ignore_ascii_case, spec_lower};
use crate::machine::virtual_fs::{spec_read as spec_fs_read, spec_read_past_end, spec_seek, FsView, VirtualFileSystem};

verus! {

/// How deep nested packages are searched.
pub const MAX_PACKAGE_DEPTH: u32 = 64;

/// `a * b`, saturating at `u32::MAX`.
pub open spec fn spec_sat_mul(a: u32, b: u32) -> u32 {
    if a * b > u32::MAX {
        u32::MAX
    } else {
        (a * b) as u32
    }
}

/// `a * b`, saturating at `u32::MAX`.
pub fn sat_mul(a: u32, b: u32) -> (res: u32)
    ensures
        res == spec_sat_mul(a, b),
{
    assert(a as u64 * b as u64 <= 0xffff_ffff * 0xffff_ffff) by (nonlinear_arith)
        requires
            a <= 0xffff_ffff,
            b <= 0xffff_ffff,
    ;
    let p = a as u64 * b as u64;
    if p > u32::MAX as u64 {
        u32::MAX
    } else {
        p as u32
    }
}

/// At least `floor`, else `v`.
pub open spec fn spec_at_least(v: u32, floor: u32) -> u32 {
    if v > floor {
        v
    } else {
        floor
    }
}

/// Entry point of data-package method `index` (group 21).
pub open spec fn spec_package_method(index: int) -> u32 {
    (SERVICE_BASE + TABLE_STRIDE * 21 + index * 4) as u32
}

/// Guest memory, heap and file system, threaded through package lookups.
pub struct PackageState {
    pub m: MemoryView,
    pub h: HeapView,
    pub fs: FsView,
}

/// A guest read within a package state.
pub open spec fn spec_pread(s: PackageState, address: u32, size: int) -> (u32, PackageState) {
    let (v, m) = spec_read(s.m, address, size);
    (v, PackageState { m, ..s })
}

/// The zero-terminated GBK string at `address`, at most `limit` bytes.
pub open spec fn spec_gbk_string(m: MemoryView, address: u32, limit: u32) -> (Seq<char>, MemoryView) {
    let (bytes, m1) = spec_c_bytes(m, address, limit);
    (spec_gbk_decode(bytes), m1)
}

/// Read a zero-terminated GBK string.
pub fn read_gbk_string(memory: &mut MachineMemory, address: u32, limit: u32) -> (res: String)
    requires
        limit <= 0x1_0000,
    ensures
        (res@, final(memory)@) == spec_gbk_string(old(memory)@, address, limit),
{
    let bytes = read_c_bytes(memory, address, limit);
    gbk_decode(bytes.as_slice())
}

/// Set up a data package object for `capacity` children: cleared fields,
/// marked loaded, a child table from the heap (at least one entry), no
/// file, and its method entries. The result for the guest is the entry of
/// method 10.
pub open spec fn spec_initialize_data_package(h: HeapView, m: MemoryView, package: u32, capacity: u32) -> (
    u32,
    HeapView,
    MemoryView,
) {
    let m1 = spec_write(m, package.wrapping_add(4), 0, 4);
    let m2 = spec_write(m1, package.wrapping_add(8), 0, 4);
    let m3 = spec_write(m2, package.wrapping_add(12), 0, 4);
    let m4 = spec_write(m3, package.wrapping_add(16), 0, 4);
    let m5 = spec_write(m4, package.wrapping_add(24), 0, 4);
    let m6 = spec_write(m5, package.wrapping_add(28), 0, 4);
    let m7 = spec_write(m6, package, 1, 1);
    let (entries, h1) = spec_allocate(h, spec_at_least(spec_sat_mul(capacity, 4), 4));
    let m8 = spec_write(m7, package.wrapping_add(28), entries, 4);
    let m9 = spec_write(m8, package.wrapping_add(92), u32::MAX, 4);
    let m10 = spec_write(m9, package.wrapping_add(100), 0, 4);
    let m11 = spec_method_entries(m10, package, 11);
    let m12 = spec_write(m11, package.wrapping_add(80), spec_package_method(11), 4);
    (spec_package_method(10), h1, m12)
}

/// The first `count` method entries of a package.
pub open spec fn spec_method_entries(m: MemoryView, package: u32, count: int) -> MemoryView
    decreases count,
{
    if count <= 0 {
        m
    } else {
        spec_write(
            spec_method_entries(m, package, count - 1),
            package.wrapping_add((32 + (count - 1) * 4) as u32),
            spec_package_method(count - 1),
            4,
        )
    }
}

/// Set up a data package object (see `spec_initialize_data_package`).
pub fn initialize_data_package(
    heap: &mut GuestHeap,
    memory: &mut MachineMemory,
    package: u32,
    capacity: u32,
) -> (res: u32)
    requires
        spec_heap_wf(old(heap)@),
    ensures
        spec_heap_wf(final(heap)@),
        (res, final(heap)@, final(memory)@) == spec_initialize_data_package(old(heap)@, old(memory)@, package, capacity),
{
    memory.w32(package.wrapping_add(4), 0);
    memory.w32(package.wrapping_add(8), 0);
    memory.w32(package.wrapping_add(12), 0);
    memory.w32(package.wrapping_add(16), 0);
    memory.w32(package.wrapping_add(24), 0);
    memory.w32(package.wrapping_add(28), 0);
    memory.w8(package, 1);
    let scaled = sat_mul(capacity, 4);
    let want = if scaled > 4 {
        scaled
    } else {
        4
    };
    let entries = heap.allocate(want);
    memory.w32(package.wrapping_add(28), entries);
    memory.w32(package.wrapping_add(92), u32::MAX);
    memory.w32(package.wrapping_add(100), 0);
    let ghost m10 = memory@;
    let mut index: u32 = 0;
    while index <= 10
        invariant
            index <= 11,
            memory@ == spec_method_entries(m10, package, index as int),
        decreases 11 - index,
    {
        memory.w32(package.wrapping_add(32 + index * 4), SERVICE_BASE + TABLE_STRIDE * 21 + index * 4);
        index = index + 1;
    }
    memory.w32(package.wrapping_add(80), SERVICE_BASE + TABLE_STRIDE * 21 + 11 * 4);
    SERVICE_BASE + TABLE_STRIDE * 21 + 10 * 4
}

/// A resource of a file-backed package: the bytes from the data offset of
/// entry `index` to the next entry's (or the package's data end), read from
/// the package's file handle at the package's file offset into a fresh heap
/// block. 0 when the range is reversed, the offset leaves the signed 32-bit
/// range, the handle cannot seek or read there, fewer bytes come back, or
/// (without a read) the handle stands past the end of its file.
pub open spec fn spec_file_backed_resource(
    s: PackageState,
    package: u32,
    data: u32,
    count: u32,
    index: u32,
) -> (u32, PackageState) {
    let (start, s1) = spec_pread(s, data.wrapping_add((index * 4) as u32), 4);
    let (end, s2) = if index + 1 < count {
        spec_pread(s1, data.wrapping_add(((index + 1) * 4) as u32), 4)
    } else {
        spec_pread(s1, package.wrapping_add(96), 4)
    };
    if end < start {
        (0, s2)
    } else {
        let size = (end - start) as u32;
        let (base, s3) = spec_pread(s2, package.wrapping_add(88), 4);
        if base + start > u32::MAX || base + start > i32::MAX {
            (0, s3)
        } else {
            let offset = (base + start) as i32;
            let (handle, s4) = spec_pread(s3, package.wrapping_add(92), 4);
            let (sought, fs1) = spec_seek(s4.fs, handle, offset, 0);
            if sought is None {
                (0, PackageState { fs: fs1, ..s4 })
            } else if spec_read_past_end(fs1, handle) {
                (0, PackageState { fs: fs1, ..s4 })
            } else {
                let (bytes, fs2) = spec_fs_read(fs1, handle, size as usize);
                match bytes {
                    None => (0, PackageState { fs: fs2, ..s4 }),
                    Some(b) => if b.len() != size {
                        (0, PackageState { fs: fs2, ..s4 })
                    } else {
                        let (output, h1) = spec_allocate(s4.h, if size > 1 { size } else { 1 });
                        let m5 = if output != 0 {
                            spec_write_bytes(s4.m, output, b)
                        } else {
                            s4.m
                        };
                        (output, PackageState { m: m5, h: h1, fs: fs2 })
                    },
                }
            }
        }
    }
}

/// The data of the resource with `id` in `package` or, failing that, in
/// its children (depth-first, to `depth` more levels): the entry's data
/// offset plus the package's base, read from the file for a file-backed
/// package; 0 when absent.
pub open spec fn spec_pkg_by_id(s: PackageState, package: u32, id: u32, depth: u32) -> (u32, PackageState)
    decreases depth, 0x2_0000int,
{
    let (count, s1) = spec_pread(s, package.wrapping_add(8), 2);
    let (ids, s2) = spec_pread(s1, package.wrapping_add(20), 4);
    let (data, s3) = spec_pread(s2, package.wrapping_add(16), 4);
    spec_pkg_by_id_scan(s3, package, id, count, ids, data, 0, depth)
}

/// The entry scan of `spec_pkg_by_id` from entry `index` on.
pub open spec fn spec_pkg_by_id_scan(
    s: PackageState,
    package: u32,
    id: u32,
    count: u32,
    ids: u32,
    data: u32,
    index: u32,
    depth: u32,
) -> (u32, PackageState)
    decreases depth, 0x1_0000 + (if index <= count && count <= 0xffff {
        count - index
    } else {
        0
    }),
{
    if index >= count || count > 0xffff {
        let (child_count, s1) = spec_pread(s, package.wrapping_add(10), 2);
        let (children, s2) = spec_pread(s1, package.wrapping_add(28), 4);
        spec_pkg_by_id_children(s2, id, child_count, children, 0, depth)
    } else {
        let (entry_id, s1) = spec_pread(s, ids.wrapping_add((index * 2) as u32), 2);
        if entry_id == id {
            let (file_backed, s2) = spec_pread(s1, package.wrapping_add(84), 1);
            if file_backed != 0 {
                spec_file_backed_resource(s2, package, data, count, index)
            } else {
                let (offset, s3) = spec_pread(s2, data.wrapping_add((index * 4) as u32), 4);
                let (base, s4) = spec_pread(s3, package.wrapping_add(24), 4);
                (offset.wrapping_add(base), s4)
            }
        } else {
            spec_pkg_by_id_scan(s1, package, id, count, ids, data, (index + 1) as u32, depth)
        }
    }
}

/// The child search of `spec_pkg_by_id` from child `index` on.
pub open spec fn spec_pkg_by_id_children(
    s: PackageState,
    id: u32,
    child_count: u32,
    children: u32,
    index: u32,
    depth: u32,
) -> (u32, PackageState)
    decreases depth, (if index <= child_count && child_count <= 0xffff {
        child_count - index
    } else {
        0
    }),
{
    if index >= child_count || child_count > 0xffff || depth == 0 {
        (0, s)
    } else {
        let (child, s1) = spec_pread(s, children.wrapping_add((index * 4) as u32), 4);
        if child == 0 {
            spec_pkg_by_id_children(s1, id, child_count, children, (index + 1) as u32, depth)
        } else {
            let (found, s2) = spec_pkg_by_id(s1, child, id, (depth - 1) as u32);
            if found != 0 {
                (found, s2)
            } else {
                spec_pkg_by_id_children(s2, id, child_count, children, (index + 1) as u32, depth)
            }
        }
    }
}

/// The view of the three parts.
pub open spec fn spec_pstate(memory: MemoryView, heap: HeapView, fs: FsView) -> PackageState {
    PackageState { m: memory, h: heap, fs }
}

/// Read a resource of a file-backed package (see
/// `spec_file_backed_resource`).
fn file_backed_resource(
    memory: &mut MachineMemory,
    heap: &mut GuestHeap,
    fs: &mut VirtualFileSystem,
    package: u32,
    data: u32,
    count: u32,
    index: u32,
) -> (res: u32)
    requires
        spec_heap_wf(old(heap)@),
        old(fs).wf(),
        index < count <= 0xffff,
    ensures
        spec_heap_wf(final(heap)@),
        final(fs).wf(),
        (res, spec_pstate(final(memory)@, final(heap)@, final(fs)@)) == spec_file_backed_resource(
            spec_pstate(old(memory)@, old(heap)@, old(fs)@),
            package,
            data,
            count,
            index,
        ),
{
    let start = memory.r32(data.wrapping_add((index * 4) as u32));
    let end = if index + 1 < count {
        memory.r32(data.wrapping_add((index + 1) * 4))
    } else {
        memory.r32(package.wrapping_add(96))
    };
    if end < start {
        return 0;
    }
    let size = end - start;
    let base = memory.r32(package.wrapping_add(88));
    if base as u64 + start as u64 > u32::MAX as u64 || base as u64 + start as u64 > i32::MAX as u64 {
        return 0;
    }
    let offset = (base + start) as i32;
    let handle = memory.r32(package.wrapping_add(92));
    if fs.seek(handle, offset, 0).is_none() {
        return 0;
    }
    if fs.reads_past_end(handle) {
        return 0;
    }
    let bytes = match fs.read(handle, size as usize) {
        Some(b) => b,
        None => return 0,
    };
    if bytes.len() != size as usize {
        return 0;
    }
    let output = heap.allocate(
        if size > 1 {
            size
        } else {
            1
        },
    );
    if output != 0 {
        memory.write_bytes(output, bytes.as_slice());
    }
    output
}

/// The data of the resource with `id` (see `spec_pkg_by_id`).
pub fn package_resource_by_id(
    memory: &mut MachineMemory,
    heap: &mut GuestHeap,
    fs: &mut VirtualFileSystem,
    package: u32,
    id: u32,
    depth: u32,
) -> (res: u32)
    requires
        spec_heap_wf(old(heap)@),
        old(fs).wf(),
    ensures
        spec_heap_wf(final(heap)@),
        final(fs).wf(),
        (res, spec_pstate(final(memory)@, final(heap)@, final(fs)@)) == spec_pkg_by_id(
            spec_pstate(old(memory)@, old(heap)@, old(fs)@),
            package,
            id,
            depth,
        ),
    decreases depth, 0x2_0000int,
{
    let count = memory.r16(package.wrapping_add(8)) as u32;
    let ids = memory.r32(package.wrapping_add(20));
    let data = memory.r32(package.wrapping_add(16));
    let ghost s3 = spec_pstate(memory@, heap@, fs@);
    let ghost target = spec_pkg_by_id_scan(s3, package, id, count, ids, data, 0, depth);
    assert(spec_pkg_by_id(spec_pstate(old(memory)@, old(heap)@, old(fs)@), package, id, depth) == target);
    let mut index: u32 = 0;
    while index < count
        invariant
            count <= 0xffff,
            index <= count,
            spec_heap_wf(heap@),
            fs.wf(),
            spec_pkg_by_id_scan(spec_pstate(memory@, heap@, fs@), package, id, count, ids, data, index, depth)
                == target,
            target == spec_pkg_by_id(spec_pstate(old(memory)@, old(heap)@, old(fs)@), package, id, depth),
        decreases count - index,
    {
        let entry_id = memory.r16(ids.wrapping_add((index * 2) as u32)) as u32;
        if entry_id == id {
            if memory.r8(package.wrapping_add(84)) != 0 {
                return file_backed_resource(memory, heap, fs, package, data, count, index);
            }
            let offset = memory.r32(data.wrapping_add((index * 4) as u32));
            let base = memory.r32(package.wrapping_add(24));
            return offset.wrapping_add(base);
        }
        index = index + 1;
    }
    let child_count = memory.r16(package.wrapping_add(10)) as u32;
    let children = memory.r32(package.wrapping_add(28));
    let mut index: u32 = 0;
    while index < child_count
        invariant
            child_count <= 0xffff,
            index <= child_count,
            spec_heap_wf(heap@),
            fs.wf(),
            spec_pkg_by_id_children(spec_pstate(memory@, heap@, fs@), id, child_count, children, index, depth)
                == target,
            target == spec_pkg_by_id(spec_pstate(old(memory)@, old(heap)@, old(fs)@), package, id, depth),
        decreases child_count - index,
    {
        if depth == 0 {
            return 0;
        }
        let child = memory.r32(children.wrapping_add((index * 4) as u32));
        if child != 0 {
            let found = package_resource_by_id(memory, heap, fs, child, id, depth - 1);
            if found != 0 {
                return found;
            }
        }
        index = index + 1;
    }
    0
}

/// The name of the resource with `id` in `package` or its children
/// (depth-first, to `depth` more levels); 0 when absent.
pub open spec fn spec_pkg_name_by_id(m: MemoryView, package: u32, id: u32, depth: u32) -> (u32, MemoryView)
    decreases depth, 0x2_0000int,
{
    let (count, m1) = spec_read(m, package.wrapping_add(8), 2);
    let (ids, m2) = spec_read(m1, package.wrapping_add(20), 4);
    let (names, m3) = spec_read(m2, package.wrapping_add(12), 4);
    spec_pkg_name_scan(m3, package, id, count, ids, names, 0, depth)
}

/// The entry scan of `spec_pkg_name_by_id` from entry `index` on.
pub open spec fn spec_pkg_name_scan(
    m: MemoryView,
    package: u32,
    id: u32,
    count: u32,
    ids: u32,
    names: u32,
    index: u32,
    depth: u32,
) -> (u32, MemoryView)
    decreases depth, 0x1_0000 + (if index <= count && count <= 0xffff {
        count - index
    } else {
        0
    }),
{
    if index >= count || count > 0xffff {
        let (child_count, m1) = spec_read(m, package.wrapping_add(10), 2);
        let (children, m2) = spec_read(m1, package.wrapping_add(28), 4);
        spec_pkg_name_children(m2, id, child_count, children, 0, depth)
    } else {
        let (entry_id, m1) = spec_read(m, ids.wrapping_add((index * 2) as u32), 2);
        if entry_id == id {
            spec_read(m1, names.wrapping_add((index * 4) as u32), 4)
        } else {
            spec_pkg_name_scan(m1, package, id, count, ids, names, (index + 1) as u32, depth)
        }
    }
}

/// The child search of `spec_pkg_name_by_id` from child `index` on.
pub open spec fn spec_pkg_name_children(
    m: MemoryView,
    id: u32,
    child_count: u32,
    children: u32,
    index: u32,
    depth: u32,
) -> (u32, MemoryView)
    decreases depth, (if index <= child_count && child_count <= 0xffff {
        child_count - index
    } else {
        0
    }),
{
    if index >= child_count || child_count > 0xffff || depth == 0 {
        (0, m)
    } else {
        let (child, m1) = spec_read(m, children.wrapping_add((index * 4) as u32), 4);
        if child == 0 {
            spec_pkg_name_children(m1, id, child_count, children, (index + 1) as u32, depth)
        } else {
            let (found, m2) = spec_pkg_name_by_id(m1, child, id, (depth - 1) as u32);
            if found != 0 {
                (found, m2)
            } else {
                spec_pkg_name_children(m2, id, child_count, children, (index + 1) as u32, depth)
            }
        }
    }
}

/// The name of the resource with `id` (see `spec_pkg_name_by_id`).
pub fn package_resource_name_by_id(memory: &mut MachineMemory, package: u32, id: u32, depth: u32) -> (res: u32)
    ensures
        (res, final(memory)@) == spec_pkg_name_by_id(old(memory)@, package, id, depth),
    decreases depth, 0x2_0000int,
{
    let count = memory.r16(package.wrapping_add(8)) as u32;
    let ids = memory.r32(package.wrapping_add(20));
    let names = memory.r32(package.wrapping_add(12));
    let ghost target = spec_pkg_name_scan(memory@, package, id, count, ids, names, 0, depth);
    let mut index: u32 = 0;
    while index < count
        invariant
            count <= 0xffff,
            index <= count,
            spec_pkg_name_scan(memory@, package, id, count, ids, names, index, depth) == target,
            target == spec_pkg_name_by_id(old(memory)@, package, id, depth),
        decreases count - index,
    {
        if memory.r16(ids.wrapping_add(index * 2)) as u32 == id {
            return memory.r32(names.wrapping_add(index * 4));
        }
        index = index + 1;
    }
    let child_count = memory.r16(package.wrapping_add(10)) as u32;
    let children = memory.r32(package.wrapping_add(28));
    let mut index: u32 = 0;
    while index < child_count
        invariant
            child_count <= 0xffff,
            index <= child_count,
            spec_pkg_name_children(memory@, id, child_count, children, index, depth) == target,
            target == spec_pkg_name_by_id(old(memory)@, package, id, depth),
        decreases child_count - index,
    {
        if depth == 0 {
            return 0;
        }
        let child = memory.r32(children.wrapping_add(index * 4));
        if child != 0 {
            let found = package_resource_name_by_id(memory, child, id, depth - 1);
            if found != 0 {
                return found;
            }
        }
        index = index + 1;
    }
    0
}

/// The part of a path after its last '/' or '\\'.
pub open spec fn spec_basename(s: Seq<char>) -> Seq<char> {
    match spec_last_separator(s, s.len() as int) {
        Some(i) => s.subrange(i + 1, s.len() as int),
        None => s,
    }
}

/// The last separator before position `k`.
pub open spec fn spec_last_separator(s: Seq<char>, k: int) -> Option<int>
    decreases k,
{
    if k <= 0 || k > s.len() {
        None
    } else if s[k - 1] == '/' || s[k - 1] == '\\' {
        Some(k - 1)
    } else {
        spec_last_separator(s, k - 1)
    }
}

/// Whether two resource names match: equal ignoring ASCII case, or with
/// equal base names ignoring ASCII case.
pub open spec fn spec_names_match(left: Seq<char>, right: Seq<char>) -> bool {
    spec_lower(left) == spec_lower(right) || spec_lower(spec_basename(left)) == spec_lower(spec_basename(right))
}

/// The part of a path after its last separator.
pub fn basename(s: &[char]) -> (res: Vec<char>)
    ensures
        res@ == spec_basename(s@),
{
    let mut k: usize = s.len();
    while k > 0
        invariant
            k <= s@.len(),
            spec_last_separator(s@, s@.len() as int) == spec_last_separator(s@, k as int),
        decreases k,
    {
        if s[k - 1] == '/' || s[k - 1] == '\\' {
            return copy_chars(s, k, s.len());
        }
        k = k - 1;
    }
    copy_chars(s, 0, s.len())
}

/// Whether two resource names match (see `spec_names_match`).
pub fn names_match(left: &[char], right: &[char]) -> (res: bool)
    ensures
        res == spec_names_match(left@, right@),
{
    if eq_ignore_ascii_case(left, right) {
        return true;
    }
    let l = basename(left);
    let r = basename(right);
    eq_ignore_ascii_case(l.as_slice(), r.as_slice())
}

/// The id of the first resource, in `package` or its children
/// (depth-first, to `depth` more levels), whose GBK name matches
/// `requested`.
pub open spec fn spec_pkg_id_by_name(m: MemoryView, package: u32, requested: Seq<char>, depth: u32) -> (
    Option<u32>,
    MemoryView,
)
    decreases depth, 0x2_0000int,
{
    let (count, m1) = spec_read(m, package.wrapping_add(8), 2);
    let (ids, m2) = spec_read(m1, package.wrapping_add(20), 4);
    let (names, m3) = spec_read(m2, package.wrapping_add(12), 4);
    spec_pkg_id_scan(m3, package, requested, count, ids, names, 0, depth)
}

/// The entry scan of `spec_pkg_id_by_name` from entry `index` on.
pub open spec fn spec_pkg_id_scan(
    m: MemoryView,
    package: u32,
    requested: Seq<char>,
    count: u32,
    ids: u32,
    names: u32,
    index: u32,
    depth: u32,
) -> (Option<u32>, MemoryView)
    decreases depth, 0x1_0000 + (if index <= count && count <= 0xffff {
        count - index
    } else {
        0
    }),
{
    if index >= count || count > 0xffff {
        let (child_count, m1) = spec_read(m, package.wrapping_add(10), 2);
        let (children, m2) = spec_read(m1, package.wrapping_add(28), 4);
        spec_pkg_id_children(m2, requested, child_count, children, 0, depth)
    } else {
        let (address, m1) = spec_read(m, names.wrapping_add((index * 4) as u32), 4);
        let (candidate, m2) = spec_gbk_string(m1, address, 256);
        if spec_names_match(candidate, requested) {
            let (id, m3) = spec_read(m2, ids.wrapping_add((index * 2) as u32), 2);
            (Some(id), m3)
        } else {
            spec_pkg_id_scan(m2, package, requested, count, ids, names, (index + 1) as u32, depth)
        }
    }
}

/// The child search of `spec_pkg_id_by_name` from child `index` on.
pub open spec fn spec_pkg_id_children(
    m: MemoryView,
    requested: Seq<char>,
    child_count: u32,
    children: u32,
    index: u32,
    depth: u32,
) -> (Option<u32>, MemoryView)
    decreases depth, (if index <= child_count && child_count <= 0xffff {
        child_count - index
    } else {
        0
    }),
{
    if index >= child_count || child_count > 0xffff || depth == 0 {
        (None, m)
    } else {
        let (child, m1) = spec_read(m, children.wrapping_add((index * 4) as u32), 4);
        if child == 0 {
            spec_pkg_id_children(m1, requested, child_count, children, (index + 1) as u32, depth)
        } else {
            let (found, m2) = spec_pkg_id_by_name(m1, child, requested, (depth - 1) as u32);
            if found is Some {
                (found, m2)
            } else {
                spec_pkg_id_children(m2, requested, child_count, children, (index + 1) as u32, depth)
            }
        }
    }
}

/// The id of the resource named `requested` (see `spec_pkg_id_by_name`).
pub fn package_resource_id_by_name(memory: &mut MachineMemory, package: u32, requested: &[char], depth: u32) -> (res:
    Option<u32>)
    ensures
        (res, final(memory)@) == spec_pkg_id_by_name(old(memory)@, package, requested@, depth),
    decreases depth, 0x2_0000int,
{
    let count = memory.r16(package.wrapping_add(8)) as u32;
    let ids = memory.r32(package.wrapping_add(20));
    let names = memory.r32(package.wrapping_add(12));
    let ghost target = spec_pkg_id_scan(memory@, package, requested@, count, ids, names, 0, depth);
    let mut index: u32 = 0;
    while index < count
        invariant
            count <= 0xffff,
            index <= count,
            spec_pkg_id_scan(memory@, package, requested@, count, ids, names, index, depth) == target,
            target == spec_pkg_id_by_name(old(memory)@, package, requested@, depth),
        decreases count - index,
    {
        let address = memory.r32(names.wrapping_add(index * 4));
        let candidate = read_gbk_string(memory, address, 256);
        let candidate_chars = chars_of(candidate.as_str());
        if names_match(candidate_chars.as_slice(), requested) {
            return Some(memory.r16(ids.wrapping_add(index * 2)) as u32);
        }
        index = index + 1;
    }
    let child_count = memory.r16(package.wrapping_add(10)) as u32;
    let children = memory.r32(package.wrapping_add(28));
    let mut index: u32 = 0;
    while index < child_count
        invariant
            child_count <= 0xffff,
            index <= child_count,
            spec_pkg_id_children(memory@, requested@, child_count, children, index, depth) == target,
            target == spec_pkg_id_by_name(old(memory)@, package, requested@, depth),
        decreases child_count - index,
    {
        if depth == 0 {
            return None;
        }
        let child = memory.r32(children.wrapping_add(index * 4));
        if child != 0 {
            let found = package_resource_id_by_name(memory, child, requested, depth - 1);
            if found.is_some() {
                return found;
            }
        }
        index = index + 1;
    }
    None
}

/// Guest memory and heap after copying `text`, GBK-encoded and
/// zero-terminated, into a fresh heap block; its address (0 for text longer
/// than the encoder takes).
pub open spec fn spec_allocate_gbk_string(h: HeapView, m: MemoryView, text: Seq<char>) -> (u32, HeapView, MemoryView) {
    if text.len() > 0x100_0000 {
        (0, h, m)
    } else {
        let encoded = spec_gbk_encode(text);
        let length = encoded.len() as u32;
        let (address, h1) = spec_allocate(h, length.wrapping_add(1));
        let m1 = spec_write_bytes(m, address, encoded);
        (address, h1, spec_write(m1, address.wrapping_add(length), 0, 1))
    }
}

/// Copy `text` into the heap as a zero-terminated GBK string.
pub fn allocate_gbk_string(heap: &mut GuestHeap, memory: &mut MachineMemory, text: &str) -> (res: u32)
    requires
        spec_heap_wf(old(heap)@),
    ensures
        spec_heap_wf(final(heap)@),
        (res, final(heap)@, final(memory)@) == spec_allocate_gbk_string(old(heap)@, old(memory)@, text@),
{
    if text.unicode_len() > 0x100_0000 {
        return 0;
    }
    let encoded = gbk_encode(text);
    let length = encoded.len() as u32;
    let address = heap.allocate(length.wrapping_add(1));
    memory.write_bytes(address, encoded.as_slice());
    memory.w8(address.wrapping_add(length), 0);
    address
}

/// The first packaged resource whose name equals `name` ignoring ASCII
/// case, from `k` on.
pub open spec fn spec_resource_position(resources: Seq<(Seq<char>, Seq<u8>)>, name: Seq<char>, k: int) -> Option<int>
    decreases resources.len() - k,
{
    if k < 0 || k >= resources.len() {
        None
    } else if spec_lower(resources[k].0) == spec_lower(name) {
        Some(k)
    } else {
        spec_resource_position(resources, name, k + 1)
    }
}

/// The machine with new memory, heap and file system.
pub open spec fn spec_with_pstate(v: MachineView, s: PackageState) -> MachineView {
    MachineView { memory: s.m, heap: s.h, fs: s.fs, ..v }
}

/// The data of the resource with `id`: from the current data package when
/// one is set and it has the resource, else the loaded main-package
/// resource with that index, else 0.
pub open spec fn spec_resource_by_id(v: MachineView, id: u32) -> (u32, MachineView) {
    let (package, m1) = spec_read(v.memory, DREAM_FACTORY_PACKAGE_SLOT, 4);
    let fallback = if id < v.resource_data.len() {
        v.resource_data[id as int]
    } else {
        0
    };
    if package != 0 {
        let (found, s) = spec_pkg_by_id(spec_pstate(m1, v.heap, v.fs), package, id, MAX_PACKAGE_DEPTH);
        if found != 0 {
            (found, spec_with_pstate(v, s))
        } else {
            (fallback, spec_with_pstate(v, s))
        }
    } else {
        (fallback, MachineView { memory: m1, ..v })
    }
}

/// The name of the resource with `id`, looked up like its data.
pub open spec fn spec_resource_name_by_id(v: MachineView, id: u32) -> (u32, MachineView) {
    let (package, m1) = spec_read(v.memory, DREAM_FACTORY_PACKAGE_SLOT, 4);
    let fallback = if id < v.resource_names.len() {
        v.resource_names[id as int]
    } else {
        0
    };
    if package != 0 {
        let (found, m2) = spec_pkg_name_by_id(m1, package, id, MAX_PACKAGE_DEPTH);
        if found != 0 {
            (found, MachineView { memory: m2, ..v })
        } else {
            (fallback, MachineView { memory: m2, ..v })
        }
    } else {
        (fallback, MachineView { memory: m1, ..v })
    }
}

/// The id of the resource whose name is the GBK string at `address`: from
/// the current data package, else the index of the packaged resource with
/// that name ignoring ASCII case.
pub open spec fn spec_resource_id_by_name(v: MachineView, address: u32) -> (Option<u32>, MachineView) {
    let (name, m1) = spec_gbk_string(v.memory, address, 256);
    let (package, m2) = spec_read(m1, DREAM_FACTORY_PACKAGE_SLOT, 4);
    let (found, m3) = if package != 0 {
        spec_pkg_id_by_name(m2, package, name, MAX_PACKAGE_DEPTH)
    } else {
        (None, m2)
    };
    let v3 = MachineView { memory: m3, ..v };
    match found {
        Some(id) => (Some(id), v3),
        None => match spec_resource_position(v.resources, name, 0) {
            Some(i) => (Some(i as u32), v3),
            None => (None, v3),
        },
    }
}

/// The data of the resource named by the GBK string at `address`.
pub open spec fn spec_resource_by_name(v: MachineView, address: u32) -> (u32, MachineView) {
    let (id, v1) = spec_resource_id_by_name(v, address);
    match id {
        Some(i) => spec_resource_by_id(v1, i),
        None => (0, v1),
    }
}

impl NicaiMachine {
    /// The data of the resource with `id` (see `spec_resource_by_id`).
    pub fn resource_by_id(&mut self, id: u32) -> (res: u32)
        requires
            old(self).wf(),
        ensures
            final(self).wf(),
            (res, final(self)@) == spec_resource_by_id(old(self)@, id),
    {
        let package = self.memory.r32(DREAM_FACTORY_PACKAGE_SLOT);
        if package != 0 {
            let found = package_resource_by_id(
                &mut self.memory,
                &mut self.heap,
                &mut self.virtual_fs,
                package,
                id,
                MAX_PACKAGE_DEPTH,
            );
            if found != 0 {
                return found;
            }
        }
        if (id as usize) < self.resource_data.len() {
            self.resource_data[id as usize]
        } else {
            0
        }
    }

    /// The name of the resource with `id` (see `spec_resource_name_by_id`).
    pub fn resource_name_by_id(&mut self, id: u32) -> (res: u32)
        requires
            old(self).wf(),
        ensures
            final(self).wf(),
            (res, final(self)@) == spec_resource_name_by_id(old(self)@, id),
    {
        let package = self.memory.r32(DREAM_FACTORY_PACKAGE_SLOT);
        if package != 0 {
            let found = package_resource_name_by_id(&mut self.memory, package, id, MAX_PACKAGE_DEPTH);
            if found != 0 {
                return found;
            }
        }
        if (id as usize) < self.resource_names.len() {
            self.resource_names[id as usize]
        } else {
            0
        }
    }

    /// The id of the resource named at `address` (see
    /// `spec_resource_id_by_name`).
    pub fn resource_id_by_name(&mut self, address: u32) -> (res: Option<u32>)
        requires
            old(self).wf(),
        ensures
            final(self).wf(),
            (res, final(self)@) == spec_resource_id_by_name(old(self)@, address),
    {
        let name = read_gbk_string(&mut self.memory, address, 256);
        let name_chars = chars_of(name.as_str());
        let package = self.memory.r32(DREAM_FACTORY_PACKAGE_SLOT);
        if package != 0 {
            match package_resource_id_by_name(&mut self.memory, package, name_chars.as_slice(), MAX_PACKAGE_DEPTH) {
                Some(id) => return Some(id),
                None => {},
            }
        }
        let ghost rv = self@.resources;
        let ghost v1 = self@;
        assert(spec_resource_id_by_name(old(self)@, address) == (
            match spec_resource_position(rv, name@, 0) {
                Some(i) => Some(i as u32),
                None => None,
            },
            v1,
        ));
        let mut k: usize = 0;
        while k < self.resources.len()
            invariant
                k <= self.resources@.len(),
                self@ == v1,
                spec_machine_wf(v1),
                spec_resource_id_by_name(old(self)@, address) == (
                    match spec_resource_position(rv, name@, 0) {
                        Some(i) => Some(i as u32),
                        None => None,
                    },
                    v1,
                ),
                rv == resources_view(self.resources@),
                name_chars@ == name@,
                spec_resource_position(rv, name@, 0) == spec_resource_position(rv, name@, k as int),
            decreases self.resources@.len() - k,
        {
            let candidate = chars_of(self.resources[k].name.as_str());
            assert(rv[k as int] == self.resources@[k as int]@);
            if eq_ignore_ascii_case(candidate.as_slice(), name_chars.as_slice()) {
                assert(spec_resource_position(rv, name@, k as int) == Some(k as int));
                return Some(k as u32);
            }
            k = k + 1;
        }
        None
    }

    /// The data of the resource named at `address`.
    pub fn resource_by_name(&mut self, address: u32) -> (res: u32)
        requires
            old(self).wf(),
        ensures
            final(self).wf(),
            (res, final(self)@) == spec_resource_by_name(old(self)@, address),
    {
        match self.resource_id_by_name(address) {
            Some(id) => self.resource_by_id(id),
            None => 0,
        }
    }
}

/// The first `k` packaged resources copied into the heap: each one's data
/// block (at least one byte) and its GBK name; the heap, memory and the
/// data and name addresses afterwards.
pub open spec fn spec_fill_resources(
    h: HeapView,
    m: MemoryView,
    resources: Seq<(Seq<char>, Seq<u8>)>,
    k: int,
) -> (HeapView, MemoryView, Seq<u32>, Seq<u32>)
    decreases k,
{
    if k <= 0 {
        (h, m, Seq::empty(), Seq::empty())
    } else {
        let (h1, m1, data, names) = spec_fill_resources(h, m, resources, k - 1);
        let r = resources[k - 1];
        let size = (if r.1.len() > 1 {
            r.1.len()
        } else {
            1
        }) as u32;
        let (address, h2) = spec_allocate(h1, size);
        let m2 = spec_write_bytes(m1, address, r.1);
        let (name, h3, m3) = spec_allocate_gbk_string(h2, m2, r.0);
        (h3, m3, data.push(address), names.push(name))
    }
}

/// The first `k` entries of a package's name, data and id tables.
pub open spec fn spec_resource_tables(
    m: MemoryView,
    names: u32,
    offsets: u32,
    ids: u32,
    data_seq: Seq<u32>,
    name_seq: Seq<u32>,
    k: int,
) -> MemoryView
    decreases k,
{
    if k <= 0 {
        m
    } else {
        let i = k - 1;
        let m1 = spec_resource_tables(m, names, offsets, ids, data_seq, name_seq, i);
        let m2 = spec_write(m1, names.wrapping_add((i * 4) as u32), name_seq[i], 4);
        let m3 = spec_write(m2, offsets.wrapping_add((i * 4) as u32), data_seq[i], 4);
        spec_write(m3, ids.wrapping_add((i * 2) as u32), i as u32, 2)
    }
}

/// A loaded package's header: loaded, `count` entries, its tables, no
/// base offset and no file data.
pub open spec fn spec_package_header(m: MemoryView, package: u32, count: u32, names: u32, offsets: u32, ids: u32) -> MemoryView {
    let m3 = spec_write(m, package, 1, 1);
    let m4 = spec_write(m3, package.wrapping_add(8), count, 2);
    let m5 = spec_write(m4, package.wrapping_add(12), names, 4);
    let m6 = spec_write(m5, package.wrapping_add(16), offsets, 4);
    let m7 = spec_write(m6, package.wrapping_add(20), ids, 4);
    let m8 = spec_write(m7, package.wrapping_add(24), 0, 4);
    spec_write(m8, package.wrapping_add(96), 0, 4)
}

/// Write a loaded package's header.
fn write_package_header(memory: &mut MachineMemory, package: u32, count: u32, names: u32, offsets: u32, ids: u32)
    requires
        count <= 0xffff,
    ensures
        final(memory)@ == spec_package_header(old(memory)@, package, count, names, offsets, ids),
{
    memory.w8(package, 1);
    memory.w16(package.wrapping_add(8), count as u16);
    memory.w32(package.wrapping_add(12), names);
    memory.w32(package.wrapping_add(16), offsets);
    memory.w32(package.wrapping_add(20), ids);
    memory.w32(package.wrapping_add(24), 0);
    memory.w32(package.wrapping_add(96), 0);
}

/// The main resource package loaded into `package`: the packaged
/// resources are copied into the heap once, and the package gets tables of
/// up to 65535 entries with ids 0, 1, ...; nothing happens without
/// packaged resources.
pub open spec fn spec_load_main_package(v: MachineView, package: u32) -> MachineView {
    if v.resources.len() == 0 {
        v
    } else {
        let (h1, m1, data_seq, name_seq) = if v.resource_data.len() == 0 {
            spec_fill_resources(v.heap, v.memory, v.resources, v.resources.len() as int)
        } else {
            (v.heap, v.memory, v.resource_data, v.resource_names)
        };
        let count: int = if v.resources.len() < 0xffff {
            v.resources.len() as int
        } else {
            0xffff
        };
        let (names, h2) = spec_allocate(h1, (count * 4) as u32);
        let (offsets, h3) = spec_allocate(h2, (count * 4) as u32);
        let (ids, h4) = spec_allocate(h3, (count * 2) as u32);
        let m2 = spec_resource_tables(m1, names, offsets, ids, data_seq, name_seq, count);
        let m9 = spec_package_header(m2, package, count as u32, names, offsets, ids);
        MachineView { heap: h4, memory: m9, resource_data: data_seq, resource_names: name_seq, ..v }
    }
}

/// Write the first `count` entries of a package's tables.
fn write_resource_tables(
    memory: &mut MachineMemory,
    names: u32,
    offsets: u32,
    ids: u32,
    data_seq: &[u32],
    name_seq: &[u32],
    count: usize,
)
    requires
        count <= 0xffff,
        count <= data_seq@.len(),
        count <= name_seq@.len(),
    ensures
        final(memory)@ == spec_resource_tables(old(memory)@, names, offsets, ids, data_seq@, name_seq@, count as int),
{
    let mut index: usize = 0;
    while index < count
        invariant
            index <= count <= 0xffff,
            count <= data_seq@.len(),
            count <= name_seq@.len(),
            memory@ == spec_resource_tables(old(memory)@, names, offsets, ids, data_seq@, name_seq@, index as int),
        decreases count - index,
    {
        let i = index as u32;
        memory.w32(names.wrapping_add(i * 4), name_seq[index]);
        memory.w32(offsets.wrapping_add(i * 4), data_seq[index]);
        memory.w16(ids.wrapping_add(i * 2), i as u16);
        index = index + 1;
    }
}

impl NicaiMachine {
    /// Copy the packaged resources into the heap.
    fn fill_resources(&mut self)
        requires
            old(self).wf(),
            old(self)@.resource_data.len() == 0,
        ensures
            final(self).wf(),
            (final(self)@.heap, final(self)@.memory, final(self)@.resource_data, final(self)@.resource_names)
                == spec_fill_resources(old(self)@.heap, old(self)@.memory, old(self)@.resources, old(self)@.resources.len() as int),
            final(self)@ == (MachineView {
                heap: final(self)@.heap,
                memory: final(self)@.memory,
                resource_data: final(self)@.resource_data,
                resource_names: final(self)@.resource_names,
                ..old(self)@
            }),
    {
        let mut k: usize = 0;
        while k < self.resources.len()
            invariant
                k <= self.resources@.len(),
                spec_heap_wf(self.heap@),
                self.resource_data@.len() == k,
                self.resource_names@.len() == k,
                self@ == (MachineView {
                    heap: self@.heap,
                    memory: self@.memory,
                    resource_data: self@.resource_data,
                    resource_names: self@.resource_names,
                    ..old(self)@
                }),
                (self@.heap, self@.memory, self@.resource_data, self@.resource_names) == spec_fill_resources(
                    old(self)@.heap,
                    old(self)@.memory,
                    old(self)@.resources,
                    k as int,
                ),
            decreases self.resources@.len() - k,
        {
            let size = if self.resources[k].data.len() > 1 {
                self.resources[k].data.len()
            } else {
                1
            };
            assert(old(self)@.resources[k as int] == self.resources@[k as int]@);
            let address = self.heap.allocate(size as u32);
            self.memory.write_bytes(address, self.resources[k].data.as_slice());
            self.resource_data.push(address);
            let name = allocate_gbk_string(&mut self.heap, &mut self.memory, self.resources[k].name.as_str());
            self.resource_names.push(name);
            k = k + 1;
        }
    }

    /// Load the main resource package into `package` (see
    /// `spec_load_main_package`).
    #[verifier::rlimit(40)]
    pub fn load_main_resource_package(&mut self, package: u32)
        requires
            old(self).wf(),
        ensures
            final(self).wf(),
            final(self)@ == spec_load_main_package(old(self)@, package),
    {
        if self.resources.len() == 0 {
            return;
        }
        if self.resource_data.len() == 0 {
            self.fill_resources();
        }
        let count: usize = if self.resources.len() < 0xffff {
            self.resources.len()
        } else {
            0xffff
        };
        let names = self.heap.allocate((count * 4) as u32);
        let offsets = self.heap.allocate((count * 4) as u32);
        let ids = self.heap.allocate((count * 2) as u32);
        write_resource_tables(
            &mut self.memory,
            names,
            offsets,
            ids,
            self.resource_data.as_slice(),
            self.resource_names.as_slice(),
            count,
        );
        write_package_header(&mut self.memory, package, count as u32, names, offsets, ids);
    }
}

/// The first child slot from `index` on whose table entry is 0, reading
/// the entries in order; `count` when there is none.
pub open spec fn spec_free_child_slot(m: MemoryView, table: u32, count: u32, index: u32) -> (u32, MemoryView)
    decreases count - index,
{
    if index >= count || count > 0xffff {
        (count, m)
    } else {
        let (child, m1) = spec_read(m, table.wrapping_add((index * 4) as u32), 4);
        if child == 0 {
            (index, m1)
        } else {
            spec_free_child_slot(m1, table, count, (index + 1) as u32)
        }
    }
}

/// Add a child package named by the GBK string at `name`: a child table
/// is created when missing, the first free slot (or a new one) takes a
/// fresh package object, not loaded, with the slot number + 1 as its id
/// high byte and a copy of the name. The result is the slot number + 1.
pub open spec fn spec_add_data_package(h: HeapView, m: MemoryView, package: u32, name: u32) -> (u32, HeapView, MemoryView) {
    let (count, m1) = spec_read(m, package.wrapping_add(10), 2);
    let (table0, m2) = spec_read(m1, package.wrapping_add(28), 4);
    let (table, h1, m3) = if table0 == 0 {
        let (t, h1) = spec_allocate(h, 4);
        (t, h1, spec_write(m2, package.wrapping_add(28), t, 4))
    } else {
        (table0, h, m2)
    };
    let (slot, m4) = spec_free_child_slot(m3, table, count, 0);
    let m5 = if slot == count {
        spec_write(m4, package.wrapping_add(10), ((count + 1) as u16) as u32, 2)
    } else {
        m4
    };
    let (child, h2) = spec_allocate(h1, DATA_PACKAGE_SIZE);
    let (_, h3, m6) = spec_initialize_data_package(h2, m5, child, 0);
    let (package_name, m7) = spec_gbk_string(m6, name, 256);
    let (name_copy, h4, m8) = spec_allocate_gbk_string(h3, m7, package_name);
    let m9 = spec_write(m8, child, 0, 1);
    let m10 = spec_write(m9, child.wrapping_add(1), ((slot + 1) as u8) as u32, 1);
    let m11 = spec_write(m10, child.wrapping_add(4), name_copy, 4);
    let m12 = spec_write(m11, table.wrapping_add((slot * 4) as u32), child, 4);
    ((slot + 1) as u32, h4, m12)
}

/// Add a child package (see `spec_add_data_package`).
pub fn add_data_package(heap: &mut GuestHeap, memory: &mut MachineMemory, package: u32, name: u32) -> (res: u32)
    requires
        spec_heap_wf(old(heap)@),
    ensures
        spec_heap_wf(final(heap)@),
        (res, final(heap)@, final(memory)@) == spec_add_data_package(old(heap)@, old(memory)@, package, name),
{
    let count = memory.r16(package.wrapping_add(10)) as u32;
    let mut table = memory.r32(package.wrapping_add(28));
    if table == 0 {
        table = heap.allocate(4);
        memory.w32(package.wrapping_add(28), table);
    }
    let ghost m3 = memory@;
    let mut slot: u32 = 0;
    while slot < count
        invariant_except_break
            count <= 0xffff,
            slot <= count,
            spec_free_child_slot(memory@, table, count, slot) == spec_free_child_slot(m3, table, count, 0),
        ensures
            count <= 0xffff,
            slot <= count,
            spec_free_child_slot(m3, table, count, 0) == (slot, memory@),
        decreases count - slot,
    {
        if memory.r32(table.wrapping_add(slot * 4)) == 0 {
            break;
        }
        slot = slot + 1;
    }
    if slot == count {
        memory.w16(package.wrapping_add(10), (count + 1) as u16);
    }
    let child = heap.allocate(DATA_PACKAGE_SIZE);
    initialize_data_package(heap, memory, child, 0);
    let package_name = read_gbk_string(memory, name, 256);
    let name_copy = allocate_gbk_string(heap, memory, package_name.as_str());
    memory.w8(child, 0);
    memory.w8(child.wrapping_add(1), (slot + 1) as u8);
    memory.w32(child.wrapping_add(4), name_copy);
    memory.w32(table.wrapping_add(slot * 4), child);
    slot + 1
}

/// Release the child packages named like the GBK string `requested` (all
/// when `None`), reading each child's name, from slot `slot` on.
pub open spec fn spec_release_from(m: MemoryView, requested: Option<Seq<char>>, table: u32, count: u32, slot: u32) -> MemoryView
    decreases count - slot,
{
    if slot >= count || count > 0xffff {
        m
    } else {
        let child_address = table.wrapping_add((slot * 4) as u32);
        let (child, m1) = spec_read(m, child_address, 4);
        if child == 0 {
            spec_release_from(m1, requested, table, count, (slot + 1) as u32)
        } else {
            let (name_address, m2) = spec_read(m1, child.wrapping_add(4), 4);
            let (child_name, m3) = spec_gbk_string(m2, name_address, 256);
            let m4 = match requested {
                None => spec_write(m3, child_address, 0, 4),
                Some(r) => if spec_lower(r) == spec_lower(child_name) {
                    spec_write(m3, child_address, 0, 4)
                } else {
                    m3
                },
            };
            spec_release_from(m4, requested, table, count, (slot + 1) as u32)
        }
    }
}

/// Release the child packages named by the GBK string at `name` ignoring
/// ASCII case (all of them when `name` is 0); the result is the child count.
pub open spec fn spec_release_data_package(m: MemoryView, package: u32, name: u32) -> (u32, MemoryView) {
    let (requested, m1) = if name != 0 {
        let (r, m1) = spec_gbk_string(m, name, 256);
        (Some(r), m1)
    } else {
        (None, m)
    };
    let (count, m2) = spec_read(m1, package.wrapping_add(10), 2);
    let (table, m3) = spec_read(m2, package.wrapping_add(28), 4);
    (count, spec_release_from(m3, requested, table, count, 0))
}

/// Release child packages (see `spec_release_data_package`).
pub fn release_data_package(memory: &mut MachineMemory, package: u32, name: u32) -> (res: u32)
    ensures
        (res, final(memory)@) == spec_release_data_package(old(memory)@, package, name),
{
    let requested: Option<Vec<char>> = if name != 0 {
        let r = read_gbk_string(memory, name, 256);
        Some(chars_of(r.as_str()))
    } else {
        None
    };
    let ghost req: Option<Seq<char>> = match &requested {
        Some(r) => Some(r@),
        None => None,
    };
    let count = memory.r16(package.wrapping_add(10)) as u32;
    let table = memory.r32(package.wrapping_add(28));
    let ghost m3 = memory@;
    let mut slot: u32 = 0;
    while slot < count
        invariant
            count <= 0xffff,
            slot <= count,
            req == (match &requested {
                Some(r) => Some(r@),
                None => None::<Seq<char>>,
            }),
            spec_release_from(memory@, req, table, count, slot) == spec_release_from(m3, req, table, count, 0),
        decreases count - slot,
    {
        let child_address = table.wrapping_add(slot * 4);
        let child = memory.r32(child_address);
        if child != 0 {
            let name_address = memory.r32(child.wrapping_add(4));
            let child_name = read_gbk_string(memory, name_address, 256);
            let child_chars = chars_of(child_name.as_str());
            let release = match &requested {
                None => true,
                Some(r) => eq_ignore_ascii_case(r.as_slice(), child_chars.as_slice()),
            };
            if release {
                memory.w32(child_address, 0);
            }
        }
        slot = slot + 1;
    }
    count
}

/// The first child package, from slot `index` on, whose GBK name equals
/// `requested` ignoring ASCII case; 0 when there is none.
pub open spec fn spec_locate_from(m: MemoryView, requested: Seq<char>, table: u32, count: u32, index: u32) -> (u32, MemoryView)
    decreases count - index,
{
    if index >= count || count > 0xffff {
        (0, m)
    } else {
        let (child, m1) = spec_read(m, table.wrapping_add((index * 4) as u32), 4);
        if child == 0 {
            spec_locate_from(m1, requested, table, count, (index + 1) as u32)
        } else {
            let (name_address, m2) = spec_read(m1, child.wrapping_add(4), 4);
            let (child_name, m3) = spec_gbk_string(m2, name_address, 256);
            if spec_lower(child_name) == spec_lower(requested) {
                (child, m3)
            } else {
                spec_locate_from(m3, requested, table, count, (index + 1) as u32)
            }
        }
    }
}

/// The child package named by the GBK string at `name` (the package itself
/// when `name` is 0).
pub open spec fn spec_locate_data_package(m: MemoryView, package: u32, name: u32) -> (u32, MemoryView) {
    if name == 0 {
        (package, m)
    } else {
        let (requested, m1) = spec_gbk_string(m, name, 256);
        let (count, m2) = spec_read(m1, package.wrapping_add(10), 2);
        let (table, m3) = spec_read(m2, package.wrapping_add(28), 4);
        spec_locate_from(m3, requested, table, count, 0)
    }
}

/// Find a child package (see `spec_locate_data_package`).
pub fn locate_data_package(memory: &mut MachineMemory, package: u32, name: u32) -> (res: u32)
    ensures
        (res, final(memory)@) == spec_locate_data_package(old(memory)@, package, name),
{
    if name == 0 {
        return package;
    }
    let requested = read_gbk_string(memory, name, 256);
    let requested_chars = chars_of(requested.as_str());
    let count = memory.r16(package.wrapping_add(10)) as u32;
    let table = memory.r32(package.wrapping_add(28));
    let ghost m3 = memory@;
    let mut index: u32 = 0;
    while index < count
        invariant
            count <= 0xffff,
            index <= count,
            requested_chars@ == requested@,
            spec_locate_from(memory@, requested@, table, count, index) == spec_locate_from(m3, requested@, table, count, 0),
            spec_locate_from(m3, requested@, table, count, 0) == spec_locate_data_package(old(memory)@, package, name),
        decreases count - index,
    {
        let child = memory.r32(table.wrapping_add(index * 4));
        if child != 0 {
            let name_address = memory.r32(child.wrapping_add(4));
            let child_name = read_gbk_string(memory, name_address, 256);
            let child_chars = chars_of(child_name.as_str());
            if eq_ignore_ascii_case(child_chars.as_slice(), requested_chars.as_slice()) {
                return child;
            }
        }
        index = index + 1;
    }
    0
}

/// The data of the resource named by the GBK string at `name` in
/// `package` or its children.
pub open spec fn spec_package_resource_by_name(s: PackageState, package: u32, name: u32) -> (u32, PackageState) {
    let (requested, m1) = spec_gbk_string(s.m, name, 256);
    let (id, m2) = spec_pkg_id_by_name(m1, package, requested, MAX_PACKAGE_DEPTH);
    match id {
        Some(i) => spec_pkg_by_id(PackageState { m: m2, ..s }, package, i, MAX_PACKAGE_DEPTH),
        None => (0, PackageState { m: m2, ..s }),
    }
}

/// The data-package services (group 21) on the package in r0, by index:
/// add a child package named by r1 (0 with a null name, which marks the
/// package not loaded) (0), release children (1), load the main resource
/// package (4), find a child (5), a resource by name (6) or id (7), a
/// resource name by id (8), a resource id by name (9, `u32::MAX` when
/// absent).
pub open spec fn spec_data_package_service(v: MachineView, index: u32, r0: u32, r1: u32) -> (u32, MachineView) {
    let package = r0;
    let s = spec_pstate(v.memory, v.heap, v.fs);
    if index == 0 {
        if r1 == 0 {
            (0, MachineView { memory: spec_write(v.memory, package, 0, 1), ..v })
        } else {
            let (res, h, m) = spec_add_data_package(v.heap, v.memory, package, r1);
            (res, MachineView { heap: h, memory: m, ..v })
        }
    } else if index == 1 {
        let (res, m) = spec_release_data_package(v.memory, package, r1);
        (res, MachineView { memory: m, ..v })
    } else if index == 4 {
        (0, spec_load_main_package(v, package))
    } else if index == 5 {
        let (res, m) = spec_locate_data_package(v.memory, package, r1);
        (res, MachineView { memory: m, ..v })
    } else if index == 6 {
        let (res, s1) = spec_package_resource_by_name(s, package, r1);
        (res, spec_with_pstate(v, s1))
    } else if index == 7 {
        let (res, s1) = spec_pkg_by_id(s, package, r1, MAX_PACKAGE_DEPTH);
        (res, spec_with_pstate(v, s1))
    } else if index == 8 {
        let (res, m) = spec_pkg_name_by_id(v.memory, package, r1, MAX_PACKAGE_DEPTH);
        (res, MachineView { memory: m, ..v })
    } else if index == 9 {
        let (requested, m1) = spec_gbk_string(v.memory, r1, 256);
        let (id, m2) = spec_pkg_id_by_name(m1, package, requested, MAX_PACKAGE_DEPTH);
        (
            match id {
                Some(i) => i,
                None => u32::MAX,
            },
            MachineView { memory: m2, ..v },
        )
    } else {
        (0, v)
    }
}

impl NicaiMachine {
    /// The data of the resource named at `name` in `package`.
    fn package_resource_by_name(&mut self, package: u32, name: u32) -> (res: u32)
        requires
            old(self).wf(),
        ensures
            final(self).wf(),
            (res, final(self)@) == (spec_package_resource_by_name(
                spec_pstate(old(self)@.memory, old(self)@.heap, old(self)@.fs),
                package,
                name,
            ).0, spec_with_pstate(
                old(self)@,
                spec_package_resource_by_name(
                    spec_pstate(old(self)@.memory, old(self)@.heap, old(self)@.fs),
                    package,
                    name,
                ).1,
            )),
    {
        let requested = read_gbk_string(&mut self.memory, name, 256);
        let requested_chars = chars_of(requested.as_str());
        match package_resource_id_by_name(&mut self.memory, package, requested_chars.as_slice(), MAX_PACKAGE_DEPTH) {
            Some(id) => package_resource_by_id(
                &mut self.memory,
                &mut self.heap,
                &mut self.virtual_fs,
                package,
                id,
                MAX_PACKAGE_DEPTH,
            ),
            None => 0,
        }
    }

    /// Run data-package service `index` (group 21).
    pub fn handle_data_package_service(&mut self, index: u32, r0: u32, r1: u32) -> (res: u32)
        requires
            old(self).wf(),
        ensures
            final(self).wf(),
            (res, final(self)@) == spec_data_package_service(old(self)@, index, r0, r1),
    {
        let package = r0;
        match index {
            0 => {
                if r1 == 0 {
                    self.memory.w8(package, 0);
                    0
                } else {
                    add_data_package(&mut self.heap, &mut self.memory, package, r1)
                }
            },
            1 => release_data_package(&mut self.memory, package, r1),
            4 => {
                self.load_main_resource_package(package);
                0
            },
            5 => locate_data_package(&mut self.memory, package, r1),
            6 => self.package_resource_by_name(package, r1),
            7 => package_resource_by_id(
                &mut self.memory,
                &mut self.heap,
                &mut self.virtual_fs,
                package,
                r1,
                MAX_PACKAGE_DEPTH,
            ),
            8 => package_resource_name_by_id(&mut self.memory, package, r1, MAX_PACKAGE_DEPTH),
            9 => {
                let requested = read_gbk_string(&mut self.memory, r1, 256);
                let requested_chars = chars_of(requested.as_str());
                match package_resource_id_by_name(
                    &mut self.memory,
                    package,
                    requested_chars.as_slice(),
                    MAX_PACKAGE_DEPTH,
                ) {
                    Some(id) => id,
                    None => u32::MAX,
                }
            },
            _ => 0,
        }
    }
}

} // verus!
