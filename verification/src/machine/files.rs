//! The file services of the guest (group 5) on the virtual file system:
//! open, close, existence checks, read, write, seek, tell, size, remove,
//! rename and directory creation. Guest paths are GBK byte strings or
//! UCS-2 strings; modes are byte strings.
//!
//! Guest addresses are computed with wrapping arithmetic, as 32-bit guest
//! pointers wrap.
use vstd::prelude::*;

use crate::machine::memory::{spec_read, spec_write_bytes, MachineMemory, MemoryView};
use crate::machine::stdio::{read_span, spec_read_span_from, ServiceRegisters};
use crate::machine::strings::{element, gbk_decode, read_c_bytes, spec_c_bytes, spec_element, spec_gbk_decode};
use crate::machine::virtual_fs::{
    spec_close,
    spec_create_directory,
    spec_directory_exists,
    spec_handle,
    spec_normalize_path,
    spec_open,
    spec_read as spec_fs_read,
    spec_read_past_end,
    spec_remove_file,
    spec_rename,
    spec_seek,
    spec_write as spec_fs_write,
    FsView,
    VirtualFileSystem,
};
use crate::text::{spec_utf16_lossy, spec_utf8_lossy, utf16_lossy, utf8_lossy};

verus! {

/// Largest transfer of one read or write service (16 MiB).
pub const MAX_TRANSFER: u32 = 0x100_0000;

/// The UCS-2 units at `address` from unit `offset` on, up to the
/// terminator and at most 256 units.
pub open spec fn spec_wide_units_from(m: MemoryView, address: u32, offset: int, units: Seq<u16>) -> (
    Seq<u16>,
    MemoryView,
)
    decreases 256 - offset,
{
    if offset >= 256 {
        (units, m)
    } else {
        let (unit, m1) = spec_read(m, spec_element(address, offset, 2), 2);
        if unit == 0 {
            (units, m1)
        } else {
            spec_wide_units_from(m1, address, offset + 1, units.push(unit as u16))
        }
    }
}

/// A guest path at `address`: empty for a null pointer; a GBK byte string
/// (at most 512 bytes) when its second byte is not zero; else a UCS-2
/// string (at most 256 units).
pub open spec fn spec_file_path(m: MemoryView, address: u32) -> (Seq<char>, MemoryView) {
    if address == 0 {
        (Seq::empty(), m)
    } else {
        let (second, m1) = spec_read(m, address.wrapping_add(1), 1);
        if second != 0 {
            let (bytes, m2) = spec_c_bytes(m1, address, 512);
            (spec_gbk_decode(bytes), m2)
        } else {
            let (units, m2) = spec_wide_units_from(m1, address, 0, Seq::empty());
            (spec_utf16_lossy(units), m2)
        }
    }
}

/// Read the UCS-2 units of a guest path.
fn read_wide_units(memory: &mut MachineMemory, address: u32) -> (res: Vec<u16>)
    ensures
        (res@, final(memory)@) == spec_wide_units_from(old(memory)@, address, 0, Seq::empty()),
{
    let mut units: Vec<u16> = Vec::new();
    let mut offset: u32 = 0;
    while offset < 256
        invariant
            offset <= 256,
            spec_wide_units_from(memory@, address, offset as int, units@) == spec_wide_units_from(
                old(memory)@,
                address,
                0,
                Seq::empty(),
            ),
        decreases 256 - offset,
    {
        let unit = memory.r16(element(address, offset, 2));
        if unit == 0 {
            return units;
        }
        units.push(unit);
        offset = offset + 1;
    }
    units
}

/// Read a guest path.
pub fn read_file_path(memory: &mut MachineMemory, address: u32) -> (res: String)
    ensures
        (res@, final(memory)@) == spec_file_path(old(memory)@, address),
{
    if address == 0 {
        return String::new();
    }
    if memory.r8(address.wrapping_add(1)) != 0 {
        let bytes = read_c_bytes(memory, address, 512);
        return gbk_decode(bytes.as_slice());
    }
    let units = read_wide_units(memory, address);
    utf16_lossy(units.as_slice())
}

/// A result that is a size or position, or `u32::MAX` for none.
pub open spec fn spec_or_max(value: Option<usize>) -> u32 {
    match value {
        Some(v) => v as u32,
        None => u32::MAX,
    }
}

/// Whether file service `index` with these registers would read past the
/// end of its file (the read service then has nothing to return).
pub open spec fn spec_file_read_past_end(fs: FsView, index: u32, registers: ServiceRegisters) -> bool {
    index == 4 && registers.r1 <= MAX_TRANSFER && spec_read_past_end(fs, registers.r2)
}

/// The file services (group 5), by index, with the argument registers: the
/// result and the file system and memory after the call.
pub open spec fn spec_file_service(
    fs: FsView,
    m: MemoryView,
    index: u32,
    registers: ServiceRegisters,
) -> (u32, FsView, MemoryView) {
    let r0 = registers.r0;
    let r1 = registers.r1;
    let r2 = registers.r2;
    if index == 0 {
        let (path, m1) = spec_file_path(m, r1);
        let (mode, m2) = spec_c_bytes(m1, r2, 16);
        let (handle, fs1) = spec_open(fs, path, spec_utf8_lossy(mode), r0);
        (handle as u32, fs1, m2)
    } else if index == 1 {
        let (result, fs1) = spec_close(fs, r0);
        (result as u32, fs1, m)
    } else if index == 2 {
        let (path, m1) = spec_file_path(m, r1);
        let exists = match spec_normalize_path(path) {
            Some(p) => fs.files.contains_key(p),
            None => false,
        };
        (if exists { 1 } else { 0 }, fs, m1)
    } else if index == 3 {
        let (path, m1) = spec_file_path(m, r1);
        let exists = match spec_normalize_path(path) {
            Some(p) => spec_directory_exists(fs, p),
            None => false,
        };
        (if exists { 1 } else { 0 }, fs, m1)
    } else if index == 4 {
        if r1 > MAX_TRANSFER {
            (u32::MAX, fs, m)
        } else {
            let (data, fs1) = spec_fs_read(fs, r2, r1 as usize);
            match data {
                Some(bytes) => (bytes.len() as u32, fs1, spec_write_bytes(m, r0, bytes)),
                None => (u32::MAX, fs1, m),
            }
        }
    } else if index == 5 {
        if r1 > MAX_TRANSFER {
            (u32::MAX, fs, m)
        } else {
            let (data, m1) = spec_read_span_from(m, r0, r1, 0, Seq::empty());
            let (written, fs1) = spec_fs_write(fs, r2, data);
            (spec_or_max(written), fs1, m1)
        }
    } else if index == 6 {
        let (position, fs1) = spec_seek(fs, r0, r1 as i32, r2);
        (spec_or_max(position), fs1, m)
    } else if index == 7 {
        let position = match spec_handle(fs, r0) {
            Some(o) => Some(o.position),
            None => None::<usize>,
        };
        (spec_or_max(position), fs, m)
    } else if index == 8 {
        let size = match spec_handle(fs, r0) {
            Some(o) => if fs.files.contains_key(o.path) {
                Some(fs.files[o.path].len() as usize)
            } else {
                None::<usize>
            },
            None => None::<usize>,
        };
        (spec_or_max(size), fs, m)
    } else if index == 9 {
        let (path, m1) = spec_file_path(m, r1);
        let (removed, fs1) = spec_remove_file(fs, path);
        (if removed { 1 } else { 0 }, fs1, m1)
    } else if index == 10 {
        let (from, m1) = spec_file_path(m, r1);
        let (to, m2) = spec_file_path(m1, r2);
        let (renamed, fs1) = spec_rename(fs, from, to);
        (if renamed { 1 } else { 0 }, fs1, m2)
    } else if index == 11 {
        let (path, m1) = spec_file_path(m, r1);
        let (created, fs1) = spec_create_directory(fs, path);
        (if created { 0 } else { u32::MAX }, fs1, m1)
    } else if index == 13 || index == 14 {
        (u32::MAX, fs, m)
    } else if index == 16 {
        (0x400_0000, fs, m)
    } else if index == 17 {
        (1, fs, m)
    } else {
        (0, fs, m)
    }
}

/// A size or position as a result, or `u32::MAX` for none.
fn or_max(value: Option<usize>) -> (res: u32)
    ensures
        res == spec_or_max(value),
{
    match value {
        Some(v) => v as u32,
        None => u32::MAX,
    }
}

/// Run file service `index` (group 5).
pub fn handle_file_service(
    fs: &mut VirtualFileSystem,
    memory: &mut MachineMemory,
    index: u32,
    registers: ServiceRegisters,
) -> (res: u32)
    requires
        old(fs).wf(),
        !spec_file_read_past_end(old(fs)@, index, registers),
    ensures
        final(fs).wf(),
        (res, final(fs)@, final(memory)@) == spec_file_service(old(fs)@, old(memory)@, index, registers),
{
    let r0 = registers.r0;
    let r1 = registers.r1;
    let r2 = registers.r2;
    match index {
        0 => {
            let path = read_file_path(memory, r1);
            let mode_bytes = read_c_bytes(memory, r2, 16);
            let mode = utf8_lossy(mode_bytes.as_slice());
            let handle = fs.open(path.as_str(), mode.as_str(), r0);
            handle as u32
        },
        1 => fs.close(r0) as u32,
        2 => {
            let path = read_file_path(memory, r1);
            if fs.file_exists(path.as_str()) {
                1
            } else {
                0
            }
        },
        3 => {
            let path = read_file_path(memory, r1);
            if fs.directory_exists(path.as_str()) {
                1
            } else {
                0
            }
        },
        4 => {
            if r1 > MAX_TRANSFER {
                u32::MAX
            } else {
                match fs.read(r2, r1 as usize) {
                    Some(data) => {
                        memory.write_bytes(r0, data.as_slice());
                        data.len() as u32
                    },
                    None => u32::MAX,
                }
            }
        },
        5 => {
            if r1 > MAX_TRANSFER {
                u32::MAX
            } else {
                let data = read_span(memory, r0, r1);
                or_max(fs.write(r2, data.as_slice()))
            }
        },
        6 => or_max(fs.seek(r0, r1 as i32, r2)),
        7 => or_max(fs.tell(r0)),
        8 => or_max(fs.size(r0)),
        9 => {
            let path = read_file_path(memory, r1);
            if fs.remove_file(path.as_str()) {
                1
            } else {
                0
            }
        },
        10 => {
            let from = read_file_path(memory, r1);
            let to = read_file_path(memory, r2);
            if fs.rename(from.as_str(), to.as_str()) {
                1
            } else {
                0
            }
        },
        11 => {
            let path = read_file_path(memory, r1);
            if fs.create_directory(path.as_str()) {
                0
            } else {
                u32::MAX
            }
        },
        13 | 14 => u32::MAX,
        16 => 0x400_0000,
        17 => 1,
        _ => 0,
    }
}

} // verus!
