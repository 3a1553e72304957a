//! Service entry points and the manager tables that hand them to the
//! guest: where a call into the service area goes, the root service that
//! fills manager tables, the fixed-manager initializers and the app-store
//! manager.
//!
//! Guest addresses are computed with wrapping arithmetic, as 32-bit guest
//! pointers wrap.
use vstd::prelude::*;

use crate::machine::memory::{spec_read, spec_write, MachineMemory, MemoryView};
use crate::machine::services::{MEMORY_BLOCK_SERVICE, SERVICE_BASE};
use crate::machine::{fixed_manager_specs, manager_initializer_count, spec_fixed_manager_specs, spec_manager_initializer_count};

verus! {

/// Size of the service area.
pub const SERVICE_SIZE: u32 = 0x10_0000;
/// Distance between the entry points of two service groups.
pub const TABLE_STRIDE: u32 = 0x400;
/// First guest address of the manager tables.
pub const MANAGER_BASE: u32 = 0x0a00_0000;
/// The no-op logging entry point (the last word of the service area).
pub const LOG_NOOP_SERVICE: u32 = 0x0c0f_fffc;
/// Entry points of the fixed-manager initializers.
pub const FIXED_MANAGER_INIT: u32 = 0x0c00_e000;
/// Entry points of the fixed-layout game object methods.
pub const FIXED_GAMEOLD_OBJECT_SERVICE: u32 = 0x0c00_d000;
/// Entry points of the fixed-layout game region methods.
pub const FIXED_GAMEOLD_REGION_SERVICE: u32 = 0x0c00_d100;
/// Entry point of the native dispatcher.
pub const NATIVE_DISPATCH_SERVICE: u32 = 0x0c00_f000;
/// Entry points of the native system-time queries.
pub const NATIVE_SYSTEM_TIME_SERVICE: u32 = 0x0c00_f100;
/// The download-load manager.
pub const DL_LOAD_MANAGER: u32 = 0x0a0e_0000;
/// The video manager.
pub const VIDEO_MANAGER: u32 = 0x0a0e_0400;
/// The download-payment manager.
pub const DL_PAY_MANAGER: u32 = 0x0a0e_0800;
/// The download-resource manager.
pub const DL_RESOURCE_MANAGER: u32 = 0x0a0e_0c00;
/// The download-image manager.
pub const DL_IMAGE_MANAGER: u32 = 0x0a0e_1000;
/// The app-store manager.
pub const APP_STORE_MANAGER: u32 = 0x0a0e_1400;

/// Where a call into the service area goes.
#[derive(Debug, Clone, Copy, PartialEq, Eq, Structural)]
pub enum ServiceRoute {
    /// The logging no-op.
    LogNoop,
    /// Fixed-manager initializer `index`.
    FixedManagerInit(u32),
    /// Fixed-layout game object method `index`.
    GameoldObject(u32),
    /// Fixed-layout game region method `index`.
    GameoldRegion(u32),
    /// The native dispatcher.
    NativeDispatch,
    /// A native system-time query, answered with this value.
    SystemTime(u32),
    /// Memory-block method `index`.
    MemoryBlock(u32),
    /// Service `index` of service group `group`.
    Group(u32, u32),
}

/// The fixed clock of the native system-time queries: year, month, day,
/// hour, then zeros.
pub open spec fn spec_system_time(index: u32) -> u32 {
    if index == 0 {
        2026
    } else if index == 1 {
        8
    } else if index == 2 {
        7
    } else if index == 3 {
        12
    } else {
        0
    }
}

/// The route of a call to `address` in the service area.
pub open spec fn spec_route_service(address: u32) -> ServiceRoute {
    if address == LOG_NOOP_SERVICE {
        ServiceRoute::LogNoop
    } else if FIXED_MANAGER_INIT <= address < FIXED_MANAGER_INIT + spec_fixed_manager_specs().len() * 4 {
        ServiceRoute::FixedManagerInit(((address - FIXED_MANAGER_INIT) / 4) as u32)
    } else if FIXED_GAMEOLD_OBJECT_SERVICE <= address < FIXED_GAMEOLD_OBJECT_SERVICE + 15 * 4 {
        ServiceRoute::GameoldObject(((address - FIXED_GAMEOLD_OBJECT_SERVICE) / 4) as u32)
    } else if FIXED_GAMEOLD_REGION_SERVICE <= address < FIXED_GAMEOLD_REGION_SERVICE + 8 * 4 {
        ServiceRoute::GameoldRegion(((address - FIXED_GAMEOLD_REGION_SERVICE) / 4) as u32)
    } else if address == NATIVE_DISPATCH_SERVICE {
        ServiceRoute::NativeDispatch
    } else if NATIVE_SYSTEM_TIME_SERVICE <= address < NATIVE_SYSTEM_TIME_SERVICE + 6 * 4 {
        ServiceRoute::SystemTime(spec_system_time(((address - NATIVE_SYSTEM_TIME_SERVICE) / 4) as u32))
    } else if MEMORY_BLOCK_SERVICE <= address < MEMORY_BLOCK_SERVICE + 12 {
        ServiceRoute::MemoryBlock(((address - MEMORY_BLOCK_SERVICE) / 4) as u32)
    } else {
        let offset = address - SERVICE_BASE;
        ServiceRoute::Group((offset / (TABLE_STRIDE as int)) as u32, ((offset % (TABLE_STRIDE as int)) / 4) as u32)
    }
}

/// Route a call into the service area.
pub fn route_service(address: u32) -> (res: ServiceRoute)
    requires
        SERVICE_BASE <= address,
    ensures
        res == spec_route_service(address),
{
    let manager_count = fixed_manager_specs().len() as u32;
    if address == LOG_NOOP_SERVICE {
        ServiceRoute::LogNoop
    } else if FIXED_MANAGER_INIT <= address && address < FIXED_MANAGER_INIT + manager_count * 4 {
        ServiceRoute::FixedManagerInit((address - FIXED_MANAGER_INIT) / 4)
    } else if FIXED_GAMEOLD_OBJECT_SERVICE <= address && address < FIXED_GAMEOLD_OBJECT_SERVICE + 15 * 4 {
        ServiceRoute::GameoldObject((address - FIXED_GAMEOLD_OBJECT_SERVICE) / 4)
    } else if FIXED_GAMEOLD_REGION_SERVICE <= address && address < FIXED_GAMEOLD_REGION_SERVICE + 8 * 4 {
        ServiceRoute::GameoldRegion((address - FIXED_GAMEOLD_REGION_SERVICE) / 4)
    } else if address == NATIVE_DISPATCH_SERVICE {
        ServiceRoute::NativeDispatch
    } else if NATIVE_SYSTEM_TIME_SERVICE <= address && address < NATIVE_SYSTEM_TIME_SERVICE + 6 * 4 {
        let value = match (address - NATIVE_SYSTEM_TIME_SERVICE) / 4 {
            0 => 2026,
            1 => 8,
            2 => 7,
            3 => 12,
            _ => 0,
        };
        ServiceRoute::SystemTime(value)
    } else if MEMORY_BLOCK_SERVICE <= address && address < MEMORY_BLOCK_SERVICE + 12 {
        ServiceRoute::MemoryBlock((address - MEMORY_BLOCK_SERVICE) / 4)
    } else {
        let offset = address - SERVICE_BASE;
        ServiceRoute::Group(offset / TABLE_STRIDE, (offset % TABLE_STRIDE) / 4)
    }
}

/// The return from a service to the link register `lr`: the program
/// counter without its low bit, and the status register with the Thumb bit
/// (bit 5) set from that low bit.
pub open spec fn spec_return_from_service(lr: u32, cpsr: u32) -> (u32, u32) {
    (
        (lr - lr % 2) as u32,
        if lr % 2 == 1 {
            cpsr | 0x20
        } else {
            cpsr & !0x20u32
        },
    )
}

/// Where a service returns to, and the status register it returns with.
pub fn return_from_service(lr: u32, cpsr: u32) -> (res: (u32, u32))
    ensures
        res == spec_return_from_service(lr, cpsr),
{
    let target = lr - lr % 2;
    if lr % 2 == 1 {
        (target, cpsr | 0x20)
    } else {
        (target, cpsr & !0x20u32)
    }
}

/// Memory after writing entry points `service + 4 i` to table words
/// `table + 4 i` for `i` from `from` up to `count`.
pub open spec fn spec_populate_from(m: MemoryView, table: u32, service: u32, count: u32, from: int) -> MemoryView
    decreases count - from,
{
    if from >= count {
        m
    } else {
        spec_populate_from(
            spec_write(
                m,
                ((table + 4 * from) % 0x1_0000_0000) as u32,
                ((service + 4 * from) % 0x1_0000_0000) as u32,
                4,
            ),
            table,
            service,
            count,
            from + 1,
        )
    }
}

/// Fill a manager table with `count` consecutive entry points.
pub fn populate_table(memory: &mut MachineMemory, table: u32, service: u32, count: u32)
    ensures
        final(memory)@ == spec_populate_from(old(memory)@, table, service, count, 0),
{
    let mut index: u32 = 0;
    while index < count
        invariant
            index <= count,
            spec_populate_from(memory@, table, service, count, index as int) == spec_populate_from(
                old(memory)@,
                table,
                service,
                count,
                0,
            ),
        decreases count - index,
    {
        let at = ((table as u64 + 4 * index as u64) % 0x1_0000_0000) as u32;
        let entry = ((service as u64 + 4 * index as u64) % 0x1_0000_0000) as u32;
        memory.w32(at, entry);
        index = index + 1;
    }
}

/// The service group whose manager the root service `index` sets up (even
/// index) or returns (odd index).
pub open spec fn spec_root_table_group(index: u32) -> Option<u32> {
    if index == 0 || index == 1 {
        Some(5)
    } else if index == 2 || index == 3 {
        Some(4)
    } else if index == 4 || index == 5 {
        Some(7)
    } else if index == 6 || index == 7 {
        Some(8)
    } else if index == 8 || index == 9 {
        Some(2)
    } else if index == 10 || index == 11 {
        Some(12)
    } else if index == 12 || index == 13 {
        Some(14)
    } else if index == 14 || index == 15 {
        Some(9)
    } else if index == 16 || index == 17 {
        Some(13)
    } else if index == 18 || index == 19 {
        Some(1)
    } else if index == 20 || index == 21 {
        Some(15)
    } else if index == 22 || index == 23 {
        Some(16)
    } else if index == 24 || index == 25 {
        Some(10)
    } else if index == 26 || index == 27 {
        Some(11)
    } else if index == 28 || index == 29 {
        Some(17)
    } else if index == 30 || index == 31 {
        Some(18)
    } else if index == 32 || index == 33 {
        Some(3)
    } else if index == 35 || index == 36 {
        Some(19)
    } else if index == 37 || index == 38 {
        Some(6)
    } else if index == 45 || index == 46 {
        Some(20)
    } else {
        None
    }
}

fn root_table_group(index: u32) -> (res: Option<u32>)
    ensures
        res == spec_root_table_group(index),
{
    match index {
        0 | 1 => Some(5),
        2 | 3 => Some(4),
        4 | 5 => Some(7),
        6 | 7 => Some(8),
        8 | 9 => Some(2),
        10 | 11 => Some(12),
        12 | 13 => Some(14),
        14 | 15 => Some(9),
        16 | 17 => Some(13),
        18 | 19 => Some(1),
        20 | 21 => Some(15),
        22 | 23 => Some(16),
        24 | 25 => Some(10),
        26 | 27 => Some(11),
        28 | 29 => Some(17),
        30 | 31 => Some(18),
        32 | 33 => Some(3),
        35 | 36 => Some(19),
        37 | 38 => Some(6),
        45 | 46 => Some(20),
        _ => None,
    }
}

/// Whether root service `index` sets up a manager table (rather than
/// returning it).
pub open spec fn spec_root_initializer(index: u32) -> bool {
    ||| index == 0 || index == 2 || index == 4 || index == 6 || index == 8 || index == 10
    ||| index == 12 || index == 14 || index == 16 || index == 18 || index == 20 || index == 22
    ||| index == 24 || index == 26 || index == 28 || index == 30 || index == 32 || index == 35
    ||| index == 37 || index == 45
}

/// Fill the table at `destination` with `count` entry points of `group`
/// unless the destination is null, and return `result`.
pub open spec fn spec_fill_if_set(m: MemoryView, destination: u32, group: u32, count: u32) -> MemoryView {
    if destination != 0 {
        spec_populate_from(m, destination, (SERVICE_BASE + TABLE_STRIDE * group) as u32, count, 0)
    } else {
        m
    }
}

/// The root service (group 0), by index, with the destination in `r0`:
/// it fills manager tables with service entry points or returns the
/// address of a manager.
pub open spec fn spec_root_service(m: MemoryView, index: u32, r0: u32) -> (u32, MemoryView) {
    if index == 34 {
        (0, spec_fill_if_set(m, r0, 0, 52))
    } else if index == 39 {
        (r0, spec_fill_if_set(m, r0, 22, 11))
    } else if index == 40 {
        (DL_LOAD_MANAGER, m)
    } else if index == 41 {
        (DL_RESOURCE_MANAGER, m)
    } else if index == 42 {
        (r0, spec_fill_if_set(m, r0, 25, 20))
    } else if index == 43 {
        (DL_IMAGE_MANAGER, m)
    } else if index == 44 {
        (r0, spec_fill_if_set(m, r0, 26, 12))
    } else if index == 49 {
        (r0, spec_fill_if_set(m, r0, 23, 38))
    } else if index == 50 {
        (VIDEO_MANAGER, m)
    } else if index == 51 {
        (DL_PAY_MANAGER, m)
    } else {
        match spec_root_table_group(index) {
            Some(group) => {
                let table = (MANAGER_BASE + TABLE_STRIDE * (group + 1)) as u32;
                let service = (SERVICE_BASE + TABLE_STRIDE * group) as u32;
                if spec_root_initializer(index) {
                    if r0 == 0 {
                        (r0, m)
                    } else if index == 26 {
                        let m1 = spec_write(m, r0.wrapping_add(32), (service + 32) as u32, 4);
                        (r0, spec_write(m1, r0.wrapping_add(40), (service + 40) as u32, 4))
                    } else if index == 28 {
                        (r0, spec_write(m, r0.wrapping_add(240), (service + 240) as u32, 4))
                    } else {
                        let count = match spec_manager_initializer_count(index) {
                            Some(c) => c,
                            None => 0,
                        };
                        (r0, spec_populate_from(m, r0, service, count, 0))
                    }
                } else {
                    (table, m)
                }
            },
            None => (0, m),
        }
    }
}

fn fill_if_set(memory: &mut MachineMemory, destination: u32, group: u32, count: u32)
    requires
        group <= 28,
    ensures
        final(memory)@ == spec_fill_if_set(old(memory)@, destination, group, count),
{
    if destination != 0 {
        populate_table(memory, destination, SERVICE_BASE + TABLE_STRIDE * group, count);
    }
}

/// Run root service `index` (group 0).
pub fn handle_root_service(memory: &mut MachineMemory, index: u32, r0: u32) -> (res: u32)
    ensures
        (res, final(memory)@) == spec_root_service(old(memory)@, index, r0),
{
    match index {
        34 => {
            fill_if_set(memory, r0, 0, 52);
            return 0;
        },
        39 => {
            fill_if_set(memory, r0, 22, 11);
            return r0;
        },
        40 => {
            return DL_LOAD_MANAGER;
        },
        41 => {
            return DL_RESOURCE_MANAGER;
        },
        42 => {
            fill_if_set(memory, r0, 25, 20);
            return r0;
        },
        43 => {
            return DL_IMAGE_MANAGER;
        },
        44 => {
            fill_if_set(memory, r0, 26, 12);
            return r0;
        },
        49 => {
            fill_if_set(memory, r0, 23, 38);
            return r0;
        },
        50 => {
            return VIDEO_MANAGER;
        },
        51 => {
            return DL_PAY_MANAGER;
        },
        _ => {},
    }
    match root_table_group(index) {
        Some(group) => {
            let table = MANAGER_BASE + TABLE_STRIDE * (group + 1);
            let service = SERVICE_BASE + TABLE_STRIDE * group;
            let is_initializer = match index {
                0 | 2 | 4 | 6 | 8 | 10 | 12 | 14 | 16 | 18 | 20 | 22 | 24 | 26 | 28 | 30 | 32 | 35 | 37
                | 45 => true,
                _ => false,
            };
            if is_initializer {
                if r0 != 0 {
                    if index == 26 {
                        memory.w32(r0.wrapping_add(32), service + 32);
                        memory.w32(r0.wrapping_add(40), service + 40);
                    } else if index == 28 {
                        memory.w32(r0.wrapping_add(240), service + 240);
                    } else {
                        let count = match manager_initializer_count(index) {
                            Some(c) => c,
                            None => 0,
                        };
                        populate_table(memory, r0, service, count);
                    }
                }
                r0
            } else {
                table
            }
        },
        None => 0,
    }
}

/// Fixed-manager initializer `index`: fill the table at `r0` with the
/// entry points of its manager unless `r0` is null, and return `r0`.
pub open spec fn spec_fixed_manager_init(m: MemoryView, index: u32, r0: u32) -> (u32, MemoryView) {
    let (_, group, count) = spec_fixed_manager_specs()[index as int];
    (r0, spec_fill_if_set(m, r0, group, count))
}

/// Run fixed-manager initializer `index`.
pub fn handle_fixed_manager_init(memory: &mut MachineMemory, index: u32, r0: u32) -> (res: u32)
    requires
        index < spec_fixed_manager_specs().len(),
    ensures
        (res, final(memory)@) == spec_fixed_manager_init(old(memory)@, index, r0),
{
    let specs = fixed_manager_specs();
    let (_, group, count) = specs[index as usize];
    fill_if_set(memory, r0, group, count);
    r0
}

/// The app-store manager (group 20): method 6 fills the table described by
/// the descriptor at `r0` (its address, then a 16-bit byte capacity) with
/// at most 40 entry points and returns the manager; the other methods
/// return 0.
pub open spec fn spec_app_store_service(m: MemoryView, index: u32, r0: u32) -> (u32, MemoryView) {
    if index == 6 {
        let (destination, m1) = spec_read(m, r0, 4);
        let (capacity, m2) = spec_read(m1, r0.wrapping_add(4), 2);
        let count: u32 = if capacity / 4 < 40 {
            (capacity / 4) as u32
        } else {
            40
        };
        (APP_STORE_MANAGER, spec_fill_if_set(m2, destination, 28, count))
    } else {
        (0, m)
    }
}

/// Run app-store manager method `index` (group 20).
pub fn handle_app_store_service(memory: &mut MachineMemory, index: u32, r0: u32) -> (res: u32)
    ensures
        (res, final(memory)@) == spec_app_store_service(old(memory)@, index, r0),
{
    if index == 6 {
        let destination = memory.r32(r0);
        let capacity = memory.r16(r0.wrapping_add(4)) as u32;
        let count = if capacity / 4 < 40 {
            capacity / 4
        } else {
            40
        };
        fill_if_set(memory, destination, 28, count);
        APP_STORE_MANAGER
    } else {
        0
    }
}

} // verus!
