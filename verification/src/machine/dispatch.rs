//! What the machine does at the program counter before the core may run an
//! instruction: end a guest call, halt on a terminal self-branch, answer a
//! call into the service area, answer a semihosting call, take an
//! interworking branch, or refuse to fetch from unmapped memory.
use vstd::prelude::*;

use crate::machine::cpu::{
    even,
    interworking_branch,
    spec_even,
    spec_interworking,
    spec_return_from_service,
    spec_set_reg,
    spec_thumb,
    CpuRegisters,
    CpuView,
    EXIT_ADDRESS,
    LR,
    PC,
    SP,
};
use crate::machine::audio::spec_audio_service;
use crate::machine::game::{
    download_service,
    handle_gameold_object_service,
    handle_gameold_region_service,
    payment_service,
    spec_download_resource_service,
    spec_engine_service,
    spec_game_service,
    spec_game_util_service,
    spec_gameold_object_service,
    spec_gameold_region_service,
    spec_native_dispatch,
    spec_payment_service,
};
use crate::machine::heap::spec_allocate;
use crate::machine::images::{spec_game_lcd_service, spec_lcd_service};
use crate::machine::resources::spec_data_package_service;
use crate::machine::files::{handle_file_service, spec_file_read_past_end, spec_file_service, MAX_TRANSFER};
use crate::machine::memory::{spec_find_region, spec_read, spec_write, MachineMemory, MemoryView};
use crate::machine::nicai::{MachineError, MachineView, NicaiMachine};
use crate::machine::services::{
    handle_memory_block_service,
    handle_memory_service,
    handle_system_service,
    spec_memory_block_service,
    spec_memory_service,
    spec_system_service,
    SERVICE_BASE,
};
use crate::machine::stdio::{handle_stdio_service, spec_stdio_service, ServiceRegisters};
use crate::machine::strings::{handle_ucs2_service, read_c_bytes, spec_c_bytes, spec_ucs2_service};
use crate::machine::tables::{
    handle_app_store_service,
    handle_fixed_manager_init,
    handle_root_service,
    route_service,
    spec_app_store_service,
    spec_fixed_manager_init,
    spec_root_service,
    spec_route_service,
    ServiceRoute,
    SERVICE_SIZE,
};
use crate::machine::screens::spec_screen_service;
use crate::machine::timers::spec_timer_service;
use crate::machine::virtual_fs::spec_read_past_end;
use crate::machine::MachineState;
use crate::machine::spec_fixed_manager_specs;

verus! {

/// What happens at the program counter.
#[derive(Debug, Clone, Copy, PartialEq, Eq)]
pub enum InstructionStep {
    /// The guest call returned to the exit address.
    Returned,
    /// The guest entered a terminal self-branch; the machine halted.
    Halted,
    /// The machine handled the instruction itself.
    Handled,
    /// The core is to execute the instruction at the program counter, then
    /// report with `finish_instruction`.
    Execute,
    /// A floating-point power service: the caller computes `base` raised
    /// to `exponent` (both `f32` bit patterns) and reports the bit pattern
    /// with `finish_float_service`.
    FloatPower(u32, u32),
}

/// The service argument registers.
pub open spec fn spec_service_registers(c: CpuView) -> ServiceRegisters {
    ServiceRegisters { r0: c.gpr[0], r1: c.gpr[1], r2: c.gpr[2], r3: c.gpr[3], sp: c.gpr[SP as int] }
}

/// The call counts after one more call of service (`group`, `index`): the
/// first entry for it counts up, or a new entry with one call is appended.
pub open spec fn spec_count_call(calls: Seq<(u32, u32, u64)>, group: u32, index: u32) -> Seq<(u32, u32, u64)> {
    match spec_call_entry(calls, group, index, 0) {
        Some(i) => calls.update(i, (group, index, calls[i].2.wrapping_add(1))),
        None => calls.push((group, index, 1)),
    }
}

/// The first entry from `k` on for service (`group`, `index`).
pub open spec fn spec_call_entry(calls: Seq<(u32, u32, u64)>, group: u32, index: u32, k: int) -> Option<int>
    decreases calls.len() - k,
{
    if k < 0 || k >= calls.len() {
        None
    } else if calls[k].0 == group && calls[k].1 == index {
        Some(k)
    } else {
        spec_call_entry(calls, group, index, k + 1)
    }
}

/// Service `index` of `group` on the machine: the machine after it and the
/// result for r0 (`None`: the result is computed by the caller).
#[verifier::opaque]
pub open spec fn spec_group_service(v: MachineView, group: u32, index: u32) -> (MachineView, Option<u32>) {
    let r = spec_service_registers(v.cpu);
    if group == 0 {
        let (res, m) = spec_root_service(v.memory, index, r.r0);
        (MachineView { memory: m, ..v }, Some(res))
    } else if group == 1 {
        let (res, m) = spec_system_service(v.memory, index, r.r0, r.r1, r.r2, v.instruction_count);
        (MachineView { memory: m, ..v }, Some(res))
    } else if group == 2 {
        let (res, h, m) = spec_memory_service(v.heap, v.memory, index, r.r0, r.r1);
        (MachineView { heap: h, memory: m, ..v }, Some(res))
    } else if group == 3 {
        let (res, v1) = spec_game_service(v, index, r);
        (v1, Some(res))
    } else if group == 4 {
        let (res, v1) = spec_lcd_service(v, index, r);
        (v1, Some(res))
    } else if group == 5 {
        let (res, fs, m) = spec_file_service(v.fs, v.memory, index, r);
        (MachineView { fs, memory: m, ..v }, Some(res))
    } else if group == 6 {
        let (res, m) = spec_stdio_service(v.memory, index, r, v.instruction_count);
        (MachineView { memory: m, ..v }, res)
    } else if group == 7 {
        let (res, timers) = spec_timer_service(v.timers, index, r.r0, r.r1, r.r2, v.frame_count);
        (MachineView { timers, ..v }, Some(res))
    } else if group == 10 {
        let (res, v1) = spec_game_util_service(v, index, r);
        (v1, Some(res))
    } else if group == 11 {
        let (res, v1) = spec_engine_service(v, index, r.r0, r.r1);
        (v1, Some(res))
    } else if group == 13 {
        let (res, m) = spec_ucs2_service(v.memory, index, r.r0, r.r1, r.r2);
        (MachineView { memory: m, ..v }, Some(res))
    } else if group == 14 {
        let (res, s, m) = spec_screen_service(v.screens, v.memory, index, r.r0);
        (MachineView { screens: s, memory: m, ..v }, Some(res))
    } else if group == 16 {
        let (res, v1) = spec_game_lcd_service(v, index, r.r0);
        (v1, Some(res))
    } else if group == 18 {
        let (res, v1) = spec_audio_service(v, index, r);
        (v1, Some(res))
    } else if group == 20 {
        let (res, m) = spec_app_store_service(v.memory, index, r.r0);
        (MachineView { memory: m, ..v }, Some(res))
    } else if group == 21 {
        let (res, v1) = spec_data_package_service(v, index, r.r0, r.r1);
        (v1, Some(res))
    } else if group == 22 {
        (v, Some(if index == 4 { u32::MAX } else { 0 }))
    } else if group == 24 {
        (MachineView { memory: spec_payment_service(v.memory, index, r.r0, r.r1), ..v }, Some(0))
    } else if group == 25 {
        let (res, v1) = spec_download_resource_service(v, index, r.r0, r.r1);
        (v1, Some(res))
    } else if group == 26 {
        if index == 4 {
            let (res, h) = spec_allocate(v.heap, r.r0);
            (MachineView { heap: h, ..v }, Some(res))
        } else {
            (v, Some(0))
        }
    } else if group == 28 {
        (v, Some(if index == 30 { 1 } else { 0 }))
    } else {
        (v, Some(0))
    }
}

/// The routed service at `address` before the return: the machine after it
/// and its result, `None` where the caller computes it (and for the no-op
/// log service).
#[verifier::opaque]
pub open spec fn spec_route_result(v: MachineView, address: u32) -> (MachineView, Option<u32>) {
    let r = spec_service_registers(v.cpu);
    match spec_route_service(address) {
        ServiceRoute::LogNoop => (v, None::<u32>),
        ServiceRoute::FixedManagerInit(index) => {
            let (res, m) = spec_fixed_manager_init(v.memory, index, r.r0);
            (MachineView { memory: m, ..v }, Some(res))
        },
        ServiceRoute::GameoldObject(index) => (
            MachineView { memory: spec_gameold_object_service(v.memory, index, r), ..v },
            Some(0u32),
        ),
        ServiceRoute::GameoldRegion(index) => {
            let (res, m) = spec_gameold_region_service(v.memory, index, r);
            (MachineView { memory: m, ..v }, Some(res))
        },
        ServiceRoute::NativeDispatch => {
            let (res, v1) = spec_native_dispatch(v, r.r0, r.r1);
            (v1, Some(res))
        },
        ServiceRoute::SystemTime(value) => (v, Some(value)),
        ServiceRoute::MemoryBlock(index) => {
            let (res, h, m) = spec_memory_block_service(v.heap, v.memory, index, r.r0, r.r1);
            (
                MachineView { heap: h, memory: m, service_calls: spec_count_call(v.service_calls, 27, index), ..v },
                Some(res),
            )
        },
        ServiceRoute::Group(group, index) => spec_group_service(
            MachineView { service_calls: spec_count_call(v.service_calls, group, index), ..v },
            group,
            index,
        ),
}
}

/// A call into the service area at `address`: the machine after the
/// service and, unless the caller computes the result, after returning to
/// the link register with the result in r0; whether it returned.
#[verifier::opaque]
pub open spec fn spec_service(v: MachineView, address: u32) -> (MachineView, bool) {
    let (after, result) = spec_route_result(v, address);
    match spec_route_service(address) {
        ServiceRoute::LogNoop => (MachineView { cpu: spec_return_from_service(v.cpu), ..v }, true),
        _ => match result {
            Some(res) => (
                MachineView { cpu: spec_return_from_service(spec_set_reg(after.cpu, 0, res)), ..after },
                true,
            ),
            None => (after, false),
        },
    }
}

/// Whether the service at `address` would read a file from a position past
/// its end, which the file system cannot do.
pub open spec fn spec_service_unsupported(v: MachineView, address: u32) -> bool {
    spec_route_service(address) == ServiceRoute::Group(5, 4) && spec_file_read_past_end(
        v.fs,
        4,
        spec_service_registers(v.cpu),
    )
}

impl NicaiMachine {
    /// The service argument registers.
    fn service_registers(&self) -> (res: ServiceRegisters)
        ensures
            res == spec_service_registers(self@.cpu),
    {
        ServiceRegisters {
            r0: self.cpu.gpr[0],
            r1: self.cpu.gpr[1],
            r2: self.cpu.gpr[2],
            r3: self.cpu.gpr[3],
            sp: self.cpu.gpr[SP],
        }
    }

    /// Count one call of service (`group`, `index`).
    fn count_call(&mut self, group: u32, index: u32)
        ensures
            final(self)@ == (MachineView {
                service_calls: spec_count_call(old(self)@.service_calls, group, index),
                ..old(self)@
            }),
    {
        let ghost calls = self.service_calls@;
        let ghost v0 = self@;
        let mut k: usize = 0;
        while k < self.service_calls.len()
            invariant
                k <= self.service_calls@.len(),
                self@ == v0,
                v0 == old(self)@,
                v0.service_calls == calls,
                spec_call_entry(calls, group, index, 0) == spec_call_entry(calls, group, index, k as int),
            decreases self.service_calls@.len() - k,
        {
            let (g, i, count) = self.service_calls[k];
            if g == group && i == index {
                assert(spec_call_entry(calls, group, index, k as int) == Some(k as int));
                self.service_calls.set(k, (group, index, count.wrapping_add(1)));
                return;
            }
            k = k + 1;
        }
        self.service_calls.push((group, index, 1));
    }

    /// Run service `index` of `group`; `None` when the caller computes the
    /// result.
    fn group_service(&mut self, group: u32, index: u32) -> (res: Option<u32>)
        requires
            old(self).wf(),
            !(group == 5 && spec_file_read_past_end(old(self)@.fs, index, spec_service_registers(old(self)@.cpu))),
        ensures
            final(self).wf(),
            (final(self)@, res) == spec_group_service(old(self)@, group, index),
    {
        reveal(spec_group_service);
        let registers = self.service_registers();
        let r0 = registers.r0;
        let r1 = registers.r1;
        let r2 = registers.r2;
        match group {
            0 => Some(handle_root_service(&mut self.memory, index, r0)),
            1 => Some(handle_system_service(&mut self.memory, index, r0, r1, r2, self.instruction_count)),
            2 => Some(handle_memory_service(&mut self.heap, &mut self.memory, index, r0, r1)),
            3 => Some(self.handle_game_service(index, registers)),
            4 => Some(self.handle_lcd_service(index, registers)),
            5 => Some(handle_file_service(&mut self.virtual_fs, &mut self.memory, index, registers)),
            6 => handle_stdio_service(&mut self.memory, index, registers, self.instruction_count),
            7 => Some(self.timers.handle_timer_service(index, r0, r1, r2, self.frame_count)),
            10 => Some(self.handle_game_util_service(index, registers)),
            11 => Some(self.handle_engine_service(index, r0, r1)),
            13 => Some(handle_ucs2_service(&mut self.memory, index, r0, r1, r2)),
            14 => Some(self.screens.handle_screen_service(&mut self.memory, index, r0)),
            16 => Some(self.handle_game_lcd_service(index, r0)),
            18 => Some(self.handle_audio_service(index, registers)),
            20 => Some(handle_app_store_service(&mut self.memory, index, r0)),
            21 => Some(self.handle_data_package_service(index, r0, r1)),
            22 => Some(download_service(index)),
            24 => Some(payment_service(&mut self.memory, index, r0, r1)),
            25 => Some(self.handle_download_resource_service(index, r0, r1)),
            26 => Some(self.handle_download_image_service(index, r0)),
            28 => Some(
                if index == 30 {
                    1
                } else {
                    0
                },
            ),
            _ => Some(0),
        }
    }

    /// Run the routed service at `address` (see `spec_route_result`).
    fn route_result(&mut self, address: u32) -> (res: Option<u32>)
        requires
            old(self).wf(),
            SERVICE_BASE <= address,
            !spec_service_unsupported(old(self)@, address),
        ensures
            final(self).wf(),
            (final(self)@, res) == spec_route_result(old(self)@, address),
    {
        reveal(spec_route_result);
        let r0 = self.cpu.gpr[0];
        let r1 = self.cpu.gpr[1];
        match route_service(address) {
            ServiceRoute::LogNoop => None,
            ServiceRoute::FixedManagerInit(index) => Some(handle_fixed_manager_init(&mut self.memory, index, r0)),
            ServiceRoute::GameoldObject(index) => {
                let registers = self.service_registers();
                Some(handle_gameold_object_service(&mut self.memory, index, registers))
            },
            ServiceRoute::GameoldRegion(index) => {
                let registers = self.service_registers();
                Some(handle_gameold_region_service(&mut self.memory, index, registers))
            },
            ServiceRoute::NativeDispatch => Some(self.handle_native_dispatch(r0, r1)),
            ServiceRoute::SystemTime(value) => Some(value),
            ServiceRoute::MemoryBlock(index) => {
                self.count_call(27, index);
                Some(handle_memory_block_service(&mut self.heap, &mut self.memory, index, r0, r1))
            },
            ServiceRoute::Group(group, index) => {
                self.count_call(group, index);
                self.group_service(group, index)
            },
        }
    }

    /// Answer a call into the service area at `address`: run the service,
    /// put its result in r0 and return to the link register. Returns false
    /// when the caller computes the result (the machine has not returned).
    pub fn handle_service(&mut self, address: u32) -> (res: bool)
        requires
            old(self).wf(),
            SERVICE_BASE <= address,
            !spec_service_unsupported(old(self)@, address),
        ensures
            final(self).wf(),
            (final(self)@, res) == spec_service(old(self)@, address),
    {
        reveal(spec_service);
        if route_service(address) == ServiceRoute::LogNoop {
            self.cpu.return_from_service();
            return true;
        }
        let result = self.route_result(address);
        match result {
            Some(value) => {
                self.cpu.gpr.set(0, value);
                self.cpu.return_from_service();
                true
            },
            None => false,
        }
    }
}

/// The program counter aligned to the instruction size of the current
/// state.
pub open spec fn spec_aligned_pc(c: CpuView) -> u32 {
    let pc = c.gpr[PC as int];
    if spec_thumb(c.cpsr) {
        spec_even(pc)
    } else {
        (pc - pc % 4) as u32
    }
}

/// One more instruction counted.
pub open spec fn spec_counted(v: MachineView) -> MachineView {
    MachineView { instruction_count: v.instruction_count.wrapping_add(1), ..v }
}

/// Whether the next instruction is a service that cannot be answered (a
/// read past the end of a file).
pub open spec fn spec_next_unsupported(v: MachineView) -> bool {
    let pc = spec_aligned_pc(v.cpu);
    SERVICE_BASE <= pc < SERVICE_BASE + SERVICE_SIZE && spec_service_unsupported(v, pc)
}

/// A semihosting call at `pc`: reason 3 (write a character) and reason 4
/// (write the zero-terminated string at r1, read up to 4096 bytes) are
/// answered by stepping over the call; other reasons are refused. The
/// emulator prints nothing.
pub open spec fn spec_semihosting(v: MachineView, pc: u32) -> (MachineView, Result<InstructionStep, MachineError>) {
    let reason = v.cpu.gpr[0];
    let argument = v.cpu.gpr[1];
    if reason == 3 {
        (spec_counted(MachineView { cpu: spec_set_reg(v.cpu, PC as int, pc.wrapping_add(2)), ..v }), Ok(InstructionStep::Handled))
    } else if reason == 4 {
        let m = spec_c_bytes(v.memory, argument, 4096).1;
        (
            spec_counted(MachineView { cpu: spec_set_reg(v.cpu, PC as int, pc.wrapping_add(2)), memory: m, ..v }),
            Ok(InstructionStep::Handled),
        )
    } else {
        (v, Err(MachineError::UnhandledSemihosting(reason, pc)))
    }
}

/// What the machine does at the program counter: align it, then end the
/// guest call at the exit address, halt on a terminal self-branch, answer
/// a service, answer a semihosting call, take an interworking branch,
/// refuse an unmapped fetch, or leave the instruction to the core. Every
/// instruction the machine completes itself is counted.
pub open spec fn spec_before_instruction(v: MachineView) -> (MachineView, Result<InstructionStep, MachineError>) {
    let thumb = spec_thumb(v.cpu.cpsr);
    let size: int = if thumb {
        2
    } else {
        4
    };
    let pc = spec_aligned_pc(v.cpu);
    let v1 = MachineView { cpu: spec_set_reg(v.cpu, PC as int, pc), last_pc: pc, ..v };
    if spec_even(pc) == EXIT_ADDRESS {
        (v1, Ok(InstructionStep::Returned))
    } else {
        let (word, m2) = spec_read(v1.memory, pc, size);
        let v2 = MachineView { memory: m2, ..v1 };
        if (thumb && word == 0xe7fe) || (!thumb && word == 0xeaff_fffe) {
            (MachineView { state: MachineState::Halted, ..v2 }, Ok(InstructionStep::Halted))
        } else if SERVICE_BASE <= pc < SERVICE_BASE + SERVICE_SIZE {
            let (v3, returned) = spec_service(v2, pc);
            if returned {
                (spec_counted(v3), Ok(InstructionStep::Handled))
            } else {
                (v3, Ok(InstructionStep::FloatPower(v2.cpu.gpr[0], v2.cpu.gpr[1])))
            }
        } else {
            let (half, m3) = if thumb {
                spec_read(m2, pc, 2)
            } else {
                (0u32, m2)
            };
            let v3 = MachineView { memory: m3, ..v2 };
            if thumb && half == 0xdfab {
                spec_semihosting(v3, pc)
            } else {
                let (taken, c4, m4) = spec_interworking(v3.cpu, v3.memory);
                if taken {
                    (spec_counted(MachineView { cpu: c4, memory: m4, ..v3 }), Ok(InstructionStep::Handled))
                } else if spec_find_region(m4.regions, pc, size) is None {
                    (
                        MachineView { state: MachineState::Faulted, cpu: c4, memory: m4, ..v3 },
                        Err(MachineError::UnmappedFetch(pc)),
                    )
                } else {
                    (MachineView { cpu: c4, memory: m4, ..v3 }, Ok(InstructionStep::Execute))
                }
            }
        }
    }
}

impl NicaiMachine {
    /// Decide what happens at the program counter (see
    /// `spec_before_instruction`).
    #[verifier::rlimit(40)]
    pub fn before_instruction(&mut self) -> (res: Result<InstructionStep, MachineError>)
        requires
            old(self).wf(),
            !spec_next_unsupported(old(self)@),
        ensures
            final(self).wf(),
            (final(self)@, res) == spec_before_instruction(old(self)@),
    {
        let thumb = self.cpu.thumb_mode();
        let raw_pc = self.cpu.gpr[PC];
        let pc = if thumb {
            even(raw_pc)
        } else {
            raw_pc - raw_pc % 4
        };
        self.cpu.gpr.set(PC, pc);
        self.last_pc = pc;
        if even(pc) == EXIT_ADDRESS {
            return Ok(InstructionStep::Returned);
        }
        let terminal = if thumb {
            self.memory.r16(pc) == 0xe7fe
        } else {
            self.memory.r32(pc) == 0xeaff_fffe
        };
        if terminal {
            self.state = MachineState::Halted;
            return Ok(InstructionStep::Halted);
        }
        if SERVICE_BASE <= pc && pc < SERVICE_BASE + SERVICE_SIZE {
            let base = self.cpu.gpr[0];
            let exponent = self.cpu.gpr[1];
            if self.handle_service(pc) {
                self.instruction_count = self.instruction_count.wrapping_add(1);
                return Ok(InstructionStep::Handled);
            } else {
                return Ok(InstructionStep::FloatPower(base, exponent));
            }
        }
        let semihosting = if thumb {
            self.memory.r16(pc) == 0xdfab
        } else {
            false
        };
        if semihosting {
            let reason = self.cpu.gpr[0];
            let argument = self.cpu.gpr[1];
            if reason == 3 {
            } else if reason == 4 {
                let _message = read_c_bytes(&mut self.memory, argument, 4096);
            } else {
                return Err(MachineError::UnhandledSemihosting(reason, pc));
            }
            self.cpu.gpr.set(PC, pc.wrapping_add(2));
            self.instruction_count = self.instruction_count.wrapping_add(1);
            return Ok(InstructionStep::Handled);
        }
        if interworking_branch(&mut self.cpu, &mut self.memory) {
            self.instruction_count = self.instruction_count.wrapping_add(1);
            return Ok(InstructionStep::Handled);
        }
        let size: usize = if thumb {
            2
        } else {
            4
        };
        if self.memory.region(pc, size).is_none() {
            self.state = MachineState::Faulted;
            return Err(MachineError::UnmappedFetch(pc));
        }
        Ok(InstructionStep::Execute)
    }

    /// Whether the next instruction is a service that cannot be answered (a
    /// read past the end of a file); `before_instruction` must not be asked
    /// then.
    pub fn next_instruction_unsupported(&self) -> (res: bool)
        requires
            self.wf(),
        ensures
            res == spec_next_unsupported(self@),
    {
        let thumb = self.cpu.thumb_mode();
        let raw_pc = self.cpu.gpr[PC];
        let pc = if thumb {
            even(raw_pc)
        } else {
            raw_pc - raw_pc % 4
        };
        if !(SERVICE_BASE <= pc && pc < SERVICE_BASE + SERVICE_SIZE) {
            return false;
        }
        match route_service(pc) {
            ServiceRoute::Group(5, 4) => self.cpu.gpr[1] <= MAX_TRANSFER && self.virtual_fs.reads_past_end(
                self.cpu.gpr[2],
            ),
            _ => false,
        }
    }

    /// Report the instruction the core was asked to execute: counted when it
    /// ran, a fault when the core could not decode it.
    pub fn finish_instruction(&mut self, executed: bool) -> (res: Result<(), MachineError>)
        ensures
            executed ==> res is Ok && final(self)@ == spec_counted(old(self)@),
            !executed ==> res == Err::<(), MachineError>(MachineError::UnsupportedInstruction(old(self)@.last_pc))
                && final(self)@ == (MachineView { state: MachineState::Faulted, ..old(self)@ }),
    {
        if executed {
            self.instruction_count = self.instruction_count.wrapping_add(1);
            Ok(())
        } else {
            self.state = MachineState::Faulted;
            Err(MachineError::UnsupportedInstruction(self.last_pc))
        }
    }

    /// Complete a floating-point power service with the computed bit
    /// pattern: the result goes to r0 and the service returns.
    pub fn finish_float_service(&mut self, result: u32)
        ensures
            final(self)@ == spec_counted(
                MachineView { cpu: spec_return_from_service(spec_set_reg(old(self)@.cpu, 0, result)), ..old(self)@ },
            ),
    {
        self.cpu.gpr.set(0, result);
        self.cpu.return_from_service();
        self.instruction_count = self.instruction_count.wrapping_add(1);
    }

    /// A guest call ran out of its instruction budget: the machine faults.
    pub fn exhaust_budget(&mut self, limit: u64) -> (res: MachineError)
        ensures
            res == MachineError::InstructionLimit(limit, old(self)@.last_pc),
            final(self)@ == (MachineView { state: MachineState::Faulted, ..old(self)@ }),
    {
        self.state = MachineState::Faulted;
        MachineError::InstructionLimit(limit, self.last_pc)
    }

    /// Replace the registers with those the core left after executing an
    /// instruction.
    pub fn set_registers(&mut self, registers: CpuRegisters)
        ensures
            final(self)@ == (MachineView { cpu: registers@, ..old(self)@ }),
    {
        self.cpu = registers;
    }

    /// Guest byte read for the core.
    pub fn bus_r8(&mut self, address: u32) -> (res: u8)
        ensures
            (res as u32, final(self)@.memory) == spec_read(old(self)@.memory, address, 1),
            final(self)@ == (MachineView { memory: final(self)@.memory, ..old(self)@ }),
    {
        self.memory.r8(address)
    }

    /// Guest halfword read for the core.
    pub fn bus_r16(&mut self, address: u32) -> (res: u16)
        ensures
            (res as u32, final(self)@.memory) == spec_read(old(self)@.memory, address, 2),
            final(self)@ == (MachineView { memory: final(self)@.memory, ..old(self)@ }),
    {
        self.memory.r16(address)
    }

    /// Guest word read for the core.
    pub fn bus_r32(&mut self, address: u32) -> (res: u32)
        ensures
            (res, final(self)@.memory) == spec_read(old(self)@.memory, address, 4),
            final(self)@ == (MachineView { memory: final(self)@.memory, ..old(self)@ }),
    {
        self.memory.r32(address)
    }

    /// Guest byte write for the core.
    pub fn bus_w8(&mut self, address: u32, value: u8)
        ensures
            final(self)@ == (MachineView { memory: spec_write(old(self)@.memory, address, value as u32, 1), ..old(self)@ }),
    {
        self.memory.w8(address, value)
    }

    /// Guest halfword write for the core.
    pub fn bus_w16(&mut self, address: u32, value: u16)
        ensures
            final(self)@ == (MachineView { memory: spec_write(old(self)@.memory, address, value as u32, 2), ..old(self)@ }),
    {
        self.memory.w16(address, value)
    }

    /// Guest word write for the core.
    pub fn bus_w32(&mut self, address: u32, value: u32)
        ensures
            final(self)@ == (MachineView { memory: spec_write(old(self)@.memory, address, value, 4), ..old(self)@ }),
    {
        self.memory.w32(address, value)
    }
}

} // verus!
