//! The guest CPU's user-mode register file as plain values, and the parts of
//! instruction handling that the emulator performs itself: returning from a
//! service, entering a callback, and the interworking branches that the ARM
//! core leaves to the emulator.
//!
//! The core runs in user mode only, so the sixteen user registers and the
//! CPSR are its whole state.
use vstd::prelude::*;

use crate::machine::memory::{spec_read, MachineMemory, MemoryView};
use crate::machine::{
    arm_blx_immediate_target,
    spec_arm_blx_immediate_target,
    spec_thumb_add_pc_target,
    thumb_add_pc_target,
};

verus! {

/// Index of the stack pointer.
pub const SP: usize = 13;
/// Index of the link register.
pub const LR: usize = 14;
/// Index of the program counter.
pub const PC: usize = 15;
/// Return address that ends a callback entered by the emulator.
pub const EXIT_ADDRESS: u32 = 0x0f00_0000;
/// The CPSR bit that selects Thumb state.
pub const THUMB_BIT: u32 = 0x20;

/// The user-mode registers r0-r15 and the CPSR.
#[derive(Debug, Clone, Copy)]
pub struct CpuRegisters {
    pub gpr: [u32; 16],
    pub cpsr: u32,
}

/// The registers as plain values.
pub struct CpuView {
    pub gpr: Seq<u32>,
    pub cpsr: u32,
}

impl View for CpuRegisters {
    type V = CpuView;

    open spec fn view(&self) -> CpuView {
        CpuView { gpr: self.gpr@, cpsr: self.cpsr }
    }
}

/// Whether a CPSR selects Thumb state.
pub open spec fn spec_thumb(cpsr: u32) -> bool {
    cpsr & THUMB_BIT != 0
}

/// A CPSR with the Thumb bit set or cleared.
pub open spec fn spec_with_thumb(cpsr: u32, thumb: bool) -> u32 {
    if thumb {
        cpsr | THUMB_BIT
    } else {
        cpsr & !THUMB_BIT
    }
}

/// A value with bit 0 cleared.
pub open spec fn spec_even(v: u32) -> u32 {
    (v - v % 2) as u32
}

/// The registers with register `i` set to `v`.
pub open spec fn spec_set_reg(c: CpuView, i: int, v: u32) -> CpuView {
    CpuView { gpr: c.gpr.update(i, v), ..c }
}

/// An interworking jump to `target`: the program counter takes the target
/// with bit 0 cleared, and bit 0 selects Thumb state.
pub open spec fn spec_jump(c: CpuView, target: u32) -> CpuView {
    CpuView { gpr: c.gpr.update(PC as int, spec_even(target)), cpsr: spec_with_thumb(c.cpsr, target % 2 == 1) }
}

/// Return from a service to the link register.
pub open spec fn spec_return_from_service(c: CpuView) -> CpuView {
    spec_jump(c, c.gpr[LR as int])
}

/// Enter the callback at `entry` with arguments `r0` to `r2`, returning to
/// the exit address in Thumb state.
pub open spec fn spec_enter_callback(c: CpuView, entry: u32, r0: u32, r1: u32, r2: u32) -> CpuView {
    spec_jump(
        CpuView {
            gpr: c.gpr.update(0, r0).update(1, r1).update(2, r2).update(
                LR as int,
                (EXIT_ADDRESS + 1) as u32,
            ),
            ..c
        },
        entry,
    )
}

/// A value with bit 0 cleared.
pub fn even(v: u32) -> (res: u32)
    ensures
        res == spec_even(v),
{
    v - v % 2
}

impl CpuRegisters {
    /// All registers zero, ARM state.
    pub fn new() -> (res: Self)
        ensures
            res@.gpr == Seq::new(16, |i: int| 0u32),
            res@.cpsr == 0,
    {
        let res = CpuRegisters { gpr: [0u32; 16], cpsr: 0 };
        assert(res@.gpr =~= Seq::new(16, |i: int| 0u32));
        res
    }

    /// Register `i`.
    pub fn get(&self, i: usize) -> (res: u32)
        requires
            i < 16,
        ensures
            res == self@.gpr[i as int],
    {
        self.gpr[i]
    }

    /// Set register `i`.
    pub fn set(&mut self, i: usize, value: u32)
        requires
            i < 16,
        ensures
            final(self)@ == spec_set_reg(old(self)@, i as int, value),
    {
        self.gpr.set(i, value);
    }

    /// Whether the core is in Thumb state.
    pub fn thumb_mode(&self) -> (res: bool)
        ensures
            res == spec_thumb(self.cpsr),
    {
        self.cpsr & THUMB_BIT != 0
    }

    /// Jump to `target`, with bit 0 of the target selecting Thumb state.
    pub fn jump(&mut self, target: u32)
        ensures
            final(self)@ == spec_jump(old(self)@, target),
    {
        self.gpr.set(PC, even(target));
        if target % 2 == 1 {
            self.cpsr = self.cpsr | THUMB_BIT;
        } else {
            self.cpsr = self.cpsr & !THUMB_BIT;
        }
    }

    /// Return from a service to the link register.
    pub fn return_from_service(&mut self)
        ensures
            final(self)@ == spec_return_from_service(old(self)@),
    {
        let target = self.gpr[LR];
        self.jump(target);
    }

    /// Enter the callback at `entry` with arguments `r0` to `r2`.
    pub fn enter_callback(&mut self, entry: u32, r0: u32, r1: u32, r2: u32)
        ensures
            final(self)@ == spec_enter_callback(old(self)@, entry, r0, r1, r2),
    {
        self.gpr.set(0, r0);
        self.gpr.set(1, r1);
        self.gpr.set(2, r2);
        self.gpr.set(LR, EXIT_ADDRESS + 1);
        self.jump(entry);
    }
}

/// The interworking branches that the emulator performs before the core
/// sees the instruction at the program counter: in Thumb state `ADD PC, Rm`,
/// `BLX Rm` and the two-halfword `BLX <imm>`; in ARM state `BLX <imm>`.
/// Returns whether one was taken, the registers after it, and guest memory
/// after the instruction fetches.
#[verifier::opaque]
pub open spec fn spec_interworking(c: CpuView, m: MemoryView) -> (bool, CpuView, MemoryView) {
    let pc = c.gpr[PC as int];
    if spec_thumb(c.cpsr) {
        let (raw, m1) = spec_read(m, pc, 2);
        let instruction = raw as u16;
        let source = ((instruction as u32 / 8) % 16) as int;
        match spec_thumb_add_pc_target(pc, instruction, c.gpr[source]) {
            Some(target) => (true, spec_set_reg(c, PC as int, target), m1),
            None => {
                if instruction & 0xff87 == 0x4780 {
                    let target = c.gpr[source];
                    (true, spec_jump(spec_set_reg(c, LR as int, pc.wrapping_add(3)), target), m1)
                } else {
                    let (raw2, m2) = spec_read(m1, pc.wrapping_add(2), 2);
                    let suffix = raw2 as u16;
                    if instruction & 0xf800 == 0xf000 && suffix & 0xf800 == 0xe800 {
                        let target = spec_thumb_blx_target(pc, instruction, suffix);
                        (
                            true,
                            CpuView {
                                gpr: c.gpr.update(LR as int, pc.wrapping_add(5)).update(PC as int, target),
                                cpsr: spec_with_thumb(c.cpsr, false),
                            },
                            m2,
                        )
                    } else {
                        (false, c, m2)
                    }
                }
            },
        }
    } else {
        let (instruction, m1) = spec_read(m, pc, 4);
        match spec_arm_blx_immediate_target(pc, instruction) {
            Some(target) => (
                true,
                CpuView {
                    gpr: c.gpr.update(LR as int, pc.wrapping_add(4)).update(PC as int, spec_even(target)),
                    cpsr: spec_with_thumb(c.cpsr, true),
                },
                m1,
            ),
            None => (false, c, m1),
        }
    }
}

/// Target of the Thumb `BLX <imm>` pair at `pc`: pc + 4 plus the
/// sign-extended 23-bit offset made of the two 11-bit halves (the second
/// shifted left by one), modulo 2^32, rounded down to a word.
pub open spec fn spec_thumb_blx_target(pc: u32, prefix: u16, suffix: u16) -> u32 {
    let raw = (prefix as int % 0x800) * 0x1000 + (suffix as int % 0x800) * 2;
    let offset = if raw >= 0x40_0000 {
        raw - 0x80_0000
    } else {
        raw
    };
    let sum = ((pc as int + 4 + offset) % 0x1_0000_0000) as u32;
    (sum - sum % 4) as u32
}

/// Branch target of a Thumb `BLX <imm>` pair.
pub fn thumb_blx_target(pc: u32, prefix: u16, suffix: u16) -> (res: u32)
    ensures
        res == spec_thumb_blx_target(pc, prefix, suffix),
{
    let high: u64 = (prefix % 0x800) as u64;
    let low: u64 = (suffix % 0x800) as u64;
    let raw: u64 = high * 0x1000 + low * 2;
    let total: u64 = if raw >= 0x40_0000 {
        pc as u64 + 4 + raw + 0x1_0000_0000 - 0x80_0000
    } else {
        pc as u64 + 4 + raw
    };
    let sum = (total % 0x1_0000_0000) as u32;
    sum - sum % 4
}

/// Perform the interworking branch at the program counter, if there is one.
pub fn interworking_branch(registers: &mut CpuRegisters, memory: &mut MachineMemory) -> (res: bool)
    ensures
        (res, final(registers)@, final(memory)@) == spec_interworking(old(registers)@, old(memory)@),
{
    reveal(spec_interworking);
    let pc = registers.gpr[PC];
    if registers.thumb_mode() {
        let instruction = memory.r16(pc);
        let source = ((instruction as u32 / 8) % 16) as usize;
        let source_value = registers.gpr[source];
        match thumb_add_pc_target(pc, instruction, source_value) {
            Some(target) => {
                registers.gpr.set(PC, target);
                return true;
            },
            None => {},
        }
        if instruction & 0xff87 == 0x4780 {
            registers.gpr.set(LR, pc.wrapping_add(3));
            registers.jump(source_value);
            return true;
        }
        let suffix = memory.r16(pc.wrapping_add(2));
        if instruction & 0xf800 == 0xf000 && suffix & 0xf800 == 0xe800 {
            let target = thumb_blx_target(pc, instruction, suffix);
            registers.gpr.set(LR, pc.wrapping_add(5));
            registers.gpr.set(PC, target);
            registers.cpsr = registers.cpsr & !THUMB_BIT;
            return true;
        }
        false
    } else {
        let instruction = memory.r32(pc);
        match arm_blx_immediate_target(pc, instruction) {
            Some(target) => {
                registers.gpr.set(LR, pc.wrapping_add(4));
                registers.gpr.set(PC, even(target));
                registers.cpsr = registers.cpsr | THUMB_BIT;
                true
            },
            None => false,
        }
    }
}

} // verus!
