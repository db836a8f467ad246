//! The state of the emulator as contracts see it, and what an instruction
//! makes of it: the cost that the profiler accounts for, the change that the
//! effect of the instruction commits, and the bookkeeping that ends every
//! instruction.

use vstd::prelude::*;
use crate::error::RVError;
use crate::instruction::Inst;
use crate::memory::MemoryView;
use crate::profiler::{division_latency, max_u64, wrap_add, ProfilerView, MULTIPLY_LATENCY};
use crate::register::{Reg, A7, RA};
use crate::decode16::{instruction_of, length_of};
use crate::memory::PAGE_SIZE;
use crate::semantics::{
    amo_result, effect_of, extended, low_word, magnitude, word, Effect, FloatOp,
};

verus! {

/// An open file: the position of the next read, and the bytes of the file.
pub struct FileView {
    pub offset: u64,
    pub data: Seq<u8>,
}

/// The bytes of the shared libraries that the guest can open.
pub struct LibrariesView {
    pub libc: Seq<u8>,
    pub libstdcpp: Seq<u8>,
    pub libm: Seq<u8>,
    pub libgcc_s: Seq<u8>,
}

/// The state of the emulator.
pub struct EmulatorView {
    pub pc: u64,
    /// The 32 integer registers.
    pub x: Seq<u64>,
    /// The 32 floating-point registers, as bit patterns of doubles.
    pub f: Seq<u64>,
    pub memory: MemoryView,
    /// The open files, by descriptor.
    pub files: Map<i64, FileView>,
    pub libraries: LibrariesView,
    pub stdout: Seq<char>,
    pub stderr: Seq<char>,
    /// Where profiling starts, if a label was set.
    pub profile_start: Option<u64>,
    /// Where profiling ends: the return address of the profiled function.
    pub profile_end: Option<u64>,
    pub profiler: ProfilerView,
    /// The number of instructions executed.
    pub inst_counter: u64,
    /// The most memory that was in use after an instruction.
    pub max_memory: u64,
    /// The exit code, once the guest has exited.
    pub exit_code: Option<u64>,
}

/// The line that reports a word that encodes no known instruction.
pub open spec fn unknown_report(raw: u32) -> Seq<char> {
    "unknown instruction: "@ + crate::text::digits(raw as nat, 16) + "\n"@
}

/// What the floating-point unit may return for a request: a value that its
/// contract allows, or any value where nothing was requested.
pub open spec fn answers<F: Fn(FloatOp) -> u64>(fpu: F, request: Option<FloatOp>, value: u64)
    -> bool {
    match request {
        Some(op) => call_ensures(fpu, (op,), value),
        None => true,
    }
}

impl EmulatorView {
    /// There are 32 registers of each kind, `x0` is zero, and memory and
    /// profiler are well formed.
    pub open spec fn well_formed(self) -> bool {
        &&& self.x.len() == 32
        &&& self.f.len() == 32
        &&& self.x[0] == 0
        &&& self.memory.well_formed()
        &&& self.profiler.well_formed()
    }

    /// The value of an integer register.
    pub open spec fn reg(self, r: Reg) -> u64 {
        self.x[r.0 as int]
    }

    /// The effect of `inst` in this state.
    pub open spec fn effect(self, inst: Inst) -> Effect {
        effect_of(inst, self.x, self.f, self.pc)
    }

    /// The cycle at which the sources of `inst` are ready, for those
    /// instructions that wait for their sources.
    pub open spec fn sources_ready(self, inst: Inst) -> Option<u64> {
        let p = self.profiler;
        match inst {
            Inst::Ecall => Some(p.x_ready[A7 as int]),
            Inst::Ld { rs1, .. }
            | Inst::Lw { rs1, .. }
            | Inst::Lwu { rs1, .. }
            | Inst::Lhu { rs1, .. }
            | Inst::Lb { rs1, .. }
            | Inst::Lbu { rs1, .. }
            | Inst::Fld { rs1, .. }
            | Inst::Flw { rs1, .. }
            | Inst::Addi { rs1, .. }
            | Inst::Addiw { rs1, .. }
            | Inst::Andi { rs1, .. }
            | Inst::Ori { rs1, .. }
            | Inst::Xori { rs1, .. }
            | Inst::Slti { rs1, .. }
            | Inst::Sltiu { rs1, .. }
            | Inst::Slli { rs1, .. }
            | Inst::Slliw { rs1, .. }
            | Inst::Srli { rs1, .. }
            | Inst::Srliw { rs1, .. }
            | Inst::Srai { rs1, .. }
            | Inst::Sraiw { rs1, .. }
            | Inst::Jalr { rs1, .. } => Some(p.x_ready[rs1.0 as int]),
            Inst::Sd { rs1, rs2, .. }
            | Inst::Sw { rs1, rs2, .. }
            | Inst::Sh { rs1, rs2, .. }
            | Inst::Sb { rs1, rs2, .. }
            | Inst::Add { rs1, rs2, .. }
            | Inst::Addw { rs1, rs2, .. }
            | Inst::And { rs1, rs2, .. }
            | Inst::Sub { rs1, rs2, .. }
            | Inst::Subw { rs1, rs2, .. }
            | Inst::Sll { rs1, rs2, .. }
            | Inst::Sllw { rs1, rs2, .. }
            | Inst::Srl { rs1, rs2, .. }
            | Inst::Srlw { rs1, rs2, .. }
            | Inst::Sra { rs1, rs2, .. }
            | Inst::Sraw { rs1, rs2, .. }
            | Inst::Or { rs1, rs2, .. }
            | Inst::Xor { rs1, rs2, .. }
            | Inst::Beq { rs1, rs2, .. }
            | Inst::Bne { rs1, rs2, .. }
            | Inst::Blt { rs1, rs2, .. }
            | Inst::Bltu { rs1, rs2, .. }
            | Inst::Bge { rs1, rs2, .. }
            | Inst::Bgeu { rs1, rs2, .. }
            | Inst::Slt { rs1, rs2, .. }
            | Inst::Sltu { rs1, rs2, .. }
            | Inst::Mul { rs1, rs2, .. }
            | Inst::Mulhu { rs1, rs2, .. }
            | Inst::Div { rs1, rs2, .. }
            | Inst::Divw { rs1, rs2, .. }
            | Inst::Divu { rs1, rs2, .. }
            | Inst::Divuw { rs1, rs2, .. }
            | Inst::Remw { rs1, rs2, .. }
            | Inst::Remu { rs1, rs2, .. }
            | Inst::Remuw { rs1, rs2, .. } => Some(
                max_u64(p.x_ready[rs1.0 as int], p.x_ready[rs2.0 as int]),
            ),
            Inst::Fsd { rs1, rs2, .. } | Inst::Fsw { rs1, rs2, .. } => Some(
                max_u64(p.x_ready[rs1.0 as int], p.f_ready[rs2.0 as int]),
            ),
            _ => None,
        }
    }

    /// The cycles after which the result of `inst` is ready, for the
    /// instructions that multiply or divide.
    pub open spec fn result_latency(self, inst: Inst) -> Option<(Reg, u64)> {
        match inst {
            Inst::Mul { rd, .. } | Inst::Mulhu { rd, .. } => Some((rd, MULTIPLY_LATENCY)),
            Inst::Div { rd, rs1, rs2 } => Some(
                (rd, division_latency(magnitude(self.reg(rs1)), magnitude(self.reg(rs2)))),
            ),
            Inst::Divw { rd, rs1, rs2 } | Inst::Remw { rd, rs1, rs2 } => Some(
                (
                    rd,
                    division_latency(
                        magnitude(word(self.reg(rs1))),
                        magnitude(word(self.reg(rs2))),
                    ),
                ),
            ),
            Inst::Divu { rd, rs1, rs2 } | Inst::Remu { rd, rs1, rs2 } => Some(
                (rd, division_latency(self.reg(rs1), self.reg(rs2))),
            ),
            Inst::Divuw { rd, rs1, rs2 } | Inst::Remuw { rd, rs1, rs2 } => Some(
                (rd, division_latency(low_word(self.reg(rs1)), low_word(self.reg(rs2)))),
            ),
            _ => None,
        }
    }

    /// The profiler after it has accounted for `inst`: the stall for the
    /// sources; then the cache and the latency of a load, the latency of a
    /// multiplication or division, or the prediction of a branch. The atomic
    /// instructions and the floating-point computations are not accounted
    /// for.
    pub open spec fn profiled(self, inst: Inst) -> ProfilerView {
        let stalled = match self.sources_ready(inst) {
            Some(ready) => self.profiler.stalled(ready, self.pc),
            None => self.profiler,
        };
        match inst {
            Inst::Lrw { .. } | Inst::Lrd { .. } => stalled,
            _ => match self.effect(inst) {
                Effect::Load { rd, addr, .. } => stalled.loaded_x(rd, addr, self.pc),
                Effect::LoadDouble { rd, addr } | Effect::LoadSingle { rd, addr } =>
                    stalled.loaded_f(rd, addr, self.pc),
                Effect::Branch { taken, .. } => stalled.branched(self.pc, taken),
                _ => match self.result_latency(inst) {
                    Some((rd, latency)) => stalled.delayed_x(rd, latency),
                    None => stalled,
                },
            },
        }
    }

    /// The state with `value` in integer register `rd`.
    pub open spec fn with_x(self, rd: Reg, value: u64) -> EmulatorView {
        EmulatorView { x: self.x.update(rd.0 as int, value), ..self }
    }

    /// The state with `value` in floating-point register `rd`.
    pub open spec fn with_f(self, rd: crate::register::FReg, value: u64) -> EmulatorView {
        EmulatorView { f: self.f.update(rd.0 as int, value), ..self }
    }

    /// The state at the end of an instruction that goes on at `next`: the
    /// counter of instructions is one higher, the profiler has ticked for
    /// `next`, and `x0` is zero again.
    pub open spec fn retired(self, next: u64) -> EmulatorView {
        EmulatorView {
            pc: next,
            inst_counter: wrap_add(self.inst_counter, 1),
            profiler: self.profiler.ticked(next),
            x: self.x.update(0, 0),
            ..self
        }
    }

    /// What the interpreter asks of the floating-point unit for an effect, if
    /// anything. A load that faults asks nothing.
    pub open spec fn float_request(self, effect: Effect) -> Option<FloatOp> {
        match effect {
            Effect::LoadSingle { addr, .. } => match self.memory.load_value(addr, 4) {
                Some(bits) => Some(FloatOp::SingleToDouble(bits as u32)),
                None => None,
            },
            Effect::StoreSingle { value, .. } => Some(FloatOp::DoubleToSingle(value)),
            Effect::FloatToInt { op, .. } => Some(op),
            Effect::FloatToFloat { op, .. } => Some(op),
            _ => None,
        }
    }

    /// The state after an effect other than a system call has been
    /// committed, for an instruction of `incr` bytes; `answer` is what the
    /// floating-point unit returned, where it was asked. An access to memory
    /// that is not mapped is a segmentation fault. A word that encodes no
    /// known instruction is no fault: it is reported on the error output, and
    /// the guest goes on behind it.
    pub open spec fn committed(self, effect: Effect, incr: u64, answer: u64) -> Result<
        EmulatorView,
        RVError,
    > {
        let next = self.pc.wrapping_add(incr);
        match effect {
            Effect::Nop | Effect::Call => Ok(self.retired(next)),
            Effect::Report { raw } => Ok(
                (EmulatorView { stderr: self.stderr + unknown_report(raw), ..self }).retired(next),
            ),
            Effect::Write { rd, value } => Ok(self.with_x(rd, value).retired(next)),
            Effect::Load { rd, addr, size, signed } => match self.memory.load_value(
                addr,
                size as int,
            ) {
                Some(value) => Ok(self.with_x(rd, extended(value, size, signed)).retired(next)),
                None => Err(RVError::SegmentationFault),
            },
            Effect::Store { addr, value, size } => match self.memory.store_value(
                addr,
                value,
                size as int,
            ) {
                Some(memory) => Ok((EmulatorView { memory, ..self }).retired(next)),
                None => Err(RVError::SegmentationFault),
            },
            Effect::Jump { rd, target } => Ok(self.with_x(rd, next).retired(target)),
            Effect::Branch { taken, target } => Ok(
                self.retired(
                    if taken {
                        target
                    } else {
                        next
                    },
                ),
            ),
            Effect::Atomic { rd, addr, size, op, operand } => match self.memory.load_value(
                addr,
                size as int,
            ) {
                Some(held) => match self.memory.store_value(
                    addr,
                    amo_result(op, held, operand, size),
                    size as int,
                ) {
                    Some(memory) => Ok(
                        (EmulatorView { memory, ..self }).with_x(
                            rd,
                            extended(held, size, true),
                        ).retired(next),
                    ),
                    None => Err(RVError::SegmentationFault),
                },
                None => Err(RVError::SegmentationFault),
            },
            Effect::StoreConditional { rd, addr, value, size } => match self.memory.store_value(
                addr,
                value,
                size as int,
            ) {
                Some(memory) => Ok((EmulatorView { memory, ..self }).with_x(rd, 0).retired(next)),
                None => Err(RVError::SegmentationFault),
            },
            Effect::LoadDouble { rd, addr } => match self.memory.load_value(addr, 8) {
                Some(bits) => Ok(self.with_f(rd, bits).retired(next)),
                None => Err(RVError::SegmentationFault),
            },
            Effect::LoadSingle { rd, addr } => match self.memory.load_value(addr, 4) {
                Some(_) => Ok(self.with_f(rd, answer).retired(next)),
                None => Err(RVError::SegmentationFault),
            },
            Effect::StoreSingle { addr, .. } => match self.memory.store_value(
                addr,
                low_word(answer),
                4,
            ) {
                Some(memory) => Ok((EmulatorView { memory, ..self }).retired(next)),
                None => Err(RVError::SegmentationFault),
            },
            Effect::FloatToInt { rd, .. } => Ok(self.with_x(rd, answer).retired(next)),
            Effect::FloatToFloat { rd, .. } => Ok(self.with_f(rd, answer).retired(next)),
        }
    }
}


/// An address as a point of the profile window: address 0 is none.
pub open spec fn nonzero(addr: u64) -> Option<u64> {
    if addr == 0 {
        None
    } else {
        Some(addr)
    }
}

/// The number of bytes that the mapped pages of a memory hold, or `u64::MAX`
/// where that number is larger.
pub open spec fn usage_of(memory: MemoryView) -> u64 {
    if memory.pages.dom().len() * PAGE_SIZE <= u64::MAX {
        (memory.pages.dom().len() * PAGE_SIZE) as u64
    } else {
        u64::MAX
    }
}

impl EmulatorView {
    /// The word that holds the instruction at `pc`: its first two bytes, and
    /// the next two where the first two tell that the instruction is four
    /// bytes long. Nothing where a byte of the instruction is not mapped.
    pub open spec fn fetched(self) -> Option<u32> {
        match self.memory.load_value(self.pc, 2) {
            None => None,
            Some(low) => if low & 0b11 == 0b11 {
                match self.memory.load_value(self.pc.wrapping_add(2), 2) {
                    Some(high) => Some((low | (high << 16)) as u32),
                    None => None,
                }
            } else {
                Some(low as u32)
            },
        }
    }

    /// The state with the profile window moved on for the instruction at
    /// `pc`: at the start of the window the profiler starts and the return
    /// address becomes the end of the window; at the end of the window the
    /// profiler stops and the window is gone.
    pub open spec fn window_updated(self) -> EmulatorView {
        if self.pc != 0 && self.profile_start == Some(self.pc) {
            EmulatorView {
                profile_end: nonzero(self.x[RA as int]),
                profiler: ProfilerView { running: true, ..self.profiler },
                ..self
            }
        } else if self.pc != 0 && self.profile_end == Some(self.pc) {
            EmulatorView {
                profile_start: None,
                profile_end: None,
                profiler: ProfilerView { running: false, ..self.profiler },
                ..self
            }
        } else {
            self
        }
    }

    /// The state with the use of memory noted.
    pub open spec fn with_usage(self) -> EmulatorView {
        EmulatorView { max_memory: max_u64(self.max_memory, usage_of(self.memory)), ..self }
    }
}

} // verus!
