//! The emulator: registers, memory, open files and output of a guest, and the
//! interpreter that executes its instructions one by one.
//!
//! Floating-point registers are held as the bit patterns of doubles. What has
//! to be computed on floating-point numbers is handed to a floating-point
//! unit that the caller supplies: a function from a `FloatOp` to the bits of
//! its result.

use vstd::prelude::*;
use std::collections::HashMap;
use crate::error::RVError;
use crate::files::FileDescriptor;
use crate::instruction::Inst;
use crate::machine::{answers, EmulatorView, FileView, LibrariesView};
use crate::memory::{Memory, MemoryView};
use crate::profiler::{div_cycle_count, Profiler, MULTIPLY_LATENCY};
use crate::register::{FReg, Reg, A0, A1, A2, A3, A4, A5, A7};
use crate::syscall_table::Syscall;
use crate::system::{FAILURE, FUTEX_WAIT_PRIVATE, MAP_FIXED, PATH_LIMIT, RANDOM_BYTE};
use crate::files::{
    LIBCPP_FILE_DESCRIPTOR, LIBC_FILE_DESCRIPTOR, LIBGCCS_FILE_DESCRIPTOR, LIBM_FILE_DESCRIPTOR,
};
use crate::text::{digits, pad_left, pad_right, push_char, push_number, push_padded, text_from_bytes};
use crate::auxvec::{AuxPair, Auxv};
use crate::boot::{
    aux_addr, aux_entries, booted, with_aux, with_frame, ARGC_ADDR, ARGV_ADDR, ARGV_END_ADDR,
    AUX_ADDR, AUX_COUNT, ENVIRONMENT_ADDR, ENVP_ADDR, INITIAL_SP, PROGRAM_NAME_ADDR, RANDOM_ADDR,
};
use crate::decode16::{instruction_of, length_of};
use crate::machine::nonzero;
use crate::memory::{le_bytes, padded, PAGE_SIZE};
use crate::memory_facts::lemma_top_page_mapped;
use crate::register::{x_name, RA, SP};
use crate::disassembler::symbol_address;
use vstd::slice::slice_subrange;
use crate::semantics::{
    amo, extend, magnitude_of, plan, sign_extend_word, Effect, FloatOp,
};

verus! {

broadcast use vstd::std_specs::hash::group_hash_axioms;

/// The bytes of the shared libraries that the guest can open.
pub struct Libraries {
    pub libc: Vec<u8>,
    pub libstdcpp: Vec<u8>,
    pub libm: Vec<u8>,
    pub libgcc_s: Vec<u8>,
}

impl View for Libraries {
    type V = LibrariesView;

    open spec fn view(&self) -> LibrariesView {
        LibrariesView {
            libc: self.libc@,
            libstdcpp: self.libstdcpp@,
            libm: self.libm@,
            libgcc_s: self.libgcc_s@,
        }
    }
}

/// The open files as contracts see them.
pub open spec fn files_view(files: Map<i64, FileDescriptor>) -> Map<i64, FileView> {
    Map::new(
        |fd: i64| files.contains_key(fd),
        |fd: i64| FileView { offset: files[fd].offset, data: files[fd].data@ },
    )
}

pub struct Emulator {
    pc: u64,
    x: [u64; 32],
    f: [u64; 32],
    memory: Memory,
    file_descriptors: HashMap<i64, FileDescriptor>,
    libraries: Libraries,
    stdout: String,
    stderr: String,
    profile_start_point: Option<u64>,
    profile_end_point: Option<u64>,
    profiler: Profiler,
    inst_counter: u64,
    max_memory: u64,
    exit_code: Option<u64>,
}

impl View for Emulator {
    type V = EmulatorView;

    closed spec fn view(&self) -> EmulatorView {
        EmulatorView {
            pc: self.pc,
            x: self.x@,
            f: self.f@,
            memory: self.memory@,
            files: files_view(self.file_descriptors@),
            libraries: self.libraries@,
            stdout: self.stdout@,
            stderr: self.stderr@,
            profile_start: self.profile_start_point,
            profile_end: self.profile_end_point,
            profiler: self.profiler@,
            inst_counter: self.inst_counter,
            max_memory: self.max_memory,
            exit_code: self.exit_code,
        }
    }
}

/// Whether `after` is what executing `inst` makes of `before`, with `answer`
/// as what the floating-point unit returned where it was asked.
pub open spec fn executes<F: Fn(FloatOp) -> u64>(
    fpu: F,
    before: EmulatorView,
    inst: Inst,
    incr: u64,
    answer: u64,
    after: EmulatorView,
) -> bool {
    &&& answers(fpu, before.float_request(before.effect(inst)), answer)
    &&& before.executed(inst, incr, answer) == Ok::<EmulatorView, RVError>(after)
}

impl Emulator {
    /// The invariant of the emulator, stated on its view.
    pub open spec fn well_formed(&self) -> bool {
        self@.well_formed()
    }

    /// Returns the address of the next instruction.
    pub fn pc(&self) -> (pc: u64)
        ensures
            pc == self@.pc,
    {
        self.pc
    }

    /// Sets the address of the next instruction.
    pub fn set_pc(&mut self, pc: u64)
        ensures
            final(self)@ == (EmulatorView { pc, ..old(self)@ }),
    {
        self.pc = pc;
    }

    /// Returns the value of an integer register.
    pub fn x(&self, reg: Reg) -> (value: u64)
        requires
            reg.valid(),
        ensures
            value == self@.reg(reg),
    {
        self.x[reg.0 as usize]
    }

    /// Sets an integer register. A write to `x0` changes nothing.
    pub fn set_x(&mut self, reg: Reg, value: u64)
        requires
            reg.valid(),
            old(self).well_formed(),
        ensures
            final(self).well_formed(),
            final(self)@ == if reg.0 == 0 {
                old(self)@
            } else {
                old(self)@.with_x(reg, value)
            },
    {
        if reg.0 != 0 {
            self.x[reg.0 as usize] = value;
        }
    }

    /// Returns the bit pattern in a floating-point register.
    pub fn f(&self, reg: FReg) -> (bits: u64)
        requires
            reg.valid(),
        ensures
            bits == self@.f[reg.0 as int],
    {
        self.f[reg.0 as usize]
    }

    /// Returns the guest's memory.
    pub fn memory(&self) -> (memory: &Memory)
        ensures
            memory@ == self@.memory,
    {
        &self.memory
    }

    /// Returns what the guest has written to its output.
    pub fn stdout(&self) -> (text: &String)
        ensures
            text@ == self@.stdout,
    {
        &self.stdout
    }

    /// Returns what has been written to the error output.
    pub fn stderr(&self) -> (text: &String)
        ensures
            text@ == self@.stderr,
    {
        &self.stderr
    }

    /// Returns the profiler.
    pub fn profiler(&self) -> (profiler: &Profiler)
        ensures
            profiler@ == self@.profiler,
    {
        &self.profiler
    }

    /// Returns the number of instructions executed.
    pub fn inst_counter(&self) -> (count: u64)
        ensures
            count == self@.inst_counter,
    {
        self.inst_counter
    }

    /// Returns the most memory that was in use after an instruction.
    pub fn max_memory(&self) -> (bytes: u64)
        ensures
            bytes == self@.max_memory,
    {
        self.max_memory
    }

    /// Returns the exit code, once the guest has exited.
    pub fn exit_code(&self) -> (code: Option<u64>)
        ensures
            code == self@.exit_code,
    {
        self.exit_code
    }

    /// Sets the bytes of the shared libraries that the guest can open.
    pub fn set_libraries(&mut self, libraries: Libraries)
        ensures
            final(self)@ == (EmulatorView { libraries: libraries@, ..old(self)@ }),
    {
        self.libraries = libraries;
    }

    /// Ends an instruction that goes on at `next`.
    fn retire(&mut self, next: u64)
        requires
            old(self)@.x.len() == 32,
        ensures
            final(self)@ == old(self)@.retired(next),
    {
        self.pc = next;
        self.inst_counter = self.inst_counter.wrapping_add(1);
        self.profiler.tick(self.pc);
        // make sure x0 is zero
        self.x[0] = 0;
    }

    /// Lets the profiler wait for the sources of `inst`.
    fn stall(&mut self, inst: Inst)
        requires
            old(self).well_formed(),
            inst.well_formed(),
        ensures
            final(self)@ == (EmulatorView {
                profiler: match old(self)@.sources_ready(inst) {
                    Some(ready) => old(self)@.profiler.stalled(ready, old(self)@.pc),
                    None => old(self)@.profiler,
                },
                ..old(self)@
            }),
            final(self).well_formed(),
    {
        let pc = self.pc;
        match inst {
            Inst::Ecall => {
                self.profiler.pipeline_stall_x(Reg(A7), pc);
            },
            Inst::Ld { rs1, .. }
            | Inst::Lw { rs1, .. }
            | Inst::Lwu { rs1, .. }
            | Inst::Lhu { rs1, .. }
            | Inst::Lb { rs1, .. }
            | Inst::Lbu { rs1, .. }
            | Inst::Fld { rs1, .. }
            | Inst::Flw { rs1, .. }
            | Inst::Addi { rs1, .. }
            | Inst::Addiw { rs1, .. }
            | Inst::Andi { rs1, .. }
            | Inst::Ori { rs1, .. }
            | Inst::Xori { rs1, .. }
            | Inst::Slti { rs1, .. }
            | Inst::Sltiu { rs1, .. }
            | Inst::Slli { rs1, .. }
            | Inst::Slliw { rs1, .. }
            | Inst::Srli { rs1, .. }
            | Inst::Srliw { rs1, .. }
            | Inst::Srai { rs1, .. }
            | Inst::Sraiw { rs1, .. }
            | Inst::Jalr { rs1, .. } => {
                self.profiler.pipeline_stall_x(rs1, pc);
            },
            Inst::Sd { rs1, rs2, .. }
            | Inst::Sw { rs1, rs2, .. }
            | Inst::Sh { rs1, rs2, .. }
            | Inst::Sb { rs1, rs2, .. }
            | Inst::Add { rs1, rs2, .. }
            | Inst::Addw { rs1, rs2, .. }
            | Inst::And { rs1, rs2, .. }
            | Inst::Sub { rs1, rs2, .. }
            | Inst::Subw { rs1, rs2, .. }
            | Inst::Sll { rs1, rs2, .. }
            | Inst::Sllw { rs1, rs2, .. }
            | Inst::Srl { rs1, rs2, .. }
            | Inst::Srlw { rs1, rs2, .. }
            | Inst::Sra { rs1, rs2, .. }
            | Inst::Sraw { rs1, rs2, .. }
            | Inst::Or { rs1, rs2, .. }
            | Inst::Xor { rs1, rs2, .. }
            | Inst::Beq { rs1, rs2, .. }
            | Inst::Bne { rs1, rs2, .. }
            | Inst::Blt { rs1, rs2, .. }
            | Inst::Bltu { rs1, rs2, .. }
            | Inst::Bge { rs1, rs2, .. }
            | Inst::Bgeu { rs1, rs2, .. }
            | Inst::Slt { rs1, rs2, .. }
            | Inst::Sltu { rs1, rs2, .. }
            | Inst::Mul { rs1, rs2, .. }
            | Inst::Mulhu { rs1, rs2, .. }
            | Inst::Div { rs1, rs2, .. }
            | Inst::Divw { rs1, rs2, .. }
            | Inst::Divu { rs1, rs2, .. }
            | Inst::Divuw { rs1, rs2, .. }
            | Inst::Remw { rs1, rs2, .. }
            | Inst::Remu { rs1, rs2, .. }
            | Inst::Remuw { rs1, rs2, .. } => {
                self.profiler.pipeline_stall_xx(rs1, rs2, pc);
            },
            Inst::Fsd { rs1, rs2, .. } | Inst::Fsw { rs1, rs2, .. } => {
                self.profiler.pipeline_stall_xf(rs1, rs2, pc);
            },
            _ => {},
        }
    }

    /// Returns the register and the cycles after which the result of `inst`
    /// is ready, for the instructions that multiply or divide.
    fn latency(&self, inst: Inst) -> (delay: Option<(Reg, u64)>)
        requires
            self.well_formed(),
            inst.well_formed(),
        ensures
            delay == self@.result_latency(inst),
    {
        match inst {
            Inst::Mul { rd, .. } | Inst::Mulhu { rd, .. } => Some((rd, MULTIPLY_LATENCY)),
            Inst::Div { rd, rs1, rs2 } => Some(
                (
                    rd,
                    div_cycle_count(
                        magnitude_of(self.x[rs1.0 as usize]),
                        magnitude_of(self.x[rs2.0 as usize]),
                    ),
                ),
            ),
            Inst::Divw { rd, rs1, rs2 } | Inst::Remw { rd, rs1, rs2 } => Some(
                (
                    rd,
                    div_cycle_count(
                        magnitude_of(sign_extend_word(self.x[rs1.0 as usize])),
                        magnitude_of(sign_extend_word(self.x[rs2.0 as usize])),
                    ),
                ),
            ),
            Inst::Divu { rd, rs1, rs2 } | Inst::Remu { rd, rs1, rs2 } => Some(
                (rd, div_cycle_count(self.x[rs1.0 as usize], self.x[rs2.0 as usize])),
            ),
            Inst::Divuw { rd, rs1, rs2 } | Inst::Remuw { rd, rs1, rs2 } => Some(
                (
                    rd,
                    div_cycle_count(
                        (self.x[rs1.0 as usize] as u32) as u64,
                        (self.x[rs2.0 as usize] as u32) as u64,
                    ),
                ),
            ),
            _ => None,
        }
    }

    /// Lets the profiler account for `inst`, whose effect is `effect`.
    fn profile(&mut self, inst: Inst, effect: Effect)
        requires
            old(self).well_formed(),
            inst.well_formed(),
            effect == old(self)@.effect(inst),
            effect.well_formed(),
        ensures
            final(self)@ == (EmulatorView {
                profiler: old(self)@.profiled(inst),
                ..old(self)@
            }),
            final(self).well_formed(),
    {
        let delay = self.latency(inst);
        self.stall(inst);
        let pc = self.pc;
        match inst {
            Inst::Lrw { .. } | Inst::Lrd { .. } => {},
            _ => match effect {
                Effect::Load { rd, addr, .. } => {
                    self.profiler.add_load_delay_x(rd, addr, pc);
                },
                Effect::LoadDouble { rd, addr } | Effect::LoadSingle { rd, addr } => {
                    self.profiler.add_load_delay_f(rd, addr, pc);
                },
                Effect::Branch { taken, .. } => {
                    if taken {
                        self.profiler.branch_taken(pc);
                    } else {
                        self.profiler.branch_not_taken(pc);
                    }
                },
                _ => match delay {
                    Some((rd, latency)) => {
                        self.profiler.add_delay_x(rd, latency);
                    },
                    None => {},
                },
            },
        }
    }
}


/// Whether `after` is what committing `effect` makes of `before`, with
/// `answer` as what the floating-point unit returned where it was asked.
pub open spec fn commits<F: Fn(FloatOp) -> u64>(
    fpu: F,
    before: EmulatorView,
    effect: Effect,
    incr: u64,
    answer: u64,
    after: EmulatorView,
) -> bool {
    &&& answers(fpu, before.float_request(effect), answer)
    &&& before.committed(effect, incr, answer) == Ok::<EmulatorView, RVError>(after)
}

impl Emulator {
    /// Commits an effect other than a system call, for an instruction of
    /// `incr` bytes, and retires the instruction. Fails with a segmentation
    /// fault, and changes nothing, where the effect reads or writes memory
    /// that is not mapped.
    fn commit<F: Fn(FloatOp) -> u64>(&mut self, effect: Effect, incr: u64, fpu: &F) -> (r: Result<
        (),
        RVError,
    >)
        requires
            old(self)@.x.len() == 32,
            old(self)@.f.len() == 32,
            old(self)@.memory.well_formed(),
            old(self)@.profiler.well_formed(),
            effect.well_formed(),
            forall|op: FloatOp| call_requires(*fpu, (op,)),
        ensures
            match r {
                Ok(()) => final(self).well_formed() && exists|answer: u64| #[trigger]
                    commits(*fpu, old(self)@, effect, incr, answer, final(self)@),
                Err(e) => e == RVError::SegmentationFault && final(self)@ == old(self)@
                    && forall|answer: u64| #[trigger]
                    old(self)@.committed(effect, incr, answer) == Err::<EmulatorView, RVError>(e),
            },
    {
        let next = self.pc.wrapping_add(incr);
        match effect {
            Effect::Nop | Effect::Call => {
                self.retire(next);
                assert(commits(*fpu, old(self)@, effect, incr, 0, self@));
            },
            Effect::Report { raw } => {
                self.stderr.append("unknown instruction: ");
                push_number(&mut self.stderr, raw as u64, 16, 0, ' ');
                self.stderr.append("\n");
                assert(self.stderr@ =~= old(self)@.stderr + crate::machine::unknown_report(raw));
                self.retire(next);
                assert(commits(*fpu, old(self)@, effect, incr, 0, self@));
            },
            Effect::Write { rd, value } => {
                self.x[rd.0 as usize] = value;
                self.retire(next);
                assert(commits(*fpu, old(self)@, effect, incr, 0, self@));
            },
            Effect::Load { rd, addr, size, signed } => {
                let value = match self.memory.load(addr, size as usize) {
                    Ok(value) => value,
                    Err(e) => {
                        return Err(e);
                    },
                };
                self.x[rd.0 as usize] = extend(value, size, signed);
                self.retire(next);
                assert(commits(*fpu, old(self)@, effect, incr, 0, self@));
            },
            Effect::Store { addr, value, size } => {
                match self.memory.store(addr, value, size as usize) {
                    Ok(()) => {},
                    Err(e) => {
                        return Err(e);
                    },
                }
                self.retire(next);
                assert(commits(*fpu, old(self)@, effect, incr, 0, self@));
            },
            Effect::Jump { rd, target } => {
                self.x[rd.0 as usize] = next;
                self.retire(target);
                assert(commits(*fpu, old(self)@, effect, incr, 0, self@));
            },
            Effect::Branch { taken, target } => {
                if taken {
                    self.retire(target);
                } else {
                    self.retire(next);
                }
                assert(commits(*fpu, old(self)@, effect, incr, 0, self@));
            },
            Effect::Atomic { rd, addr, size, op, operand } => {
                let held = match self.memory.load(addr, size as usize) {
                    Ok(value) => value,
                    Err(e) => {
                        return Err(e);
                    },
                };
                match self.memory.store(addr, amo(op, held, operand, size), size as usize) {
                    Ok(()) => {},
                    Err(e) => {
                        return Err(e);
                    },
                }
                self.x[rd.0 as usize] = extend(held, size, true);
                self.retire(next);
                assert(commits(*fpu, old(self)@, effect, incr, 0, self@));
            },
            Effect::StoreConditional { rd, addr, value, size } => {
                match self.memory.store(addr, value, size as usize) {
                    Ok(()) => {},
                    Err(e) => {
                        return Err(e);
                    },
                }
                self.x[rd.0 as usize] = 0;
                self.retire(next);
                assert(commits(*fpu, old(self)@, effect, incr, 0, self@));
            },
            Effect::LoadDouble { rd, addr } => {
                let bits = match self.memory.load_u64(addr) {
                    Ok(value) => value,
                    Err(e) => {
                        return Err(e);
                    },
                };
                self.f[rd.0 as usize] = bits;
                self.retire(next);
                assert(commits(*fpu, old(self)@, effect, incr, 0, self@));
            },
            Effect::LoadSingle { rd, addr } => {
                let bits = match self.memory.load_u32(addr) {
                    Ok(value) => value,
                    Err(e) => {
                        return Err(e);
                    },
                };
                assert((bits as u64) as u32 == bits);
                let answer = fpu(FloatOp::SingleToDouble(bits));
                self.f[rd.0 as usize] = answer;
                self.retire(next);
                assert(commits(*fpu, old(self)@, effect, incr, answer, self@));
            },
            Effect::StoreSingle { addr, value } => {
                let answer = fpu(FloatOp::DoubleToSingle(value));
                match self.memory.store(addr, (answer as u32) as u64, 4) {
                    Ok(()) => {},
                    Err(e) => {
                        proof {
                            lemma_store_fault_ignores_value(old(self)@.memory, addr, 4);
                        }
                        return Err(e);
                    },
                }
                self.retire(next);
                assert(commits(*fpu, old(self)@, effect, incr, answer, self@));
            },
            Effect::FloatToInt { rd, op } => {
                let answer = fpu(op);
                self.x[rd.0 as usize] = answer;
                self.retire(next);
                assert(commits(*fpu, old(self)@, effect, incr, answer, self@));
            },
            Effect::FloatToFloat { rd, op } => {
                let answer = fpu(op);
                self.f[rd.0 as usize] = answer;
                self.retire(next);
                assert(commits(*fpu, old(self)@, effect, incr, answer, self@));
            },
        }
        Ok(())
    }
}

/// Whether a store faults does not depend on the value stored.
pub proof fn lemma_store_fault_ignores_value(m: MemoryView, addr: u64, count: int)
    ensures
        forall|a: u64, b: u64|
            (#[trigger] m.store_value(addr, a, count) is None) == (#[trigger] m.store_value(
                addr,
                b,
                count,
            ) is None),
{
}


/// Returns whether a text is that of a string literal.
fn text_is(text: &String, literal: &str) -> (same: bool)
    ensures
        same == (text@ == literal@),
{
    let other = String::from_str(literal);
    *text == other
}

/// A signed number and the unsigned number with the same bits.
proof fn lemma_signed_bits(address: u64)
    ensures
        (address as i64) as u64 == address,
        (-1i64) as u64 == 0xFFFF_FFFF_FFFF_FFFFu64,
        (address as i64 == -1i64) == (address == 0xFFFF_FFFF_FFFF_FFFFu64),
{
    assert((address as i64) as u64 == address) by (bit_vector);
    assert((-1i64) as u64 == 0xFFFF_FFFF_FFFF_FFFFu64) by (bit_vector);
    assert((address as i64 == -1i64) == (address == 0xFFFF_FFFF_FFFF_FFFFu64)) by (bit_vector);
}

impl Emulator {
    /// `openat`
    fn sys_openat(&mut self) -> (r: Result<(), RVError>)
        requires
            old(self).well_formed(),
        ensures
            final(self).well_formed(),
            match r {
                Ok(()) => old(self)@.after_openat() == Ok::<EmulatorView, RVError>(final(self)@),
                Err(e) => old(self)@.after_openat() == Err::<EmulatorView, RVError>(e)
                    && final(self)@ == old(self)@,
            },
    {
        let filename = match self.memory.read_string_n(self.x[A1 as usize], PATH_LIMIT) {
            Ok(text) => text,
            Err(e) => {
                return Err(e);
            },
        };
        let opened = if text_is(&filename, "/lib/tls/libc.so.6") {
            Some((LIBC_FILE_DESCRIPTOR, self.libraries.libc.clone()))
        } else if text_is(&filename, "/lib/tls/libstdc++.so.6") {
            Some((LIBCPP_FILE_DESCRIPTOR, self.libraries.libstdcpp.clone()))
        } else if text_is(&filename, "/lib/tls/libm.so.6") {
            Some((LIBM_FILE_DESCRIPTOR, self.libraries.libm.clone()))
        } else if text_is(&filename, "/lib/tls/libgcc_s.so.1") {
            Some((LIBGCCS_FILE_DESCRIPTOR, self.libraries.libgcc_s.clone()))
        } else {
            None
        };
        match opened {
            Some((fd, data)) => {
                let ghost bytes = data@;
                self.file_descriptors.insert(fd, FileDescriptor { offset: 0, data });
                self.x[A0 as usize] = fd as u64;
                assert(self@.files =~= old(self)@.files.insert(
                    fd,
                    FileView { offset: 0, data: bytes },
                ));
            },
            None => {
                self.x[A0 as usize] = FAILURE;
            },
        }
        Ok(())
    }

    /// `close`
    fn sys_close(&mut self)
        requires
            old(self).well_formed(),
        ensures
            final(self).well_formed(),
            final(self)@ == old(self)@.after_close(),
    {
        let fd = self.x[A0 as usize] as i64;
        if self.file_descriptors.remove(&fd).is_some() {
            self.x[A0 as usize] = 0;
            assert(self@.files =~= old(self)@.files.remove(fd));
        } else {
            self.x[A0 as usize] = FAILURE;
            assert(self@.files =~= old(self)@.files);
        }
    }

    /// `lseek`
    fn sys_lseek(&mut self)
        requires
            old(self).well_formed(),
        ensures
            final(self).well_formed(),
            final(self)@ == old(self)@.after_lseek(),
    {
        let fd = self.x[A0 as usize] as i64;
        let offset = self.x[A1 as usize];
        let whence = self.x[A2 as usize];
        match self.file_descriptors.remove(&fd) {
            Some(descriptor) => {
                let mut descriptor = descriptor;
                let ghost before = descriptor;
                let known = if whence == 0 {
                    descriptor.offset = offset;
                    true
                } else if whence == 1 {
                    descriptor.offset = descriptor.offset.wrapping_add(offset);
                    true
                } else if whence == 2 {
                    descriptor.offset = (descriptor.data.len() as u64).wrapping_add(offset);
                    true
                } else {
                    false
                };
                let ghost view = FileView { offset: descriptor.offset, data: descriptor.data@ };
                self.file_descriptors.insert(fd, descriptor);
                if known {
                    assert(self@.files =~= old(self)@.files.insert(fd, view));
                } else {
                    self.x[A0 as usize] = FAILURE;
                    assert(self@.files =~= old(self)@.files);
                }
            },
            None => {
                self.x[A0 as usize] = FAILURE;
                assert(self@.files =~= old(self)@.files);
            },
        }
    }

    /// `read`
    fn sys_read(&mut self) -> (r: Result<(), RVError>)
        requires
            old(self).well_formed(),
        ensures
            final(self).well_formed(),
            match r {
                Ok(()) => old(self)@.after_read() == Ok::<EmulatorView, RVError>(final(self)@),
                Err(e) => old(self)@.after_read() == Err::<EmulatorView, RVError>(e)
                    && final(self)@ == old(self)@.read_fault(),
            },
    {
        let fd = self.x[A0 as usize] as i64;
        let buf = self.x[A1 as usize];
        let count = self.x[A2 as usize];
        match self.file_descriptors.remove(&fd) {
            Some(entry) => {
                let mut entry = entry;
                let ghost before = FileView { offset: entry.offset, data: entry.data@ };
                assert(before == old(self)@.files[fd]);
                assert(entry.pending(count) == EmulatorView::pending(before, count));
                let outcome = self.memory.read_file(&mut entry, buf, count);
                let ghost view = FileView { offset: entry.offset, data: entry.data@ };
                self.file_descriptors.insert(fd, entry);
                match outcome {
                    Ok(n) => {
                        self.x[A0 as usize] = n;
                        assert(self@.files =~= old(self)@.files.insert(fd, view));
                        Ok(())
                    },
                    Err(e) => {
                        assert(self@.files =~= old(self)@.files);
                        Err(e)
                    },
                }
            },
            None => {
                self.x[A0 as usize] = FAILURE;
                assert(self@.files =~= old(self)@.files);
                Ok(())
            },
        }
    }

    /// `write`
    fn sys_write(&mut self) -> (r: Result<(), RVError>)
        requires
            old(self).well_formed(),
        ensures
            final(self).well_formed(),
            match r {
                Ok(()) => old(self)@.after_write() == Ok::<EmulatorView, RVError>(final(self)@),
                Err(e) => old(self)@.after_write() == Err::<EmulatorView, RVError>(e)
                    && final(self)@ == old(self)@,
            },
    {
        let fd = self.x[A0 as usize];
        if !(fd == 1 || fd == 2) {
            self.x[A0 as usize] = FAILURE;
            return Ok(());
        }
        let ptr = self.x[A1 as usize];
        let len = self.x[A2 as usize];
        let bytes = match self.memory.read_n(ptr, len) {
            Ok(bytes) => bytes,
            Err(e) => {
                return Err(e);
            },
        };
        let s = text_from_bytes(&bytes);
        self.stdout.append(s.as_str());
        self.x[A0 as usize] = len;
        Ok(())
    }

    /// `writev`
    fn sys_writev(&mut self) -> (r: Result<(), RVError>)
        requires
            old(self).well_formed(),
        ensures
            final(self).well_formed(),
            match r {
                Ok(()) => old(self)@.after_writev() == Ok::<EmulatorView, RVError>(final(self)@),
                Err(e) => old(self)@.after_writev() == Err::<EmulatorView, RVError>(e)
                    && final(self)@ == old(self)@,
            },
    {
        let fd = self.x[A0 as usize];
        if !(fd == 1 || fd == 2) {
            self.x[A0 as usize] = FAILURE;
            return Ok(());
        }
        let iovecs = self.x[A1 as usize];
        let iovcnt = self.x[A2 as usize];
        let (text, total) = match self.gather(iovecs, iovcnt) {
            Ok(gathered) => gathered,
            Err(e) => {
                return Err(e);
            },
        };
        self.stdout.append(text.as_str());
        self.x[A0 as usize] = total;
        Ok(())
    }

    /// Reads the `count` buffers of the vector at `vectors` as text, and
    /// returns the text with the number of its bytes.
    fn gather(&self, vectors: u64, count: u64) -> (r: Result<(String, u64), RVError>)
        requires
            self.well_formed(),
        ensures
            match r {
                Ok((text, total)) => self@.gathered(vectors, count as nat) == Some(
                    (text@, total),
                ),
                Err(e) => e == RVError::SegmentationFault && self@.gathered(vectors, count as nat)
                    is None,
            },
    {
        let mut text = String::new();
        let mut total: u64 = 0;
        let mut i: u64 = 0;
        while i < count
            invariant
                self.well_formed(),
                i <= count,
                self@.gathered(vectors, i as nat) == Some((text@, total)),
            decreases count - i,
        {
            let entry = vectors.wrapping_add(i.wrapping_mul(16));
            proof {
                lemma_gathering_fails_on(self@, vectors, count as nat, (i + 1) as nat);
            }
            let ptr = match self.memory.load_u64(entry) {
                Ok(value) => value,
                Err(e) => {
                    return Err(e);
                },
            };
            let len = match self.memory.load_u64(entry.wrapping_add(8)) {
                Ok(value) => value,
                Err(e) => {
                    return Err(e);
                },
            };
            let bytes = match self.memory.read_n(ptr, len) {
                Ok(bytes) => bytes,
                Err(e) => {
                    return Err(e);
                },
            };
            let s = text_from_bytes(&bytes);
            text.append(s.as_str());
            total = total.wrapping_add(len);
            i += 1;
        }
        Ok((text, total))
    }

    /// `readlinkat`
    fn sys_readlinkat(&mut self) -> (r: Result<(), RVError>)
        requires
            old(self).well_formed(),
        ensures
            final(self).well_formed(),
            match r {
                Ok(()) => old(self)@.after_readlinkat() == Ok::<EmulatorView, RVError>(
                    final(self)@,
                ),
                Err(e) => old(self)@.after_readlinkat() == Err::<EmulatorView, RVError>(e)
                    && final(self)@ == old(self)@.readlinkat_fault(),
            },
    {
        let addr = self.x[A1 as usize];
        let buf_addr = self.x[A2 as usize];
        let bufsize = self.x[A3 as usize];
        let s = match self.memory.read_string_n(addr, PATH_LIMIT) {
            Ok(text) => text,
            Err(e) => {
                return Err(e);
            },
        };
        if text_is(&s, "/proc/self/exe") {
            let path: [u8; 6] = [0x2f, 0x70, 0x72, 0x6f, 0x67, 0];
            assert(path@ =~= crate::system::program_path_bytes());
            match self.memory.write_n(path.as_slice(), buf_addr, bufsize) {
                Ok(()) => {},
                Err(e) => {
                    return Err(e);
                },
            }
            self.x[A0 as usize] = 5;
        } else {
            self.x[A0 as usize] = FAILURE;
        }
        Ok(())
    }

    /// `newfstatat`
    fn sys_newfstatat(&mut self) -> (r: Result<(), RVError>)
        requires
            old(self).well_formed(),
        ensures
            final(self).well_formed(),
            match r {
                Ok(()) => old(self)@.after_newfstatat() == Ok::<EmulatorView, RVError>(
                    final(self)@,
                ),
                Err(e) => old(self)@.after_newfstatat() == Err::<EmulatorView, RVError>(e)
                    && final(self)@ == old(self)@,
            },
    {
        match self.memory.read_bytes_until_nul(self.x[A1 as usize], PATH_LIMIT) {
            Ok(_) => {},
            Err(e) => {
                return Err(e);
            },
        }
        self.x[A0 as usize] = 0;
        Ok(())
    }

    /// `futex`
    fn sys_futex(&mut self) -> (r: Result<(), RVError>)
        requires
            old(self).well_formed(),
        ensures
            final(self).well_formed(),
            match r {
                Ok(()) => old(self)@.after_futex() == Ok::<EmulatorView, RVError>(final(self)@),
                Err(e) => old(self)@.after_futex() == Err::<EmulatorView, RVError>(e)
                    && final(self)@ == old(self)@,
            },
    {
        let uaddr = self.x[A0 as usize];
        let futex_op = self.x[A1 as usize];
        if futex_op == FUTEX_WAIT_PRIVATE {
            match self.memory.store_u64(uaddr, 0) {
                Ok(()) => {},
                Err(e) => {
                    return Err(e);
                },
            }
        }
        self.x[A0 as usize] = 0;
        Ok(())
    }

    /// `mmap`
    fn sys_mmap(&mut self) -> (r: Result<(), RVError>)
        requires
            old(self).well_formed(),
        ensures
            final(self).well_formed(),
            match r {
                Ok(()) => old(self)@.after_mmap() == Ok::<EmulatorView, RVError>(final(self)@),
                Err(e) => old(self)@.after_mmap() == Err::<EmulatorView, RVError>(e)
                    && final(self)@ == old(self)@.mmap_fault(),
            },
    {
        let addr = self.x[A0 as usize];
        let len = self.x[A1 as usize];
        let flags = self.x[A3 as usize];
        let fd = self.x[A4 as usize] as i64;
        let offset = self.x[A5 as usize];
        if fd == -1 {
            // only a fixed mapping gets the address that it asks for
            let hint = if (flags & MAP_FIXED) != 0 {
                addr
            } else {
                0
            };
            proof {
                lemma_signed_bits(self@.memory.mmap_address(hint));
            }
            let start = self.memory.mmap(hint, len);
            self.x[A0 as usize] = start as u64;
            Ok(())
        } else {
            match self.file_descriptors.get(&fd) {
                Some(descriptor) => {
                    assert(old(self)@.files[fd].data == descriptor.data@);
                    proof {
                        lemma_signed_bits(self@.memory.mmap_address(addr));
                    }
                    let start = match self.memory.mmap_file(descriptor, addr, offset, len) {
                        Ok(start) => start,
                        Err(e) => {
                            return Err(e);
                        },
                    };
                    self.x[A0 as usize] = start as u64;
                    Ok(())
                },
                None => {
                    self.x[A0 as usize] = FAILURE;
                    Ok(())
                },
            }
        }
    }

    /// `getrandom`
    fn sys_getrandom(&mut self) -> (r: Result<(), RVError>)
        requires
            old(self).well_formed(),
        ensures
            final(self).well_formed(),
            match r {
                Ok(()) => old(self)@.after_getrandom() == Ok::<EmulatorView, RVError>(
                    final(self)@,
                ),
                Err(e) => old(self)@.after_getrandom() == Err::<EmulatorView, RVError>(e)
                    && final(self)@ == old(self)@.getrandom_fault(),
            },
    {
        let buf = self.x[A0 as usize];
        let buflen = self.x[A1 as usize];
        // the guest is to run the same way every time
        match self.memory.fill(buf, RANDOM_BYTE, buflen) {
            Ok(()) => {},
            Err(e) => {
                return Err(e);
            },
        }
        self.x[A0 as usize] = buflen;
        Ok(())
    }

    /// Performs the system call that the guest asks for: `a7` names the
    /// call, `a0` to `a5` hold its arguments, and the result comes back in
    /// `a0`. Fails with a segmentation fault where the call has to read or
    /// write memory that is not mapped.
    fn syscall(&mut self) -> (r: Result<(), RVError>)
        requires
            old(self).well_formed(),
            old(self)@.call_known(),
        ensures
            final(self).well_formed(),
            match r {
                Ok(()) => old(self)@.after_syscall() == Ok::<EmulatorView, RVError>(final(self)@),
                Err(e) => old(self)@.after_syscall() == Err::<EmulatorView, RVError>(e)
                    && final(self)@ == old(self)@.call_fault(),
            },
    {
        let id = self.x[A7 as usize];
        let arg = self.x[A0 as usize];
        let sc = match Syscall::from_u64(id) {
            Some(sc) => sc,
            None => vstd::pervasive::unreached(),
        };
        match sc {
            Syscall::Ioctl
            | Syscall::SetTidAddress
            | Syscall::SetRobustList
            | Syscall::ClockGettime
            | Syscall::SchedYield
            | Syscall::RtSigaction
            | Syscall::RtSigprocmask
            | Syscall::Getpid
            | Syscall::Gettid
            | Syscall::Munmap
            | Syscall::Mprotect
            | Syscall::Prlimit64 => {
                self.x[A0 as usize] = 0;
                Ok(())
            },
            Syscall::Faccessat | Syscall::Tgkill => {
                self.x[A0 as usize] = FAILURE;
                Ok(())
            },
            Syscall::Openat => self.sys_openat(),
            Syscall::Close => {
                self.sys_close();
                Ok(())
            },
            Syscall::Lseek => {
                self.sys_lseek();
                Ok(())
            },
            Syscall::Read => self.sys_read(),
            Syscall::Write => self.sys_write(),
            Syscall::Writev => self.sys_writev(),
            Syscall::Readlinkat => self.sys_readlinkat(),
            Syscall::Newfstatat => self.sys_newfstatat(),
            Syscall::Exit | Syscall::ExitGroup => {
                self.exit_code = Some(arg);
                Ok(())
            },
            Syscall::Futex => self.sys_futex(),
            Syscall::Brk => {
                let new_break = self.memory.brk(arg);
                self.x[A0 as usize] = new_break;
                Ok(())
            },
            Syscall::Mmap => self.sys_mmap(),
            Syscall::Getrandom => self.sys_getrandom(),
        }
    }
}

/// Where the first `upto` buffers of a vector cannot all be read, neither
/// can the first `count`.
pub proof fn lemma_gathering_fails_on(m: EmulatorView, vectors: u64, count: nat, upto: nat)
    requires
        upto <= count,
    ensures
        m.gathered(vectors, upto) is None ==> m.gathered(vectors, count) is None,
    decreases count - upto,
{
    if upto < count {
        lemma_gathering_fails_on(m, vectors, count, upto + 1);
    }
}


/// Returns the bytes of `value` in little-endian order.
fn bytes_of(value: u64) -> (buf: [u8; 8])
    ensures
        buf@ == le_bytes(value, 8),
{
    let buf: [u8; 8] = [
        value as u8,
        (value >> 8) as u8,
        (value >> 16) as u8,
        (value >> 24) as u8,
        (value >> 32) as u8,
        (value >> 40) as u8,
        (value >> 48) as u8,
        (value >> 56) as u8,
    ];
    proof {
        assert(value >> 0 == value) by (bit_vector);
        assert(buf@ =~= le_bytes(value, 8));
    }
    buf
}

/// One line of the register dump: the register by number and name in a
/// column of ten, and its value in a column of sixteen hexadecimal digits.
pub open spec fn register_line(index: int, value: u64) -> Seq<char> {
    pad_right("x"@ + digits(index as nat, 10) + " ("@ + x_name(index as u8) + "):"@, 10)
        + pad_left(digits(value as nat, 16), 16, ' ') + "\n"@
}

/// The lines of the first `upto` registers.
pub open spec fn register_lines(x: Seq<u64>, upto: int) -> Seq<char>
    decreases upto,
{
    if upto <= 0 {
        Seq::empty()
    } else {
        register_lines(x, upto - 1) + register_line(upto - 1, x[upto - 1])
    }
}

/// The register dump: the program counter, the number of instructions
/// executed, and the 32 integer registers.
pub open spec fn registers_text(state: EmulatorView) -> Seq<char> {
    "pc: "@ + pad_left(digits(state.pc as nat, 16), 22, ' ') + "\n"@ + "fuel cnt: "@ + pad_left(
        digits(state.inst_counter as nat, 10),
        16,
        ' ',
    ) + "\n"@ + register_lines(state.x, 32)
}

/// Whether `after` is what one step makes of `before`, with `answer` as what
/// the floating-point unit returned where it was asked.
pub open spec fn steps<F: Fn(FloatOp) -> u64>(
    fpu: F,
    before: EmulatorView,
    answer: u64,
    after: EmulatorView,
) -> bool {
    &&& !before.blocked()
    &&& answers(fpu, before.step_request(), answer)
    &&& before.stepped(answer) == Ok::<EmulatorView, RVError>(after)
}

/// Whether `count` steps lead from `before` to `after`.
pub open spec fn advances<F: Fn(FloatOp) -> u64>(
    fpu: F,
    before: EmulatorView,
    after: EmulatorView,
    count: nat,
) -> bool
    decreases count,
{
    if count == 0 {
        after == before
    } else {
        exists|middle: EmulatorView, answer: u64|
            advances(fpu, before, middle, (count - 1) as nat) && #[trigger] steps(
                fpu,
                middle,
                answer,
                after,
            )
    }
}

impl Emulator {
    /// Writes a doubleword into the stack's first page.
    fn put_u64(&mut self, addr: u64, value: u64)
        requires
            old(self)@.memory.well_formed(),
            addr >= crate::memory::STACK_TOP_PAGE,
            addr <= crate::boot::STACK_BASE - 8,
        ensures
            final(self)@ == (EmulatorView {
                memory: old(self)@.memory.write(addr, le_bytes(value, 8)),
                ..old(self)@
            }),
            final(self)@.memory.well_formed(),
    {
        let buf = bytes_of(value);
        proof {
            lemma_top_page_mapped(self@.memory, addr, 8);
        }
        self.memory.write_mapped(addr, buf.as_slice());
    }

    /// Writes bytes into the stack's first page.
    fn put_bytes(&mut self, addr: u64, data: &[u8])
        requires
            old(self)@.memory.well_formed(),
            addr >= crate::memory::STACK_TOP_PAGE,
            addr + data@.len() <= crate::memory::STACK_START + 1,
        ensures
            final(self)@ == (EmulatorView {
                memory: old(self)@.memory.write(addr, data@),
                ..old(self)@
            }),
            final(self)@.memory.well_formed(),
    {
        proof {
            lemma_top_page_mapped(self@.memory, addr, data@.len() as int);
        }
        self.memory.write_mapped(addr, data);
    }

    /// Writes the frame of a new guest to the top of the stack.
    fn init_auxv_stack(&mut self)
        requires
            old(self)@.memory.well_formed(),
        ensures
            final(self)@ == (EmulatorView {
                memory: with_frame(old(self)@.memory),
                ..old(self)@
            }),
            final(self)@.memory.well_formed(),
    {
        let header = self.memory.program_header();
        let random: [u8; 16] = [0, 1, 2, 3, 4, 5, 6, 7, 8, 9, 10, 11, 12, 13, 14, 15];
        assert(random@ =~= crate::boot::random_bytes());
        self.put_bytes(RANDOM_ADDR, random.as_slice());
        let name: [u8; 8] = [0x2f, 0x70, 0x72, 0x6f, 0x67, 0, 0, 0];
        assert(name@ =~= padded(crate::boot::program_name(), 8));
        self.put_bytes(PROGRAM_NAME_ADDR, name.as_slice());
        let environment: [u8; 16] = [
            0x4c,
            0x44,
            0x5f,
            0x44,
            0x45,
            0x42,
            0x55,
            0x47,
            0x3d,
            0x61,
            0x6c,
            0x6c,
            0,
            0,
            0,
            0,
        ];
        assert(environment@ =~= padded(crate::boot::environment(), 16));
        self.put_bytes(ENVIRONMENT_ADDR, environment.as_slice());
        // one argument, and no environment
        self.put_u64(ARGC_ADDR, 1);
        self.put_u64(ARGV_ADDR, PROGRAM_NAME_ADDR);
        self.put_u64(ARGV_END_ADDR, 0);
        self.put_u64(ENVP_ADDR, 0);
        let ghost arguments = self@.memory;
        let aux_values: [AuxPair; 13] = [
            AuxPair(Auxv::Entry, header.entry),
            AuxPair(Auxv::Phdr, header.address),
            AuxPair(Auxv::Phent, header.size),
            AuxPair(Auxv::Phnum, header.number),
            AuxPair(Auxv::Uid, 0),
            AuxPair(Auxv::Euid, 0),
            AuxPair(Auxv::Gid, 0),
            AuxPair(Auxv::Egid, 0),
            AuxPair(Auxv::Secure, 0),
            AuxPair(Auxv::Pagesz, PAGE_SIZE),
            AuxPair(Auxv::Random, RANDOM_ADDR),
            AuxPair(Auxv::Execfn, PROGRAM_NAME_ADDR),
            AuxPair(Auxv::Null, 0),
        ];
        let ghost entries = aux_entries(old(self)@.memory.program_header);
        proof {
            crate::memory_facts::lemma_write_changes_pages_only(
                old(self)@.memory,
                RANDOM_ADDR,
                crate::boot::random_bytes(),
            );
            assert forall|k: int| 0 <= k < 13 implies entries[k] == (
                #[trigger] aux_values@[k].0.number(),
                aux_values@[k].1,
            ) by {}
        }
        let mut k: usize = 0;
        while k < AUX_COUNT
            invariant
                k <= AUX_COUNT,
                entries.len() == 13,
                forall|j: int|
                    0 <= j < 13 ==> entries[j] == (
                        #[trigger] aux_values@[j].0.number(),
                        aux_values@[j].1,
                    ),
                self@.memory.well_formed(),
                self@ == (EmulatorView {
                    memory: with_aux(arguments, entries, k as int),
                    ..old(self)@
                }),
            decreases AUX_COUNT - k,
        {
            let AuxPair(key, val) = aux_values[k];
            let addr = AUX_ADDR + 16 * (k as u64);
            self.put_u64(addr, key.value());
            self.put_u64(addr + 8, val);
            k += 1;
        }
    }

    /// Returns a new emulator for the program in `memory`: it starts at the
    /// program's entry, with the frame that tells the program about itself
    /// at the top of the stack and the stack pointer below it.
    pub fn new(memory: Memory) -> (emulator: Emulator)
        requires
            memory.well_formed(),
        ensures
            emulator.well_formed(),
            emulator@ == booted(memory@),
    {
        let mut em = Emulator {
            pc: memory.entry(),
            x: [0;32],
            f: [0;32],
            file_descriptors: HashMap::new(),
            libraries: Libraries {
                libc: Vec::new(),
                libstdcpp: Vec::new(),
                libm: Vec::new(),
                libgcc_s: Vec::new(),
            },
            stdout: String::new(),
            stderr: String::new(),
            profile_start_point: None,
            profile_end_point: None,
            profiler: Profiler::new(),
            memory,
            exit_code: None,
            inst_counter: 0,
            max_memory: 0,
        };
        em.x[SP as usize] = INITIAL_SP;
        em.init_auxv_stack();
        proof {
            assert(em@.x =~= booted(memory@).x);
            assert(em@.f =~= booted(memory@).f);
            assert(em@.files =~= booted(memory@).files);
        }
        em
    }

    /// Returns a new emulator for the program in the file `file_data`, with
    /// the dynamic linker from the file `linker_data` where the program needs
    /// it. Fails with `InvalidFileType` where the file, or the linker that it
    /// needs, is no 64-bit RISC-V program.
    pub fn from_file(file_data: &[u8], linker_data: Option<&[u8]>) -> (r: Result<
        Emulator,
        RVError,
    >)
        ensures
            match r {
                Ok(emulator) => emulator.well_formed() && crate::loader::load_fault(
                    file_data@,
                    crate::loader::bytes_view(linker_data),
                ) is None && exists|memory: MemoryView| #[trigger]
                    crate::loader::loads_as(
                        file_data@,
                        crate::loader::bytes_view(linker_data),
                        memory,
                    ) && emulator@ == booted(memory),
                Err(e) => crate::loader::load_fault(
                    file_data@,
                    crate::loader::bytes_view(linker_data),
                ) == Some(e),
            },
    {
        match Memory::from_file(file_data, linker_data) {
            Ok(memory) => Ok(Emulator::new(memory)),
            Err(e) => Err(e),
        }
    }

    /// Starts the profile at the symbol called `label`. Fails with
    /// `InvalidLabel`, and changes nothing, where the program has no such
    /// symbol.
    pub fn profile_label(&mut self, label: &str) -> (r: Result<(), RVError>)
        ensures
            match r {
                Ok(()) => symbol_address(old(self)@.memory.symbols, label@) is Some
                    && final(self)@ == (EmulatorView {
                    profile_start: nonzero(
                        symbol_address(old(self)@.memory.symbols, label@).unwrap(),
                    ),
                    ..old(self)@
                }),
                Err(e) => e == RVError::InvalidLabel && symbol_address(
                    old(self)@.memory.symbols,
                    label@,
                ) is None && final(self)@ == old(self)@,
            },
    {
        match self.memory.disassembler().get_symbol_addr(label) {
            Some(addr) => {
                self.profile_start_point = if addr == 0 {
                    None
                } else {
                    Some(addr)
                };
                Ok(())
            },
            None => Err(RVError::InvalidLabel),
        }
    }

    /// Gives the guest `data` as its standard input, to be read from the
    /// start.
    pub fn set_stdin(&mut self, data: &[u8])
        ensures
            final(self)@ == (EmulatorView {
                files: old(self)@.files.insert(0, FileView { offset: 0, data: data@ }),
                ..old(self)@
            }),
    {
        let bytes = vstd::slice::slice_to_vec(data);
        self.file_descriptors.insert(0, FileDescriptor { offset: 0, data: bytes });
        assert(self@.files =~= old(self)@.files.insert(0, FileView { offset: 0, data: data@ }));
    }

    /// Fetches and decodes the instruction at `pc`, and returns it with its
    /// length in bytes. Fails with a segmentation fault where a byte of the
    /// instruction is not mapped.
    pub fn fetch(&self) -> (r: Result<(Inst, u8), RVError>)
        requires
            self.well_formed(),
        ensures
            match r {
                Ok((inst, length)) => self@.fetched() is Some && inst == instruction_of(
                    self@.fetched().unwrap(),
                ) && length == length_of(self@.fetched().unwrap()) && inst.well_formed(),
                Err(e) => e == RVError::SegmentationFault && self@.fetched() is None,
            },
    {
        let low = match self.memory.load(self.pc, 2) {
            Ok(value) => value,
            Err(e) => {
                return Err(e);
            },
        };
        let inst_data = if low & 0b11 == 0b11 {
            let high = match self.memory.load(self.pc.wrapping_add(2), 2) {
                Ok(value) => value,
                Err(e) => {
                    return Err(e);
                },
            };
            (low | (high << 16)) as u32
        } else {
            low as u32
        };
        Ok(Inst::decode(inst_data))
    }

    /// Executes `inst`, an instruction of `incr` bytes at `pc`: the profiler
    /// accounts for it, its effect is committed to registers and memory, the
    /// program counter moves to the next instruction or to the target of a
    /// jump, the instruction is counted, and `x0` is zero again. Fails with a
    /// segmentation fault where the instruction reads or writes memory that
    /// is not mapped; the profiler has accounted for the instruction then,
    /// and a system call has written what it could. An environment call for a system call that the emulator does not
    /// know is not executed: see `unknown_syscall`.
    pub fn execute<F: Fn(FloatOp) -> u64>(&mut self, inst: Inst, incr: u64, fpu: &F) -> (r: Result<
        (),
        RVError,
    >)
        requires
            old(self).well_formed(),
            inst.well_formed(),
            inst == Inst::Ecall ==> old(self)@.call_known(),
            forall|op: FloatOp| call_requires(*fpu, (op,)),
        ensures
            final(self).well_formed(),
            match r {
                Ok(()) => exists|answer: u64| #[trigger]
                    executes(*fpu, old(self)@, inst, incr, answer, final(self)@),
                Err(e) => forall|answer: u64| #[trigger]
                    old(self)@.executed(inst, incr, answer) == Err::<EmulatorView, RVError>(e),
            },
            r is Err ==> final(self)@ == old(self)@.failed(inst),
    {
        let effect = plan(inst, &self.x, &self.f, self.pc);
        self.profile(inst, effect);
        let ghost accounted = self@;
        match effect {
            Effect::Call => {
                match self.syscall() {
                    Ok(()) => {},
                    Err(e) => {
                        return Err(e);
                    },
                }
                let next = self.pc.wrapping_add(incr);
                self.retire(next);
                assert(executes(*fpu, old(self)@, inst, incr, 0, self@));
                Ok(())
            },
            _ => {
                match self.commit(effect, incr, fpu) {
                    Ok(()) => {
                        proof {
                            let answer = choose|answer: u64| #[trigger]
                                commits(*fpu, accounted, effect, incr, answer, self@);
                            assert(executes(*fpu, old(self)@, inst, incr, answer, self@));
                        }
                        Ok(())
                    },
                    Err(e) => Err(e),
                }
            },
        }
    }

    /// Decodes the instruction in `inst_data` and executes it.
    pub fn execute_raw<F: Fn(FloatOp) -> u64>(&mut self, inst_data: u32, fpu: &F) -> (r: Result<
        (),
        RVError,
    >)
        requires
            old(self).well_formed(),
            instruction_of(inst_data) == Inst::Ecall ==> old(self)@.call_known(),
            forall|op: FloatOp| call_requires(*fpu, (op,)),
        ensures
            final(self).well_formed(),
            match r {
                Ok(()) => exists|answer: u64| #[trigger]
                    executes(
                        *fpu,
                        old(self)@,
                        instruction_of(inst_data),
                        length_of(inst_data) as u64,
                        answer,
                        final(self)@,
                    ),
                Err(e) => forall|answer: u64| #[trigger]
                    old(self)@.executed(
                        instruction_of(inst_data),
                        length_of(inst_data) as u64,
                        answer,
                    ) == Err::<EmulatorView, RVError>(e),
            },
            r is Err ==> final(self)@ == old(self)@.failed(instruction_of(inst_data)),
    {
        let (inst, incr) = Inst::decode(inst_data);
        self.execute(inst, incr as u64, fpu)
    }

    /// Moves the profile window on for the instruction at `pc`.
    fn update_window(&mut self)
        requires
            old(self).well_formed(),
        ensures
            final(self).well_formed(),
            final(self)@ == old(self)@.window_updated(),
    {
        if self.pc != 0 && self.profile_start_point == Some(self.pc) {
            let ra = self.x[RA as usize];
            self.profile_end_point = if ra == 0 {
                None
            } else {
                Some(ra)
            };
            self.profiler.set_running(true);
        } else if self.pc != 0 && self.profile_end_point == Some(self.pc) {
            self.profile_start_point = None;
            self.profile_end_point = None;
            self.profiler.set_running(false);
        }
    }

    /// Executes the instruction at `pc` and returns the exit code, if the
    /// guest has exited. A guest that has exited stays as it is. Fails with a
    /// segmentation fault where the instruction is not mapped, or reads or
    /// writes memory that is not mapped. A guest whose next instruction calls
    /// a system call that the emulator does not know is not stepped: see
    /// `unknown_syscall`.
    pub fn fetch_and_execute<F: Fn(FloatOp) -> u64>(&mut self, fpu: &F) -> (r: Result<
        Option<u64>,
        RVError,
    >)
        requires
            old(self).well_formed(),
            !old(self)@.blocked(),
            forall|op: FloatOp| call_requires(*fpu, (op,)),
        ensures
            final(self).well_formed(),
            match r {
                Ok(code) => code == final(self)@.exit_code && exists|answer: u64| #[trigger]
                    steps(*fpu, old(self)@, answer, final(self)@),
                Err(e) => forall|answer: u64| #[trigger]
                    old(self)@.stepped(answer) == Err::<EmulatorView, RVError>(e),
            },
            r is Err ==> final(self)@ == old(self)@.fault_state(),
    {
        if self.exit_code.is_some() {
            assert(steps(*fpu, old(self)@, 0, self@));
            return Ok(self.exit_code);
        }
        let (inst, incr) = match self.fetch() {
            Ok(decoded) => decoded,
            Err(e) => {
                return Err(e);
            },
        };
        self.update_window();
        let ghost ready = self@;
        match self.execute(inst, incr as u64, fpu) {
            Ok(()) => {},
            Err(e) => {
                return Err(e);
            },
        }
        let ghost after = self@;
        let usage = self.memory.usage();
        if usage > self.max_memory {
            self.max_memory = usage;
        }
        proof {
            let answer = choose|answer: u64| #[trigger]
                executes(*fpu, ready, inst, incr as u64, answer, after);
            assert(self@ == after.with_usage());
            assert(steps(*fpu, old(self)@, answer, self@));
        }
        Ok(self.exit_code)
    }

    /// Writes the text of a fault to the error output.
    pub fn report(&mut self, fault: RVError)
        ensures
            final(self)@ == (EmulatorView {
                stderr: old(self)@.stderr + fault.message_spec(),
                ..old(self)@
            }),
    {
        self.stderr.append(fault.message());
    }

    /// Returns the number of the system call that the guest is about to
    /// call, if the emulator does not know it. The emulator does not execute
    /// such a call, as going on behind it would leave the guest with a
    /// result that it never got: the guest has to be ended.
    pub fn unknown_syscall(&self) -> (number: Option<u64>)
        requires
            self.well_formed(),
        ensures
            number is Some <==> self@.blocked(),
            number is Some ==> number == Some(self@.x[A7 as int]),
    {
        if self.exit_code.is_some() {
            return None;
        }
        match self.fetch() {
            Ok((Inst::Ecall, _)) => {
                let id = self.x[A7 as usize];
                if Syscall::from_u64(id).is_none() {
                    Some(id)
                } else {
                    None
                }
            },
            _ => None,
        }
    }

    /// Executes instructions until the guest exits, and `limit` instructions
    /// at most. Returns the exit code if the guest has exited. Stops early,
    /// without an exit code, in front of a system call that the emulator
    /// does not know. Fails with the fault of the first instruction that
    /// fails.
    pub fn run<F: Fn(FloatOp) -> u64>(&mut self, fpu: &F, limit: u64) -> (r: Result<
        Option<u64>,
        RVError,
    >)
        requires
            old(self).well_formed(),
            forall|op: FloatOp| call_requires(*fpu, (op,)),
        ensures
            final(self).well_formed(),
            match r {
                Ok(code) => code == final(self)@.exit_code && exists|count: nat|
                    count <= limit && (code is None ==> count == limit || final(self)@.blocked())
                        && #[trigger] advances(*fpu, old(self)@, final(self)@, count),
                Err(e) => exists|count: nat, last: EmulatorView|
                    count < limit && #[trigger] advances(*fpu, old(self)@, last, count)
                        && !last.blocked() && forall|answer: u64| #[trigger]
                        last.stepped(answer) == Err::<EmulatorView, RVError>(e),
            },
    {
        let mut done: u64 = 0;
        while done < limit
            invariant
                done <= limit,
                self.well_formed(),
                forall|op: FloatOp| call_requires(*fpu, (op,)),
                advances(*fpu, old(self)@, self@, done as nat),
            decreases limit - done,
        {
            if self.unknown_syscall().is_some() {
                return Ok(self.exit_code);
            }
            let ghost before = self@;
            match self.fetch_and_execute(fpu) {
                Ok(code) => {
                    proof {
                        let answer = choose|answer: u64| #[trigger]
                            steps(*fpu, before, answer, self@);
                        assert(steps(*fpu, before, answer, self@));
                        assert(advances(*fpu, old(self)@, before, done as nat));
                        assert(advances(*fpu, old(self)@, self@, (done + 1) as nat));
                    }
                    if code.is_some() {
                        return Ok(code);
                    }
                },
                Err(e) => {
                    return Err(e);
                },
            }
            done += 1;
        }
        Ok(self.exit_code)
    }

    /// Returns the register dump: the program counter, the number of
    /// instructions executed, and each integer register by number and name
    /// with its value.
    pub fn print_registers(&self) -> (output: String)
        requires
            self.well_formed(),
        ensures
            output@ == registers_text(self@),
    {
        let mut output = String::new();
        output.append("pc: ");
        push_number(&mut output, self.pc, 16, 22, ' ');
        output.append("\n");
        output.append("fuel cnt: ");
        push_number(&mut output, self.inst_counter, 10, 16, ' ');
        output.append("\n");
        let ghost head = output@;
        assert(head =~= "pc: "@ + pad_left(digits(self.pc as nat, 16), 22, ' ') + "\n"@
            + "fuel cnt: "@ + pad_left(digits(self.inst_counter as nat, 10), 16, ' ') + "\n"@);
        let mut i: u8 = 0;
        assert(output@ =~= head + register_lines(self@.x, 0));
        while i < 32
            invariant
                i <= 32,
                self.well_formed(),
                output@ == head + register_lines(self@.x, i as int),
            decreases 32 - i,
        {
            let reg = Reg(i);
            let mut start = String::new();
            start.append("x");
            push_number(&mut start, i as u64, 10, 0, ' ');
            start.append(" (");
            start.append(reg.name());
            start.append("):");
            assert(start@ =~= "x"@ + digits(i as nat, 10) + " ("@ + x_name(i) + "):"@);
            let ghost before = output@;
            push_padded(&mut output, start.as_str(), 10);
            push_number(&mut output, self.x[i as usize], 16, 16, ' ');
            output.append("\n");
            i += 1;
            proof {
                let line = register_line(i - 1, self@.x[i - 1]);
                assert(output@ =~= before + line);
                assert(head + (register_lines(self@.x, i - 1) + line) =~= (head + register_lines(
                    self@.x,
                    i - 1,
                )) + line);
            }
        }
        assert(output@ =~= registers_text(self@));
        output
    }
}

impl Clone for Libraries {
    /// Returns a copy of the libraries' bytes.
    fn clone(&self) -> (copy: Libraries)
        ensures
            copy@ == self@,
    {
        Libraries {
            libc: self.libc.clone(),
            libstdcpp: self.libstdcpp.clone(),
            libm: self.libm.clone(),
            libgcc_s: self.libgcc_s.clone(),
        }
    }
}

impl Clone for Emulator {
    /// Returns a copy of the emulator. The copy is in the same state and goes
    /// its own way from here: stepped alone, it does what this emulator would
    /// have done.
    fn clone(&self) -> (copy: Emulator)
        ensures
            copy@ == self@,
    {
        let copy = Emulator {
            pc: self.pc,
            x: self.x,
            f: self.f,
            memory: self.memory.clone(),
            file_descriptors: self.file_descriptors.clone(),
            libraries: self.libraries.clone(),
            stdout: self.stdout.clone(),
            stderr: self.stderr.clone(),
            profile_start_point: self.profile_start_point,
            profile_end_point: self.profile_end_point,
            profiler: self.profiler,
            inst_counter: self.inst_counter,
            max_memory: self.max_memory,
            exit_code: self.exit_code,
        };
        assert(copy@.files =~= self@.files);
        copy
    }
}

} // verus!
