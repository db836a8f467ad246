//! What holds of every step of the interpreter: the zero register, the
//! counter of instructions, and the program counter.

use vstd::prelude::*;
use crate::error::RVError;
use crate::instruction::Inst;
use crate::machine::EmulatorView;
use crate::profiler::wrap_add;
use crate::semantics::Effect;

verus! {

/// A system call leaves the program counter and the counter of instructions
/// alone, and the registers at their number.
pub proof fn lemma_syscall_keeps_counters(before: EmulatorView)
    requires
        before.x.len() == 32,
        before.after_syscall() is Ok,
    ensures
        before.after_syscall().unwrap().pc == before.pc,
        before.after_syscall().unwrap().inst_counter == before.inst_counter,
        before.after_syscall().unwrap().x.len() == before.x.len(),
{
}

/// The effect of a well-formed instruction is well formed.
pub proof fn lemma_effect_is_well_formed(inst: Inst, x: Seq<u64>, f: Seq<u64>, pc: u64)
    requires
        inst.well_formed(),
    ensures
        crate::semantics::effect_of(inst, x, f, pc).well_formed(),
{
}

/// A committed effect leaves `x0` zero and is counted once.
pub proof fn lemma_committed_retires(before: EmulatorView, effect: Effect, incr: u64, answer: u64)
    requires
        before.x.len() == 32,
        effect.well_formed(),
        before.committed(effect, incr, answer) is Ok,
    ensures
        before.committed(effect, incr, answer).unwrap().x.len() == 32,
        before.committed(effect, incr, answer).unwrap().x[0] == 0,
        before.committed(effect, incr, answer).unwrap().inst_counter == wrap_add(
            before.inst_counter,
            1,
        ),
{
}

/// An executed instruction leaves `x0` zero and is counted once; the count
/// wraps around at the top of 64 bits.
pub proof fn lemma_executed_retires(before: EmulatorView, inst: Inst, incr: u64, answer: u64)
    requires
        before.x.len() == 32,
        inst.well_formed(),
        before.executed(inst, incr, answer) is Ok,
    ensures
        before.executed(inst, incr, answer).unwrap().x.len() == 32,
        before.executed(inst, incr, answer).unwrap().x[0] == 0,
        before.executed(inst, incr, answer).unwrap().inst_counter == wrap_add(
            before.inst_counter,
            1,
        ),
{
    let accounted = EmulatorView { profiler: before.profiled(inst), ..before };
    let effect = before.effect(inst);
    lemma_effect_is_well_formed(inst, before.x, before.f, before.pc);
    if effect is Call {
        lemma_syscall_keeps_counters(accounted);
    } else {
        lemma_committed_retires(accounted, effect, incr, answer);
    }
}

/// After every step, register `x0` is zero.
pub proof fn law_x0_is_zero(before: EmulatorView, answer: u64)
    requires
        before.well_formed(),
        before.stepped(answer) is Ok,
    ensures
        before.stepped(answer).unwrap().x[0] == 0,
{
    if before.exit_code is None {
        let w = before.fetched().unwrap();
        crate::decode16::lemma_decoded_is_well_formed(w);
        lemma_executed_retires(
            before.window_updated(),
            crate::decode16::instruction_of(w),
            crate::decode16::length_of(w) as u64,
            answer,
        );
    }
}

/// Every step of a guest that has not exited counts exactly one
/// instruction.
pub proof fn law_step_counts_one(before: EmulatorView, answer: u64)
    requires
        before.well_formed(),
        before.exit_code is None,
        before.inst_counter < u64::MAX,
        before.stepped(answer) is Ok,
    ensures
        before.stepped(answer).unwrap().inst_counter == before.inst_counter + 1,
{
    let w = before.fetched().unwrap();
    crate::decode16::lemma_decoded_is_well_formed(w);
    lemma_executed_retires(
        before.window_updated(),
        crate::decode16::instruction_of(w),
        crate::decode16::length_of(w) as u64,
        answer,
    );
}

/// An instruction that neither jumps nor branches leaves the program counter
/// behind itself: at its address plus its length.
pub proof fn law_pc_advances(before: EmulatorView, inst: Inst, incr: u64, answer: u64)
    requires
        before.x.len() == 32,
        inst.well_formed(),
        before.executed(inst, incr, answer) is Ok,
        !(before.effect(inst) is Jump),
        !(before.effect(inst) is Branch),
    ensures
        before.executed(inst, incr, answer).unwrap().pc == before.pc.wrapping_add(incr),
{
    let accounted = EmulatorView { profiler: before.profiled(inst), ..before };
    match before.effect(inst) {
        Effect::Call => {
            lemma_syscall_keeps_counters(accounted);
        },
        _ => {},
    }
}

/// The profiler does not touch what the guest can see: with any other
/// profiler in its place, an instruction leaves the same registers, memory,
/// program counter, files, output and exit code.
pub proof fn law_profiler_is_orthogonal(
    before: EmulatorView,
    other: EmulatorView,
    inst: Inst,
    incr: u64,
    answer: u64,
)
    requires
        other == (EmulatorView { profiler: other.profiler, ..before }),
        before.executed(inst, incr, answer) is Ok,
    ensures
        other.executed(inst, incr, answer) is Ok,
        other.executed(inst, incr, answer).unwrap() == (EmulatorView {
            profiler: other.executed(inst, incr, answer).unwrap().profiler,
            ..before.executed(inst, incr, answer).unwrap()
        }),
{
    let accounted = EmulatorView { profiler: before.profiled(inst), ..before };
    let other_accounted = EmulatorView { profiler: other.profiled(inst), ..other };
    assert(other.effect(inst) == before.effect(inst));
    match before.effect(inst) {
        Effect::Call => {
            lemma_syscall_ignores_profiler(accounted, other_accounted);
        },
        _ => {},
    }
}

/// A system call does the same whatever the profiler holds.
#[verifier::rlimit(60)]
#[verifier::spinoff_prover]
pub proof fn lemma_syscall_ignores_profiler(before: EmulatorView, other: EmulatorView)
    requires
        other == (EmulatorView { profiler: other.profiler, ..before }),
        before.after_syscall() is Ok,
    ensures
        other.after_syscall() is Ok,
        other.after_syscall().unwrap() == (EmulatorView {
            profiler: other.profiler,
            ..before.after_syscall().unwrap()
        }),
        before.after_syscall().unwrap().profiler == before.profiler,
{
    lemma_gathering_ignores_profiler(
        before,
        other,
        before.x[crate::register::A1 as int],
        before.x[crate::register::A2 as int] as nat,
    );
}

/// Reading a vector of buffers does the same whatever the profiler holds.
pub proof fn lemma_gathering_ignores_profiler(
    before: EmulatorView,
    other: EmulatorView,
    vectors: u64,
    upto: nat,
)
    requires
        other.memory == before.memory,
    ensures
        other.gathered(vectors, upto) == before.gathered(vectors, upto),
    decreases upto,
{
    if upto > 0 {
        lemma_gathering_ignores_profiler(before, other, vectors, (upto - 1) as nat);
    }
}


/// A step leaves the registers at their number, and counts one
/// instruction unless the guest has exited.
pub proof fn lemma_step_keeps_registers(before: EmulatorView, answer: u64)
    requires
        before.x.len() == 32,
        before.stepped(answer) is Ok,
    ensures
        before.stepped(answer).unwrap().x.len() == 32,
        before.stepped(answer).unwrap().inst_counter == if before.exit_code is None {
            wrap_add(before.inst_counter, 1)
        } else {
            before.inst_counter
        },
{
    if before.exit_code is None {
        let w = before.fetched().unwrap();
        crate::decode16::lemma_decoded_is_well_formed(w);
        lemma_executed_retires(
            before.window_updated(),
            crate::decode16::instruction_of(w),
            crate::decode16::length_of(w) as u64,
            answer,
        );
    }
}

/// A step that asks nothing of the floating-point unit does not depend on
/// what the unit would have returned.
pub proof fn lemma_step_ignores_unasked_answer(before: EmulatorView, first: u64, second: u64)
    requires
        before.step_request() is None,
    ensures
        before.stepped(first) == before.stepped(second),
{
}

} // verus!
