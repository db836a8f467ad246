//! The cost model: a cycle counter, the cycle at which each register's value
//! is ready, a locality model of the data cache, and a branch predictor that
//! remembers the last outcome of each branch.
//!
//! The profiler counts only while it is running, and not in the dynamic
//! linker's region unless told to.

use vstd::prelude::*;
use crate::cache::{fresh_cache, Cache, CacheView};
use crate::register::{FReg, Reg};

verus! {

/// A load within this distance of the load before it hits the cache.
pub const CACHE_SIZE: u64 = 0x500;

/// The number of branches whose last outcome the predictor remembers.
pub const PREDICTOR_SLOTS: usize = 100;

/// The cycles that a load takes on a cache hit.
pub const HIT_LATENCY: u64 = 3;

/// The cycles that a load takes on a cache miss.
pub const MISS_LATENCY: u64 = 200;

/// The cycles that a mispredicted branch costs.
pub const MISPREDICT_PENALTY: u64 = 4;

/// The cycles that a multiplication takes.
pub const MULTIPLY_LATENCY: u64 = 3;

/// The size of a region of the address space; the dynamic linker lies in
/// region 2.
pub const LINKER_REGION: u64 = 2;

/// `a + b`, wrapped to 64 bits.
pub open spec fn wrap_add(a: u64, b: u64) -> u64 {
    ((a + b) % 0x1_0000_0000_0000_0000) as u64
}

/// The larger of two numbers.
pub open spec fn max_u64(a: u64, b: u64) -> u64 {
    if a >= b {
        a
    } else {
        b
    }
}

/// The distance between two addresses.
pub open spec fn distance(a: u64, b: u64) -> u64 {
    if a >= b {
        (a - b) as u64
    } else {
        (b - a) as u64
    }
}

/// The position of the highest set bit of `v`, and 0 for 0 and 1.
pub open spec fn log2_floor(v: nat) -> nat
    decreases v,
{
    if v < 2 {
        0
    } else {
        1 + log2_floor(v / 2)
    }
}

/// The cycles that a division or remainder takes: 2, and one more for each
/// bit by which the dividend is longer than the divisor.
pub open spec fn division_latency(dividend: u64, divisor: u64) -> u64 {
    if log2_floor(dividend as nat) >= log2_floor(divisor as nat) {
        (2 + log2_floor(dividend as nat) - log2_floor(divisor as nat)) as u64
    } else {
        2
    }
}

/// The state of the cost model.
pub struct ProfilerView {
    /// The cycle at which each integer register is ready.
    pub x_ready: Seq<u64>,
    /// The cycle at which each floating-point register is ready.
    pub f_ready: Seq<u64>,
    pub cycle_count: u64,
    pub cache_hit_count: u64,
    pub cache_miss_count: u64,
    pub mispredicted_branch_count: u64,
    pub predicted_branch_count: u64,
    /// The last outcome of the branches that the predictor remembers.
    pub predictor: CacheView,
    /// The address of the load before this one.
    pub last_mem_access: u64,
    pub running: bool,
    pub ignore_dynamic_linker_instructions: bool,
}

impl ProfilerView {
    pub open spec fn well_formed(self) -> bool {
        &&& self.x_ready.len() == 32
        &&& self.f_ready.len() == 32
        &&& self.predictor.well_formed()
        &&& self.predictor.slots.len() == PREDICTOR_SLOTS
    }

    /// Whether the instruction at `pc` counts: the profiler is running, and
    /// `pc` does not lie in the dynamic linker while that is left out.
    pub open spec fn is_counted(self, pc: u64) -> bool {
        self.running && !(self.ignore_dynamic_linker_instructions && pc
            / 0x0100_0000_0000_0000 == LINKER_REGION)
    }

    /// One more cycle, where the instruction counts.
    pub open spec fn ticked(self, pc: u64) -> ProfilerView {
        if self.is_counted(pc) {
            ProfilerView { cycle_count: wrap_add(self.cycle_count, 1), ..self }
        } else {
            self
        }
    }

    /// The counter moved up to `ready`, where the instruction counts: the
    /// pipeline stalls until a source is ready.
    pub open spec fn stalled(self, ready: u64, pc: u64) -> ProfilerView {
        if self.is_counted(pc) {
            ProfilerView { cycle_count: max_u64(self.cycle_count, ready), ..self }
        } else {
            self
        }
    }

    /// What the predictor says of the branch at `pc`: its last outcome, and
    /// "not taken" for a branch that it does not remember.
    pub open spec fn predicts_taken(self, pc: u64) -> bool {
        match self.predictor.value_of(pc) {
            Some(taken) => taken,
            None => false,
        }
    }

    /// The state after the branch at `pc` went the way `taken`: where the
    /// instruction counts, a right prediction is counted, a wrong one is
    /// counted and costs the penalty, and the predictor remembers the outcome.
    pub open spec fn branched(self, pc: u64, taken: bool) -> ProfilerView {
        if !self.is_counted(pc) {
            self
        } else if self.predicts_taken(pc) == taken {
            ProfilerView {
                predicted_branch_count: wrap_add(self.predicted_branch_count, 1),
                predictor: self.predictor.updated(pc, taken),
                ..self
            }
        } else {
            ProfilerView {
                mispredicted_branch_count: wrap_add(self.mispredicted_branch_count, 1),
                cycle_count: wrap_add(self.cycle_count, MISPREDICT_PENALTY),
                predictor: self.predictor.updated(pc, taken),
                ..self
            }
        }
    }

    /// Whether a load at `addr` hits the cache: it lies within `CACHE_SIZE` of
    /// the load before it.
    pub open spec fn hits(self, addr: u64) -> bool {
        distance(self.last_mem_access, addr) < CACHE_SIZE
    }

    /// The cycle at which a value loaded from `addr` is ready.
    pub open spec fn load_ready(self, addr: u64) -> u64 {
        if self.hits(addr) {
            wrap_add(self.cycle_count, HIT_LATENCY)
        } else {
            wrap_add(self.cycle_count, MISS_LATENCY)
        }
    }

    /// The hit or miss of a load at `addr` counted, and `addr` remembered.
    pub open spec fn load_counted(self, addr: u64) -> ProfilerView {
        if self.hits(addr) {
            ProfilerView {
                cache_hit_count: wrap_add(self.cache_hit_count, 1),
                last_mem_access: addr,
                ..self
            }
        } else {
            ProfilerView {
                cache_miss_count: wrap_add(self.cache_miss_count, 1),
                last_mem_access: addr,
                ..self
            }
        }
    }

    /// The state after a load from `addr` into integer register `rd`.
    pub open spec fn loaded_x(self, rd: Reg, addr: u64, pc: u64) -> ProfilerView {
        if self.is_counted(pc) {
            ProfilerView {
                x_ready: self.x_ready.update(rd.0 as int, self.load_ready(addr)),
                ..self.load_counted(addr)
            }
        } else {
            self
        }
    }

    /// The state after a load from `addr` into floating-point register `rd`.
    pub open spec fn loaded_f(self, rd: FReg, addr: u64, pc: u64) -> ProfilerView {
        if self.is_counted(pc) {
            ProfilerView {
                f_ready: self.f_ready.update(rd.0 as int, self.load_ready(addr)),
                ..self.load_counted(addr)
            }
        } else {
            self
        }
    }

    /// Register `reg` ready `amount` cycles from now.
    pub open spec fn delayed_x(self, reg: Reg, amount: u64) -> ProfilerView {
        ProfilerView {
            x_ready: self.x_ready.update(rd_index(reg), wrap_add(self.cycle_count, amount)),
            ..self
        }
    }
}

pub open spec fn rd_index(reg: Reg) -> int {
    reg.0 as int
}

/// The state of a new profiler: nothing counted, every register ready, not
/// running, the dynamic linker left out.
pub open spec fn fresh_profiler() -> ProfilerView {
    ProfilerView {
        x_ready: Seq::new(32, |i: int| 0u64),
        f_ready: Seq::new(32, |i: int| 0u64),
        cycle_count: 0,
        cache_hit_count: 0,
        cache_miss_count: 0,
        mispredicted_branch_count: 0,
        predicted_branch_count: 0,
        predictor: fresh_cache(PREDICTOR_SLOTS as nat),
        last_mem_access: 0,
        running: false,
        ignore_dynamic_linker_instructions: true,
    }
}

#[derive(Clone, Copy, Debug)]
pub struct Profiler {
    x_pipeline_delay: [u64; 32],
    f_pipeline_delay: [u64; 32],
    cycle_count: u64,
    cache_hit_count: u64,
    cache_miss_count: u64,
    mispredicted_branch_count: u64,
    predicted_branch_count: u64,
    branch_predictor: Cache<100>,
    last_mem_access: u64,
    running: bool,
    ignore_dynamic_linker_instructions: bool,
}

impl View for Profiler {
    type V = ProfilerView;

    closed spec fn view(&self) -> ProfilerView {
        ProfilerView {
            x_ready: self.x_pipeline_delay@,
            f_ready: self.f_pipeline_delay@,
            cycle_count: self.cycle_count,
            cache_hit_count: self.cache_hit_count,
            cache_miss_count: self.cache_miss_count,
            mispredicted_branch_count: self.mispredicted_branch_count,
            predicted_branch_count: self.predicted_branch_count,
            predictor: self.branch_predictor@,
            last_mem_access: self.last_mem_access,
            running: self.running,
            ignore_dynamic_linker_instructions: self.ignore_dynamic_linker_instructions,
        }
    }
}

/// Returns the position of the highest set bit of `v`, and 0 for 0 and 1.
pub fn floor_log2(v: u64) -> (bits: u64)
    ensures
        bits == log2_floor(v as nat),
        bits < 64,
{
    let mut rest = v;
    let mut bits: u64 = 0;
    assert(u64::MAX >> 0u64 == u64::MAX) by (bit_vector);
    while rest >= 2
        invariant
            bits + log2_floor(rest as nat) == log2_floor(v as nat),
            bits < 64,
            rest <= u64::MAX >> bits,
        decreases rest,
    {
        proof {
            let r = rest;
            let b = bits;
            assert(b < 63 && (r / 2) <= u64::MAX >> ((b + 1) as u64)) by (bit_vector)
                requires
                    r >= 2,
                    b < 64,
                    r <= u64::MAX >> b,
            ;
        }
        rest = rest / 2;
        bits = bits + 1;
    }
    bits
}

/// Returns the cycles that a division or remainder of these magnitudes
/// takes.
pub fn div_cycle_count(dividend: u64, divisor: u64) -> (cycles: u64)
    ensures
        cycles == division_latency(dividend, divisor),
{
    let high = floor_log2(dividend);
    let low = floor_log2(divisor);
    if high >= low {
        2 + (high - low)
    } else {
        2
    }
}

impl Profiler {
    pub open spec fn well_formed(&self) -> bool {
        self@.well_formed()
    }

    /// Returns a new profiler: nothing counted, not running.
    pub fn new() -> (profiler: Profiler)
        ensures
            profiler@ == fresh_profiler(),
            profiler.well_formed(),
    {
        let profiler = Profiler {
            x_pipeline_delay: [0;32],
            f_pipeline_delay: [0;32],
            cycle_count: 0,
            cache_hit_count: 0,
            cache_miss_count: 0,
            mispredicted_branch_count: 0,
            predicted_branch_count: 0,
            branch_predictor: Cache::new(),
            last_mem_access: 0,
            running: false,
            ignore_dynamic_linker_instructions: true,
        };
        assert(profiler@.x_ready =~= fresh_profiler().x_ready);
        assert(profiler@.f_ready =~= fresh_profiler().f_ready);
        profiler
    }

    pub fn cycle_count(&self) -> (count: u64)
        ensures
            count == self@.cycle_count,
    {
        self.cycle_count
    }

    pub fn cache_hit_count(&self) -> (count: u64)
        ensures
            count == self@.cache_hit_count,
    {
        self.cache_hit_count
    }

    pub fn cache_miss_count(&self) -> (count: u64)
        ensures
            count == self@.cache_miss_count,
    {
        self.cache_miss_count
    }

    pub fn mispredicted_branch_count(&self) -> (count: u64)
        ensures
            count == self@.mispredicted_branch_count,
    {
        self.mispredicted_branch_count
    }

    pub fn predicted_branch_count(&self) -> (count: u64)
        ensures
            count == self@.predicted_branch_count,
    {
        self.predicted_branch_count
    }

    /// Returns the address of the most recent load that was accounted for.
    pub fn last_mem_access(&self) -> (addr: u64)
        ensures
            addr == self@.last_mem_access,
    {
        self.last_mem_access
    }

    pub fn running(&self) -> (running: bool)
        ensures
            running == self@.running,
    {
        self.running
    }

    /// Starts or stops the counting.
    pub fn set_running(&mut self, running: bool)
        ensures
            final(self)@ == (ProfilerView { running, ..old(self)@ }),
    {
        self.running = running;
    }

    /// Counts a cycle for the instruction at `pc`.
    pub fn tick(&mut self, pc: u64)
        ensures
            final(self)@ == old(self)@.ticked(pc),
    {
        if self.is_counted(pc) {
            self.cycle_count = self.cycle_count.wrapping_add(1);
        }
    }

    /// Returns whether the instruction at `pc` counts.
    pub fn is_counted(&self, pc: u64) -> (counted: bool)
        ensures
            counted == self@.is_counted(pc),
    {
        self.running && !(self.ignore_dynamic_linker_instructions && pc / 0x0100_0000_0000_0000
            == LINKER_REGION)
    }

    /// Stalls until two integer source registers are ready.
    pub fn pipeline_stall_xx(&mut self, reg1: Reg, reg2: Reg, pc: u64)
        requires
            old(self).well_formed(),
            reg1.valid(),
            reg2.valid(),
        ensures
            final(self)@ == old(self)@.stalled(
                max_u64(old(self)@.x_ready[reg1.0 as int], old(self)@.x_ready[reg2.0 as int]),
                pc,
            ),
    {
        if self.is_counted(pc) {
            let first = self.x_pipeline_delay[reg1.0 as usize];
            let second = self.x_pipeline_delay[reg2.0 as usize];
            if first > self.cycle_count {
                self.cycle_count = first;
            }
            if second > self.cycle_count {
                self.cycle_count = second;
            }
        }
    }

    /// Stalls until an integer and a floating-point source register are ready.
    pub fn pipeline_stall_xf(&mut self, reg1: Reg, reg2: FReg, pc: u64)
        requires
            old(self).well_formed(),
            reg1.valid(),
            reg2.valid(),
        ensures
            final(self)@ == old(self)@.stalled(
                max_u64(old(self)@.x_ready[reg1.0 as int], old(self)@.f_ready[reg2.0 as int]),
                pc,
            ),
    {
        if self.is_counted(pc) {
            let first = self.x_pipeline_delay[reg1.0 as usize];
            let second = self.f_pipeline_delay[reg2.0 as usize];
            if first > self.cycle_count {
                self.cycle_count = first;
            }
            if second > self.cycle_count {
                self.cycle_count = second;
            }
        }
    }

    /// Stalls until an integer source register is ready.
    pub fn pipeline_stall_x(&mut self, reg1: Reg, pc: u64)
        requires
            old(self).well_formed(),
            reg1.valid(),
        ensures
            final(self)@ == old(self)@.stalled(old(self)@.x_ready[reg1.0 as int], pc),
    {
        if self.is_counted(pc) {
            let first = self.x_pipeline_delay[reg1.0 as usize];
            if first > self.cycle_count {
                self.cycle_count = first;
            }
        }
    }

    /// Records the outcome of the branch at `pc` against the prediction.
    fn branch(&mut self, pc: u64, taken: bool)
        requires
            old(self).well_formed(),
        ensures
            final(self).well_formed(),
            final(self)@ == old(self)@.branched(pc, taken),
    {
        if self.is_counted(pc) {
            let predicted = match self.branch_predictor.get(pc) {
                Some(outcome) => outcome,
                None => false,
            };
            self.branch_predictor.update(pc, taken);
            if predicted == taken {
                self.predicted_branch_count = self.predicted_branch_count.wrapping_add(1);
            } else {
                // a mispredicted branch costs cycles
                self.mispredicted_branch_count = self.mispredicted_branch_count.wrapping_add(1);
                self.cycle_count = self.cycle_count.wrapping_add(MISPREDICT_PENALTY);
            }
            proof {
                crate::cache::lemma_update_keeps_length(old(self)@.predictor, pc, taken);
            }
        }
    }

    /// Records that the branch at `pc` was taken.
    pub fn branch_taken(&mut self, pc: u64)
        requires
            old(self).well_formed(),
        ensures
            final(self).well_formed(),
            final(self)@ == old(self)@.branched(pc, true),
    {
        self.branch(pc, true)
    }

    /// Records that the branch at `pc` was not taken.
    pub fn branch_not_taken(&mut self, pc: u64)
        requires
            old(self).well_formed(),
        ensures
            final(self).well_formed(),
            final(self)@ == old(self)@.branched(pc, false),
    {
        self.branch(pc, false)
    }

    /// Makes register `reg` ready `amount` cycles from now.
    pub fn add_delay_x(&mut self, reg: Reg, amount: u64)
        requires
            old(self).well_formed(),
            reg.valid(),
        ensures
            final(self).well_formed(),
            final(self)@ == old(self)@.delayed_x(reg, amount),
    {
        self.x_pipeline_delay[reg.0 as usize] = self.cycle_count.wrapping_add(amount);
    }

    /// Counts the hit or miss of a load from `addr`, and returns the cycle at
    /// which the loaded value is ready.
    fn count_load(&mut self, addr: u64) -> (ready: u64)
        ensures
            ready == old(self)@.load_ready(addr),
            final(self)@ == old(self)@.load_counted(addr),
    {
        let gap = if self.last_mem_access >= addr {
            self.last_mem_access - addr
        } else {
            addr - self.last_mem_access
        };
        let ready = if gap < CACHE_SIZE {
            self.cache_hit_count = self.cache_hit_count.wrapping_add(1);
            self.cycle_count.wrapping_add(HIT_LATENCY)
        } else {
            self.cache_miss_count = self.cache_miss_count.wrapping_add(1);
            self.cycle_count.wrapping_add(MISS_LATENCY)
        };
        self.last_mem_access = addr;
        ready
    }

    /// Accounts for a load from `addr` into floating-point register `rd`.
    pub fn add_load_delay_f(&mut self, rd: FReg, addr: u64, pc: u64)
        requires
            old(self).well_formed(),
            rd.valid(),
        ensures
            final(self).well_formed(),
            final(self)@ == old(self)@.loaded_f(rd, addr, pc),
    {
        if self.is_counted(pc) {
            let ready = self.count_load(addr);
            self.f_pipeline_delay[rd.0 as usize] = ready;
        }
    }

    /// Accounts for a load from `addr` into integer register `rd`.
    pub fn add_load_delay_x(&mut self, rd: Reg, addr: u64, pc: u64)
        requires
            old(self).well_formed(),
            rd.valid(),
        ensures
            final(self).well_formed(),
            final(self)@ == old(self)@.loaded_x(rd, addr, pc),
    {
        if self.is_counted(pc) {
            let ready = self.count_load(addr);
            self.x_pipeline_delay[rd.0 as usize] = ready;
        }
    }
}

} // verus!
