use remu::cache::Cache;
use remu::profiler::{div_cycle_count, floor_log2, Profiler};
use remu::register::{FReg, Reg, A0, A1, A2};

fn running() -> Profiler {
    let mut profiler = Profiler::new();
    profiler.set_running(true);
    profiler
}

#[test]
fn ticks_only_while_running() {
    let mut profiler = Profiler::new();
    profiler.tick(0x1000);
    assert_eq!(profiler.cycle_count(), 0);
    profiler.set_running(true);
    profiler.tick(0x1000);
    profiler.tick(0x1004);
    assert_eq!(profiler.cycle_count(), 2);
    // the dynamic linker is left out
    assert!(!profiler.is_counted(0x0200_0000_0000_1000));
    profiler.tick(0x0200_0000_0000_1000);
    assert_eq!(profiler.cycle_count(), 2);
    assert!(profiler.is_counted(0x0300_0000_0000_0000));
}

#[test]
fn loads_hit_near_the_load_before() {
    let mut profiler = running();
    profiler.add_load_delay_x(Reg(A0), 0x10000, 0x1000);
    assert_eq!(profiler.cache_miss_count(), 1);
    profiler.add_load_delay_x(Reg(A1), 0x10000 + 0x4ff, 0x1000);
    assert_eq!(profiler.cache_hit_count(), 1);
    profiler.add_load_delay_f(FReg(1), 0x10000 + 0x4ff + 0x500, 0x1000);
    assert_eq!(profiler.cache_miss_count(), 2);
    profiler.add_load_delay_f(FReg(2), 0x10000 + 0x500, 0x1000);
    assert_eq!(profiler.cache_hit_count(), 2);
    // the pipeline waits 200 cycles for a miss and 3 for a hit
    profiler.pipeline_stall_x(Reg(A1), 0x1000);
    assert_eq!(profiler.cycle_count(), 3);
    profiler.pipeline_stall_xx(Reg(A1), Reg(A0), 0x1000);
    assert_eq!(profiler.cycle_count(), 200);
    profiler.pipeline_stall_xf(Reg(A0), FReg(2), 0x1000);
    assert_eq!(profiler.cycle_count(), 200);
}

#[test]
fn stalls_do_nothing_when_not_counted() {
    let mut profiler = running();
    profiler.add_delay_x(Reg(A0), 50);
    profiler.pipeline_stall_x(Reg(A0), 0x0200_0000_0000_0000);
    assert_eq!(profiler.cycle_count(), 0);
    profiler.pipeline_stall_x(Reg(A0), 0x1000);
    assert_eq!(profiler.cycle_count(), 50);
    profiler.add_delay_x(Reg(A2), 3);
    profiler.pipeline_stall_xx(Reg(A0), Reg(A2), 0x1000);
    assert_eq!(profiler.cycle_count(), 53);
}

#[test]
fn branches_are_predicted_by_their_last_outcome() {
    let mut profiler = running();
    // a branch that is not remembered is predicted as not taken
    profiler.branch_not_taken(0x1000);
    assert_eq!(profiler.predicted_branch_count(), 1);
    assert_eq!(profiler.cycle_count(), 0);
    profiler.branch_taken(0x1000);
    assert_eq!(profiler.mispredicted_branch_count(), 1);
    assert_eq!(profiler.cycle_count(), 4);
    profiler.branch_taken(0x1000);
    assert_eq!(profiler.predicted_branch_count(), 2);
    profiler.branch_not_taken(0x1000);
    assert_eq!(profiler.mispredicted_branch_count(), 2);
    assert_eq!(profiler.cycle_count(), 8);
    profiler.branch_taken(0x2000);
    assert_eq!(profiler.mispredicted_branch_count(), 3);
    // not counted: nothing changes
    profiler.set_running(false);
    profiler.branch_taken(0x3000);
    assert_eq!(profiler.mispredicted_branch_count(), 3);
    assert_eq!(profiler.predicted_branch_count(), 2);
}

#[test]
fn predictor_forgets_the_oldest_branch() {
    let mut profiler = running();
    profiler.branch_taken(0x1000);
    for other in 0..100u64 {
        profiler.branch_taken(0x2000 + 4 * other);
    }
    let mispredicted = profiler.mispredicted_branch_count();
    assert_eq!(mispredicted, 101);
    // the first branch is forgotten, the last is not
    profiler.branch_taken(0x2000 + 4 * 99);
    assert_eq!(profiler.mispredicted_branch_count(), mispredicted);
    profiler.branch_taken(0x1000);
    assert_eq!(profiler.mispredicted_branch_count(), mispredicted + 1);
}

#[test]
fn division_latency() {
    assert_eq!(floor_log2(0), 0);
    assert_eq!(floor_log2(1), 0);
    assert_eq!(floor_log2(2), 1);
    assert_eq!(floor_log2(1023), 9);
    assert_eq!(floor_log2(u64::MAX), 63);
    assert_eq!(div_cycle_count(1 << 20, 1 << 4), 18);
    assert_eq!(div_cycle_count(5, 1000), 2);
    assert_eq!(div_cycle_count(0, 0), 2);
    assert_eq!(div_cycle_count(u64::MAX, 1), 65);
}

#[test]
fn cache_update_and_get() {
    let mut cache: Cache<3> = Cache::new();
    // a new cache holds key 0 with false in every slot
    assert_eq!(cache.get(0), Some(false));
    assert_eq!(cache.get(7), None);
    assert_eq!(cache.update(7, true), None);
    assert_eq!(cache.get(7), Some(true));
    assert_eq!(cache.update(7, true), None);
    assert_eq!(cache.update(7, false), Some(false));
    assert_eq!(cache.get(7), Some(false));
    assert_eq!(cache.update(0, true), Some(true));
    // new keys take the slots in turn
    assert_eq!(cache.update(8, true), None);
    assert_eq!(cache.update(9, true), None);
    assert_eq!(cache.get(7), Some(false));
    assert_eq!(cache.update(10, true), None);
    assert_eq!(cache.get(7), None);
    assert_eq!(cache.get(8), Some(true));
    assert_eq!(cache.get(10), Some(true));
}
