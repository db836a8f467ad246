use remu::emulator::Emulator;
use remu::memory::Memory;
use remu::register::{Reg, A0};
use remu::semantics::FloatOp;
use remu::time_travel::TimeTravel;

fn fpu(_op: FloatOp) -> u64 {
    0
}

/// A program that counts in `a0` for ever: `addi a0, a0, 1; j -4`.
fn counter() -> Emulator {
    let mut program = Vec::new();
    program.extend_from_slice(&0x00150513u32.to_le_bytes());
    program.extend_from_slice(&0xffdff06fu32.to_le_bytes());
    Emulator::new(Memory::from_raw(&program))
}

#[test]
fn steps_forward_and_back() {
    let mut traveller = TimeTravel::new(counter(), fpu);
    assert_eq!(traveller.step(10), None);
    assert_eq!(traveller.current().inst_counter(), 10);
    assert_eq!(traveller.current().x(Reg(A0)), 5);
    assert_eq!(traveller.step(-4), None);
    assert_eq!(traveller.current().inst_counter(), 6);
    assert_eq!(traveller.current().x(Reg(A0)), 3);
    // back by more than was executed changes nothing
    assert_eq!(traveller.step(-7), None);
    assert_eq!(traveller.current().inst_counter(), 6);
    assert_eq!(traveller.step(-6), None);
    assert_eq!(traveller.current().inst_counter(), 0);
    assert_eq!(traveller.step(0), None);
    assert_eq!(traveller.current().inst_counter(), 0);
}

#[test]
fn goes_back_across_snapshots() {
    let mut traveller = TimeTravel::new(counter(), fpu);
    assert_eq!(traveller.step(25_000), None);
    assert_eq!(traveller.current().inst_counter(), 25_000);
    assert_eq!(traveller.step(-3), None);
    assert_eq!(traveller.current().inst_counter(), 24_997);
    assert_eq!(traveller.current().x(Reg(A0)), 12_499);
    assert_eq!(traveller.step(-14_997), None);
    assert_eq!(traveller.current().inst_counter(), 10_000);
    assert_eq!(traveller.current().x(Reg(A0)), 5_000);
}

#[test]
fn stops_at_exit_and_at_faults() {
    let mut program = Vec::new();
    // li a7, 93; li a0, 7; ecall
    for word in [0x05d00893u32, 0x00700513, 0x00000073] {
        program.extend_from_slice(&word.to_le_bytes());
    }
    let mut traveller = TimeTravel::new(Emulator::new(Memory::from_raw(&program)), fpu);
    assert_eq!(traveller.step(2), None);
    assert_eq!(traveller.step(5), Some(7));
    assert_eq!(traveller.current().inst_counter(), 3);
    assert_eq!(traveller.step(-1), None);
    assert_eq!(traveller.current().inst_counter(), 2);
    assert_eq!(traveller.current().exit_code(), None);

    // a guest that runs off its code
    let mut traveller = TimeTravel::new(Emulator::new(Memory::from_raw(&[0x13, 0, 0, 0])), fpu);
    traveller.current();
    let mut emulator = Emulator::new(Memory::from_raw(&[0x13, 0, 0, 0]));
    emulator.set_pc(4092);
    let mut traveller2 = TimeTravel::new(emulator, fpu);
    assert_eq!(traveller2.step(3), None);
    assert_eq!(traveller2.current().stderr(), "segmentation fault");
    assert_eq!(traveller.step(1), None);
    assert_eq!(traveller.current().stderr(), "");
}

#[test]
fn a_step_back_undoes_a_step_forward() {
    let mut traveller = TimeTravel::new(counter(), fpu);
    assert_eq!(traveller.step(12_345), None);
    let pc = traveller.current().pc();
    let a0 = traveller.current().x(Reg(A0));
    assert_eq!(traveller.step(9_000), None);
    assert_eq!(traveller.current().inst_counter(), 21_345);
    assert_eq!(traveller.step(-9_000), None);
    assert_eq!(traveller.current().inst_counter(), 12_345);
    assert_eq!(traveller.current().pc(), pc);
    assert_eq!(traveller.current().x(Reg(A0)), a0);
    assert_eq!(a0, 6_173);
}

#[test]
fn goes_back_behind_a_fault() {
    // two instructions, then the end of the page and of the code
    let mut program = vec![0u8; 4096];
    program[4088..4092].copy_from_slice(&0x00150513u32.to_le_bytes());
    program[4092..4096].copy_from_slice(&0x00150513u32.to_le_bytes());
    let mut emulator = Emulator::new(Memory::from_raw(&program));
    emulator.set_pc(4088);
    let mut traveller = TimeTravel::new(emulator, fpu);
    assert_eq!(traveller.step(5), None);
    assert_eq!(traveller.current().inst_counter(), 2);
    assert_eq!(traveller.current().pc(), 4096);
    assert_eq!(traveller.current().stderr(), "segmentation fault");
    assert_eq!(traveller.step(-1), None);
    assert_eq!(traveller.current().inst_counter(), 1);
    assert_eq!(traveller.current().pc(), 4092);
    assert_eq!(traveller.current().x(Reg(A0)), 1);
    assert_eq!(traveller.current().stderr(), "");
}

#[test]
fn stops_in_front_of_an_unknown_system_call() {
    let mut program = Vec::new();
    // li a7, 999; ecall; addi a0, a0, 1
    for word in [0x3e700893u32, 0x00000073, 0x00150513] {
        program.extend_from_slice(&word.to_le_bytes());
    }
    let mut traveller = TimeTravel::new(Emulator::new(Memory::from_raw(&program)), fpu);
    assert_eq!(traveller.current().unknown_syscall(), None);
    assert_eq!(traveller.step(5), None);
    assert_eq!(traveller.current().inst_counter(), 1);
    assert_eq!(traveller.current().pc(), 4);
    assert_eq!(traveller.current().unknown_syscall(), Some(999));
    assert_eq!(traveller.current().exit_code(), None);
    assert_eq!(traveller.step(1), None);
    assert_eq!(traveller.current().inst_counter(), 1);
    assert_eq!(traveller.step(-1), None);
    assert_eq!(traveller.current().inst_counter(), 0);
    assert_eq!(traveller.current().unknown_syscall(), None);
}
