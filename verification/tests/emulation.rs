use remu::emulator::Emulator;
use remu::error::RVError;
use remu::instruction::Inst;
use remu::memory::Memory;
use remu::register::{FReg, Reg, A0, A1, A2, A7, RA, SP};
use remu::semantics::FloatOp;

fn fpu(op: FloatOp) -> u64 {
    match op {
        FloatOp::SingleToDouble(bits) => (f32::from_bits(bits) as f64).to_bits(),
        FloatOp::DoubleToSingle(bits) => (f64::from_bits(bits) as f32).to_bits() as u64,
        FloatOp::DoubleToUnsigned(bits) => f64::from_bits(bits) as u64,
        FloatOp::LessOrEqual(a, b) => (f64::from_bits(a) <= f64::from_bits(b)) as u64,
        FloatOp::Divide(a, b) => (f64::from_bits(a) / f64::from_bits(b)).to_bits(),
    }
}

fn check_lui() -> Result<(), RVError> {
    let memory = Memory::from_raw(&[]);
    let mut emulator = Emulator::new(memory);

    // lui a0, 1000
    emulator.execute_raw(0x003e8537, &fpu)?;
    assert_eq!(emulator.x(Reg(A0)), 4096000);

    // c.lui a0, 10
    emulator.execute_raw(0x000065a9, &fpu)?;
    assert_eq!(emulator.x(Reg(A1)), 40960);

    Ok(())
}

fn check_loads() -> Result<(), RVError> {
    let memory = Memory::from_raw(&[
        0x12, 0x23, 0x34, 0x56, 0x78, 0x9a, 0xbc, 0xde, //.
        0xef, 0xff, 0xff, 0xff, 0x00, 0x00, 0x00, 0x00, //.
    ]);
    let mut emulator = Emulator::new(memory);

    // ld a0, 0(x0)
    emulator.execute_raw(0x00003503, &fpu)?;
    assert_eq!(emulator.x(Reg(A0)), 0xdebc9a7856342312);

    // lw a1, 8(zero)
    emulator.execute_raw(0x00802583, &fpu)?;
    assert_eq!(emulator.x(Reg(A1)), 0xffffffffffffffef);

    // lhu a1, 8(zero)
    emulator.execute_raw(0x00805583, &fpu)?;
    assert_eq!(emulator.x(Reg(A1)), 0x000000000000ffef);

    // lhu a1, 8(zero)
    emulator.execute_raw(0x00804583, &fpu)?;
    assert_eq!(emulator.x(Reg(A1)), 0x00000000000000ef);

    Ok(())
}

fn check_stores() -> Result<(), RVError> {
    let memory = Memory::from_raw(&[
        0x00, 0x00, 0x00, 0x00, 0x00, 0x00, 0x00, 0x00, //.
        0x00, 0x00, 0x00, 0x00, 0x00, 0x00, 0x00, 0x00, //.
    ]);
    let mut emulator = Emulator::new(memory);
    emulator.set_x(Reg(A0), 0xdebc9a7856342312);

    // sd a0, 0(zero)
    // ld a1, 0(zero)
    emulator.execute_raw(0x00a03023, &fpu)?;
    emulator.execute_raw(0x00003583, &fpu)?;
    assert_eq!(emulator.x(Reg(A0)), emulator.x(Reg(A1)));

    // -32 2s complement
    emulator.set_x(Reg(A0), 0xfffffffffffffffe);
    // sw a0, 0(zero)
    // lw a1, 0(zero)
    emulator.execute_raw(0x00a02023, &fpu)?;
    emulator.execute_raw(0x00002583, &fpu)?;
    assert_eq!(emulator.x(Reg(A0)), emulator.x(Reg(A1)));

    // ld a1, 0(zero)
    emulator.execute_raw(0x00003583, &fpu)?;
    assert_ne!(emulator.x(Reg(A0)), emulator.x(Reg(A1)));

    Ok(())
}

fn check_sp_relative() -> Result<(), RVError> {
    let memory = Memory::from_raw(&[]);
    let mut emulator = Emulator::new(memory);
    emulator.set_x(Reg(A0), 0xdebc9a7856342312);
    let sp_start = emulator.x(Reg(SP));

    // C.SDSP a0, 0
    emulator.execute_raw(0x0000e02a, &fpu)?;

    // C.LDSP a1, 0
    emulator.execute_raw(0x00006582, &fpu)?;
    assert_eq!(emulator.x(Reg(A0)), emulator.x(Reg(A1)));

    // C.ADDI4SPN a0, 8
    emulator.execute_raw(0x00000028, &fpu)?;
    assert_eq!(emulator.x(Reg(A0)), emulator.x(Reg(SP)) + 8);

    // C.ADDI16SP 32
    emulator.execute_raw(0x00006105, &fpu)?;
    assert_eq!(emulator.x(Reg(SP)), sp_start + 32);

    // C.ADDI16SP -64
    emulator.execute_raw(0x00007139, &fpu)?;
    assert_eq!(emulator.x(Reg(SP)), sp_start - 32);

    Ok(())
}

#[test]
fn emulator_lui() {
    check_lui().unwrap();
}

#[test]
fn emulator_loads() {
    check_loads().unwrap();
}

#[test]
fn emulator_stores() {
    check_stores().unwrap();
}

#[test]
fn emulator_sp_relative() {
    check_sp_relative().unwrap();
}

#[test]
fn mod_lui() {
    check_lui().unwrap();
}

#[test]
fn mod_loads() {
    check_loads().unwrap();
}

#[test]
fn mod_stores() {
    check_stores().unwrap();
}

#[test]
fn mod_sp_relative() {
    check_sp_relative().unwrap();
}

fn words(program: &[u32]) -> Vec<u8> {
    let mut bytes = Vec::new();
    for word in program {
        bytes.extend_from_slice(&word.to_le_bytes());
    }
    bytes
}

#[test]
fn lui_advances_pc_by_four() {
    let mut emulator = Emulator::new(Memory::from_raw(&[]));
    let pc = emulator.pc();
    emulator.execute_raw(0x003e8537, &fpu).unwrap();
    assert_eq!(emulator.pc(), pc + 4);
    emulator.execute_raw(0x000065a9, &fpu).unwrap();
    assert_eq!(emulator.pc(), pc + 6);
}

#[test]
fn store_doubleword_then_load_word() {
    let mut emulator = Emulator::new(Memory::from_raw(&[0; 16]));
    emulator.set_x(Reg(A0), 0xdebc9a7856342312);
    // sd a0, 0(zero); ld a1, 0(zero)
    emulator.execute_raw(0x00a03023, &fpu).unwrap();
    emulator.execute_raw(0x00003583, &fpu).unwrap();
    assert_eq!(emulator.x(Reg(A1)), 0xdebc9a7856342312);
    // lw a1, 0(zero)
    emulator.execute_raw(0x00002583, &fpu).unwrap();
    assert_eq!(emulator.x(Reg(A1)), 0x0000000056342312);
}

#[test]
fn x0_stays_zero() {
    let mut emulator = Emulator::new(Memory::from_raw(&[]));
    // addi x0, x0, 5
    emulator.execute_raw(0x00500013, &fpu).unwrap();
    assert_eq!(emulator.x(Reg(0)), 0);
    // lui x0, 1000
    emulator.execute_raw(0x003e8037, &fpu).unwrap();
    assert_eq!(emulator.x(Reg(0)), 0);
    emulator.set_x(Reg(0), 7);
    assert_eq!(emulator.x(Reg(0)), 0);
}

#[test]
fn every_instruction_is_counted_once() {
    let program = words(&[0x00500513, 0x00a50533, 0x00000013]);
    let mut emulator = Emulator::new(Memory::from_raw(&program));
    for executed in 1..=3 {
        assert_eq!(emulator.fetch_and_execute(&fpu), Ok(None));
        assert_eq!(emulator.inst_counter(), executed);
    }
}

#[test]
fn exit_program_exits_with_code_seven() {
    // li a7, 93; li a0, 7; ecall
    let program = words(&[0x05d00893, 0x00700513, 0x00000073]);
    let mut emulator = Emulator::new(Memory::from_raw(&program));
    assert_eq!(emulator.fetch_and_execute(&fpu), Ok(None));
    assert_eq!(emulator.fetch_and_execute(&fpu), Ok(None));
    assert_eq!(emulator.fetch_and_execute(&fpu), Ok(Some(7)));
    assert_eq!(emulator.exit_code(), Some(7));
    // a guest that has exited stays as it is
    let counter = emulator.inst_counter();
    assert_eq!(emulator.fetch_and_execute(&fpu), Ok(Some(7)));
    assert_eq!(emulator.inst_counter(), counter);
}

#[test]
fn run_stops_at_exit_or_limit() {
    let program = words(&[0x05d00893, 0x00700513, 0x00000073]);
    let mut emulator = Emulator::new(Memory::from_raw(&program));
    assert_eq!(emulator.run(&fpu, 2), Ok(None));
    assert_eq!(emulator.inst_counter(), 2);
    assert_eq!(emulator.run(&fpu, 100), Ok(Some(7)));
    assert_eq!(emulator.inst_counter(), 3);
}

#[test]
fn write_appends_to_stdout() {
    // li a7, 64; li a0, 1; li a1, 24; li a2, 3; ecall
    let mut program = words(&[
        0x04000893, 0x00100513, 0x01800593, 0x00300613, 0x00000073, 0x00000013,
    ]);
    program.extend_from_slice(b"Hi\n");
    let mut emulator = Emulator::new(Memory::from_raw(&program));
    for _ in 0..5 {
        assert_eq!(emulator.fetch_and_execute(&fpu), Ok(None));
    }
    assert_eq!(emulator.stdout(), "Hi\n");
    assert_eq!(emulator.x(Reg(A0)), 3);
}

#[test]
fn write_to_other_descriptor_fails() {
    let mut emulator = Emulator::new(Memory::from_raw(b"Hi\n"));
    emulator.set_x(Reg(A7), 64);
    emulator.set_x(Reg(A0), 5);
    emulator.set_x(Reg(A1), 0);
    emulator.set_x(Reg(A2), 3);
    emulator.execute(Inst::Ecall, 4, &fpu).unwrap();
    assert_eq!(emulator.x(Reg(A0)), u64::MAX);
    assert_eq!(emulator.stdout(), "");
}

#[test]
fn writev_gathers_buffers() {
    let mut data = vec![0u8; 64];
    data[0..3].copy_from_slice(b"abc");
    data[8..10].copy_from_slice(b"de");
    // two vectors at 32: (0, 3) and (8, 2)
    data[32..40].copy_from_slice(&0u64.to_le_bytes());
    data[40..48].copy_from_slice(&3u64.to_le_bytes());
    data[48..56].copy_from_slice(&8u64.to_le_bytes());
    data[56..64].copy_from_slice(&2u64.to_le_bytes());
    let mut emulator = Emulator::new(Memory::from_raw(&data));
    emulator.set_x(Reg(A7), 66);
    emulator.set_x(Reg(A0), 1);
    emulator.set_x(Reg(A1), 32);
    emulator.set_x(Reg(A2), 2);
    emulator.execute(Inst::Ecall, 4, &fpu).unwrap();
    assert_eq!(emulator.stdout(), "abcde");
    assert_eq!(emulator.x(Reg(A0)), 5);
}

#[test]
fn unknown_syscall_stops_the_guest() {
    let mut program = Vec::new();
    // li a7, 999; ecall; addi a0, a0, 1
    for word in [0x3e700893u32, 0x00000073, 0x00150513] {
        program.extend_from_slice(&word.to_le_bytes());
    }
    let mut emulator = Emulator::new(Memory::from_raw(&program));
    assert_eq!(emulator.unknown_syscall(), None);
    assert_eq!(emulator.run(&fpu, 10), Ok(None));
    assert_eq!(emulator.inst_counter(), 1);
    assert_eq!(emulator.pc(), 4);
    assert_eq!(emulator.unknown_syscall(), Some(999));
    assert_eq!(emulator.exit_code(), None);
    assert_eq!(emulator.stderr(), "");
    // a known number at the same place lets the guest go on
    emulator.set_x(Reg(A7), 172);
    assert_eq!(emulator.unknown_syscall(), None);
    assert_eq!(emulator.run(&fpu, 2), Ok(None));
    assert_eq!(emulator.inst_counter(), 3);
}

#[test]
fn unknown_instruction_is_reported() {
    let mut program = Vec::new();
    // a word that encodes nothing, then addi a0, a0, 1
    for word in [0xffff_ffffu32, 0x00150513] {
        program.extend_from_slice(&word.to_le_bytes());
    }
    let mut emulator = Emulator::new(Memory::from_raw(&program));
    assert_eq!(emulator.run(&fpu, 2), Ok(None));
    assert_eq!(emulator.stderr(), "unknown instruction: ffffffff\n");
    assert_eq!(emulator.inst_counter(), 2);
    assert_eq!(emulator.pc(), 8);
    assert_eq!(emulator.x(Reg(A0)), 1);
    assert_eq!(emulator.exit_code(), None);
}

#[test]
fn read_consumes_standard_input() {
    let mut emulator = Emulator::new(Memory::from_raw(&[0; 32]));
    emulator.set_stdin(b"hello");
    emulator.set_x(Reg(A7), 63);
    emulator.set_x(Reg(A0), 0);
    emulator.set_x(Reg(A1), 8);
    emulator.set_x(Reg(A2), 3);
    emulator.execute(Inst::Ecall, 4, &fpu).unwrap();
    assert_eq!(emulator.x(Reg(A0)), 3);
    assert_eq!(emulator.memory().read_n(8, 3), Ok(b"hel".to_vec()));
    // the next read goes on behind the first
    emulator.set_x(Reg(A7), 63);
    emulator.set_x(Reg(A0), 0);
    emulator.set_x(Reg(A1), 16);
    emulator.set_x(Reg(A2), 30);
    emulator.execute(Inst::Ecall, 4, &fpu).unwrap();
    assert_eq!(emulator.x(Reg(A0)), 2);
    assert_eq!(emulator.memory().read_n(16, 2), Ok(b"lo".to_vec()));
}

#[test]
fn close_and_lseek() {
    let mut emulator = Emulator::new(Memory::from_raw(&[0; 32]));
    emulator.set_stdin(b"hello");
    // lseek(0, 4, SEEK_SET)
    emulator.set_x(Reg(A7), 62);
    emulator.set_x(Reg(A0), 0);
    emulator.set_x(Reg(A1), 4);
    emulator.set_x(Reg(A2), 0);
    emulator.execute(Inst::Ecall, 4, &fpu).unwrap();
    emulator.set_x(Reg(A7), 63);
    emulator.set_x(Reg(A0), 0);
    emulator.set_x(Reg(A1), 8);
    emulator.set_x(Reg(A2), 10);
    emulator.execute(Inst::Ecall, 4, &fpu).unwrap();
    assert_eq!(emulator.x(Reg(A0)), 1);
    assert_eq!(emulator.memory().load_u8(8), Ok(b'o'));
    // lseek with an unknown way of counting fails
    emulator.set_x(Reg(A7), 62);
    emulator.set_x(Reg(A0), 0);
    emulator.set_x(Reg(A1), 0);
    emulator.set_x(Reg(A2), 9);
    emulator.execute(Inst::Ecall, 4, &fpu).unwrap();
    assert_eq!(emulator.x(Reg(A0)), u64::MAX);
    // close(0), twice
    emulator.set_x(Reg(A7), 57);
    emulator.set_x(Reg(A0), 0);
    emulator.execute(Inst::Ecall, 4, &fpu).unwrap();
    assert_eq!(emulator.x(Reg(A0)), 0);
    emulator.set_x(Reg(A7), 57);
    emulator.set_x(Reg(A0), 0);
    emulator.execute(Inst::Ecall, 4, &fpu).unwrap();
    assert_eq!(emulator.x(Reg(A0)), u64::MAX);
}

#[test]
fn openat_knows_the_libraries() {
    let mut data = b"/lib/tls/libm.so.6\0".to_vec();
    data.resize(64, 0);
    data[32..44].copy_from_slice(b"/etc/passwd\0");
    let mut emulator = Emulator::new(Memory::from_raw(&data));
    emulator.set_libraries(remu::emulator::Libraries {
        libc: vec![1],
        libstdcpp: vec![2],
        libm: vec![3, 4, 5],
        libgcc_s: vec![6],
    });
    emulator.set_x(Reg(A7), 56);
    emulator.set_x(Reg(A1), 0);
    emulator.execute(Inst::Ecall, 4, &fpu).unwrap();
    assert_eq!(emulator.x(Reg(A0)), 12);
    emulator.set_x(Reg(A7), 56);
    emulator.set_x(Reg(A1), 32);
    emulator.execute(Inst::Ecall, 4, &fpu).unwrap();
    assert_eq!(emulator.x(Reg(A0)), u64::MAX);
    // read(12, 48, 8) reads the library's bytes
    emulator.set_x(Reg(A7), 63);
    emulator.set_x(Reg(A0), 12);
    emulator.set_x(Reg(A1), 48);
    emulator.set_x(Reg(A2), 8);
    emulator.execute(Inst::Ecall, 4, &fpu).unwrap();
    assert_eq!(emulator.x(Reg(A0)), 3);
    assert_eq!(emulator.memory().read_n(48, 3), Ok(vec![3, 4, 5]));
}

#[test]
fn readlinkat_names_the_program() {
    let mut data = b"/proc/self/exe\0".to_vec();
    data.resize(64, 0xaa);
    let mut emulator = Emulator::new(Memory::from_raw(&data));
    emulator.set_x(Reg(A7), 78);
    emulator.set_x(Reg(A1), 0);
    emulator.set_x(Reg(A2), 32);
    emulator.set_x(Reg(10 + 3), 8);
    emulator.execute(Inst::Ecall, 4, &fpu).unwrap();
    assert_eq!(emulator.x(Reg(A0)), 5);
    assert_eq!(emulator.memory().read_n(32, 8), Ok(b"/prog\0\0\0".to_vec()));
    assert_eq!(emulator.memory().load_u8(40), Ok(0xaa));
}

#[test]
fn brk_and_mmap_syscalls() {
    let mut emulator = Emulator::new(Memory::from_raw(&[]));
    emulator.set_x(Reg(A7), 214);
    emulator.set_x(Reg(A0), 0);
    emulator.execute(Inst::Ecall, 4, &fpu).unwrap();
    assert_eq!(emulator.x(Reg(A0)), 0x0100_0000_0000_0000);
    emulator.set_x(Reg(A7), 214);
    emulator.set_x(Reg(A0), 0x0100_0000_0000_0001);
    emulator.execute(Inst::Ecall, 4, &fpu).unwrap();
    assert_eq!(emulator.x(Reg(A0)), 0x0100_0000_0000_1000);
    // mmap(0, 8192, .., MAP_PRIVATE | MAP_ANONYMOUS, -1, 0)
    emulator.set_x(Reg(A7), 222);
    emulator.set_x(Reg(A0), 0);
    emulator.set_x(Reg(A1), 8192);
    emulator.set_x(Reg(13), 0x22);
    emulator.set_x(Reg(14), u64::MAX);
    emulator.execute(Inst::Ecall, 4, &fpu).unwrap();
    assert_eq!(emulator.x(Reg(A0)), 0x0300_0000_0000_0000);
    assert!(emulator.memory().is_mapped(0x0300_0000_0000_1fff));
    assert!(!emulator.memory().is_mapped(0x0300_0000_0000_2000));
    // a descriptor that is not open
    emulator.set_x(Reg(A7), 222);
    emulator.set_x(Reg(A0), 0);
    emulator.set_x(Reg(A1), 8192);
    emulator.set_x(Reg(14), 77);
    emulator.execute(Inst::Ecall, 4, &fpu).unwrap();
    assert_eq!(emulator.x(Reg(A0)), u64::MAX);
}

#[test]
fn getrandom_is_all_ones() {
    let mut emulator = Emulator::new(Memory::from_raw(&[0; 16]));
    emulator.set_x(Reg(A7), 278);
    emulator.set_x(Reg(A0), 4);
    emulator.set_x(Reg(A1), 4);
    emulator.execute(Inst::Ecall, 4, &fpu).unwrap();
    assert_eq!(emulator.x(Reg(A0)), 4);
    assert_eq!(
        emulator.memory().read_n(0, 12),
        Ok(vec![0, 0, 0, 0, 0xff, 0xff, 0xff, 0xff, 0, 0, 0, 0])
    );
}

#[test]
fn futex_wait_clears_the_word() {
    let mut emulator = Emulator::new(Memory::from_raw(&[0x55; 16]));
    emulator.set_x(Reg(A7), 98);
    emulator.set_x(Reg(A0), 8);
    emulator.set_x(Reg(A1), 128);
    emulator.execute(Inst::Ecall, 4, &fpu).unwrap();
    assert_eq!(emulator.x(Reg(A0)), 0);
    assert_eq!(emulator.memory().load_u64(8), Ok(0));
    assert_eq!(emulator.memory().load_u64(0), Ok(0x5555_5555_5555_5555));
}

#[test]
fn syscall_faults_on_unmapped_memory() {
    let mut emulator = Emulator::new(Memory::from_raw(&[]));
    emulator.set_x(Reg(A7), 64);
    emulator.set_x(Reg(A0), 1);
    emulator.set_x(Reg(A1), 0x5000);
    emulator.set_x(Reg(A2), 3);
    assert_eq!(
        emulator.execute(Inst::Ecall, 4, &fpu),
        Err(RVError::SegmentationFault)
    );
}

#[test]
fn loads_and_fetches_fault_on_unmapped_memory() {
    let mut emulator = Emulator::new(Memory::from_raw(&[]));
    // ld a0, 0(x0)
    assert_eq!(
        emulator.execute_raw(0x00003503, &fpu),
        Err(RVError::SegmentationFault)
    );
    // nothing is mapped at the entry
    assert_eq!(
        emulator.fetch_and_execute(&fpu),
        Err(RVError::SegmentationFault)
    );
    assert_eq!(emulator.inst_counter(), 0);
    assert_eq!(emulator.run(&fpu, 10), Err(RVError::SegmentationFault));
}

#[test]
fn compressed_instruction_at_the_end_of_a_page() {
    // c.li a0, 5 in the last two bytes of the page
    let mut data = vec![0u8; 4096];
    data[4094..4096].copy_from_slice(&0x4515u16.to_le_bytes());
    let mut emulator = Emulator::new(Memory::from_raw(&data));
    emulator.set_pc(4094);
    assert_eq!(emulator.fetch_and_execute(&fpu), Ok(None));
    assert_eq!(emulator.x(Reg(A0)), 5);
    assert_eq!(emulator.pc(), 4096);
}

#[test]
fn arithmetic_wraps() {
    let mut emulator = Emulator::new(Memory::from_raw(&[]));
    emulator.set_x(Reg(A1), u64::MAX);
    emulator.set_x(Reg(A2), 2);
    // add a0, a1, a2
    emulator.execute_raw(0x00c58533, &fpu).unwrap();
    assert_eq!(emulator.x(Reg(A0)), 1);
    // sub a0, a1, a2 with a1 = 1
    emulator.set_x(Reg(A1), 1);
    emulator.execute_raw(0x40c58533, &fpu).unwrap();
    assert_eq!(emulator.x(Reg(A0)), u64::MAX);
    // addw sign-extends the low word
    emulator.set_x(Reg(A1), 0x7fff_ffff);
    emulator.set_x(Reg(A2), 1);
    emulator.execute(
        Inst::Addw {
            rd: Reg(A0),
            rs1: Reg(A1),
            rs2: Reg(A2),
        },
        4,
        &fpu,
    )
    .unwrap();
    assert_eq!(emulator.x(Reg(A0)), 0xffff_ffff_8000_0000);
    // mul and mulhu
    emulator.set_x(Reg(A1), 0x1_0000_0001);
    emulator.set_x(Reg(A2), 0x1_0000_0001);
    emulator.execute_raw(0x02c58533, &fpu).unwrap();
    assert_eq!(emulator.x(Reg(A0)), 0x2_0000_0001);
    emulator.execute(
        Inst::Mulhu {
            rd: Reg(A0),
            rs1: Reg(A1),
            rs2: Reg(A2),
        },
        4,
        &fpu,
    )
    .unwrap();
    assert_eq!(emulator.x(Reg(A0)), 1);
}

fn binary(inst: fn(Reg, Reg, Reg) -> Inst, a: u64, b: u64) -> u64 {
    let mut emulator = Emulator::new(Memory::from_raw(&[]));
    emulator.set_x(Reg(A1), a);
    emulator.set_x(Reg(A2), b);
    emulator
        .execute(inst(Reg(A0), Reg(A1), Reg(A2)), 4, &fpu)
        .unwrap();
    emulator.x(Reg(A0))
}

#[test]
fn division_follows_the_manual() {
    let div = |rd, rs1, rs2| Inst::Div { rd, rs1, rs2 };
    let divu = |rd, rs1, rs2| Inst::Divu { rd, rs1, rs2 };
    let divw = |rd, rs1, rs2| Inst::Divw { rd, rs1, rs2 };
    let divuw = |rd, rs1, rs2| Inst::Divuw { rd, rs1, rs2 };
    let remw = |rd, rs1, rs2| Inst::Remw { rd, rs1, rs2 };
    let remu = |rd, rs1, rs2| Inst::Remu { rd, rs1, rs2 };
    let remuw = |rd, rs1, rs2| Inst::Remuw { rd, rs1, rs2 };
    let minus = |v: i64| v as u64;
    assert_eq!(binary(div, 7, 2), 3);
    assert_eq!(binary(div, minus(-7), 2), minus(-3));
    assert_eq!(binary(div, 7, minus(-2)), minus(-3));
    assert_eq!(binary(div, minus(-7), minus(-2)), 3);
    // division by zero gives all ones
    assert_eq!(binary(div, 7, 0), u64::MAX);
    assert_eq!(binary(divu, 7, 0), u64::MAX);
    assert_eq!(binary(divw, 7, 0), u64::MAX);
    assert_eq!(binary(divuw, 7, 0), u64::MAX);
    // the lowest number divided by -1 is the lowest number
    assert_eq!(binary(div, minus(i64::MIN), minus(-1)), minus(i64::MIN));
    assert_eq!(
        binary(divw, 0x8000_0000, minus(-1)),
        0xffff_ffff_8000_0000
    );
    assert_eq!(binary(divu, u64::MAX, 2), 0x7fff_ffff_ffff_ffff);
    assert_eq!(binary(divuw, 0xffff_ffff, 2), 0x7fff_ffff);
    assert_eq!(binary(divw, minus(-8), 2), minus(-4));
    // the remainder of a division by zero is the dividend
    assert_eq!(binary(remu, 7, 0), 7);
    assert_eq!(binary(remw, minus(-7), 0), minus(-7));
    assert_eq!(binary(remuw, 0xffff_fff9, 0), minus(-7));
    assert_eq!(binary(remw, minus(-7), 2), minus(-1));
    assert_eq!(binary(remw, 7, minus(-2)), 1);
    assert_eq!(binary(remw, 0x8000_0000, minus(-1)), 0);
    assert_eq!(binary(remu, 7, 4), 3);
    assert_eq!(binary(remuw, 0x1_0000_0007, 4), 3);
}

#[test]
fn shifts_use_the_low_bits_of_the_amount() {
    let sll = |rd, rs1, rs2| Inst::Sll { rd, rs1, rs2 };
    let srl = |rd, rs1, rs2| Inst::Srl { rd, rs1, rs2 };
    let sra = |rd, rs1, rs2| Inst::Sra { rd, rs1, rs2 };
    let sllw = |rd, rs1, rs2| Inst::Sllw { rd, rs1, rs2 };
    let srlw = |rd, rs1, rs2| Inst::Srlw { rd, rs1, rs2 };
    let sraw = |rd, rs1, rs2| Inst::Sraw { rd, rs1, rs2 };
    assert_eq!(binary(sll, 1, 65), 2);
    assert_eq!(binary(srl, 0x8000_0000_0000_0000, 63 + 64), 1);
    assert_eq!(binary(sra, 0x8000_0000_0000_0000, 63), u64::MAX);
    assert_eq!(binary(sllw, 1, 31), 0xffff_ffff_8000_0000);
    assert_eq!(binary(sllw, 1, 33), 2);
    assert_eq!(binary(srlw, 0x8000_0000, 31), 1);
    assert_eq!(binary(srlw, 0xffff_ffff_8000_0000, 0), 0xffff_ffff_8000_0000);
    assert_eq!(binary(sraw, 0x8000_0000, 31), u64::MAX);
}

#[test]
fn comparisons() {
    let slt = |rd, rs1, rs2| Inst::Slt { rd, rs1, rs2 };
    let sltu = |rd, rs1, rs2| Inst::Sltu { rd, rs1, rs2 };
    assert_eq!(binary(slt, u64::MAX, 0), 1);
    assert_eq!(binary(sltu, u64::MAX, 0), 0);
    assert_eq!(binary(slt, 3, 3), 0);
    let mut emulator = Emulator::new(Memory::from_raw(&[]));
    emulator.set_x(Reg(A1), 5);
    // sltiu a0, a1, -1 compares with the largest unsigned number
    emulator
        .execute(
            Inst::Sltiu {
                rd: Reg(A0),
                rs1: Reg(A1),
                imm: 0xffff_ffff,
            },
            4,
            &fpu,
        )
        .unwrap();
    assert_eq!(emulator.x(Reg(A0)), 1);
}

#[test]
fn jumps_link_and_clear_the_low_bit() {
    let mut emulator = Emulator::new(Memory::from_raw(&[]));
    emulator.set_pc(0x1000);
    // jal ra, -8
    emulator.execute_raw(0xff9ff0ef, &fpu).unwrap();
    assert_eq!(emulator.pc(), 0xff8);
    assert_eq!(emulator.x(Reg(RA)), 0x1004);
    // jalr ra, 16(a0) with an odd sum
    emulator.set_x(Reg(A0), 0x2001);
    emulator.execute_raw(0x010500e7, &fpu).unwrap();
    assert_eq!(emulator.pc(), 0x2010);
    assert_eq!(emulator.x(Reg(RA)), 0xffc);
    // jalr ra, 0(ra) jumps to the old value of ra
    emulator.set_x(Reg(RA), 0x3000);
    emulator
        .execute(
            Inst::Jalr {
                rd: Reg(RA),
                rs1: Reg(RA),
                offset: 0,
            },
            2,
            &fpu,
        )
        .unwrap();
    assert_eq!(emulator.pc(), 0x3000);
    assert_eq!(emulator.x(Reg(RA)), 0x2012);
}

#[test]
fn branches_count_from_the_current_pc() {
    let mut emulator = Emulator::new(Memory::from_raw(&[]));
    emulator.set_pc(0x100);
    emulator.set_x(Reg(A0), 1);
    emulator.set_x(Reg(A1), 1);
    // beq a0, a1, 16
    emulator.execute_raw(0x00b50863, &fpu).unwrap();
    assert_eq!(emulator.pc(), 0x110);
    // bne a0, a1, -4 is not taken
    emulator.execute_raw(0xfeb51ee3, &fpu).unwrap();
    assert_eq!(emulator.pc(), 0x114);
}

#[test]
fn atomics_load_then_store() {
    let mut data = vec![0u8; 16];
    data[0..4].copy_from_slice(&0xffff_fff0u32.to_le_bytes());
    let mut emulator = Emulator::new(Memory::from_raw(&data));
    emulator.set_x(Reg(A1), 0);
    emulator.set_x(Reg(A2), 0x20);
    emulator
        .execute(
            Inst::Amoaddw {
                rd: Reg(A0),
                rs1: Reg(A1),
                rs2: Reg(A2),
            },
            4,
            &fpu,
        )
        .unwrap();
    assert_eq!(emulator.x(Reg(A0)), 0xffff_ffff_ffff_fff0);
    assert_eq!(emulator.memory().load_u32(0), Ok(0x10));
    // sc.w always succeeds, also with rd = rs2
    emulator.set_x(Reg(A2), 0x77);
    emulator
        .execute(
            Inst::Scw {
                rd: Reg(A2),
                rs1: Reg(A1),
                rs2: Reg(A2),
            },
            4,
            &fpu,
        )
        .unwrap();
    assert_eq!(emulator.x(Reg(A2)), 0);
    assert_eq!(emulator.memory().load_u32(0), Ok(0x77));
    emulator.set_x(Reg(A2), 0x99);
    emulator
        .execute(
            Inst::Amomaxud {
                rd: Reg(A0),
                rs1: Reg(A1),
                rs2: Reg(A2),
            },
            4,
            &fpu,
        )
        .unwrap();
    assert_eq!(emulator.x(Reg(A0)), 0x77);
    assert_eq!(emulator.memory().load_u64(0), Ok(0x99));
}

#[test]
fn floating_point_goes_through_the_unit() {
    let mut data = vec![0u8; 32];
    data[0..8].copy_from_slice(&9.0f64.to_bits().to_le_bytes());
    data[8..16].copy_from_slice(&2.0f64.to_bits().to_le_bytes());
    data[16..20].copy_from_slice(&1.5f32.to_bits().to_le_bytes());
    let mut emulator = Emulator::new(Memory::from_raw(&data));
    let fld = |rd: u8, offset: i32| Inst::Fld {
        rd: FReg(rd),
        rs1: Reg(0),
        offset,
    };
    emulator.execute(fld(1, 0), 4, &fpu).unwrap();
    emulator.execute(fld(2, 8), 4, &fpu).unwrap();
    assert_eq!(emulator.f(FReg(1)), 9.0f64.to_bits());
    emulator
        .execute(
            Inst::Fdivd {
                rd: FReg(3),
                rs1: FReg(1),
                rs2: FReg(2),
            },
            4,
            &fpu,
        )
        .unwrap();
    assert_eq!(emulator.f(FReg(3)), 4.5f64.to_bits());
    emulator
        .execute(
            Inst::Fled {
                rd: Reg(A0),
                rs1: FReg(2),
                rs2: FReg(1),
            },
            4,
            &fpu,
        )
        .unwrap();
    assert_eq!(emulator.x(Reg(A0)), 1);
    emulator
        .execute(
            Inst::Fled {
                rd: Reg(A0),
                rs1: FReg(1),
                rs2: FReg(1),
            },
            4,
            &fpu,
        )
        .unwrap();
    assert_eq!(emulator.x(Reg(A0)), 1);
    emulator
        .execute(
            Inst::Fcvtdlu {
                rd: Reg(A0),
                rs1: FReg(3),
                rm: 0,
            },
            4,
            &fpu,
        )
        .unwrap();
    assert_eq!(emulator.x(Reg(A0)), 4);
    emulator
        .execute(
            Inst::Flw {
                rd: FReg(4),
                rs1: Reg(0),
                offset: 16,
            },
            4,
            &fpu,
        )
        .unwrap();
    assert_eq!(emulator.f(FReg(4)), 1.5f64.to_bits());
    emulator
        .execute(
            Inst::Fsw {
                rs1: Reg(0),
                rs2: FReg(3),
                offset: 24,
            },
            4,
            &fpu,
        )
        .unwrap();
    assert_eq!(emulator.memory().load_u32(24), Ok(4.5f32.to_bits()));
    emulator
        .execute(
            Inst::Fsd {
                rs1: Reg(0),
                rs2: FReg(3),
                offset: 24,
            },
            4,
            &fpu,
        )
        .unwrap();
    assert_eq!(emulator.memory().load_u64(24), Ok(4.5f64.to_bits()));
}

#[test]
fn new_emulator_has_the_frame_on_its_stack() {
    let mut memory = Memory::from_raw(&[]);
    memory.set_entry(0x1234);
    memory.set_program_header(remu::memory::ProgramHeaderInfo {
        entry: 0x1234,
        address: 0x40,
        size: 56,
        number: 3,
    });
    let emulator = Emulator::new(memory);
    assert_eq!(emulator.pc(), 0x1234);
    let sp = emulator.x(Reg(SP));
    assert_eq!(sp, 0xffff_ffff_ffff_fee0);
    assert_eq!(sp % 16, 0);
    let memory = emulator.memory();
    let word = |addr: u64| memory.load_u64(addr).unwrap();
    // upwards from the stack pointer: the count of arguments, the program's
    // name and the end of the arguments, the end of the environment, then
    // the auxiliary vector
    assert_eq!(word(sp), 1);
    assert_eq!(word(sp + 8), 0xffff_ffff_ffff_ffe0);
    assert_eq!(word(sp + 16), 0);
    assert_eq!(word(sp + 24), 0);
    assert_eq!((word(sp + 32), word(sp + 40)), (9, 0x1234));
    assert_eq!((word(sp + 48), word(sp + 56)), (3, 0x40));
    assert_eq!((word(sp + 64), word(sp + 72)), (4, 56));
    assert_eq!((word(sp + 80), word(sp + 88)), (5, 3));
    assert_eq!((word(sp + 96), word(sp + 104)), (11, 0));
    assert_eq!((word(sp + 112), word(sp + 120)), (12, 0));
    assert_eq!((word(sp + 128), word(sp + 136)), (13, 0));
    assert_eq!((word(sp + 144), word(sp + 152)), (14, 0));
    assert_eq!((word(sp + 160), word(sp + 168)), (23, 0));
    assert_eq!((word(sp + 176), word(sp + 184)), (6, 4096));
    assert_eq!((word(sp + 192), word(sp + 200)), (25, 0xffff_ffff_ffff_ffe8));
    assert_eq!((word(sp + 208), word(sp + 216)), (31, 0xffff_ffff_ffff_ffe0));
    assert_eq!((word(sp + 224), word(sp + 232)), (0, 0));
    assert_eq!(
        memory.read_string_n(0xffff_ffff_ffff_ffd0, 64).unwrap(),
        "LD_DEBUG=all"
    );
    assert_eq!(
        memory.read_string_n(0xffff_ffff_ffff_ffe0, 64).unwrap(),
        "/prog"
    );
    assert_eq!(
        memory.read_n(0xffff_ffff_ffff_ffe8, 16).unwrap(),
        (0u8..16).collect::<Vec<u8>>()
    );
}

#[test]
fn register_dump() {
    let mut emulator = Emulator::new(Memory::from_raw(&[]));
    emulator.set_pc(0xabc);
    emulator.set_x(Reg(A0), 0x1f);
    let dump = emulator.print_registers();
    let lines: Vec<&str> = dump.lines().collect();
    assert_eq!(lines.len(), 34);
    assert_eq!(lines[0], format!("pc: {:22x}", 0xabc));
    assert_eq!(lines[1], format!("fuel cnt: {:16}", 0));
    assert_eq!(lines[2], format!("{:10}{:16x}", "x0 (x0):", 0));
    assert_eq!(lines[12], format!("{:10}{:16x}", "x10 (a0):", 0x1f));
    assert_eq!(lines[33], format!("{:10}{:16x}", "x31 (t6):", 0));
}

#[test]
fn copies_go_their_own_way() {
    let program = words(&[0x00500513, 0x00a50533, 0x00000013]);
    let mut emulator = Emulator::new(Memory::from_raw(&program));
    emulator.fetch_and_execute(&fpu).unwrap();
    let mut copy = emulator.clone();
    copy.fetch_and_execute(&fpu).unwrap();
    assert_eq!(copy.x(Reg(A0)), 10);
    assert_eq!(copy.inst_counter(), 2);
    assert_eq!(emulator.x(Reg(A0)), 5);
    assert_eq!(emulator.inst_counter(), 1);
    emulator.fetch_and_execute(&fpu).unwrap();
    assert_eq!(emulator.x(Reg(A0)), copy.x(Reg(A0)));
    assert_eq!(emulator.pc(), copy.pc());
}

#[test]
fn a_step_that_faults_retires_nothing() {
    // ld a0, 0(a1) with nothing mapped at a1
    let mut emulator = Emulator::new(Memory::from_raw(&0x0005b503u32.to_le_bytes()));
    emulator.set_x(Reg(A1), 0x4000_0000);
    emulator.set_x(Reg(A0), 77);
    assert_eq!(
        emulator.fetch_and_execute(&fpu),
        Err(RVError::SegmentationFault)
    );
    assert_eq!(emulator.pc(), 0);
    assert_eq!(emulator.inst_counter(), 0);
    assert_eq!(emulator.x(Reg(A0)), 77);
    assert_eq!(emulator.exit_code(), None);
    assert_eq!(emulator.stderr(), "");
    // a run reports the fault in the same state
    assert_eq!(emulator.run(&fpu, 5), Err(RVError::SegmentationFault));
    assert_eq!(emulator.inst_counter(), 0);
}
