//! The state in which a guest starts: the registers, and the frame at the
//! top of the stack that tells the program about itself.
//!
//! The frame lies in the stack's first page. At the top it holds sixteen
//! bytes for the guest's random numbers, below them the name of the program
//! and one environment string. The stack pointer points to the number of
//! arguments, which is 1. Upwards from there follow the pointer to the
//! program's name as the only argument, the zero that ends the arguments, the
//! zero that ends the environment, which is empty, and the auxiliary vector,
//! which `Null` ends just below the strings.

use vstd::prelude::*;
use crate::auxvec::Auxv;
use crate::cache::fresh_cache;
use crate::machine::{EmulatorView, LibrariesView};
use crate::memory::{
    le_bytes, le_value, padded, MemoryView, ProgramHeaderInfo, PAGE_SIZE, STACK_START,
    STACK_TOP_PAGE,
};
use crate::memory_facts::{
    law_bytes_make_value, law_write_keeps_other_bytes, lemma_top_page_mapped,
    lemma_write_keeps_shape,
};
use crate::profiler::fresh_profiler;
use crate::register::SP;

verus! {

/// The address below which the frame lies: the top of memory, rounded down
/// to a doubleword.
pub const STACK_BASE: u64 = 0xFFFF_FFFF_FFFF_FFF8;

/// The address of the sixteen bytes that `Random` points to.
pub const RANDOM_ADDR: u64 = 0xFFFF_FFFF_FFFF_FFE8;

/// The address of the program's name.
pub const PROGRAM_NAME_ADDR: u64 = 0xFFFF_FFFF_FFFF_FFE0;

/// The address of the environment string.
pub const ENVIRONMENT_ADDR: u64 = 0xFFFF_FFFF_FFFF_FFD0;

/// The address of the number of arguments, to which the stack pointer of a
/// new guest points.
pub const ARGC_ADDR: u64 = 0xFFFF_FFFF_FFFF_FEE0;

/// The address of the pointer to the program's name.
pub const ARGV_ADDR: u64 = 0xFFFF_FFFF_FFFF_FEE8;

/// The address of the zero that ends the arguments.
pub const ARGV_END_ADDR: u64 = 0xFFFF_FFFF_FFFF_FEF0;

/// The address of the zero that ends the environment.
pub const ENVP_ADDR: u64 = 0xFFFF_FFFF_FFFF_FEF8;

/// The address of the first entry of the auxiliary vector.
pub const AUX_ADDR: u64 = 0xFFFF_FFFF_FFFF_FF00;

/// The number of entries in the auxiliary vector.
pub const AUX_COUNT: usize = 13;

/// The stack pointer of a new guest: the address of the number of
/// arguments, a multiple of 16.
pub const INITIAL_SP: u64 = 0xFFFF_FFFF_FFFF_FEE0;

/// The name that the guest is told as that of its program, with the zero
/// byte that ends it: `/prog`.
pub open spec fn program_name() -> Seq<u8> {
    seq![0x2fu8, 0x70u8, 0x72u8, 0x6fu8, 0x67u8, 0u8]
}

/// The environment string, with the zero byte that ends it: `LD_DEBUG=all`.
pub open spec fn environment() -> Seq<u8> {
    seq![
        0x4cu8,
        0x44u8,
        0x5fu8,
        0x44u8,
        0x45u8,
        0x42u8,
        0x55u8,
        0x47u8,
        0x3du8,
        0x61u8,
        0x6cu8,
        0x6cu8,
        0u8,
    ]
}

/// The sixteen bytes for the guest's random numbers: 0 to 15.
pub open spec fn random_bytes() -> Seq<u8> {
    Seq::new(16, |i: int| i as u8)
}

/// The auxiliary vector of a program, from low to high addresses.
pub open spec fn aux_entries(header: ProgramHeaderInfo) -> Seq<(u64, u64)> {
    seq![
        (Auxv::Entry.number(), header.entry),
        (Auxv::Phdr.number(), header.address),
        (Auxv::Phent.number(), header.size),
        (Auxv::Phnum.number(), header.number),
        (Auxv::Uid.number(), 0u64),
        (Auxv::Euid.number(), 0u64),
        (Auxv::Gid.number(), 0u64),
        (Auxv::Egid.number(), 0u64),
        (Auxv::Secure.number(), 0u64),
        (Auxv::Pagesz.number(), PAGE_SIZE),
        (Auxv::Random.number(), RANDOM_ADDR),
        (Auxv::Execfn.number(), PROGRAM_NAME_ADDR),
        (Auxv::Null.number(), 0u64),
    ]
}

/// The address of entry `index` of the auxiliary vector.
pub open spec fn aux_addr(index: int) -> u64 {
    (AUX_ADDR + 16 * index) as u64
}

/// Memory with the first `upto` entries of the auxiliary vector written:
/// each key at its address, its value eight bytes above.
pub open spec fn with_aux(memory: MemoryView, entries: Seq<(u64, u64)>, upto: int) -> MemoryView
    decreases upto,
{
    if upto <= 0 {
        memory
    } else {
        with_aux(memory, entries, upto - 1).write(
            aux_addr(upto - 1),
            le_bytes(entries[upto - 1].0, 8),
        ).write((aux_addr(upto - 1) + 8) as u64, le_bytes(entries[upto - 1].1, 8))
    }
}

/// Memory with the frame of a new guest written.
pub open spec fn with_frame(memory: MemoryView) -> MemoryView {
    let strings = memory.write(RANDOM_ADDR, random_bytes()).write(
        PROGRAM_NAME_ADDR,
        padded(program_name(), 8),
    ).write(ENVIRONMENT_ADDR, padded(environment(), 16));
    let arguments = strings.write(ARGC_ADDR, le_bytes(1, 8)).write(
        ARGV_ADDR,
        le_bytes(PROGRAM_NAME_ADDR, 8),
    ).write(ARGV_END_ADDR, le_bytes(0, 8)).write(ENVP_ADDR, le_bytes(0, 8));
    with_aux(arguments, aux_entries(memory.program_header), AUX_COUNT as int)
}

/// The state of a new emulator for a program in `memory`: it starts at the
/// program's entry with the stack pointer at the count of arguments, the
/// lowest word of the frame, and every other
/// register zero; no file is open, nothing is written, nothing counted.
pub open spec fn booted(memory: MemoryView) -> EmulatorView {
    EmulatorView {
        pc: memory.entry,
        x: Seq::new(32, |i: int| if i == SP { INITIAL_SP } else { 0u64 }),
        f: Seq::new(32, |i: int| 0u64),
        memory: with_frame(memory),
        files: Map::empty(),
        libraries: LibrariesView {
            libc: Seq::empty(),
            libstdcpp: Seq::empty(),
            libm: Seq::empty(),
            libgcc_s: Seq::empty(),
        },
        stdout: Seq::empty(),
        stderr: Seq::empty(),
        profile_start: None,
        profile_end: None,
        profiler: fresh_profiler(),
        inst_counter: 0,
        max_memory: 0,
        exit_code: None,
    }
}

/// A write into the stack's first page leaves memory well formed and every
/// byte outside its range as it was.
pub proof fn lemma_frame_write(memory: MemoryView, addr: u64, bytes: Seq<u8>, other: u64)
    requires
        memory.well_formed(),
        addr >= STACK_TOP_PAGE,
        addr + bytes.len() <= STACK_START + 1,
        other >= STACK_TOP_PAGE,
        !(addr <= other < addr + bytes.len()),
    ensures
        memory.write(addr, bytes).well_formed(),
        memory.write(addr, bytes).byte(other) == memory.byte(other),
{
    lemma_top_page_mapped(memory, addr, bytes.len() as int);
    lemma_top_page_mapped(memory, other, 1);
    assert(memory.mapped((other + 0) as u64));
    lemma_write_keeps_shape(memory, addr, bytes);
    law_write_keeps_other_bytes(memory, addr, bytes, other);
}

/// The auxiliary vector leaves memory well formed and every byte below it as
/// it was.
pub proof fn lemma_aux_keeps_below(
    memory: MemoryView,
    entries: Seq<(u64, u64)>,
    upto: int,
    other: u64,
)
    requires
        memory.well_formed(),
        upto <= AUX_COUNT,
        STACK_TOP_PAGE <= other < AUX_ADDR,
    ensures
        with_aux(memory, entries, upto).well_formed(),
        with_aux(memory, entries, upto).byte(other) == memory.byte(other),
    decreases upto,
{
    if upto > 0 {
        lemma_aux_keeps_below(memory, entries, upto - 1, other);
        let before = with_aux(memory, entries, upto - 1);
        let key = le_bytes(entries[upto - 1].0, 8);
        let value = le_bytes(entries[upto - 1].1, 8);
        lemma_frame_write(before, aux_addr(upto - 1), key, other);
        lemma_frame_write(
            before.write(aux_addr(upto - 1), key),
            (aux_addr(upto - 1) + 8) as u64,
            value,
            other,
        );
    }
}

/// A new guest finds the number of its arguments, which is 1, where its
/// stack pointer points, and the stack pointer is a multiple of 16.
pub proof fn law_stack_pointer_at_argc(memory: MemoryView)
    requires
        memory.well_formed(),
    ensures
        booted(memory).x[SP as int] == INITIAL_SP,
        INITIAL_SP % 16 == 0,
        booted(memory).memory.load_value(INITIAL_SP, 8) == Some(1u64),
{
    let random = memory.write(RANDOM_ADDR, random_bytes());
    let name = random.write(PROGRAM_NAME_ADDR, padded(program_name(), 8));
    let strings = name.write(ENVIRONMENT_ADDR, padded(environment(), 16));
    let count = strings.write(ARGC_ADDR, le_bytes(1, 8));
    let first = count.write(ARGV_ADDR, le_bytes(PROGRAM_NAME_ADDR, 8));
    let end = first.write(ARGV_END_ADDR, le_bytes(0, 8));
    let arguments = end.write(ENVP_ADDR, le_bytes(0, 8));
    let entries = aux_entries(memory.program_header);
    let framed = with_frame(memory);
    lemma_frame_write(memory, RANDOM_ADDR, random_bytes(), ARGC_ADDR);
    lemma_frame_write(random, PROGRAM_NAME_ADDR, padded(program_name(), 8), ARGC_ADDR);
    lemma_frame_write(name, ENVIRONMENT_ADDR, padded(environment(), 16), ARGC_ADDR);
    lemma_top_page_mapped(strings, ARGC_ADDR, 8);
    lemma_write_keeps_shape(strings, ARGC_ADDR, le_bytes(1, 8));
    assert forall|i: int| 0 <= i < 8 implies #[trigger] framed.byte((INITIAL_SP + i) as u64)
        == le_bytes(1, 8)[i] by {
        let at = (ARGC_ADDR + i) as u64;
        assert(count.byte(at) == le_bytes(1, 8)[i]);
        lemma_frame_write(count, ARGV_ADDR, le_bytes(PROGRAM_NAME_ADDR, 8), at);
        lemma_frame_write(first, ARGV_END_ADDR, le_bytes(0, 8), at);
        lemma_frame_write(end, ENVP_ADDR, le_bytes(0, 8), at);
        lemma_aux_keeps_below(arguments, entries, AUX_COUNT as int, at);
    }
    lemma_frame_write(count, ARGV_ADDR, le_bytes(PROGRAM_NAME_ADDR, 8), ARGC_ADDR);
    lemma_frame_write(first, ARGV_END_ADDR, le_bytes(0, 8), ARGC_ADDR);
    lemma_frame_write(end, ENVP_ADDR, le_bytes(0, 8), ARGC_ADDR);
    lemma_aux_keeps_below(arguments, entries, AUX_COUNT as int, ARGC_ADDR);
    lemma_top_page_mapped(framed, INITIAL_SP, 8);
    assert(framed.read(INITIAL_SP, 8) =~= le_bytes(1, 8));
    law_bytes_make_value(1);
    assert(le_value(le_bytes(1, 8), 8) == 1);
}

} // verus!
