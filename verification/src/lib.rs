//! A user-mode emulator core for 64-bit RISC-V Linux programs: instruction
//! decoding, a sparse paged address space, an interpreter with a cost model,
//! and a small system-call layer. Every executable item carries a contract.
//! Verus proves each of them, but for the few functions that call outside
//! code: the page table's hash map, the ELF reader, and three functions of
//! the standard library on text and slices. Their contracts are taken on
//! trust, and each says so.

pub mod address_map;
pub mod auxvec;
pub mod bits;
pub mod boot;
pub mod cache;
pub mod decode16;
pub mod decode32;
pub mod disassembler;
pub mod elf_image;
pub mod emulator;
pub mod encode;
pub mod error;
pub mod files;
pub mod format;
pub mod instruction;
pub mod loader;
pub mod machine;
pub mod machine_facts;
pub mod memory;
pub mod memory_facts;
pub mod page_table;
pub mod profiler;
pub mod register;
pub mod semantics;
pub mod semantics_facts;
pub mod syscall_table;
pub mod system;
pub mod text;
pub mod time_travel;
