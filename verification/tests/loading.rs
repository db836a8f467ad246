use remu::elf_image::{ElfHeader, ElfImage, ElfSegment};
use remu::emulator::Emulator;
use remu::error::RVError;
use remu::memory::Memory;
use remu::register::{Reg, A0};
use remu::semantics::FloatOp;

fn fpu(_op: FloatOp) -> u64 {
    0
}

fn put16(file: &mut [u8], at: usize, value: u16) {
    file[at..at + 2].copy_from_slice(&value.to_le_bytes());
}

fn put32(file: &mut [u8], at: usize, value: u32) {
    file[at..at + 4].copy_from_slice(&value.to_le_bytes());
}

fn put64(file: &mut [u8], at: usize, value: u64) {
    file[at..at + 8].copy_from_slice(&value.to_le_bytes());
}

/// An ELF file with one loaded segment that holds `code` at 0x10000, and a
/// segment of another type.
fn elf_file(machine: u16, class: u8, code: &[u8]) -> Vec<u8> {
    let code_at = 64 + 2 * 56;
    let mut file = vec![0u8; code_at + code.len()];
    file[0..4].copy_from_slice(b"\x7fELF");
    file[4] = class;
    file[5] = 1;
    file[6] = 1;
    put16(&mut file, 16, 2);
    put16(&mut file, 18, machine);
    put32(&mut file, 20, 1);
    put64(&mut file, 24, 0x10000);
    put64(&mut file, 32, 64);
    put16(&mut file, 52, 64);
    put16(&mut file, 54, 56);
    put16(&mut file, 56, 2);
    put16(&mut file, 58, 64);
    // a loaded segment
    put32(&mut file, 64, 1);
    put32(&mut file, 68, 5);
    put64(&mut file, 72, code_at as u64);
    put64(&mut file, 80, 0x10000);
    put64(&mut file, 88, 0x10000);
    put64(&mut file, 96, code.len() as u64);
    put64(&mut file, 104, code.len() as u64 + 8);
    put64(&mut file, 112, 0x1000);
    // a note segment, which is not loaded
    put32(&mut file, 120, 4);
    put64(&mut file, 128, code_at as u64);
    put64(&mut file, 136, 0x50000);
    put64(&mut file, 152, 4);
    put64(&mut file, 160, 4);
    file[code_at..].copy_from_slice(code);
    file
}

fn exit_program() -> Vec<u8> {
    let mut code = Vec::new();
    // li a7, 93; li a0, 7; ecall
    for word in [0x05d00893u32, 0x00700513, 0x00000073] {
        code.extend_from_slice(&word.to_le_bytes());
    }
    code
}

#[test]
fn reads_a_program() {
    let image = ElfImage::read(&elf_file(0xf3, 2, &exit_program())).unwrap();
    assert_eq!(
        image.header,
        ElfHeader {
            is_64_bit: true,
            e_type: 2,
            e_machine: 0xf3,
            e_entry: 0x10000,
            e_phnum: 2,
        }
    );
    assert_eq!(image.segments.len(), 2);
    assert_eq!(image.segments[0].p_type, 1);
    assert_eq!(image.segments[0].p_vaddr, 0x10000);
    assert_eq!(image.segments[0].p_memsz, 20);
    assert_eq!(image.segments[0].data, exit_program());
    assert_eq!(image.segments[1].p_type, 4);
    assert!(image.symbols.is_empty());
    assert!(image.text.is_none());
    assert!(image.plt.is_none());
    assert!(!image.dynamic());
}

#[test]
fn rejects_other_files() {
    assert!(matches!(
        ElfImage::read(b"not an ELF file"),
        Err(RVError::InvalidFileType)
    ));
    assert!(matches!(
        ElfImage::read(&[]),
        Err(RVError::InvalidFileType)
    ));
    // x86-64
    assert!(matches!(
        ElfImage::read(&elf_file(0x3e, 2, &exit_program())),
        Err(RVError::InvalidFileType)
    ));
    assert_eq!(
        ElfHeader {
            is_64_bit: false,
            e_type: 2,
            e_machine: 0xf3,
            e_entry: 0,
            e_phnum: 0
        }
        .check(),
        Err(RVError::InvalidFileType)
    );
    assert_eq!(
        ElfHeader {
            is_64_bit: true,
            e_type: 1,
            e_machine: 0xf3,
            e_entry: 0,
            e_phnum: 0
        }
        .check(),
        Err(RVError::InvalidFileType)
    );
    assert_eq!(
        ElfHeader {
            is_64_bit: true,
            e_type: 3,
            e_machine: 0xf3,
            e_entry: 0,
            e_phnum: 0
        }
        .check(),
        Ok(())
    );
}

#[test]
fn loads_and_runs_a_program() {
    let image = ElfImage::read(&elf_file(0xf3, 2, &exit_program())).unwrap();
    let memory = Memory::load_elf(&image, None).ok().unwrap();
    assert_eq!(memory.entry(), 0x10000);
    assert_eq!(memory.load_u32(0x10000), Ok(0x05d00893));
    // behind the bytes of the file the segment is zero
    assert_eq!(memory.load_u64(0x10000 + 12), Ok(0));
    assert!(!memory.is_mapped(0x50000));
    let mut emulator = Emulator::new(memory);
    assert_eq!(emulator.run(&fpu, 10), Ok(Some(7)));
    assert_eq!(emulator.exit_code(), Some(7));
    assert_eq!(emulator.x(Reg(A0)), 7);
    assert_eq!(emulator.inst_counter(), 3);
}

fn segment(p_type: u32, p_vaddr: u64, p_memsz: u64, data: &[u8]) -> ElfSegment {
    ElfSegment {
        p_type,
        p_vaddr,
        p_memsz,
        data: data.to_vec(),
    }
}

fn image(segments: Vec<ElfSegment>, dynamic: bool, entry: u64) -> ElfImage {
    ElfImage {
        header: ElfHeader {
            is_64_bit: true,
            e_type: 3,
            e_machine: 0xf3,
            e_entry: entry,
            e_phnum: segments.len() as u16,
        },
        segments,
        symbols: Vec::new(),
        text: None,
        plt: None,
        dynamic_symbols: dynamic,
        dynamic_table: dynamic,
    }
}

#[test]
fn program_headers_are_noted() {
    let file = image(
        vec![
            segment(6, 0x40, 112, &[1; 112]),
            segment(1, 0, 0x2000, &[2; 0x1800]),
        ],
        false,
        0x1234,
    );
    let memory = Memory::load_elf(&file, None).ok().unwrap();
    let header = memory.program_header();
    assert_eq!(
        (header.entry, header.address, header.size, header.number),
        (0x1234, 0x40, 112, 2)
    );
    assert_eq!(memory.load_u8(0x17ff), Ok(2));
    assert_eq!(memory.load_u8(0x1800), Ok(0));
    assert_eq!(memory.load_u8(0x1fff), Ok(0));
    assert!(!memory.is_mapped(0x2000));
}

#[test]
fn dynamic_program_starts_in_the_linker() {
    let program = image(vec![segment(1, 0x1000, 4, &[1, 2, 3, 4])], true, 0x1000);
    let linker = image(vec![segment(1, 0x2000, 4, &[5, 6, 7, 8])], false, 0x2000);
    let memory = Memory::load_elf(&program, Some(&linker)).ok().unwrap();
    assert_eq!(memory.entry(), 0x0200_0000_0000_2000);
    assert_eq!(memory.load_u32(0x0200_0000_0000_2000), Ok(0x08070605));
    assert_eq!(memory.load_u32(0x1000), Ok(0x04030201));
    // without the linker the program cannot be loaded
    assert!(matches!(
        Memory::load_elf(&program, None),
        Err(RVError::InvalidFileType)
    ));
}

#[test]
fn segment_beyond_the_address_space_is_refused() {
    let file = image(vec![segment(1, u64::MAX - 2, 4, &[1, 2, 3, 4])], false, 0);
    assert!(matches!(
        Memory::load_elf(&file, None),
        Err(RVError::InvalidFileType)
    ));
}

#[test]
fn profile_label_needs_a_symbol() {
    let mut file = image(vec![segment(1, 0x1000, 4, &[0; 4])], false, 0x1000);
    file.symbols.push(remu::elf_image::ElfSymbol {
        name: "work".to_string(),
        value: 0x1000,
        symtype: 2,
    });
    let memory = Memory::load_elf(&file, None).ok().unwrap();
    assert_eq!(
        memory.disassembler().get_symbol_addr("work"),
        Some(0x1000)
    );
    let mut emulator = Emulator::new(memory);
    assert_eq!(emulator.profile_label("work"), Ok(()));
    assert_eq!(
        emulator.profile_label("play"),
        Err(RVError::InvalidLabel)
    );
}

#[test]
fn emulator_from_a_file() {
    let file = elf_file(0xf3, 2, &exit_program());
    let mut emulator = Emulator::from_file(&file, None).ok().unwrap();
    assert_eq!(emulator.pc(), 0x10000);
    assert_eq!(emulator.run(&fpu, 10), Ok(Some(7)));
    assert!(matches!(
        Emulator::from_file(b"#!/bin/sh", None),
        Err(RVError::InvalidFileType)
    ));
    assert!(matches!(
        Memory::from_file(&elf_file(0xf3, 1, &exit_program()), Some(&file)),
        Err(RVError::InvalidFileType)
    ));
    let memory = Memory::from_file(&file, Some(b"no linker")).ok().unwrap();
    assert_eq!(memory.entry(), 0x10000);
}

fn section_header(
    file: &mut Vec<u8>,
    name: u32,
    kind: u32,
    addr: u64,
    offset: u64,
    size: u64,
    link: u32,
    entsize: u64,
) {
    file.extend_from_slice(&name.to_le_bytes());
    file.extend_from_slice(&kind.to_le_bytes());
    file.extend_from_slice(&0u64.to_le_bytes());
    file.extend_from_slice(&addr.to_le_bytes());
    file.extend_from_slice(&offset.to_le_bytes());
    file.extend_from_slice(&size.to_le_bytes());
    file.extend_from_slice(&link.to_le_bytes());
    file.extend_from_slice(&0u32.to_le_bytes());
    file.extend_from_slice(&8u64.to_le_bytes());
    file.extend_from_slice(&entsize.to_le_bytes());
}

fn symbol_entry(file: &mut Vec<u8>, name: u32, info: u8, value: u64) {
    file.extend_from_slice(&name.to_le_bytes());
    file.push(info);
    file.push(0);
    file.extend_from_slice(&1u16.to_le_bytes());
    file.extend_from_slice(&value.to_le_bytes());
    file.extend_from_slice(&0u64.to_le_bytes());
}

/// The file of `elf_file` with sections: code, symbols and their names, and,
/// if asked for, dynamic symbols and a dynamic table.
fn elf_with_sections(dynamic: bool) -> Vec<u8> {
    elf_with_dynamic(dynamic, dynamic)
}

/// The file of `elf_with_sections` with dynamic symbols, a dynamic table,
/// both or neither.
fn elf_with_dynamic(dynamic_symbols: bool, dynamic_table: bool) -> Vec<u8> {
    let code = exit_program();
    let mut file = elf_file(0xf3, 2, &code);
    let code_at = (file.len() - code.len()) as u64;
    while file.len() % 8 != 0 {
        file.push(0);
    }
    let names = b"\0.text\0.symtab\0.strtab\0.shstrtab\0.dynsym\0.dynamic\0.plt\0";
    let strings = b"\0main\0object\0helper\0";
    let strings_at = file.len() as u64;
    file.extend_from_slice(strings);
    let names_at = file.len() as u64;
    file.extend_from_slice(names);
    while file.len() % 8 != 0 {
        file.push(0);
    }
    let symbols_at = file.len() as u64;
    symbol_entry(&mut file, 0, 0, 0);
    symbol_entry(&mut file, 1, 0x12, 0x10004);
    symbol_entry(&mut file, 6, 0x11, 0x10008);
    symbol_entry(&mut file, 13, 0x00, 0x10000);
    let dynamic_at = file.len() as u64;
    file.extend_from_slice(&[0u8; 16]);
    let headers_at = file.len() as u64;
    section_header(&mut file, 0, 0, 0, 0, 0, 0, 0);
    section_header(&mut file, 1, 1, 0x10000, code_at, code.len() as u64, 0, 0);
    section_header(&mut file, 7, 2, 0, symbols_at, 4 * 24, 3, 24);
    section_header(&mut file, 15, 3, 0, strings_at, strings.len() as u64, 0, 0);
    section_header(&mut file, 23, 3, 0, names_at, names.len() as u64, 0, 0);
    section_header(&mut file, 50, 1, 0x10008, code_at + 8, 4, 0, 0);
    let mut count = 6u16;
    if dynamic_symbols {
        section_header(&mut file, 33, 11, 0, symbols_at, 24, 3, 24);
        count += 1;
    }
    if dynamic_table {
        section_header(&mut file, 41, 6, 0, dynamic_at, 16, 3, 16);
        count += 1;
    }
    put64(&mut file, 40, headers_at);
    put16(&mut file, 58, 64);
    put16(&mut file, 60, count);
    put16(&mut file, 62, 4);
    file
}

#[test]
fn reads_symbols_and_sections() {
    let image = ElfImage::read(&elf_with_sections(false)).unwrap();
    assert!(!image.dynamic());
    let symbols: Vec<(String, u64, u8)> = image
        .symbols
        .iter()
        .map(|s| (s.name.clone(), s.value, s.symtype))
        .collect();
    assert_eq!(
        symbols,
        vec![
            (String::new(), 0, 0),
            ("main".to_string(), 0x10004, 2),
            ("object".to_string(), 0x10008, 1),
            ("helper".to_string(), 0x10000, 0),
        ]
    );
    let text = image.text.as_ref().unwrap();
    assert_eq!((text.addr, text.size), (0x10000, 12));
    assert_eq!(text.data, exit_program());
    let plt = image.plt.as_ref().unwrap();
    assert_eq!((plt.addr, plt.size), (0x10008, 4));
    assert_eq!(plt.data, 0x00000073u32.to_le_bytes().to_vec());
    assert_eq!(image.segments.len(), 2);

    let memory = Memory::load_elf(&image, None).ok().unwrap();
    let symbols = memory.disassembler();
    assert_eq!(symbols.get_symbol_addr("main"), Some(0x10004));
    assert_eq!(symbols.get_symbol_addr("helper"), Some(0x10000));
    assert_eq!(symbols.get_symbol_addr("object"), None);
    assert_eq!(symbols.get_symbol_at_addr(0x10008), Some(".plt".to_string()));
    assert_eq!(symbols.get_symbol_addr(".plt"), Some(0x10008));
    assert_eq!(symbols.get_symbol_addr(".text"), Some(0x10000));
    let listing = remu::disassembler::Disassembler::disassemble_elf(&image);
    assert!(listing.contains("main:\n"));
    assert!(listing.contains(".plt:\n"));
    assert!(listing.contains(":\n           10000 addi"));
    assert!(listing.contains("addi  a7, x0, 93"));
}

#[test]
fn dynamic_tables_ask_for_the_linker() {
    let file = elf_with_sections(true);
    let image = ElfImage::read(&file).unwrap();
    assert!(image.dynamic());
    assert!(matches!(
        Memory::from_file(&file, None),
        Err(RVError::InvalidFileType)
    ));
    let linker = elf_file(0xf3, 3, &exit_program());
    // the linker's file has to be a program too
    assert!(matches!(
        Memory::from_file(&file, Some(b"no linker")),
        Err(RVError::InvalidFileType)
    ));
    let linker = {
        let mut file = linker;
        put16(&mut file, 16, 3);
        file[4] = 2;
        file
    };
    let memory = Memory::from_file(&file, Some(&linker)).ok().unwrap();
    assert_eq!(memory.entry(), 0x0200_0000_0001_0000);
    assert_eq!(memory.load_u32(0x0200_0000_0001_0000), Ok(0x05d00893));
    assert_eq!(memory.load_u32(0x10000), Ok(0x05d00893));
}

#[test]
fn a_dynamic_file_has_both_symbols_and_table() {
    let image = ElfImage::read(&elf_with_dynamic(true, false)).unwrap();
    assert!(image.dynamic_symbols);
    assert!(!image.dynamic_table);
    assert!(!image.dynamic());
    assert!(Memory::load_elf(&image, None).is_ok());

    let image = ElfImage::read(&elf_with_dynamic(false, true)).unwrap();
    assert!(!image.dynamic_symbols);
    assert!(image.dynamic_table);
    assert!(!image.dynamic());

    let image = ElfImage::read(&elf_with_dynamic(true, true)).unwrap();
    assert!(image.dynamic_symbols && image.dynamic_table);
    assert!(image.dynamic());
    assert!(matches!(
        Memory::load_elf(&image, None),
        Err(RVError::InvalidFileType)
    ));
}
