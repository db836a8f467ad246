use remu::disassembler::Disassembler;
use remu::elf_image::{ElfHeader, ElfImage, ElfSection, ElfSymbol};
use remu::instruction::Inst;
use remu::memory::Memory;
use remu::register::{Reg, RA};

fn header() -> ElfHeader {
    ElfHeader {
        is_64_bit: true,
        e_type: 2,
        e_machine: 0xf3,
        e_entry: 0x1000,
        e_phnum: 0,
    }
}

fn symbol(name: &str, value: u64, symtype: u8) -> ElfSymbol {
    ElfSymbol {
        name: name.to_string(),
        value,
        symtype,
    }
}

fn image() -> ElfImage {
    let mut text = Vec::new();
    // addi a0, x0, 5; c.li a0, 5; jal ra, -8; ecall
    text.extend_from_slice(&0x00500513u32.to_le_bytes());
    text.extend_from_slice(&0x4515u16.to_le_bytes());
    text.extend_from_slice(&0xff9ff0efu32.to_le_bytes());
    text.extend_from_slice(&0x00000073u32.to_le_bytes());
    ElfImage {
        header: header(),
        segments: Vec::new(),
        symbols: vec![
            symbol("main", 0x1004, 2),
            symbol("start", 0x1000, 0),
            symbol("data", 0x1002, 1),
            symbol("begin", 0x1000, 2),
        ],
        text: Some(ElfSection {
            addr: 0x1000,
            size: text.len() as u64,
            data: text,
        }),
        plt: Some(ElfSection {
            addr: 0x2000,
            size: 2,
            data: vec![0x01, 0x00],
        }),
        dynamic_symbols: false,
        dynamic_table: false,
    }
}

#[test]
fn symbols_are_found_by_address_and_name() {
    let mut disassembler = Disassembler::new();
    assert_eq!(disassembler.get_symbol_at_addr(0x1000), None);
    disassembler.add_elf_symbols(&image(), 0);
    assert_eq!(
        disassembler.get_symbol_at_addr(0x1004),
        Some("main".to_string())
    );
    assert_eq!(
        disassembler.get_symbol_at_addr(0x2000),
        Some(".plt".to_string())
    );
    assert!(disassembler.get_symbol_at_addr(0x1000).is_some());
    // a symbol that names no code is left out
    assert_eq!(disassembler.get_symbol_at_addr(0x1002), None);
    assert_eq!(disassembler.get_symbol_at_addr(0x1001), None);
    assert_eq!(disassembler.get_symbol_addr("main"), Some(0x1004));
    assert_eq!(disassembler.get_symbol_addr("start"), Some(0x1000));
    assert_eq!(disassembler.get_symbol_addr(".plt"), Some(0x2000));
    assert_eq!(disassembler.get_symbol_addr(".text"), Some(0x1000));
    assert_eq!(disassembler.get_symbol_addr("data"), None);
    assert_eq!(disassembler.get_symbol_addr("missing"), None);
}

#[test]
fn symbols_move_with_the_offset() {
    let mut disassembler = Disassembler::new();
    disassembler.add_elf_symbols(&image(), 0x0200_0000_0000_0000);
    assert_eq!(
        disassembler.get_symbol_addr("main"),
        Some(0x0200_0000_0000_1004)
    );
    disassembler.add_elf_symbols(&image(), 0);
    assert_eq!(
        disassembler.get_symbol_at_addr(0x1004),
        Some("main".to_string())
    );
    assert_eq!(
        disassembler.get_symbol_at_addr(0x0200_0000_0000_2000),
        Some(".plt".to_string())
    );
    let copy = disassembler.clone();
    assert_eq!(copy.get_symbol_addr(".plt"), disassembler.get_symbol_addr(".plt"));
}

#[test]
fn instruction_is_listed_with_labels_and_target() {
    let mut disassembler = Disassembler::new();
    let mut file = image();
    file.symbols.truncate(1);
    file.plt = None;
    disassembler.add_elf_symbols(&file, 0);
    let add = Inst::decode(0x00c58533).0;
    assert_eq!(
        disassembler.disassemble_inst(add, 0x1004),
        format!("main:\n{:16x} add   a0, a1, a2", 0x1004)
    );
    assert_eq!(
        disassembler.disassemble_inst(add, 0x1008),
        format!("{:16x} add   a0, a1, a2", 0x1008)
    );
    // the start of the code has the section's name
    assert_eq!(
        disassembler.disassemble_inst(add, 0x1000),
        format!(".text:\n{:16x} add   a0, a1, a2", 0x1000)
    );
    let jump = Inst::Jal {
        rd: Reg(RA),
        offset: -8,
    };
    assert_eq!(
        disassembler.disassemble_inst(jump, 0x100c),
        format!("{:16x} jal   ra, 1004 ; main", 0x100c)
    );
    assert_eq!(
        disassembler.disassemble_inst(jump, 0x1010),
        format!("{:16x} jal   ra, 1008", 0x1010)
    );
}

#[test]
fn file_is_listed_section_by_section() {
    let mut file = image();
    file.symbols.truncate(1);
    let listing = Disassembler::disassemble_elf(&file);
    let expected = [
        format!(".text:\n{:16x} addi  a0, x0, 5", 0x1000),
        format!("main:\n{:16x} addi  a0, x0, 5", 0x1004),
        format!("{:16x} jal   ra, ffe", 0x1006),
        format!("{:16x} ecall", 0x100a),
        String::new(),
        format!(".plt:\n{:16x} addi  x0, x0, 0", 0x2000),
        String::new(),
    ]
    .join("\n")
        + "\n";
    assert_eq!(listing, expected);
}

#[test]
fn listing_around_an_address() {
    let mut program = Vec::new();
    for _ in 0..8 {
        program.extend_from_slice(&0x00500513u32.to_le_bytes());
    }
    let memory = Memory::from_raw(&program);
    let disassembler = Disassembler::new();
    let listing = disassembler.disassemble_pc_relative(&memory, 8, 2);
    let lines: Vec<String> = listing.lines().map(|line| line.to_string()).collect();
    // from 8 bytes below the address up to the second instruction that ends
    // behind it
    let expected: Vec<String> = [0u64, 4, 8, 12]
        .iter()
        .map(|pc| format!("{:16x} addi  a0, x0, 5", pc))
        .collect();
    assert_eq!(lines, expected);
    // close to address 0 the listing starts there
    let listing = disassembler.disassemble_pc_relative(&memory, 4, 100);
    assert!(listing.starts_with(&format!("{:16x} addi", 0)));
    assert_eq!(disassembler.disassemble_pc_relative(&memory, 4, 0), "");
    // a word that cannot be loaded is listed as zero
    let listing = disassembler.disassemble_pc_relative(&memory, 0x8000, 1);
    assert_eq!(listing.lines().count(), 3);
}
