//! What the emulator reads from an ELF file, held as plain values: the header
//! fields that identify the file, the segments to load, the symbols, and the
//! two sections that hold code.
//!
//! The `elf` crate parses the file. The functions of this file that call it
//! are taken on trust. What each returns is a function of the file's bytes
//! alone and has a name here; nothing is stated of these names, so the rest of
//! the library works for whatever the crate reads from a file.

use vstd::prelude::*;
use elf::endian::AnyEndian;
use elf::file::Class;
use elf::ElfBytes;
use crate::error::RVError;

verus! {

/// The segment types that are loaded.
pub const PT_LOAD: u32 = 1;

pub const PT_DYNAMIC: u32 = 2;

pub const PT_PHDR: u32 = 6;

/// The symbol types that name code.
pub const STT_NOTYPE: u8 = 0;

pub const STT_FUNC: u8 = 2;

/// The file types of a program: executable, and shared object.
pub const ET_EXEC: u16 = 2;

pub const ET_DYN: u16 = 3;

/// The machine number of RISC-V.
pub const EM_RISCV: u16 = 0xF3;

/// The fields of the file header that the emulator reads.
#[derive(Clone, Copy, Debug, PartialEq, Eq, Structural)]
pub struct ElfHeader {
    pub is_64_bit: bool,
    pub e_type: u16,
    pub e_machine: u16,
    pub e_entry: u64,
    pub e_phnum: u16,
}

/// A segment: where it is loaded, how much memory it takes, and the bytes
/// that the file holds for it.
pub struct ElfSegment {
    pub p_type: u32,
    pub p_vaddr: u64,
    pub p_memsz: u64,
    pub data: Vec<u8>,
}

pub struct ElfSymbol {
    pub name: String,
    pub value: u64,
    pub symtype: u8,
}

/// A section: its address, its size, and its bytes.
pub struct ElfSection {
    pub addr: u64,
    pub size: u64,
    pub data: Vec<u8>,
}

/// An ELF file as the emulator sees it.
pub struct ElfImage {
    pub header: ElfHeader,
    pub segments: Vec<ElfSegment>,
    pub symbols: Vec<ElfSymbol>,
    /// The section `.text`, if the file has one.
    pub text: Option<ElfSection>,
    /// The section `.plt`, if the file has one.
    pub plt: Option<ElfSection>,
    /// Whether the file has a table of dynamic symbols.
    pub dynamic_symbols: bool,
    /// Whether the file has a dynamic table.
    pub dynamic_table: bool,
}

/// A segment as contracts see it.
pub struct SegmentView {
    pub p_type: u32,
    pub p_vaddr: u64,
    pub p_memsz: u64,
    pub data: Seq<u8>,
}

/// A symbol as contracts see it.
pub struct SymbolView {
    pub name: Seq<char>,
    pub value: u64,
    pub symtype: u8,
}

/// A section as contracts see it.
pub struct SectionView {
    pub addr: u64,
    pub size: u64,
    pub data: Seq<u8>,
}

/// An ELF file as contracts see it.
pub struct ImageView {
    pub header: ElfHeader,
    pub segments: Seq<SegmentView>,
    pub symbols: Seq<SymbolView>,
    pub text: Option<SectionView>,
    pub plt: Option<SectionView>,
    pub dynamic_symbols: bool,
    pub dynamic_table: bool,
}

impl ImageView {
    /// Whether the program needs the dynamic linker: it has dynamic symbols
    /// and a dynamic table.
    pub open spec fn dynamic(self) -> bool {
        self.dynamic_symbols && self.dynamic_table
    }
}

impl View for ElfSegment {
    type V = SegmentView;

    open spec fn view(&self) -> SegmentView {
        SegmentView {
            p_type: self.p_type,
            p_vaddr: self.p_vaddr,
            p_memsz: self.p_memsz,
            data: self.data@,
        }
    }
}

impl View for ElfSymbol {
    type V = SymbolView;

    open spec fn view(&self) -> SymbolView {
        SymbolView { name: self.name@, value: self.value, symtype: self.symtype }
    }
}

impl View for ElfSection {
    type V = SectionView;

    open spec fn view(&self) -> SectionView {
        SectionView { addr: self.addr, size: self.size, data: self.data@ }
    }
}

/// The view of a section that may be missing.
pub open spec fn section_view(section: Option<ElfSection>) -> Option<SectionView> {
    match section {
        Some(s) => Some(s@),
        None => None,
    }
}

impl View for ElfImage {
    type V = ImageView;

    open spec fn view(&self) -> ImageView {
        ImageView {
            header: self.header,
            segments: Seq::new(self.segments@.len(), |i: int| self.segments@[i]@),
            symbols: Seq::new(self.symbols@.len(), |i: int| self.symbols@[i]@),
            text: section_view(self.text),
            plt: section_view(self.plt),
            dynamic_symbols: self.dynamic_symbols,
            dynamic_table: self.dynamic_table,
        }
    }
}

/// The header that the `elf` crate reads from a file's bytes, where it
/// accepts them as an ELF file.
pub uninterp spec fn header_in(data: Seq<u8>) -> Option<ElfHeader>;

/// The number of entries in the file's segment table.
pub uninterp spec fn segment_count_in(data: Seq<u8>) -> nat;

/// The segment at `index` of the file's segment table, with its bytes, where
/// the `elf` crate can read both.
pub uninterp spec fn segment_in(data: Seq<u8>, index: nat) -> Option<SegmentView>;

/// The number of entries in the file's symbol table.
pub uninterp spec fn symbol_count_in(data: Seq<u8>) -> nat;

/// The symbol at `index` of the file's symbol table, with its name, where the
/// `elf` crate can read both.
pub uninterp spec fn symbol_in(data: Seq<u8>, index: nat) -> Option<SymbolView>;

/// The section of the file that is called `name`, with its bytes, where the
/// `elf` crate finds it.
pub uninterp spec fn section_in(data: Seq<u8>, name: Seq<char>) -> Option<SectionView>;

/// Whether the `elf` crate finds a table of dynamic symbols in the file.
pub uninterp spec fn dynamic_symbols_in(data: Seq<u8>) -> bool;

/// Whether the `elf` crate finds a dynamic table in the file.
pub uninterp spec fn dynamic_table_in(data: Seq<u8>) -> bool;

/// `ElfBytes::minimal_parse` and the fields of the header that it parses;
/// nothing where the bytes are no ELF file.
#[verifier::external_body]
pub(crate) fn read_header(data: &[u8]) -> (header: Option<ElfHeader>)
    ensures
        header == header_in(data@),
{
    let elf = ElfBytes::<AnyEndian>::minimal_parse(data).ok()?;
    Some(
        ElfHeader {
            is_64_bit: match elf.ehdr.class {
                Class::ELF64 => true,
                Class::ELF32 => false,
            },
            e_type: elf.ehdr.e_type,
            e_machine: elf.ehdr.e_machine,
            e_entry: elf.ehdr.e_entry,
            e_phnum: elf.ehdr.e_phnum,
        },
    )
}

/// `ElfBytes::segments` and the `len` of its table; 0 where there is none.
#[verifier::external_body]
pub(crate) fn read_segment_count(data: &[u8]) -> (count: usize)
    ensures
        count == segment_count_in(data@),
{
    match ElfBytes::<AnyEndian>::minimal_parse(data) {
        Ok(elf) => match elf.segments() {
            Some(table) => table.len(),
            None => 0,
        },
        Err(_) => 0,
    }
}

/// `ParsingTable::get` on the segments, and `ElfBytes::segment_data`: the
/// segment at `index` with a copy of its bytes; nothing where a call fails.
#[verifier::external_body]
pub(crate) fn read_segment(data: &[u8], index: usize) -> (segment: Option<ElfSegment>)
    ensures
        section_or_segment(segment) == segment_in(data@, index as nat),
{
    let elf = ElfBytes::<AnyEndian>::minimal_parse(data).ok()?;
    let header = elf.segments()?.get(index).ok()?;
    let bytes = elf.segment_data(&header).ok()?;
    Some(
        ElfSegment {
            p_type: header.p_type,
            p_vaddr: header.p_vaddr,
            p_memsz: header.p_memsz,
            data: bytes.to_vec(),
        },
    )
}

/// `ElfBytes::symbol_table` and the `len` of its table; 0 where there is
/// none.
#[verifier::external_body]
pub(crate) fn read_symbol_count(data: &[u8]) -> (count: usize)
    ensures
        count == symbol_count_in(data@),
{
    match ElfBytes::<AnyEndian>::minimal_parse(data) {
        Ok(elf) => match elf.symbol_table() {
            Ok(Some((table, _))) => table.len(),
            _ => 0,
        },
        Err(_) => 0,
    }
}

/// `ParsingTable::get` on the symbols, `StringTable::get` and
/// `Symbol::st_symtype`: the symbol at `index` with its name; nothing where a
/// call fails.
#[verifier::external_body]
pub(crate) fn read_symbol(data: &[u8], index: usize) -> (symbol: Option<ElfSymbol>)
    ensures
        symbol_view(symbol) == symbol_in(data@, index as nat),
{
    let elf = ElfBytes::<AnyEndian>::minimal_parse(data).ok()?;
    let (table, strings) = elf.symbol_table().ok()??;
    let symbol = table.get(index).ok()?;
    let name = strings.get(symbol.st_name as usize).ok()?;
    Some(ElfSymbol { name: name.to_string(), value: symbol.st_value, symtype: symbol.st_symtype() })
}

/// `ElfBytes::section_header_by_name` and `ElfBytes::section_data`: the
/// section called `name` with a copy of its bytes; nothing where there is
/// none or a call fails.
#[verifier::external_body]
pub(crate) fn read_section(data: &[u8], name: &str) -> (section: Option<ElfSection>)
    ensures
        section_view(section) == section_in(data@, name@),
{
    let elf = ElfBytes::<AnyEndian>::minimal_parse(data).ok()?;
    let header = elf.section_header_by_name(name).ok()??;
    let (bytes, _) = elf.section_data(&header).ok()?;
    Some(ElfSection { addr: header.sh_addr, size: header.sh_size, data: bytes.to_vec() })
}

/// `ElfBytes::dynamic_symbol_table`: whether the file has a table of dynamic
/// symbols that can be read.
#[verifier::external_body]
pub(crate) fn read_dynamic_symbols(data: &[u8]) -> (found: bool)
    ensures
        found == dynamic_symbols_in(data@),
{
    match ElfBytes::<AnyEndian>::minimal_parse(data) {
        Ok(elf) => matches!(elf.dynamic_symbol_table(), Ok(Some(_))),
        Err(_) => false,
    }
}

/// `ElfBytes::dynamic`: whether the file has a dynamic table that can be
/// read.
#[verifier::external_body]
pub(crate) fn read_dynamic_table(data: &[u8]) -> (found: bool)
    ensures
        found == dynamic_table_in(data@),
{
    match ElfBytes::<AnyEndian>::minimal_parse(data) {
        Ok(elf) => matches!(elf.dynamic(), Ok(Some(_))),
        Err(_) => false,
    }
}

/// The view of a segment that may be missing.
pub open spec fn section_or_segment(segment: Option<ElfSegment>) -> Option<SegmentView> {
    match segment {
        Some(s) => Some(s@),
        None => None,
    }
}

/// The view of a symbol that may be missing.
pub open spec fn symbol_view(symbol: Option<ElfSymbol>) -> Option<SymbolView> {
    match symbol {
        Some(s) => Some(s@),
        None => None,
    }
}

/// The segments among the first `upto` entries of the file's segment table
/// that can be read, in their order.
pub open spec fn segments_in(data: Seq<u8>, upto: nat) -> Seq<SegmentView>
    decreases upto,
{
    if upto == 0 {
        Seq::empty()
    } else {
        match segment_in(data, (upto - 1) as nat) {
            Some(segment) => segments_in(data, (upto - 1) as nat).push(segment),
            None => segments_in(data, (upto - 1) as nat),
        }
    }
}

/// The symbols among the first `upto` entries of the file's symbol table that
/// can be read, in their order.
pub open spec fn symbols_in(data: Seq<u8>, upto: nat) -> Seq<SymbolView>
    decreases upto,
{
    if upto == 0 {
        Seq::empty()
    } else {
        match symbol_in(data, (upto - 1) as nat) {
            Some(symbol) => symbols_in(data, (upto - 1) as nat).push(symbol),
            None => symbols_in(data, (upto - 1) as nat),
        }
    }
}

/// What `ElfImage::read` makes of a file's bytes, where it accepts them.
pub open spec fn image_in(data: Seq<u8>) -> ImageView {
    ImageView {
        header: header_in(data).unwrap(),
        segments: segments_in(data, segment_count_in(data)),
        symbols: symbols_in(data, symbol_count_in(data)),
        text: section_in(data, ".text"@),
        plt: section_in(data, ".plt"@),
        dynamic_symbols: dynamic_symbols_in(data),
        dynamic_table: dynamic_table_in(data),
    }
}

impl ElfHeader {
    /// Whether the header is that of a 64-bit RISC-V program.
    pub open spec fn supported(self) -> bool {
        self.is_64_bit && (self.e_type == ET_EXEC || self.e_type == ET_DYN) && self.e_machine
            == EM_RISCV
    }

    /// Accepts the header of a 64-bit RISC-V program, and no other.
    pub fn check(&self) -> (r: Result<(), RVError>)
        ensures
            match r {
                Ok(()) => self.supported(),
                Err(e) => e == RVError::InvalidFileType && !self.supported(),
            },
    {
        if self.is_64_bit && (self.e_type == ET_EXEC || self.e_type == ET_DYN) && self.e_machine
            == EM_RISCV {
            Ok(())
        } else {
            Err(RVError::InvalidFileType)
        }
    }
}

impl ElfImage {
    /// Returns whether the program needs the dynamic linker: it has dynamic
    /// symbols and a dynamic table.
    pub fn dynamic(&self) -> (needed: bool)
        ensures
            needed == self@.dynamic(),
    {
        self.dynamic_symbols && self.dynamic_table
    }

    /// Reads an ELF file. Fails with `InvalidFileType` where the bytes are no
    /// ELF file, or not one of a 64-bit RISC-V program. A segment or symbol
    /// that cannot be read is left out.
    pub fn read(data: &[u8]) -> (r: Result<ElfImage, RVError>)
        ensures
            match r {
                Ok(image) => header_in(data@) is Some && header_in(data@).unwrap().supported()
                    && image@ == image_in(data@),
                Err(e) => e == RVError::InvalidFileType && !(header_in(data@) is Some && header_in(
                    data@,
                ).unwrap().supported()),
            },
    {
        let header = match read_header(data) {
            Some(header) => header,
            None => {
                return Err(RVError::InvalidFileType);
            },
        };
        match header.check() {
            Ok(()) => {},
            Err(e) => {
                return Err(e);
            },
        }
        let mut segments: Vec<ElfSegment> = Vec::new();
        let count = read_segment_count(data);
        let mut i: usize = 0;
        while i < count
            invariant
                i <= count,
                Seq::new(segments@.len(), |j: int| segments@[j]@) == segments_in(data@, i as nat),
            decreases count - i,
        {
            let ghost before = Seq::new(segments@.len(), |j: int| segments@[j]@);
            if let Some(segment) = read_segment(data, i) {
                segments.push(segment);
                assert(Seq::new(segments@.len(), |j: int| segments@[j]@) =~= before.push(segment@));
            }
            i += 1;
        }
        let mut symbols: Vec<ElfSymbol> = Vec::new();
        let count = read_symbol_count(data);
        let mut i: usize = 0;
        while i < count
            invariant
                i <= count,
                Seq::new(symbols@.len(), |j: int| symbols@[j]@) == symbols_in(data@, i as nat),
            decreases count - i,
        {
            let ghost before = Seq::new(symbols@.len(), |j: int| symbols@[j]@);
            if let Some(symbol) = read_symbol(data, i) {
                symbols.push(symbol);
                assert(Seq::new(symbols@.len(), |j: int| symbols@[j]@) =~= before.push(symbol@));
            }
            i += 1;
        }
        Ok(
            ElfImage {
                header,
                segments,
                symbols,
                text: read_section(data, ".text"),
                plt: read_section(data, ".plt"),
                dynamic_symbols: read_dynamic_symbols(data),
                dynamic_table: read_dynamic_table(data),
            },
        )
    }
}

} // verus!
