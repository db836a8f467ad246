//! The symbol table of a program, sorted by address, and the listing of
//! instructions with the symbols as labels.

use vstd::prelude::*;
use crate::decode16::{instruction_of, length_of};
use crate::elf_image::{
    ElfImage, ElfSection, ElfSymbol, ImageView, SectionView, SymbolView, STT_FUNC, STT_NOTYPE,
};
use crate::format::fmt_spec;
use crate::instruction::Inst;
use crate::memory::{Memory, MemoryView};
use crate::text::{digits, pad_left, push_char, push_number};

verus! {

/// A symbol table as contracts see it: each symbol's address and name.
pub type Symbols = Seq<(u64, Seq<char>)>;

/// The symbols are in the order of their addresses.
pub open spec fn sorted(symbols: Symbols) -> bool {
    forall|i: int, j: int| 0 <= i <= j < symbols.len() ==> symbols[i].0 <= symbols[j].0
}

/// The position of the first symbol at or after `from` whose address is
/// `addr` or more, or the length where there is none.
pub open spec fn lower_bound(symbols: Symbols, addr: u64, from: int) -> int
    decreases symbols.len() - from,
{
    if from < 0 || from >= symbols.len() {
        symbols.len() as int
    } else if symbols[from].0 >= addr {
        from
    } else {
        lower_bound(symbols, addr, from + 1)
    }
}

/// The name of the first symbol at `addr`, if there is one.
pub open spec fn symbol_at(symbols: Symbols, addr: u64) -> Option<Seq<char>> {
    let at = lower_bound(symbols, addr, 0);
    if at < symbols.len() && symbols[at].0 == addr {
        Some(symbols[at].1)
    } else {
        None
    }
}

/// The position of the first symbol at or after `from` that is called
/// `name`, or the length where there is none.
pub open spec fn first_named(symbols: Symbols, name: Seq<char>, from: int) -> int
    decreases symbols.len() - from,
{
    if from < 0 || from >= symbols.len() {
        symbols.len() as int
    } else if symbols[from].1 == name {
        from
    } else {
        first_named(symbols, name, from + 1)
    }
}

/// The address of the first symbol called `name`, if there is one.
pub open spec fn symbol_address(symbols: Symbols, name: Seq<char>) -> Option<u64> {
    let at = first_named(symbols, name, 0);
    if at < symbols.len() {
        Some(symbols[at].0)
    } else {
        None
    }
}

/// The labels of an address: the name of each symbol at `pc`, from position
/// `from` on, each followed by a colon and a line feed.
pub open spec fn labels(symbols: Symbols, pc: u64, from: int) -> Seq<char>
    decreases symbols.len() - from,
{
    if from < 0 || from >= symbols.len() || symbols[from].0 != pc {
        Seq::empty()
    } else {
        symbols[from].1 + ":\n"@ + labels(symbols, pc, from + 1)
    }
}

/// The address of which a listing names the symbol behind a jump: the jump's
/// offset from its own address.
pub open spec fn noted_target(inst: Inst, pc: u64) -> Option<u64> {
    match inst {
        Inst::Jalr { offset, .. } => Some(pc.wrapping_add(offset as u64)),
        Inst::Jal { offset, .. } => Some(pc.wrapping_add(offset as u64)),
        _ => None,
    }
}

/// The note behind a jump: the symbol at its target, if there is one.
pub open spec fn target_note(symbols: Symbols, inst: Inst, pc: u64) -> Seq<char> {
    match noted_target(inst, pc) {
        Some(dest) => match symbol_at(symbols, dest) {
            Some(name) => " ; "@ + name,
            None => Seq::empty(),
        },
        None => Seq::empty(),
    }
}

/// The listing of one instruction: the labels of its address, the address in
/// a column of 16 hexadecimal digits, the instruction, and the note.
pub open spec fn listing_line(symbols: Symbols, inst: Inst, pc: u64) -> Seq<char> {
    labels(symbols, pc, lower_bound(symbols, pc, 0)) + pad_left(digits(pc as nat, 16), 16, ' ')
        + " "@ + fmt_spec(inst, pc) + target_note(symbols, inst, pc)
}

/// The word at `pc` as a listing reads it: zero where it cannot be loaded.
pub open spec fn word_at(memory: MemoryView, pc: u64) -> u32 {
    match memory.load_value(pc, 4) {
        Some(value) => value as u32,
        None => 0,
    }
}

/// The listing from `pc` on, a line for each instruction: up to the first
/// instruction that ends behind `start_pc`, and `after` instructions from
/// there. It ends early at the top of the address space.
pub open spec fn listing(
    symbols: Symbols,
    memory: MemoryView,
    pc: u64,
    start_pc: u64,
    after: nat,
) -> Seq<char>
    decreases after, (if pc <= start_pc { start_pc - pc + 1 } else { 0 }),
{
    let word = word_at(memory, pc);
    let line = listing_line(symbols, instruction_of(word), pc) + "\n"@;
    let next = pc + length_of(word);
    if after == 0 {
        Seq::empty()
    } else if next > u64::MAX {
        line
    } else if next > start_pc {
        line + listing(symbols, memory, next as u64, start_pc, (after - 1) as nat)
    } else {
        line + listing(symbols, memory, next as u64, start_pc, after)
    }
}

pub struct Disassembler {
    symbols: Vec<(u64, String)>,
}

impl View for Disassembler {
    type V = Symbols;

    closed spec fn view(&self) -> Symbols {
        Seq::new(self.symbols@.len(), |i: int| (self.symbols@[i].0, self.symbols@[i].1@))
    }
}

/// The first symbol whose address is `addr` or more lies behind every symbol
/// with a lower address, and in a sorted table it is the only such position.
pub proof fn lemma_lower_bound(symbols: Symbols, addr: u64, from: int)
    requires
        0 <= from <= symbols.len(),
    ensures
        from <= lower_bound(symbols, addr, from) <= symbols.len(),
        lower_bound(symbols, addr, from) < symbols.len() ==> symbols[lower_bound(
            symbols,
            addr,
            from,
        )].0 >= addr,
        forall|i: int| from <= i < lower_bound(symbols, addr, from) ==> symbols[i].0 < addr,
    decreases symbols.len() - from,
{
    if from < symbols.len() && symbols[from].0 < addr {
        lemma_lower_bound(symbols, addr, from + 1);
    }
}

/// In a sorted table, a position with lower addresses before it and none
/// from it on is the lower bound.
pub proof fn lemma_lower_bound_is(symbols: Symbols, addr: u64, at: int)
    requires
        sorted(symbols),
        0 <= at <= symbols.len(),
        forall|i: int| 0 <= i < at ==> symbols[i].0 < addr,
        at < symbols.len() ==> symbols[at].0 >= addr,
    ensures
        lower_bound(symbols, addr, 0) == at,
{
    lemma_lower_bound(symbols, addr, 0);
    let found = lower_bound(symbols, addr, 0);
    if found < at {
        assert(symbols[found].0 < addr);
    } else if found > at {
        assert(symbols[at].0 < addr);
    }
}

/// A search for a name that starts behind symbols with other names finds
/// what a search from the front finds.
pub proof fn lemma_first_named_skips(symbols: Symbols, name: Seq<char>, upto: int)
    requires
        0 <= upto <= symbols.len(),
        forall|i: int| 0 <= i < upto ==> symbols[i].1 != name,
    ensures
        first_named(symbols, name, 0) == first_named(symbols, name, upto),
    decreases upto,
{
    if upto > 0 {
        lemma_first_named_skips(symbols, name, upto - 1);
    }
}

impl Clone for Disassembler {
    /// Returns a copy of the table: the same symbols in the same order.
    fn clone(&self) -> (copy: Disassembler)
        ensures
            copy@ == self@,
    {
        let mut symbols: Vec<(u64, String)> = Vec::new();
        let mut i: usize = 0;
        while i < self.symbols.len()
            invariant
                i <= self.symbols@.len(),
                symbols@.len() == i,
                forall|j: int|
                    0 <= j < i ==> symbols@[j].0 == self.symbols@[j].0 && symbols@[j].1@
                        == self.symbols@[j].1@,
            decreases self.symbols.len() - i,
        {
            symbols.push((self.symbols[i].0, self.symbols[i].1.clone()));
            i += 1;
        }
        let copy = Disassembler { symbols };
        assert(copy@ =~= self@);
        copy
    }
}

impl Disassembler {
    /// The symbols are in the order of their addresses.
    pub open spec fn well_formed(&self) -> bool {
        sorted(self@)
    }

    /// Returns a disassembler without symbols.
    pub fn new() -> (disassembler: Disassembler)
        ensures
            disassembler@ == Seq::<(u64, Seq<char>)>::empty(),
            disassembler.well_formed(),
    {
        let disassembler = Disassembler { symbols: Vec::new() };
        assert(disassembler@ =~= Seq::<(u64, Seq<char>)>::empty());
        disassembler
    }

    /// Returns the position of the first symbol whose address is `addr` or
    /// more.
    fn search(&self, addr: u64) -> (at: usize)
        requires
            self.well_formed(),
        ensures
            at == lower_bound(self@, addr, 0),
            at <= self.symbols@.len(),
    {
        let mut low: usize = 0;
        let mut high: usize = self.symbols.len();
        while low < high
            invariant
                self.well_formed(),
                low <= high <= self.symbols@.len(),
                self@.len() == self.symbols@.len(),
                forall|i: int| 0 <= i < low ==> self@[i].0 < addr,
                forall|i: int| high <= i < self@.len() ==> self@[i].0 >= addr,
            decreases high - low,
        {
            let middle = low + (high - low) / 2;
            assert(self@[middle as int].0 == self.symbols@[middle as int].0);
            if self.symbols[middle].0 < addr {
                low = middle + 1;
            } else {
                high = middle;
            }
        }
        proof {
            lemma_lower_bound_is(self@, addr, low as int);
        }
        low
    }

    /// Returns the name of the symbol at `addr`: of the first in the table,
    /// where several share the address.
    pub fn get_symbol_at_addr(&self, addr: u64) -> (name: Option<String>)
        requires
            self.well_formed(),
        ensures
            match name {
                Some(text) => symbol_at(self@, addr) == Some(text@),
                None => symbol_at(self@, addr) is None,
            },
    {
        let at = self.search(addr);
        if at < self.symbols.len() {
            assert(self@[at as int] == (self.symbols@[at as int].0, self.symbols@[at as int].1@));
            if self.symbols[at].0 == addr {
                return Some(self.symbols[at].1.clone());
            }
        }
        None
    }

    /// Returns the address of the symbol called `symbol`: of the first in the
    /// table, where several share the name.
    pub fn get_symbol_addr(&self, symbol: &str) -> (addr: Option<u64>)
        ensures
            addr == symbol_address(self@, symbol@),
    {
        let wanted = String::from_str(symbol);
        let mut i: usize = 0;
        while i < self.symbols.len()
            invariant
                i <= self.symbols@.len(),
                self@.len() == self.symbols@.len(),
                wanted@ == symbol@,
                forall|j: int| 0 <= j < i ==> self@[j].1 != symbol@,
            decreases self.symbols.len() - i,
        {
            assert(self@[i as int] == (self.symbols@[i as int].0, self.symbols@[i as int].1@));
            if self.symbols[i].1 == wanted {
                proof {
                    lemma_first_named_skips(self@, symbol@, i as int);
                }
                return Some(self.symbols[i].0);
            }
            i += 1;
        }
        proof {
            lemma_first_named_skips(self@, symbol@, self@.len() as int);
        }
        None
    }

    /// Appends the labels of `pc`.
    fn push_labels(&self, text: &mut String, pc: u64)
        requires
            self.well_formed(),
        ensures
            final(text)@ == old(text)@ + labels(self@, pc, lower_bound(self@, pc, 0)),
    {
        let first = self.search(pc);
        let mut i: usize = first;
        let ghost done: Seq<char> = Seq::empty();
        assert(text@ =~= old(text)@ + Seq::<char>::empty());
        while i < self.symbols.len() && self.symbols[i].0 == pc
            invariant
                first <= i <= self.symbols@.len(),
                self@.len() == self.symbols@.len(),
                labels(self@, pc, first as int) == done + labels(self@, pc, i as int),
                text@ == old(text)@ + done,
            decreases self.symbols@.len() - i,
        {
            assert(self@[i as int] == (self.symbols@[i as int].0, self.symbols@[i as int].1@));
            text.append(self.symbols[i].1.as_str());
            text.append(":\n");
            proof {
                let name = self@[i as int].1;
                let rest = labels(self@, pc, i + 1);
                assert(done + (name + ":\n"@ + rest) =~= (done + name + ":\n"@) + rest);
                assert(text@ =~= old(text)@ + (done + name + ":\n"@));
                done = done + name + ":\n"@;
            }
            i += 1;
        }
        proof {
            if i < self.symbols@.len() {
                assert(self@[i as int] == (self.symbols@[i as int].0, self.symbols@[i as int].1@));
            }
            assert(labels(self@, pc, i as int) =~= Seq::<char>::empty());
            assert(done + Seq::<char>::empty() =~= done);
        }
    }

    /// Returns the listing of one instruction: the labels of its address, the
    /// address, the instruction, and behind a jump the symbol at its target.
    pub fn disassemble_inst(&self, inst: Inst, pc: u64) -> (line: String)
        requires
            self.well_formed(),
            inst.well_formed(),
        ensures
            line@ == listing_line(self@, inst, pc),
    {
        let mut writer = String::new();
        self.push_labels(&mut writer, pc);
        push_number(&mut writer, pc, 16, 16, ' ');
        push_char(&mut writer, ' ');
        proof {
            reveal_strlit(" ");
        }
        let text = inst.fmt(pc);
        writer.append(text.as_str());
        let label_offset = match inst {
            Inst::Jalr { rd: _, rs1: _, offset } => Some(pc.wrapping_add(offset as u64)),
            Inst::Jal { rd: _, offset } => Some(pc.wrapping_add(offset as u64)),
            _ => None,
        };
        let ghost head = writer@;
        assert(head =~= labels(self@, pc, lower_bound(self@, pc, 0)) + pad_left(
            digits(pc as nat, 16),
            16,
            ' ',
        ) + " "@ + fmt_spec(inst, pc));
        if let Some(dest) = label_offset {
            if let Some(symbol) = self.get_symbol_at_addr(dest) {
                writer.append(" ; ");
                writer.append(symbol.as_str());
                assert(writer@ =~= head + (" ; "@ + symbol@));
                return writer;
            }
        }
        assert(writer@ =~= head + Seq::<char>::empty());
        writer
    }

    /// Returns the listing of the instructions around `start_pc`: from
    /// `4 * n` bytes below it, or from address 0 where that is closer, up to
    /// the `n`th instruction that ends behind `start_pc`. A word that cannot
    /// be loaded is listed as zero.
    pub fn disassemble_pc_relative(&self, memory: &Memory, start_pc: u64, n: u64) -> (text: String)
        requires
            self.well_formed(),
            memory.well_formed(),
        ensures
            text@ == listing(self@, memory@, listing_start(start_pc, n), start_pc, n as nat),
    {
        let mut writer = String::new();
        let mut pc: u64 = if n > start_pc / 4 {
            0
        } else {
            start_pc - 4 * n
        };
        let mut count_after: u64 = 0;
        let ghost first = pc;
        assert(writer@ + listing(self@, memory@, pc, start_pc, n as nat) =~= listing(
            self@,
            memory@,
            first,
            start_pc,
            n as nat,
        ));
        while count_after < n
            invariant
                self.well_formed(),
                memory.well_formed(),
                count_after <= n,
                first == listing_start(start_pc, n),
                listing(self@, memory@, first, start_pc, n as nat) == writer@ + listing(
                    self@,
                    memory@,
                    pc,
                    start_pc,
                    (n - count_after) as nat,
                ),
            decreases n - count_after, (if pc <= start_pc { start_pc - pc + 1 } else { 0 }),
        {
            let inst_data = match memory.load_u32(pc) {
                Ok(value) => value,
                Err(_) => 0,
            };
            let (inst, size) = Inst::decode(inst_data);
            let line = self.disassemble_inst(inst, pc);
            let ghost before = writer@;
            let ghost rest_before = listing(self@, memory@, pc, start_pc, (n - count_after) as nat);
            writer.append(line.as_str());
            push_char(&mut writer, '\n');
            proof {
                reveal_strlit("\n");
                assert(writer@ =~= before + (line@ + "\n"@));
            }
            if pc > u64::MAX - size as u64 {
                assert(before + rest_before =~= writer@);
                return writer;
            }
            pc += size as u64;
            if pc > start_pc {
                count_after += 1;
            }
            proof {
                let rest = listing(self@, memory@, pc, start_pc, (n - count_after) as nat);
                assert(rest_before == (line@ + "\n"@) + rest);
                assert(before + ((line@ + "\n"@) + rest) =~= (before + (line@ + "\n"@)) + rest);
            }
        }
        assert(writer@ + Seq::<char>::empty() =~= writer@);
        writer
    }
}

/// The address at which a listing of `n` instructions around `start_pc`
/// starts.
pub open spec fn listing_start(start_pc: u64, n: u64) -> u64 {
    if n > start_pc / 4 {
        0
    } else {
        (start_pc - 4 * n) as u64
    }
}


/// The symbols that a table of addresses and names holds.
pub open spec fn table_view(table: Seq<(u64, String)>) -> Symbols {
    Seq::new(table.len(), |i: int| (table[i].0, table[i].1@))
}

/// `<[T]>::sort_unstable_by_key`, by address: the same symbols as before, in
/// the order of their addresses. Symbols that share an address come in any
/// order.
#[verifier::external_body]
fn sort_by_address(symbols: &mut Vec<(u64, String)>)
    ensures
        sorted(table_view(final(symbols)@)),
        table_view(final(symbols)@).to_multiset() == table_view(old(symbols)@).to_multiset(),
{
    symbols.sort_unstable_by_key(|a| a.0);
}

/// The symbols among the first `upto` of a file that name code, each moved
/// by `offset`: those of type `STT_FUNC` and `STT_NOTYPE`.
pub open spec fn code_symbols(symbols: Seq<SymbolView>, offset: u64, upto: int) -> Symbols
    decreases upto,
{
    if upto <= 0 {
        Seq::empty()
    } else {
        let symbol = symbols[upto - 1];
        let before = code_symbols(symbols, offset, upto - 1);
        if symbol.symtype == STT_FUNC || symbol.symtype == STT_NOTYPE {
            before.push((symbol.value.wrapping_add(offset), symbol.name))
        } else {
            before
        }
    }
}

/// The symbol that stands for the start of a section that may be missing.
pub open spec fn section_start(section: Option<SectionView>, name: Seq<char>, offset: u64)
    -> Symbols {
    match section {
        Some(s) => seq![(s.addr.wrapping_add(offset), name)],
        None => Seq::empty(),
    }
}

/// The symbols that a file adds to a table: those that name code, then the
/// starts of the sections `.plt` and `.text` under these names, each moved by
/// `offset`.
pub open spec fn added_symbols(image: ImageView, offset: u64) -> Symbols {
    code_symbols(image.symbols, offset, image.symbols.len() as int) + section_start(
        image.plt,
        ".plt"@,
        offset,
    ) + section_start(image.text, ".text"@, offset)
}

/// The word of a section's bytes that starts at `at`, in little-endian order;
/// a byte behind the end counts as zero.
pub open spec fn section_word(data: Seq<u8>, at: int) -> u32 {
    let b0 = if 0 <= at < data.len() { data[at] } else { 0u8 };
    let b1 = if 0 <= at + 1 < data.len() { data[at + 1] } else { 0u8 };
    let b2 = if 0 <= at + 2 < data.len() { data[at + 2] } else { 0u8 };
    let b3 = if 0 <= at + 3 < data.len() { data[at + 3] } else { 0u8 };
    (b0 as u32) | ((b1 as u32) << 8) | ((b2 as u32) << 16) | ((b3 as u32) << 24)
}

/// The listing of a section's instructions from position `at` on, a line for
/// each.
pub open spec fn section_listing(symbols: Symbols, section: SectionView, at: int) -> Seq<char>
    decreases (if at < section.data.len() { section.data.len() - at } else { 0 }),
{
    if at < 0 || at >= section.data.len() {
        Seq::empty()
    } else {
        let word = section_word(section.data, at);
        listing_line(symbols, instruction_of(word), section.addr.wrapping_add(at as u64)) + "\n"@
            + section_listing(symbols, section, at + length_of(word))
    }
}

/// The listing of a section that may be missing: its instructions and an
/// empty line, or nothing.
pub open spec fn optional_listing(symbols: Symbols, section: Option<SectionView>) -> Seq<char> {
    match section {
        Some(s) => section_listing(symbols, s, 0) + "\n"@,
        None => Seq::empty(),
    }
}

/// The listing of a file: the section `.text`, then the section `.plt`.
pub open spec fn image_listing(symbols: Symbols, image: ImageView) -> Seq<char> {
    optional_listing(symbols, image.text) + optional_listing(symbols, image.plt)
}

/// Returns the word of a section's bytes that starts at `at`.
fn read_word(data: &Vec<u8>, at: usize) -> (word: u32)
    requires
        at < data@.len(),
    ensures
        word == section_word(data@, at as int),
{
    let size = data.len();
    let b0 = data[at];
    let b1 = if size - at > 1 {
        data[at + 1]
    } else {
        0
    };
    let b2 = if size - at > 2 {
        data[at + 2]
    } else {
        0
    };
    let b3 = if size - at > 3 {
        data[at + 3]
    } else {
        0
    };
    (b0 as u32) | ((b1 as u32) << 8) | ((b2 as u32) << 16) | ((b3 as u32) << 24)
}

impl Disassembler {
    /// Appends the symbol for the start of a section, if the file has the
    /// section.
    fn push_section_start(&mut self, section: &Option<ElfSection>, name: &str, offset: u64)
        ensures
            final(self)@ == old(self)@ + section_start(
                crate::elf_image::section_view(*section),
                name@,
                offset,
            ),
    {
        match section {
            Some(found) => {
                self.symbols.push((found.addr.wrapping_add(offset), String::from_str(name)));
                assert(self@ =~= old(self)@.push((found.addr.wrapping_add(offset), name@)));
                assert(self@ =~= old(self)@ + seq![(found.addr.wrapping_add(offset), name@)]);
            },
            None => {
                assert(self@ =~= old(self)@ + Seq::<(u64, Seq<char>)>::empty());
            },
        }
    }

    /// Adds the symbols of a file that name code, and the starts of its
    /// sections `.plt` and `.text`, each moved by `offset`, and puts the table
    /// in the order of the addresses again.
    pub fn add_elf_symbols(&mut self, image: &ElfImage, offset: u64)
        ensures
            final(self).well_formed(),
            final(self)@.to_multiset() == (old(self)@ + added_symbols(image@, offset)).to_multiset(),
    {
        let ghost start = self@;
        let mut i: usize = 0;
        assert(self@ =~= start + code_symbols(image@.symbols, offset, 0));
        while i < image.symbols.len()
            invariant
                i <= image.symbols@.len(),
                image@.symbols.len() == image.symbols@.len(),
                self@ == start + code_symbols(image@.symbols, offset, i as int),
            decreases image.symbols.len() - i,
        {
            let symbol = &image.symbols[i];
            assert(image@.symbols[i as int] == symbol@);
            let ghost before = self@;
            if symbol.symtype == STT_FUNC || symbol.symtype == STT_NOTYPE {
                let entry = (symbol.value.wrapping_add(offset), symbol.name.clone());
                self.symbols.push(entry);
                assert(self@ =~= before.push((symbol.value.wrapping_add(offset), symbol.name@)));
            }
            i += 1;
            assert(self@ =~= start + code_symbols(image@.symbols, offset, i as int));
        }
        self.push_section_start(&image.plt, ".plt", offset);
        self.push_section_start(&image.text, ".text", offset);
        assert(self@ =~= start + added_symbols(image@, offset));
        assert(self@ == table_view(self.symbols@));
        sort_by_address(&mut self.symbols);
        assert(self@ == table_view(self.symbols@));
    }

    /// Appends the listing of a section.
    fn push_section(&self, writer: &mut String, section: &ElfSection)
        requires
            self.well_formed(),
        ensures
            final(writer)@ == old(writer)@ + section_listing(self@, section@, 0),
    {
        let mut pc: usize = 0;
        let size = section.data.len();
        assert(writer@ + section_listing(self@, section@, 0) =~= old(writer)@ + section_listing(
            self@,
            section@,
            0,
        ));
        while pc < size
            invariant
                self.well_formed(),
                size == section.data@.len(),
                old(writer)@ + section_listing(self@, section@, 0) == writer@ + section_listing(
                    self@,
                    section@,
                    pc as int,
                ),
            decreases size - pc,
        {
            let inst_data = read_word(&section.data, pc);
            let (inst, step) = Inst::decode(inst_data);
            let line = self.disassemble_inst(inst, section.addr.wrapping_add(pc as u64));
            let ghost before = writer@;
            let ghost rest_before = section_listing(self@, section@, pc as int);
            writer.append(line.as_str());
            push_char(writer, '\n');
            proof {
                reveal_strlit("\n");
                assert(writer@ =~= before + (line@ + "\n"@));
            }
            let ghost at = pc as int;
            if size - pc <= step as usize {
                pc = size;
            } else {
                pc += step as usize;
            }
            proof {
                let rest = section_listing(self@, section@, pc as int);
                assert(section_listing(self@, section@, at + step) == rest);
                assert(rest_before == (line@ + "\n"@) + rest);
                assert(before + ((line@ + "\n"@) + rest) =~= (before + (line@ + "\n"@)) + rest);
            }
        }
        assert(writer@ + Seq::<char>::empty() =~= writer@);
    }

    /// Appends the listing of a section that may be missing.
    fn push_optional_section(&self, writer: &mut String, section: &Option<ElfSection>)
        requires
            self.well_formed(),
        ensures
            final(writer)@ == old(writer)@ + optional_listing(
                self@,
                crate::elf_image::section_view(*section),
            ),
    {
        match section {
            Some(s) => {
                self.push_section(writer, s);
                let ghost before = writer@;
                push_char(writer, '\n');
                proof {
                    reveal_strlit("\n");
                    assert(writer@ =~= old(writer)@ + (section_listing(self@, s@, 0) + "\n"@));
                }
            },
            None => {
                assert(writer@ =~= old(writer)@ + Seq::<char>::empty());
            },
        }
    }

    /// Returns the listing of a file with the symbols of this table as
    /// labels: the instructions of the section `.text`, then those of the
    /// section `.plt`, an empty line behind each.
    pub fn disassemble_image(&self, image: &ElfImage) -> (text: String)
        requires
            self.well_formed(),
        ensures
            text@ == image_listing(self@, image@),
    {
        let mut writer = String::new();
        self.push_optional_section(&mut writer, &image.text);
        self.push_optional_section(&mut writer, &image.plt);
        assert(writer@ =~= image_listing(self@, image@));
        writer
    }

    /// Returns the listing of a file, with its own symbols as labels. Where
    /// several symbols share an address, their labels come in any order.
    pub fn disassemble_elf(image: &ElfImage) -> (text: String)
        ensures
            exists|symbols: Symbols|
                sorted(symbols) && symbols.to_multiset() == added_symbols(image@, 0).to_multiset()
                    && text@ == #[trigger] image_listing(symbols, image@),
    {
        let mut dias = Disassembler::new();
        dias.add_elf_symbols(image, 0);
        assert(Seq::<(u64, Seq<char>)>::empty() + added_symbols(image@, 0) =~= added_symbols(
            image@,
            0,
        ));
        dias.disassemble_image(image)
    }
}

} // verus!
