//! The guest's address space: a sparse map from page number to a page of
//! `PAGE_SIZE` bytes.
//!
//! The top byte of an address names its region. Region 0 holds the program
//! image, region 1 the heap, region 2 the dynamic linker, regions 3 to 127 the
//! mappings that `mmap` places itself, and the stack grows down from the top of
//! the address space, one page at a time, as stores touch the page below its
//! bottom.
//!
//! Contracts speak of a `MemoryView`: the pages as a mathematical map, the
//! program break, the stack bottom and the number of the next fresh region.

use vstd::prelude::*;
use crate::disassembler::{sorted, Disassembler, Symbols};
use crate::error::RVError;
use crate::files::FileDescriptor;
use crate::text::{push_char, text_from_bytes, utf8_lossy};
use vstd::slice::slice_subrange;
use crate::page_table::{
    contents, table_clone, table_contains, table_get, table_get_mut, table_insert, table_len,
    table_new, PageTable,
};

verus! {

pub const PAGE_BITS: u64 = 12;

pub const PAGE_SIZE: u64 = 4096;

pub const PAGE_MASK: u64 = 4095;

/// The number of pages in the address space.
pub const PAGE_COUNT: u64 = 0x0010_0000_0000_0000;

/// The highest address; the stack starts here and grows down.
pub const STACK_START: u64 = 0xFFFF_FFFF_FFFF_FFFF;

/// The first address of the page that holds `STACK_START`.
pub const STACK_TOP_PAGE: u64 = 0xFFFF_FFFF_FFFF_F000;

/// The size of a region: the addresses that share their top byte.
pub const REGION_SIZE: u64 = 0x0100_0000_0000_0000;

/// The first address of the heap.
pub const HEAP_START: u64 = 0x0100_0000_0000_0000;

/// The address at which the dynamic linker's image is placed.
pub const LINKER_START: u64 = 0x0200_0000_0000_0000;

/// The number of the first region that `mmap` hands out.
pub const FIRST_MMAP_REGION: u64 = 3;

/// The number of the last region that `mmap` hands out.
pub const LAST_MMAP_REGION: u64 = 127;

/// The address below which every mapping that `mmap` makes ends, so that its
/// address is no negative number.
pub const MMAP_LIMIT: u64 = 0x8000_0000_0000_0000;

/// The number of pages in a region.
pub const PAGES_PER_REGION: u64 = 0x0000_1000_0000_0000;

/// The number of the stack's region, the last.
pub const STACK_REGION_NUMBER: u64 = 255;

/// The first address of the region that is left to the stack: no mapping that
/// `mmap` makes reaches it.
pub const STACK_REGION: u64 = 0xFF00_0000_0000_0000;

/// The four values of the program's ELF header that the auxiliary vector
/// hands to the guest.
#[derive(Clone, Copy, Debug, PartialEq, Eq, Structural)]
pub struct ProgramHeaderInfo {
    pub entry: u64,
    pub address: u64,
    pub size: u64,
    pub number: u64,
}

impl Default for ProgramHeaderInfo {
    fn default() -> (info: ProgramHeaderInfo)
        ensures
            info == (ProgramHeaderInfo { entry: 0, address: 0, size: 0, number: 0 }),
    {
        ProgramHeaderInfo { entry: 0, address: 0, size: 0, number: 0 }
    }
}

/// The number of the page that holds `addr`.
pub open spec fn page_of(addr: u64) -> u64 {
    addr / PAGE_SIZE
}

/// The position of `addr` in its page.
pub open spec fn offset_of(addr: u64) -> int {
    (addr % PAGE_SIZE) as int
}

/// A page of zeros, as every page is when it is allocated.
pub open spec fn zero_page() -> Seq<u8> {
    Seq::new(PAGE_SIZE as nat, |i: int| 0u8)
}

/// `size` rounded up to a whole number of pages.
pub open spec fn round_up_page(size: u64) -> int {
    ((size + PAGE_MASK) / PAGE_SIZE as int) * PAGE_SIZE
}

/// The value that `count` bytes in little-endian order stand for, `count` being
/// 1, 2, 4 or 8: byte `i` supplies bits `8 * i` to `8 * i + 7`.
pub open spec fn le_value(bytes: Seq<u8>, count: int) -> u64 {
    if count == 1 {
        bytes[0] as u64
    } else if count == 2 {
        (bytes[0] as u64) | ((bytes[1] as u64) << 8)
    } else if count == 4 {
        (bytes[0] as u64) | ((bytes[1] as u64) << 8) | ((bytes[2] as u64) << 16) | ((
        bytes[3] as u64) << 24)
    } else {
        (bytes[0] as u64) | ((bytes[1] as u64) << 8) | ((bytes[2] as u64) << 16) | ((
        bytes[3] as u64) << 24) | ((bytes[4] as u64) << 32) | ((bytes[5] as u64) << 40) | ((
        bytes[6] as u64) << 48) | ((bytes[7] as u64) << 56)
    }
}

/// Byte `i` of `value`: bits `8 * i` to `8 * i + 7`.
pub open spec fn byte_of(value: u64, i: int) -> u8 {
    (value >> ((8 * i) as u64)) as u8
}

/// The first `count` bytes of `value` in little-endian order.
pub open spec fn le_bytes(value: u64, count: int) -> Seq<u8> {
    Seq::new(count as nat, |i: int| byte_of(value, i))
}

/// The state of an address space.
pub struct MemoryView {
    /// The bytes of each mapped page, by page number.
    pub pages: Map<u64, Seq<u8>>,
    /// The program break: the end of the heap.
    pub brk: u64,
    /// The lowest address of the stack.
    pub stack_bottom: u64,
    /// The number of the region that the next `mmap` without a hint gets.
    pub mmap_count: u64,
    /// The address of the guest's first instruction.
    pub entry: u64,
    /// What the auxiliary vector says of the program's headers.
    pub program_header: ProgramHeaderInfo,
    /// The program's symbols, in the order of their addresses.
    pub symbols: Symbols,
}

impl MemoryView {
    /// Every page has `PAGE_SIZE` bytes and a number below `PAGE_COUNT`; the
    /// stack is mapped from its bottom to the top of the address space; the
    /// break lies in the heap's region, on a page boundary; and the regions
    /// that `mmap` has yet to hand out are empty.
    pub open spec fn well_formed(self) -> bool {
        self.shaped() && self.fresh()
    }

    /// The regions from number `mmap_count` on hold no page, below the stack
    /// and below the stack's region.
    pub open spec fn fresh(self) -> bool {
        forall|page: u64| #[trigger]
            self.pages.contains_key(page) ==> page / PAGES_PER_REGION < self.mmap_count || page
                >= page_of(self.stack_bottom) || page >= page_of(STACK_REGION)
    }

    /// What `well_formed` says of the pages, the stack, the break and the
    /// symbols.
    pub open spec fn shaped(self) -> bool {
        &&& self.pages.dom().finite()
        &&& forall|page: u64| #[trigger]
            self.pages.contains_key(page) ==> page < PAGE_COUNT && self.pages[page].len()
                == PAGE_SIZE
        &&& self.stack_bottom % PAGE_SIZE == 0
        &&& self.stack_bottom <= STACK_TOP_PAGE
        &&& forall|page: u64|
            page_of(self.stack_bottom) <= page < PAGE_COUNT ==> #[trigger] self.pages.contains_key(
                page,
            )
        &&& HEAP_START <= self.brk <= HEAP_START + REGION_SIZE
        &&& self.brk % PAGE_SIZE == 0
        &&& FIRST_MMAP_REGION <= self.mmap_count <= STACK_REGION_NUMBER
        &&& sorted(self.symbols)
    }

    /// Whether `addr` lies in a mapped page.
    pub open spec fn mapped(self, addr: u64) -> bool {
        self.pages.contains_key(page_of(addr))
    }

    /// The byte at `addr`, which is mapped.
    pub open spec fn byte(self, addr: u64) -> u8
        recommends
            self.mapped(addr),
    {
        self.pages[page_of(addr)][offset_of(addr)]
    }

    /// Whether each of the `count` bytes from `addr` on exists and is mapped.
    pub open spec fn range_mapped(self, addr: u64, count: int) -> bool {
        &&& addr + count <= STACK_START + 1
        &&& forall|i: int| 0 <= i < count ==> #[trigger] self.mapped((addr + i) as u64)
    }

    /// The `count` bytes from `addr` on.
    pub open spec fn read(self, addr: u64, count: int) -> Seq<u8> {
        Seq::new(count as nat, |i: int| self.byte((addr + i) as u64))
    }

    /// What a load of `count` bytes at `addr` gives: the bytes, or nothing where
    /// one of them is not mapped.
    pub open spec fn load(self, addr: u64, count: int) -> Option<Seq<u8>> {
        if self.range_mapped(addr, count) {
            Some(self.read(addr, count))
        } else {
            None
        }
    }

    /// Whether a store at `addr` makes the stack grow: `addr` lies below the
    /// stack bottom, by a page at most.
    pub open spec fn in_growth_window(self, addr: u64) -> bool {
        addr < self.stack_bottom && self.stack_bottom - addr <= PAGE_SIZE
    }

    /// The state after the stack has grown by one page. The new page is zero,
    /// unless the page below the stack was mapped already, in which case it
    /// keeps its bytes.
    pub open spec fn grown(self) -> MemoryView {
        let bottom = (self.stack_bottom - PAGE_SIZE) as u64;
        MemoryView {
            pages: if self.pages.contains_key(page_of(bottom)) {
                self.pages
            } else {
                self.pages.insert(page_of(bottom), zero_page())
            },
            stack_bottom: bottom,
            ..self
        }
    }

    /// The state with the byte at `addr` replaced.
    pub open spec fn with_byte(self, addr: u64, value: u8) -> MemoryView {
        MemoryView {
            pages: self.pages.insert(
                page_of(addr),
                self.pages[page_of(addr)].update(offset_of(addr), value),
            ),
            ..self
        }
    }

    /// The state with the bytes from `addr` on replaced by `bytes`.
    pub open spec fn write(self, addr: u64, bytes: Seq<u8>) -> MemoryView
        decreases bytes.len(),
    {
        if bytes.len() == 0 {
            self
        } else {
            self.write(addr, bytes.drop_last()).with_byte(
                (addr + bytes.len() - 1) as u64,
                bytes.last(),
            )
        }
    }

    /// What a store of `bytes` at `addr` leaves: the stack grows first where
    /// `addr` lies in the growth window; the bytes are then written if every
    /// one of them is mapped, and else the store fails.
    pub open spec fn store(self, addr: u64, bytes: Seq<u8>) -> Option<MemoryView> {
        let base = if self.in_growth_window(addr) {
            self.grown()
        } else {
            self
        };
        if base.range_mapped(addr, bytes.len() as int) {
            Some(base.write(addr, bytes))
        } else {
            None
        }
    }

    /// What storing `bytes` one by one from `addr` on leaves, each byte with a
    /// store of its own, so that the stack can grow along the way; nothing
    /// where one of the stores fails.
    pub open spec fn store_each(self, addr: u64, bytes: Seq<u8>) -> Option<MemoryView>
        decreases bytes.len(),
    {
        if bytes.len() == 0 {
            Some(self)
        } else {
            match self.store_each(addr, bytes.drop_last()) {
                Some(before) => if addr + bytes.len() - 1 <= STACK_START {
                    before.store((addr + bytes.len() - 1) as u64, seq![bytes.last()])
                } else {
                    None
                },
                None => None,
            }
        }
    }

    /// What storing `bytes` one by one from `addr` on leaves where a store
    /// may fail: the bytes before the first that cannot be stored are
    /// written, and no other.
    pub open spec fn store_until_fault(self, addr: u64, bytes: Seq<u8>) -> MemoryView
        decreases bytes.len(),
    {
        if bytes.len() == 0 {
            self
        } else {
            match self.store_each(addr, bytes.drop_last()) {
                Some(before) => if addr + bytes.len() - 1 <= STACK_START {
                    match before.store((addr + bytes.len() - 1) as u64, seq![bytes.last()]) {
                        Some(after) => after,
                        None => before,
                    }
                } else {
                    before
                },
                None => self.store_until_fault(addr, bytes.drop_last()),
            }
        }
    }

    /// The state with the `count` pages from page `first` on mapped. With
    /// `clear`, each of them is a zero page; without, a page that was mapped
    /// keeps its bytes and only the others are zero pages.
    pub open spec fn with_page_range(self, first: u64, count: int, clear: bool) -> MemoryView {
        MemoryView {
            pages: Map::new(
                |page: u64| self.pages.contains_key(page) || first <= page < first + count,
                |page: u64|
                    if first <= page < first + count && (clear || !self.pages.contains_key(page)) {
                        zero_page()
                    } else {
                        self.pages[page]
                    },
            ),
            ..self
        }
    }

    /// The number of the first region that is empty after the `count` pages
    /// from page `first` on have been mapped: as before, or the region behind
    /// the last of these pages that lies below the stack's region.
    pub open spec fn reached(self, first: u64, count: int) -> u64 {
        if count <= 0 || first >= page_of(STACK_REGION) {
            self.mmap_count
        } else {
            let last = if first + count > page_of(STACK_REGION) {
                page_of(STACK_REGION) - 1
            } else {
                first + count - 1
            };
            if last / PAGES_PER_REGION as int + 1 > self.mmap_count {
                (last / PAGES_PER_REGION as int + 1) as u64
            } else {
                self.mmap_count
            }
        }
    }

    /// The state with the `count` pages from page `first` on mapped, as
    /// `with_page_range` maps them, and with the regions that these pages
    /// reach no longer among those that `mmap` hands out.
    pub open spec fn with_pages(self, first: u64, count: int, clear: bool) -> MemoryView {
        MemoryView {
            mmap_count: self.reached(first, count),
            ..self.with_page_range(first, count, clear)
        }
    }

    /// Whether `brk` accepts `new_end`: it lies in the heap's region, at or
    /// above the current break.
    pub open spec fn brk_accepts(self, new_end: u64) -> bool {
        new_end / REGION_SIZE == 1 && new_end >= self.brk
    }

    /// The state after `brk(new_end)`: where the request is accepted, the break
    /// is `new_end` rounded up to a page and the heap is mapped up to it.
    pub open spec fn after_brk(self, new_end: u64) -> MemoryView {
        if self.brk_accepts(new_end) {
            MemoryView {
                brk: round_up_page(new_end) as u64,
                ..self.with_pages(
                    page_of(self.brk),
                    round_up_page(new_end) / PAGE_SIZE as int - page_of(self.brk),
                    false,
                )
            }
        } else {
            self
        }
    }

    /// Whether `mmap(hint, size)` is within the limits. Without a hint, a
    /// fresh region is left, `size` fits one region, and the mapping ends
    /// below the stack. With a hint, the mapping ends at `MMAP_LIMIT` at most.
    pub open spec fn mmap_accepts(self, hint: u64, size: u64) -> bool {
        if hint == 0 {
            &&& self.mmap_count <= LAST_MMAP_REGION
            &&& size <= REGION_SIZE
            &&& REGION_SIZE * self.mmap_count + round_up_page(size) <= self.stack_bottom
        } else {
            hint < MMAP_LIMIT && hint + round_up_page(size) <= MMAP_LIMIT
        }
    }

    /// The address at which `mmap(hint, size)` places its mapping: the hint,
    /// or without a hint the start of the first region that is empty.
    pub open spec fn mmap_address(self, hint: u64) -> u64 {
        if hint == 0 {
            (REGION_SIZE * self.mmap_count) as u64
        } else {
            hint
        }
    }

    /// The state after `mmap(hint, size)`: where the request is accepted, every
    /// page that overlaps the mapping is a zero page, and the regions that the
    /// mapping reaches are no longer handed out; a mapping without a hint
    /// uses up its region even where it is empty.
    pub open spec fn after_mmap(self, hint: u64, size: u64) -> MemoryView {
        if !self.mmap_accepts(hint, size) {
            self
        } else {
            let addr = self.mmap_address(hint);
            let end = addr + round_up_page(size);
            let mapped = self.with_pages(
                page_of(addr),
                (end + PAGE_MASK) / PAGE_SIZE as int - page_of(addr),
                true,
            );
            MemoryView {
                mmap_count: if hint == 0 {
                    (self.mmap_count + 1) as u64
                } else {
                    mapped.mmap_count
                },
                ..mapped
            }
        }
    }

    /// Whether the mapping of `size` bytes at `start` is new in `after`: no
    /// byte of it was mapped in this state, and in `after` every byte of it
    /// is mapped and zero.
    pub open spec fn new_mapping(self, after: MemoryView, start: u64, size: u64) -> bool {
        forall|a: u64|
            start <= a < start + round_up_page(size) ==> !self.mapped(a) && #[trigger] after.mapped(
                a,
            ) && after.byte(a) == 0
    }
}

/// The address space of a new guest: one zero page at the top for the stack,
/// an empty heap, and no mapping.
pub open spec fn initial_view() -> MemoryView {
    MemoryView {
        pages: Map::empty().insert(page_of(STACK_TOP_PAGE), zero_page()),
        brk: HEAP_START,
        stack_bottom: STACK_TOP_PAGE,
        mmap_count: FIRST_MMAP_REGION,
        entry: 0,
        program_header: ProgramHeaderInfo { entry: 0, address: 0, size: 0, number: 0 },
        symbols: Seq::empty(),
    }
}


impl MemoryView {
    /// The value that a load of `count` bytes at `addr` gives, `count` being 1,
    /// 2, 4 or 8.
    pub open spec fn load_value(self, addr: u64, count: int) -> Option<u64> {
        match self.load(addr, count) {
            Some(bytes) => Some(le_value(bytes, count)),
            None => None,
        }
    }

    /// What a store of the low `count` bytes of `value` at `addr` leaves.
    pub open spec fn store_value(self, addr: u64, value: u64, count: int) -> Option<MemoryView> {
        self.store(addr, le_bytes(value, count))
    }
}

/// The guest's address space.
pub struct Memory {
    pages: PageTable,
    /// The program break.
    heap_pointer: u64,
    /// The lowest address of the stack, on a page boundary.
    stack_pointer: u64,
    /// The number of the next fresh region for `mmap`.
    mmap_count: u64,
    /// The address of the first instruction.
    entry: u64,
    program_header: ProgramHeaderInfo,
    disassembler: Disassembler,
}

impl View for Memory {
    type V = MemoryView;

    closed spec fn view(&self) -> MemoryView {
        MemoryView {
            pages: contents(self.pages),
            brk: self.heap_pointer,
            stack_bottom: self.stack_pointer,
            mmap_count: self.mmap_count,
            entry: self.entry,
            program_header: self.program_header,
            symbols: self.disassembler@,
        }
    }
}

/// Returns a new page: `PAGE_SIZE` zero bytes.
fn new_page() -> (page: Vec<u8>)
    ensures
        page@ == zero_page(),
{
    let page = vec![0u8; 4096];
    assert(page@ =~= zero_page());
    page
}

impl Memory {
    /// The invariant of the address space, stated on its view.
    pub open spec fn well_formed(&self) -> bool {
        self@.well_formed()
    }

    /// Returns the address space of a new guest: a stack of one zero page at
    /// the top, an empty heap and no mapping.
    pub fn new() -> (memory: Memory)
        ensures
            memory@ == initial_view(),
            memory.well_formed(),
    {
        let mut pages = table_new();
        assert(pages@.dom() =~= Set::<u64>::empty());
        table_insert(&mut pages, STACK_TOP_PAGE / PAGE_SIZE, new_page());
        let memory = Memory {
            pages,
            heap_pointer: HEAP_START,
            stack_pointer: STACK_TOP_PAGE,
            mmap_count: FIRST_MMAP_REGION,
            entry: 0,
            program_header: ProgramHeaderInfo { entry: 0, address: 0, size: 0, number: 0 },
            disassembler: Disassembler::new(),
        };
        assert(memory@.pages =~= initial_view().pages);
        assert(memory@.pages.dom() =~= Set::<u64>::empty().insert(page_of(STACK_TOP_PAGE)));
        memory
    }

    /// Returns the program break.
    pub fn heap_end(&self) -> (addr: u64)
        ensures
            addr == self@.brk,
    {
        self.heap_pointer
    }

    /// Returns the address of the guest's first instruction.
    pub fn entry(&self) -> (addr: u64)
        ensures
            addr == self@.entry,
    {
        self.entry
    }

    /// Sets the address of the guest's first instruction.
    pub fn set_entry(&mut self, addr: u64)
        ensures
            final(self)@ == (MemoryView { entry: addr, ..old(self)@ }),
    {
        self.entry = addr;
    }

    /// Returns what the auxiliary vector says of the program's headers.
    pub fn program_header(&self) -> (info: ProgramHeaderInfo)
        ensures
            info == self@.program_header,
    {
        self.program_header
    }

    /// Sets what the auxiliary vector says of the program's headers.
    pub fn set_program_header(&mut self, info: ProgramHeaderInfo)
        ensures
            final(self)@ == (MemoryView { program_header: info, ..old(self)@ }),
    {
        self.program_header = info;
    }

    /// Returns the symbol table of the program.
    pub fn disassembler(&self) -> (disassembler: &Disassembler)
        ensures
            disassembler@ == self@.symbols,
    {
        &self.disassembler
    }

    /// Replaces the symbol table of the program.
    pub fn set_disassembler(&mut self, disassembler: Disassembler)
        requires
            disassembler.well_formed(),
        ensures
            final(self)@ == (MemoryView { symbols: disassembler@, ..old(self)@ }),
    {
        self.disassembler = disassembler;
    }

    /// Returns the lowest address of the stack.
    pub fn stack_bottom(&self) -> (addr: u64)
        ensures
            addr == self@.stack_bottom,
    {
        self.stack_pointer
    }

    /// Returns whether `addr` lies in a mapped page.
    pub fn is_mapped(&self, addr: u64) -> (mapped: bool)
        ensures
            mapped == self@.mapped(addr),
    {
        table_contains(&self.pages, addr / PAGE_SIZE)
    }

    /// Reads `count` bytes from `addr` on into the start of a buffer.
    fn read_bytes(&self, addr: u64, count: usize) -> (r: Result<[u8; 8], RVError>)
        requires
            self.well_formed(),
            1 <= count <= 8,
        ensures
            match r {
                Ok(buf) => self@.load(addr, count as int) == Some(buf@.subrange(0, count as int)),
                Err(e) => e == RVError::SegmentationFault && self@.load(addr, count as int)
                    is None,
            },
    {
        let mut buf = [0u8; 8];
        let offset = (addr % PAGE_SIZE) as usize;
        if offset + count <= PAGE_SIZE as usize {
            // every byte lies in one page
            match table_get(&self.pages, addr / PAGE_SIZE) {
                None => {
                    assert(!self@.mapped((addr + 0) as u64));
                    Err(RVError::SegmentationFault)
                },
                Some(page) => {
                    assert(self@.pages.contains_key(page_of(addr)));
                    let mut i: usize = 0;
                    while i < count
                        invariant
                            self.well_formed(),
                            1 <= count <= 8,
                            i <= count,
                            offset == addr % PAGE_SIZE,
                            offset + count <= PAGE_SIZE,
                            self.pages@.contains_key(page_of(addr)),
                            *page == self.pages@[page_of(addr)],
                            page@.len() == PAGE_SIZE,
                            forall|j: int|
                                0 <= j < i ==> buf@[j] == self@.byte((addr + j) as u64),
                        decreases count - i,
                    {
                        assert(page_of((addr + i) as u64) == page_of(addr));
                        assert(offset_of((addr + i) as u64) == offset + i);
                        buf[i] = page[offset + i];
                        i += 1;
                    }
                    assert forall|j: int| 0 <= j < count implies #[trigger] self@.mapped(
                        (addr + j) as u64,
                    ) by {
                        assert(page_of((addr + j) as u64) == page_of(addr));
                    }
                    assert(buf@.subrange(0, count as int) =~= self@.read(addr, count as int));
                    Ok(buf)
                },
            }
        } else {
            // the bytes lie in two pages
            let mut i: usize = 0;
            while i < count
                invariant
                    self.well_formed(),
                    1 <= count <= 8,
                    i <= count,
                    addr + i <= STACK_START + 1,
                    forall|j: int| 0 <= j < i ==> #[trigger] self@.mapped((addr + j) as u64),
                    forall|j: int| 0 <= j < i ==> buf@[j] == self@.byte((addr + j) as u64),
                decreases count - i,
            {
                if addr > STACK_START - i as u64 {
                    return Err(RVError::SegmentationFault);
                }
                let a = addr + i as u64;
                match table_get(&self.pages, a / PAGE_SIZE) {
                    None => {
                        assert(!self@.mapped((addr + i) as u64));
                        return Err(RVError::SegmentationFault);
                    },
                    Some(page) => {
                        assert(self@.pages.contains_key(page_of(a)));
                        buf[i] = page[(a % PAGE_SIZE) as usize];
                    },
                }
                i += 1;
            }
            assert(buf@.subrange(0, count as int) =~= self@.read(addr, count as int));
            Ok(buf)
        }
    }

    /// Loads the byte at `addr`. Fails with a segmentation fault where `addr`
    /// is not mapped; a load never makes the stack grow.
    pub fn load_u8(&self, addr: u64) -> (r: Result<u8, RVError>)
        requires
            self.well_formed(),
        ensures
            match r {
                Ok(value) => self@.load_value(addr, 1) == Some(value as u64),
                Err(e) => e == RVError::SegmentationFault && self@.load_value(addr, 1) is None,
            },
    {
        match self.read_bytes(addr, 1) {
            Ok(buf) => Ok(buf[0]),
            Err(e) => Err(e),
        }
    }

    /// Loads the two bytes at `addr` as a little-endian number. Fails with a
    /// segmentation fault where one of them is not mapped.
    pub fn load_u16(&self, addr: u64) -> (r: Result<u16, RVError>)
        requires
            self.well_formed(),
        ensures
            match r {
                Ok(value) => self@.load_value(addr, 2) == Some(value as u64),
                Err(e) => e == RVError::SegmentationFault && self@.load_value(addr, 2) is None,
            },
    {
        match self.read_bytes(addr, 2) {
            Ok(buf) => {
                let b0 = buf[0];
                let b1 = buf[1];
                let value = (b0 as u16) | ((b1 as u16) << 8);
                assert(value as u64 == (b0 as u64) | ((b1 as u64) << 8)) by (bit_vector)
                    requires
                        value == (b0 as u16) | ((b1 as u16) << 8),
                ;
                Ok(value)
            },
            Err(e) => Err(e),
        }
    }

    /// Loads the four bytes at `addr` as a little-endian number. Fails with a
    /// segmentation fault where one of them is not mapped.
    pub fn load_u32(&self, addr: u64) -> (r: Result<u32, RVError>)
        requires
            self.well_formed(),
        ensures
            match r {
                Ok(value) => self@.load_value(addr, 4) == Some(value as u64),
                Err(e) => e == RVError::SegmentationFault && self@.load_value(addr, 4) is None,
            },
    {
        match self.read_bytes(addr, 4) {
            Ok(buf) => {
                let b0 = buf[0];
                let b1 = buf[1];
                let b2 = buf[2];
                let b3 = buf[3];
                let value = (b0 as u32) | ((b1 as u32) << 8) | ((b2 as u32) << 16) | ((b3 as u32)
                    << 24);
                assert(value as u64 == (b0 as u64) | ((b1 as u64) << 8) | ((b2 as u64) << 16) | ((
                b3 as u64) << 24)) by (bit_vector)
                    requires
                        value == (b0 as u32) | ((b1 as u32) << 8) | ((b2 as u32) << 16) | ((
                        b3 as u32) << 24),
                ;
                Ok(value)
            },
            Err(e) => Err(e),
        }
    }

    /// Loads the eight bytes at `addr` as a little-endian number. Fails with a
    /// segmentation fault where one of them is not mapped.
    pub fn load_u64(&self, addr: u64) -> (r: Result<u64, RVError>)
        requires
            self.well_formed(),
        ensures
            match r {
                Ok(value) => self@.load_value(addr, 8) == Some(value),
                Err(e) => e == RVError::SegmentationFault && self@.load_value(addr, 8) is None,
            },
    {
        match self.read_bytes(addr, 8) {
            Ok(buf) => {
                let value = (buf[0] as u64) | ((buf[1] as u64) << 8) | ((buf[2] as u64) << 16) | ((
                buf[3] as u64) << 24) | ((buf[4] as u64) << 32) | ((buf[5] as u64) << 40) | ((
                buf[6] as u64) << 48) | ((buf[7] as u64) << 56);
                Ok(value)
            },
            Err(e) => Err(e),
        }
    }
}


impl Memory {
    /// Loads `count` bytes at `addr` as a little-endian number, `count` being
    /// 1, 2, 4 or 8. Fails with a segmentation fault where one of the bytes is
    /// not mapped; a load never makes the stack grow.
    pub fn load(&self, addr: u64, count: usize) -> (r: Result<u64, RVError>)
        requires
            self.well_formed(),
            count == 1 || count == 2 || count == 4 || count == 8,
        ensures
            match r {
                Ok(value) => self@.load_value(addr, count as int) == Some(value),
                Err(e) => e == RVError::SegmentationFault && self@.load_value(addr, count as int)
                    is None,
            },
    {
        if count == 1 {
            match self.load_u8(addr) {
                Ok(value) => Ok(value as u64),
                Err(e) => Err(e),
            }
        } else if count == 2 {
            match self.load_u16(addr) {
                Ok(value) => Ok(value as u64),
                Err(e) => Err(e),
            }
        } else if count == 4 {
            match self.load_u32(addr) {
                Ok(value) => Ok(value as u64),
                Err(e) => Err(e),
            }
        } else {
            self.load_u64(addr)
        }
    }

    /// Extends the stack by one page.
    fn grow_stack(&mut self)
        requires
            old(self).well_formed(),
            old(self)@.stack_bottom >= PAGE_SIZE,
        ensures
            final(self).well_formed(),
            final(self)@ == old(self)@.grown(),
    {
        let bottom = self.stack_pointer - PAGE_SIZE;
        if !table_contains(&self.pages, bottom / PAGE_SIZE) {
            table_insert(&mut self.pages, bottom / PAGE_SIZE, new_page());
        }
        self.stack_pointer = bottom;
        proof {
            assert(self@.pages =~= old(self)@.grown().pages);
            assert forall|page: u64| #[trigger] self@.pages.contains_key(page) implies page
                < PAGE_COUNT && self@.pages[page].len() == PAGE_SIZE by {
                if page != page_of(bottom) {
                    assert(old(self)@.pages.contains_key(page));
                } else if old(self)@.pages.contains_key(page) {
                } else {
                }
            }
            assert forall|page: u64| page_of(self@.stack_bottom) <= page < PAGE_COUNT implies
                #[trigger] self@.pages.contains_key(page) by {
                if page != page_of(bottom) {
                    assert(page_of(old(self)@.stack_bottom) <= page);
                    assert(old(self)@.pages.contains_key(page));
                }
            }
        }
    }

    /// Writes the byte at `addr`, which is mapped.
    fn poke(&mut self, addr: u64, value: u8)
        requires
            old(self).well_formed(),
            old(self)@.mapped(addr),
        ensures
            final(self).well_formed(),
            final(self)@ == old(self)@.with_byte(addr, value),
    {
        let offset = (addr % PAGE_SIZE) as usize;
        match table_get_mut(&mut self.pages, addr / PAGE_SIZE) {
            Some(page) => {
                assert(old(self)@.pages.contains_key(page_of(addr)));
                page.set(offset, value);
            },
            None => {},
        }
        proof {
            assert(self@.pages =~= old(self)@.with_byte(addr, value).pages);
            assert(self@.pages.dom() =~= old(self)@.pages.dom());
            assert forall|page: u64| #[trigger] self@.pages.contains_key(page) implies page
                < PAGE_COUNT && self@.pages[page].len() == PAGE_SIZE by {
                assert(old(self)@.pages.contains_key(page));
            }
            assert forall|page: u64| page_of(self@.stack_bottom) <= page < PAGE_COUNT implies
                #[trigger] self@.pages.contains_key(page) by {
                assert(old(self)@.pages.contains_key(page));
            }
        }
    }

    /// Stores the first `count` bytes of `buf` from `addr` on, after letting the
    /// stack grow where `addr` lies in the growth window.
    fn write_bytes(&mut self, addr: u64, buf: &[u8; 8], count: usize) -> (r: Result<(), RVError>)
        requires
            old(self).well_formed(),
            1 <= count <= 8,
        ensures
            final(self).well_formed(),
            match r {
                Ok(()) => old(self)@.store(addr, buf@.subrange(0, count as int)) == Some(
                    final(self)@,
                ),
                Err(e) => e == RVError::SegmentationFault && old(self)@.store(
                    addr,
                    buf@.subrange(0, count as int),
                ) is None && final(self)@ == old(self)@,
            },
    {
        let ghost bytes = buf@.subrange(0, count as int);
        if addr < self.stack_pointer && self.stack_pointer - addr <= PAGE_SIZE {
            self.grow_stack();
        }
        let ghost base = self@;
        if addr > STACK_START - (count as u64 - 1) {
            return Err(RVError::SegmentationFault);
        }
        let last = addr + (count as u64 - 1);
        if !table_contains(&self.pages, addr / PAGE_SIZE) {
            assert(!base.mapped((addr + 0) as u64));
            return Err(RVError::SegmentationFault);
        }
        if !table_contains(&self.pages, last / PAGE_SIZE) {
            assert(!base.mapped((addr + (count - 1)) as u64));
            return Err(RVError::SegmentationFault);
        }
        proof {
            assert forall|j: int| 0 <= j < count implies #[trigger] base.mapped(
                (addr + j) as u64,
            ) by {
                assert(page_of((addr + j) as u64) == page_of(addr) || page_of((addr + j) as u64)
                    == page_of(last));
            }
            assert(base.range_mapped(addr, count as int));
            assert(bytes.subrange(0, 0) =~= Seq::<u8>::empty());
        }
        let mut i: usize = 0;
        while i < count
            invariant
                self.well_formed(),
                1 <= count <= 8,
                i <= count,
                addr + count <= STACK_START + 1,
                bytes == buf@.subrange(0, count as int),
                base.range_mapped(addr, count as int),
                self@ == base.write(addr, bytes.subrange(0, i as int)),
                self@.pages.dom() == base.pages.dom(),
            decreases count - i,
        {
            let a = addr + i as u64;
            proof {
                assert(base.mapped((addr + i) as u64));
                assert(bytes.subrange(0, i + 1).drop_last() =~= bytes.subrange(0, i as int));
            }
            self.poke(a, buf[i]);
            i += 1;
        }
        assert(bytes.subrange(0, count as int) =~= bytes);
        Ok(())
    }

    /// Stores the low `count` bytes of `value` at `addr` in little-endian
    /// order, `count` being 1, 2, 4 or 8. Where `addr` lies below the stack
    /// bottom by a page at most, the stack first grows by one page, and the
    /// store then succeeds. Anywhere else the store fails with a segmentation
    /// fault, and changes nothing, where one of the bytes is not mapped.
    pub fn store(&mut self, addr: u64, value: u64, count: usize) -> (r: Result<(), RVError>)
        requires
            old(self).well_formed(),
            count == 1 || count == 2 || count == 4 || count == 8,
        ensures
            final(self).well_formed(),
            match r {
                Ok(()) => old(self)@.store_value(addr, value, count as int) == Some(final(self)@),
                Err(e) => e == RVError::SegmentationFault && old(self)@.store_value(
                    addr,
                    value,
                    count as int,
                ) is None && final(self)@ == old(self)@,
            },
    {
        let buf: [u8; 8] = [
            value as u8,
            (value >> 8) as u8,
            (value >> 16) as u8,
            (value >> 24) as u8,
            (value >> 32) as u8,
            (value >> 40) as u8,
            (value >> 48) as u8,
            (value >> 56) as u8,
        ];
        proof {
            assert(value >> 0 == value) by (bit_vector);
            assert(buf@.subrange(0, count as int) =~= le_bytes(value, count as int));
        }
        self.write_bytes(addr, &buf, count)
    }

    /// Stores one byte at `addr`; see `store`.
    pub fn store_u8(&mut self, addr: u64, data: u8) -> (r: Result<(), RVError>)
        requires
            old(self).well_formed(),
        ensures
            final(self).well_formed(),
            match r {
                Ok(()) => old(self)@.store_value(addr, data as u64, 1) == Some(final(self)@),
                Err(e) => e == RVError::SegmentationFault && old(self)@.store_value(
                    addr,
                    data as u64,
                    1,
                ) is None && final(self)@ == old(self)@,
            },
    {
        self.store(addr, data as u64, 1)
    }

    /// Stores two bytes at `addr`; see `store`.
    pub fn store_u16(&mut self, addr: u64, data: u16) -> (r: Result<(), RVError>)
        requires
            old(self).well_formed(),
        ensures
            final(self).well_formed(),
            match r {
                Ok(()) => old(self)@.store_value(addr, data as u64, 2) == Some(final(self)@),
                Err(e) => e == RVError::SegmentationFault && old(self)@.store_value(
                    addr,
                    data as u64,
                    2,
                ) is None && final(self)@ == old(self)@,
            },
    {
        self.store(addr, data as u64, 2)
    }

    /// Stores four bytes at `addr`; see `store`.
    pub fn store_u32(&mut self, addr: u64, data: u32) -> (r: Result<(), RVError>)
        requires
            old(self).well_formed(),
        ensures
            final(self).well_formed(),
            match r {
                Ok(()) => old(self)@.store_value(addr, data as u64, 4) == Some(final(self)@),
                Err(e) => e == RVError::SegmentationFault && old(self)@.store_value(
                    addr,
                    data as u64,
                    4,
                ) is None && final(self)@ == old(self)@,
            },
    {
        self.store(addr, data as u64, 4)
    }

    /// Stores eight bytes at `addr`; see `store`.
    pub fn store_u64(&mut self, addr: u64, data: u64) -> (r: Result<(), RVError>)
        requires
            old(self).well_formed(),
        ensures
            final(self).well_formed(),
            match r {
                Ok(()) => old(self)@.store_value(addr, data, 8) == Some(final(self)@),
                Err(e) => e == RVError::SegmentationFault && old(self)@.store_value(addr, data, 8)
                    is None && final(self)@ == old(self)@,
            },
    {
        self.store(addr, data, 8)
    }
}


/// The first `len` bytes of `bytes` followed by zeros: `len` bytes in all.
pub open spec fn padded(bytes: Seq<u8>, len: int) -> Seq<u8> {
    Seq::new(
        len as nat,
        |i: int|
            if i < bytes.len() {
                bytes[i]
            } else {
                0u8
            },
    )
}

/// The number of pages that hold `size` bytes.
pub open spec fn pages_for(size: u64) -> int {
    (size + PAGE_MASK) / PAGE_SIZE as int
}

impl Memory {
    /// Maps the `count` pages from page `first` on.
    pub(crate) fn map_pages(&mut self, first: u64, count: u64, clear: bool)
        requires
            old(self).well_formed(),
            first + count <= PAGE_COUNT,
        ensures
            final(self).well_formed(),
            final(self)@ == old(self)@.with_pages(first, count as int, clear),
    {
        let mut i: u64 = 0;
        assert(self@.pages =~= old(self)@.with_page_range(first, 0, clear).pages);
        while i < count
            invariant
                self@.shaped(),
                i <= count,
                first + count <= PAGE_COUNT,
                self@ == old(self)@.with_page_range(first, i as int, clear),
            decreases count - i,
        {
            let page = first + i;
            let ghost before = self@;
            if clear || !table_contains(&self.pages, page) {
                table_insert(&mut self.pages, page, new_page());
                assert(self@.pages =~= before.pages.insert(page, zero_page()));
            }
            i += 1;
            proof {
                let target = old(self)@.with_page_range(first, i as int, clear).pages;
                assert(before.pages == old(self)@.with_page_range(first, i - 1, clear).pages);
                assert forall|p: u64| self@.pages.contains_key(p) <==> target.contains_key(p) by {
                    if p != page {
                        assert(self@.pages.contains_key(p) <==> before.pages.contains_key(p));
                    }
                }
                assert forall|p: u64| self@.pages.contains_key(p) implies self@.pages[p] == target[p] by {
                    if p != page {
                        assert(self@.pages[p] == before.pages[p]);
                        assert(before.pages[p] == target[p]);
                    } else if clear {
                        assert(self@.pages[p] == zero_page());
                        assert(target[p] == zero_page());
                    } else if before.pages.contains_key(page) {
                        assert(self@.pages[p] == before.pages[p]);
                        assert(old(self)@.pages.contains_key(p));
                        assert(target[p] == old(self)@.pages[p]);
                    } else {
                        assert(self@.pages[p] == zero_page());
                        assert(target[p] == zero_page());
                    }
                }
                assert(self@.pages =~= target);
                assert(self@.pages.dom() =~= before.pages.dom().insert(page));
                assert forall|p: u64| #[trigger] self@.pages.contains_key(p) implies p
                    < PAGE_COUNT && self@.pages[p].len() == PAGE_SIZE by {
                    if p != page {
                        assert(before.pages.contains_key(p));
                    }
                }
                assert forall|p: u64| page_of(self@.stack_bottom) <= p < PAGE_COUNT implies
                    #[trigger] self@.pages.contains_key(p) by {
                    assert(before.pages.contains_key(p));
                }
            }
        }
        // the regions that the pages reach are no longer handed out
        if count > 0 && first < STACK_REGION / PAGE_SIZE {
            let last = if first + count > STACK_REGION / PAGE_SIZE {
                STACK_REGION / PAGE_SIZE - 1
            } else {
                first + count - 1
            };
            let region = last / PAGES_PER_REGION + 1;
            if region > self.mmap_count {
                self.mmap_count = region;
            }
        }
        proof {
            assert forall|p: u64| #[trigger] self@.pages.contains_key(p) implies p
                / PAGES_PER_REGION < self@.mmap_count || p >= page_of(self@.stack_bottom) || p
                >= page_of(STACK_REGION) by {
                if old(self)@.pages.contains_key(p) {
                } else {
                    assert(first <= p < first + count);
                }
            }
        }
    }

    /// Sets the program break. A request is accepted where `new_end` lies in
    /// the heap's region, at or above the current break: the break becomes
    /// `new_end` rounded up to a page, and the heap is mapped up to it, page by
    /// page, each new page zero. Any other request, `brk(0)` among them,
    /// changes nothing. Returns the break as it is after the call.
    pub fn brk(&mut self, new_end: u64) -> (new_break: u64)
        requires
            old(self).well_formed(),
        ensures
            final(self).well_formed(),
            final(self)@ == old(self)@.after_brk(new_end),
            new_break == final(self)@.brk,
    {
        if new_end / REGION_SIZE != 1 || new_end < self.heap_pointer {
            return self.heap_pointer;
        }
        let target = ((new_end + PAGE_MASK) / PAGE_SIZE) * PAGE_SIZE;
        let first = self.heap_pointer / PAGE_SIZE;
        let count = target / PAGE_SIZE - first;
        self.map_pages(first, count, false);
        self.heap_pointer = target;
        target
    }

    /// Maps `size` bytes, rounded up to whole pages, and returns the address
    /// of the mapping, which is no negative number. With `addr == 0` the
    /// mapping gets a fresh region of its own, in which nothing was mapped
    /// before; else it is placed at `addr`. Every page that overlaps the
    /// mapping becomes a zero page, whatever it held. Returns -1, and changes
    /// nothing, where the limits are exceeded: no fresh region is left,
    /// `size` is more than a region holds, the fresh region would reach the
    /// stack, or a mapping at `addr` would end above `MMAP_LIMIT`.
    pub fn mmap(&mut self, addr: u64, size: u64) -> (start: i64)
        requires
            old(self).well_formed(),
        ensures
            final(self).well_formed(),
            final(self)@ == old(self)@.after_mmap(addr, size),
            start == if old(self)@.mmap_accepts(addr, size) {
                old(self)@.mmap_address(addr) as i64
            } else {
                -1i64
            },
            start >= -1,
            start >= 0 ==> start == old(self)@.mmap_address(addr),
            start >= 0 && addr == 0 ==> start % 4096 == 0 && old(self)@.new_mapping(
                final(self)@,
                start as u64,
                size,
            ),
    {
        if addr == 0 {
            if self.mmap_count > LAST_MMAP_REGION || size > REGION_SIZE {
                return -1;
            }
            let start = REGION_SIZE * self.mmap_count;
            let length = ((size + PAGE_MASK) / PAGE_SIZE) * PAGE_SIZE;
            if length > self.stack_pointer || start > self.stack_pointer - length {
                return -1;
            }
            let count = (size + PAGE_MASK) / PAGE_SIZE;
            self.map_pages(start / PAGE_SIZE, count, true);
            self.mmap_count = start / REGION_SIZE + 1;
            proof {
                crate::memory_facts::lemma_fresh_region_is_empty(old(self)@, size);
                assert forall|a: u64| start <= a < start + round_up_page(size) implies !old(
                    self,
                )@.mapped(a) && #[trigger] self@.mapped(a) && self@.byte(a) == 0 by {
                    let p = page_of(a);
                    assert(page_of(start) <= p < page_of(start) + count);
                }
            }
            start as i64
        } else {
            if addr >= MMAP_LIMIT || size > MMAP_LIMIT {
                return -1;
            }
            let length = ((size + PAGE_MASK) / PAGE_SIZE) * PAGE_SIZE;
            if length > MMAP_LIMIT || addr > MMAP_LIMIT - length {
                return -1;
            }
            let end = addr + length;
            let first = addr / PAGE_SIZE;
            let count = (end + PAGE_MASK) / PAGE_SIZE - first;
            self.map_pages(first, count, true);
            addr as i64
        }
    }

    /// Copies `s` to `addr`, `len` bytes in all: where `s` is shorter the rest
    /// is zeros, where it is longer the rest of `s` is left out. Each byte is
    /// stored on its own, so the stack grows as the copy moves down into it.
    /// Fails with a segmentation fault at the first byte that cannot be
    /// stored; the bytes before it stay written, and no other.
    pub fn write_n(&mut self, s: &[u8], addr: u64, len: u64) -> (r: Result<(), RVError>)
        requires
            old(self).well_formed(),
        ensures
            final(self).well_formed(),
            match r {
                Ok(()) => old(self)@.store_each(addr, padded(s@, len as int)) == Some(
                    final(self)@,
                ),
                Err(e) => e == RVError::SegmentationFault && old(self)@.store_each(
                    addr,
                    padded(s@, len as int),
                ) is None && final(self)@ == old(self)@.store_until_fault(
                    addr,
                    padded(s@, len as int),
                ),
            },
    {
        let ghost data = padded(s@, len as int);
        let mut i: u64 = 0;
        assert(data.subrange(0, 0) =~= Seq::<u8>::empty());
        while i < len
            invariant
                self.well_formed(),
                i <= len,
                data == padded(s@, len as int),
                old(self)@.store_each(addr, data.subrange(0, i as int)) == Some(self@),
            decreases len - i,
        {
            let byte = if i < s.len() as u64 {
                s[i as usize]
            } else {
                0u8
            };
            proof {
                assert(data.subrange(0, i + 1).drop_last() =~= data.subrange(0, i as int));
                assert(data.subrange(0, i + 1).last() == byte);
                assert(le_bytes(byte as u64, 1) =~= seq![byte]) by {
                    assert(byte as u64 >> 0 == byte as u64) by (bit_vector);
                }
            }
            if addr > STACK_START - i {
                proof {
                    lemma_store_each_fails_on(old(self)@, addr, data, i + 1);
                    lemma_store_until_fault_at(old(self)@, addr, data, i + 1);
                }
                return Err(RVError::SegmentationFault);
            }
            match self.store_u8(addr + i, byte) {
                Ok(()) => {},
                Err(e) => {
                    proof {
                        lemma_store_each_fails_on(old(self)@, addr, data, i + 1);
                        lemma_store_until_fault_at(old(self)@, addr, data, i + 1);
                    }
                    return Err(e);
                },
            }
            i += 1;
        }
        assert(data.subrange(0, len as int) =~= data);
        Ok(())
    }

    /// Writes `data` over mapped addresses from `addr` on.
    pub(crate) fn write_mapped(&mut self, addr: u64, data: &[u8])
        requires
            old(self).well_formed(),
            old(self)@.range_mapped(addr, data@.len() as int),
        ensures
            final(self).well_formed(),
            final(self)@ == old(self)@.write(addr, data@),
    {
        let ghost base = self@;
        let mut i: usize = 0;
        assert(data@.subrange(0, 0) =~= Seq::<u8>::empty());
        while i < data.len()
            invariant
                self.well_formed(),
                i <= data.len(),
                base == old(self)@,
                base.range_mapped(addr, data@.len() as int),
                self@ == base.write(addr, data@.subrange(0, i as int)),
                self@.pages.dom() == base.pages.dom(),
            decreases data.len() - i,
        {
            proof {
                assert(data@.subrange(0, i + 1).drop_last() =~= data@.subrange(0, i as int));
                assert(base.mapped((addr + i) as u64));
            }
            self.poke(addr + i as u64, data[i]);
            i += 1;
        }
        assert(data@.subrange(0, data@.len() as int) =~= data@);
    }

    /// Sets the `len` bytes from `addr` on to `value`, each with a store of its
    /// own. Fails with a segmentation fault at the first byte that cannot be
    /// stored; the bytes before it stay written.
    pub fn fill(&mut self, addr: u64, value: u8, len: u64) -> (r: Result<(), RVError>)
        requires
            old(self).well_formed(),
        ensures
            final(self).well_formed(),
            match r {
                Ok(()) => old(self)@.store_each(addr, Seq::new(len as nat, |i: int| value))
                    == Some(final(self)@),
                Err(e) => e == RVError::SegmentationFault && old(self)@.store_each(
                    addr,
                    Seq::new(len as nat, |i: int| value),
                ) is None && final(self)@ == old(self)@.store_until_fault(
                    addr,
                    Seq::new(len as nat, |i: int| value),
                ),
            },
    {
        let ghost data = Seq::new(len as nat, |i: int| value);
        let mut i: u64 = 0;
        assert(data.subrange(0, 0) =~= Seq::<u8>::empty());
        while i < len
            invariant
                self.well_formed(),
                i <= len,
                data == Seq::new(len as nat, |i: int| value),
                old(self)@.store_each(addr, data.subrange(0, i as int)) == Some(self@),
            decreases len - i,
        {
            proof {
                assert(data.subrange(0, i + 1).drop_last() =~= data.subrange(0, i as int));
                assert(data.subrange(0, i + 1).last() == value);
                assert(le_bytes(value as u64, 1) =~= seq![value]) by {
                    assert(value as u64 >> 0 == value as u64) by (bit_vector);
                }
            }
            if addr > STACK_START - i {
                proof {
                    lemma_store_each_fails_on(old(self)@, addr, data, i + 1);
                    lemma_store_until_fault_at(old(self)@, addr, data, i + 1);
                }
                return Err(RVError::SegmentationFault);
            }
            match self.store_u8(addr + i, value) {
                Ok(()) => {},
                Err(e) => {
                    proof {
                        lemma_store_each_fails_on(old(self)@, addr, data, i + 1);
                        lemma_store_until_fault_at(old(self)@, addr, data, i + 1);
                    }
                    return Err(e);
                },
            }
            i += 1;
        }
        assert(data.subrange(0, len as int) =~= data);
        Ok(())
    }

    /// Returns the number of bytes that the mapped pages hold, or `u64::MAX`
    /// where that number is larger.
    pub fn usage(&self) -> (bytes: u64)
        requires
            self.well_formed(),
        ensures
            bytes == if self@.pages.dom().len() * PAGE_SIZE <= u64::MAX {
                (self@.pages.dom().len() * PAGE_SIZE) as u64
            } else {
                u64::MAX
            },
    {
        let count = table_len(&self.pages);
        assert(self@.pages.dom() =~= self.pages@.dom());
        if count as u64 <= u64::MAX / PAGE_SIZE {
            count as u64 * PAGE_SIZE
        } else {
            u64::MAX
        }
    }

    /// Returns an address space that holds `data` from address 0 on, in
    /// region 0, beside the stack's first page.
    pub fn from_raw(data: &[u8]) -> (memory: Memory)
        ensures
            memory.well_formed(),
            memory@ == initial_view().with_pages(0, pages_for(data@.len() as u64), false).write(
                0,
                data@,
            ),
    {
        let mut memory = Memory::new();
        let len = data.len() as u64;
        let count = if len > u64::MAX - PAGE_MASK {
            PAGE_COUNT
        } else {
            (len + PAGE_MASK) / PAGE_SIZE
        };
        memory.map_pages(0, count, false);
        let ghost base = memory@;
        let mut i: usize = 0;
        assert(data@.subrange(0, 0) =~= Seq::<u8>::empty());
        while i < data.len()
            invariant
                memory.well_formed(),
                i <= data.len(),
                base == initial_view().with_pages(0, pages_for(data@.len() as u64), false),
                memory@ == base.write(0, data@.subrange(0, i as int)),
                memory@.pages.dom() == base.pages.dom(),
            decreases data.len() - i,
        {
            proof {
                assert(data@.subrange(0, i + 1).drop_last() =~= data@.subrange(0, i as int));
                assert(base.pages.contains_key(page_of(i as u64)));
            }
            memory.poke(i as u64, data[i]);
            i += 1;
        }
        assert(data@.subrange(0, data@.len() as int) =~= data@);
        memory
    }
}

impl Clone for Memory {
    /// Returns a copy of the address space: the same pages with the same
    /// bytes, the same break and stack bottom.
    fn clone(&self) -> (copy: Memory)
        ensures
            copy@ == self@,
    {
        Memory {
            pages: table_clone(&self.pages),
            heap_pointer: self.heap_pointer,
            stack_pointer: self.stack_pointer,
            mmap_count: self.mmap_count,
            entry: self.entry,
            program_header: self.program_header,
            disassembler: self.disassembler.clone(),
        }
    }
}

/// Where the stores of the first `upto` bytes fail, the stores of all leave
/// what those of the first `upto` leave.
pub proof fn lemma_store_until_fault_at(m: MemoryView, addr: u64, bytes: Seq<u8>, upto: int)
    requires
        0 <= upto <= bytes.len(),
        m.store_each(addr, bytes.subrange(0, upto)) is None,
    ensures
        m.store_until_fault(addr, bytes) == m.store_until_fault(addr, bytes.subrange(0, upto)),
    decreases bytes.len() - upto,
{
    if upto < bytes.len() {
        assert(bytes.subrange(0, upto + 1).drop_last() =~= bytes.subrange(0, upto));
        lemma_store_until_fault_at(m, addr, bytes, upto + 1);
    } else {
        assert(bytes.subrange(0, upto) =~= bytes);
    }
}

/// Where the stores of the first `upto` bytes fail, so do the stores of all.
pub proof fn lemma_store_each_fails_on(m: MemoryView, addr: u64, bytes: Seq<u8>, upto: int)
    requires
        0 <= upto <= bytes.len(),
        m.store_each(addr, bytes.subrange(0, upto)) is None,
    ensures
        m.store_each(addr, bytes) is None,
    decreases bytes.len() - upto,
{
    if upto < bytes.len() {
        assert(bytes.subrange(0, upto + 1).drop_last() =~= bytes.subrange(0, upto));
        lemma_store_each_fails_on(m, addr, bytes, upto + 1);
    } else {
        assert(bytes.subrange(0, upto) =~= bytes);
    }
}


/// The character that stands for a byte in a dump: the byte itself where it
/// is printable ASCII, else a dot.
pub open spec fn glyph(byte: u8) -> char {
    if 32 <= byte < 127 {
        byte as char
    } else {
        '.'
    }
}

/// The address at which a dump around `addr` starts: 330 bytes below `addr`
/// rounded down to a multiple of 64, and no lower than 0.
pub open spec fn hexdump_start(addr: u64) -> u64 {
    let aligned = (addr - addr % 64) as u64;
    if aligned >= 330 {
        (aligned - 330) as u64
    } else {
        0
    }
}

impl MemoryView {
    /// The bytes of the string at `addr`: those before the first zero byte,
    /// `max` at most. Nothing where a byte that has to be read is not mapped.
    pub open spec fn string_at(self, addr: int, max: int) -> Option<Seq<u8>>
        decreases max,
    {
        if max <= 0 {
            Some(Seq::empty())
        } else if addr > STACK_START || !self.mapped(addr as u64) {
            None
        } else if self.byte(addr as u64) == 0 {
            Some(Seq::empty())
        } else {
            match self.string_at(addr + 1, max - 1) {
                Some(rest) => Some(seq![self.byte(addr as u64)] + rest),
                None => None,
            }
        }
    }

    /// The byte at `addr`, or 0 where there is none.
    pub open spec fn byte_or_zero(self, addr: int) -> u8 {
        if 0 <= addr <= STACK_START && self.mapped(addr as u64) {
            self.byte(addr as u64)
        } else {
            0
        }
    }

    /// One line of a dump: the glyphs of the 32 bytes from `start` on, and a
    /// line feed.
    pub open spec fn hexdump_row(self, start: int) -> Seq<char> {
        Seq::new(
            33,
            |column: int|
                if column == 32 {
                    '\n'
                } else {
                    glyph(self.byte_or_zero(start + column))
                },
        )
    }

    /// The first `rows` lines of the dump around `addr`.
    pub open spec fn hexdump(self, addr: u64, rows: int) -> Seq<char>
        decreases rows,
    {
        if rows <= 0 {
            Seq::empty()
        } else {
            self.hexdump(addr, rows - 1) + self.hexdump_row(hexdump_start(addr) + 32 * (rows - 1))
        }
    }

    /// The state after `mmap_file`: the mapping that `mmap(hint, len)` makes,
    /// filled with `data`, and with zeros behind where `data` is shorter.
    /// Nothing where a byte cannot be stored.
    pub open spec fn after_mmap_file(self, data: Seq<u8>, hint: u64, len: u64) -> Option<
        MemoryView,
    > {
        if self.mmap_accepts(hint, len) {
            self.after_mmap(hint, len).store_each(self.mmap_address(hint), padded(data, len as int))
        } else {
            Some(self)
        }
    }
}

/// The part of a file that a mapping of `len` bytes at `offset` shows.
pub open spec fn file_window(data: Seq<u8>, offset: u64, len: u64) -> Seq<u8> {
    if offset >= data.len() {
        Seq::empty()
    } else if offset + len >= data.len() {
        data.subrange(offset as int, data.len() as int)
    } else {
        data.subrange(offset as int, offset + len)
    }
}

impl Memory {
    /// Reads the bytes of the string at `addr`: those before the first zero
    /// byte, `len` at most.
    pub fn read_bytes_until_nul(&self, addr: u64, len: u64) -> (r: Result<Vec<u8>, RVError>)
        requires
            self.well_formed(),
        ensures
            match r {
                Ok(bytes) => self@.string_at(addr as int, len as int) == Some(bytes@),
                Err(e) => e == RVError::SegmentationFault && self@.string_at(
                    addr as int,
                    len as int,
                ) is None,
            },
    {
        let mut data: Vec<u8> = Vec::new();
        let mut i: u64 = 0;
        assert(data@ + Seq::<u8>::empty() =~= data@);
        while i < len
            invariant
                self.well_formed(),
                i <= len,
                data@.len() == i,
                self@.string_at(addr as int, len as int) == match self@.string_at(
                    addr + i,
                    len - i,
                ) {
                    Some(rest) => Some(data@ + rest),
                    None => None,
                },
            decreases len - i,
        {
            if addr > STACK_START - i {
                return Err(RVError::SegmentationFault);
            }
            let c = match self.load_u8(addr + i) {
                Ok(c) => c,
                Err(e) => {
                    return Err(e);
                },
            };
            if c == 0 {
                assert(data@ + Seq::<u8>::empty() =~= data@);
                return Ok(data);
            }
            proof {
                let rest = self@.string_at(addr + i + 1, len - i - 1);
                if rest is Some {
                    assert(data@.push(c) + rest.unwrap() =~= data@ + (seq![c] + rest.unwrap()));
                }
            }
            data.push(c);
            i += 1;
        }
        assert(data@ + Seq::<u8>::empty() =~= data@);
        Ok(data)
    }

    /// Reads the string at `addr`, which ends before the first zero byte or
    /// after `len` bytes, and returns it as text: the bytes decoded as UTF-8,
    /// ill-formed sequences replaced. Fails with a segmentation fault where a
    /// byte of the string is not mapped.
    pub fn read_string_n(&self, addr: u64, len: u64) -> (r: Result<String, RVError>)
        requires
            self.well_formed(),
        ensures
            match r {
                Ok(text) => self@.string_at(addr as int, len as int) is Some && text@
                    == utf8_lossy(self@.string_at(addr as int, len as int).unwrap()),
                Err(e) => e == RVError::SegmentationFault && self@.string_at(
                    addr as int,
                    len as int,
                ) is None,
            },
    {
        match self.read_bytes_until_nul(addr, len) {
            Ok(data) => Ok(text_from_bytes(&data)),
            Err(e) => Err(e),
        }
    }

    /// Reads the `len` bytes from `addr` on. Fails with a segmentation fault
    /// where one of them is not mapped.
    pub fn read_n(&self, addr: u64, len: u64) -> (r: Result<Vec<u8>, RVError>)
        requires
            self.well_formed(),
        ensures
            match r {
                Ok(bytes) => self@.load(addr, len as int) == Some(bytes@),
                Err(e) => e == RVError::SegmentationFault && self@.load(addr, len as int)
                    is None,
            },
    {
        let mut data: Vec<u8> = Vec::new();
        let mut i: u64 = 0;
        while i < len
            invariant
                self.well_formed(),
                i <= len,
                data@.len() == i,
                addr + i <= STACK_START + 1,
                forall|j: int| 0 <= j < i ==> #[trigger] self@.mapped((addr + j) as u64),
                forall|j: int| 0 <= j < i ==> data@[j] == self@.byte((addr + j) as u64),
            decreases len - i,
        {
            if addr > STACK_START - i {
                return Err(RVError::SegmentationFault);
            }
            let c = match self.load_u8(addr + i) {
                Ok(c) => c,
                Err(e) => {
                    assert(!self@.mapped((addr + i) as u64)) by {
                        if self@.mapped((addr + i) as u64) {
                            assert(self@.range_mapped((addr + i) as u64, 1)) by {
                                assert forall|j: int| 0 <= j < 1 implies #[trigger] self@.mapped(
                                    (((addr + i) as u64) + j) as u64,
                                ) by {}
                            }
                        }
                    }
                    return Err(e);
                },
            };
            assert(self@.mapped((((addr + i) as u64) + 0) as u64));
            assert(self@.read((addr + i) as u64, 1)[0] == self@.byte((addr + i) as u64));
            data.push(c);
            i += 1;
        }
        assert(data@ =~= self@.read(addr, len as int));
        Ok(data)
    }

    /// Copies up to `count` bytes of the file, from its current position on,
    /// to `buf`, and moves the position past them. Returns the number of bytes
    /// copied. Fails with a segmentation fault where a byte cannot be stored;
    /// the position then stays.
    pub fn read_file(&mut self, file_descriptor: &mut FileDescriptor, buf: u64, count: u64) -> (r:
        Result<u64, RVError>)
        requires
            old(self).well_formed(),
        ensures
            final(self).well_formed(),
            final(file_descriptor).data == old(file_descriptor).data,
            match r {
                Ok(n) => {
                    let data = old(file_descriptor).pending(count);
                    &&& n == data.len()
                    &&& old(self)@.store_each(buf, data) == Some(final(self)@)
                    &&& final(file_descriptor).offset == old(file_descriptor).offset + data.len()
                },
                Err(e) => e == RVError::SegmentationFault && old(self)@.store_each(
                    buf,
                    old(file_descriptor).pending(count),
                ) is None && final(file_descriptor).offset == old(file_descriptor).offset
                    && final(self)@ == old(self)@.store_until_fault(
                    buf,
                    old(file_descriptor).pending(count),
                ),
            },
    {
        let size = file_descriptor.data.len();
        let start: usize = if file_descriptor.offset >= size as u64 {
            size
        } else {
            file_descriptor.offset as usize
        };
        let end: usize = if count >= (size - start) as u64 {
            size
        } else {
            start + count as usize
        };
        let data = slice_subrange(file_descriptor.data.as_slice(), start, end);
        assert(data@ =~= old(file_descriptor).pending(count));
        assert(padded(data@, data@.len() as int) =~= data@);
        match self.write_n(data, buf, (end - start) as u64) {
            Ok(()) => {},
            Err(e) => {
                return Err(e);
            },
        }
        if end > start {
            file_descriptor.offset = file_descriptor.offset + (end - start) as u64;
        }
        Ok((end - start) as u64)
    }

    /// Maps `len` bytes of a file, from `offset` on, as `mmap(addr, len)` maps
    /// memory, and returns the address of the mapping. Behind the end of the
    /// file the mapping holds zeros. Returns -1, and changes nothing, where
    /// `offset` is no multiple of the page size or `mmap` refuses.
    pub fn mmap_file(&mut self, descriptor: &FileDescriptor, addr: u64, offset: u64, len: u64) -> (r:
        Result<i64, RVError>)
        requires
            old(self).well_formed(),
        ensures
            final(self).well_formed(),
            match r {
                Ok(start) => if offset % PAGE_SIZE == 0 {
                    &&& old(self)@.after_mmap_file(
                        file_window(descriptor.data@, offset, len),
                        addr,
                        len,
                    ) == Some(final(self)@)
                    &&& start == if old(self)@.mmap_accepts(addr, len) {
                        old(self)@.mmap_address(addr) as i64
                    } else {
                        -1i64
                    }
                } else {
                    start == -1 && final(self)@ == old(self)@
                },
                Err(e) => e == RVError::SegmentationFault && offset % PAGE_SIZE == 0
                    && old(self)@.after_mmap_file(
                    file_window(descriptor.data@, offset, len),
                    addr,
                    len,
                ) is None && final(self)@ == old(self)@.after_mmap(addr, len).store_until_fault(
                    old(self)@.mmap_address(addr),
                    padded(file_window(descriptor.data@, offset, len), len as int),
                ),
            },
    {
        if offset % PAGE_SIZE != 0 {
            return Ok(-1);
        }
        let ghost accepted = self@.mmap_accepts(addr, len);
        let ghost target = self@.mmap_address(addr);
        let size = descriptor.data.len();
        let start: usize = if offset >= size as u64 {
            size
        } else {
            offset as usize
        };
        let end: usize = if len >= (size - start) as u64 {
            size
        } else {
            start + len as usize
        };
        let data = slice_subrange(descriptor.data.as_slice(), start, end);
        assert(data@ =~= file_window(descriptor.data@, offset, len));
        let addr_start = self.mmap(addr, len);
        if addr_start == -1 {
            assert(!accepted) by {
                if accepted {
                    lemma_mmap_address_is_no_failure(old(self)@, addr, len);
                }
            }
            return Ok(-1);
        }
        let place = if addr == 0 {
            REGION_SIZE * (self.mmap_count - 1)
        } else {
            addr
        };
        assert(place == target);
        match self.write_n(data, place, len) {
            Ok(()) => Ok(addr_start),
            Err(e) => Err(e),
        }
    }

    /// Returns `length` lines of 32 characters, one character for each byte
    /// from a little below `addr` on: the byte itself where it is printable,
    /// else a dot, which also stands for a byte that is not mapped.
    pub fn hexdump(&self, addr: u64, length: u64) -> (dump: String)
        requires
            self.well_formed(),
        ensures
            dump@ == self@.hexdump(addr, length as int),
    {
        let mut writer = String::new();
        let aligned = addr - addr % 64;
        let start: u64 = if aligned >= 330 {
            aligned - 330
        } else {
            0
        };
        let mut row: u64 = 0;
        while row < length
            invariant
                self.well_formed(),
                row <= length,
                start == hexdump_start(addr),
                writer@ == self@.hexdump(addr, row as int),
            decreases length - row,
        {
            let ghost before = writer@;
            let base: u128 = start as u128 + 32 * (row as u128);
            let mut column: u128 = 0;
            while column < 32
                invariant
                    self.well_formed(),
                    column <= 32,
                    base == start + 32 * row,
                    writer@.len() == before.len() + column,
                    writer@.subrange(0, before.len() as int) == before,
                    forall|k: int|
                        0 <= k < column ==> writer@[before.len() + k] == self@.hexdump_row(
                            base as int,
                        )[k],
                decreases 32 - column,
            {
                let at = base + column;
                let byte: u8 = if at <= STACK_START as u128 {
                    match self.load_u8(at as u64) {
                        Ok(value) => {
                            assert(self@.mapped(((at as u64) + 0) as u64));
                            assert(self@.read(at as u64, 1)[0] == self@.byte(at as u64));
                            value
                        },
                        Err(_) => {
                            assert(!self@.mapped(at as u64)) by {
                                if self@.mapped(at as u64) {
                                    assert forall|j: int| 0 <= j < 1 implies #[trigger] self@.mapped(
                                        ((at as u64) + j) as u64,
                                    ) by {}
                                }
                            }
                            0
                        },
                    }
                } else {
                    0
                };
                let c = if 32 <= byte && byte < 127 {
                    byte as char
                } else {
                    '.'
                };
                let ghost prior = writer@;
                push_char(&mut writer, c);
                assert(writer@.subrange(0, before.len() as int) =~= prior.subrange(
                    0,
                    before.len() as int,
                ));
                column += 1;
            }
            let ghost prior = writer@;
            push_char(&mut writer, '\n');
            row += 1;
            assert(writer@ =~= before + self@.hexdump_row(base as int)) by {
                assert(writer@.subrange(0, before.len() as int) =~= prior.subrange(
                    0,
                    before.len() as int,
                ));
            }
        }
        writer
    }
}

/// No address at which `mmap` places a mapping reads as -1.
pub proof fn lemma_mmap_address_is_no_failure(m: MemoryView, hint: u64, size: u64)
    requires
        m.well_formed(),
        m.mmap_accepts(hint, size),
    ensures
        m.mmap_address(hint) as i64 != -1i64,
{
    let address = m.mmap_address(hint);
    assert(address < STACK_START);
    assert(address as i64 != -1i64) by (bit_vector)
        requires
            address < 0xFFFF_FFFF_FFFF_FFFFu64,
    ;
}

} // verus!
