//! What holds of every address space: byte order, faults on unmapped
//! addresses, the growth of the stack, and the program break.

use vstd::prelude::*;
use crate::memory::{
    byte_of, le_bytes, le_value, page_of, round_up_page, MemoryView, LAST_MMAP_REGION, PAGE_COUNT,
    PAGE_SIZE, PAGES_PER_REGION, REGION_SIZE, STACK_REGION, STACK_START, STACK_TOP_PAGE,
};

verus! {

/// Writing bytes over mapped addresses maps nothing new, keeps every page at
/// its length, and leaves each of the bytes where it was written.
pub proof fn lemma_write_keeps_shape(m: MemoryView, addr: u64, bytes: Seq<u8>)
    requires
        m.well_formed(),
        m.range_mapped(addr, bytes.len() as int),
    ensures
        m.write(addr, bytes).well_formed(),
        m.write(addr, bytes).pages.dom() == m.pages.dom(),
        m.write(addr, bytes).stack_bottom == m.stack_bottom,
        m.write(addr, bytes).brk == m.brk,
        forall|i: int|
            0 <= i < bytes.len() ==> #[trigger] m.write(addr, bytes).byte((addr + i) as u64)
                == bytes[i],
    decreases bytes.len(),
{
    if bytes.len() > 0 {
        let front = bytes.drop_last();
        let at = (addr + bytes.len() - 1) as u64;
        assert forall|i: int| 0 <= i < front.len() implies #[trigger] m.mapped(
            (addr + i) as u64,
        ) by {}
        lemma_write_keeps_shape(m, addr, front);
        let before = m.write(addr, front);
        let after = before.with_byte(at, bytes.last());
        assert(m.mapped((addr + (bytes.len() - 1)) as u64));
        assert(before.pages.contains_key(page_of(at)));
        assert(after.pages.dom() =~= before.pages.dom());
        assert forall|page: u64| #[trigger] after.pages.contains_key(page) implies page
            < PAGE_COUNT && after.pages[page].len() == PAGE_SIZE by {
            assert(before.pages.contains_key(page));
        }
        assert forall|page: u64| page_of(after.stack_bottom) <= page < PAGE_COUNT implies
            #[trigger] after.pages.contains_key(page) by {
            assert(before.pages.contains_key(page));
        }
        assert forall|i: int| 0 <= i < bytes.len() implies #[trigger] after.byte(
            (addr + i) as u64,
        ) == bytes[i] by {
            if i < bytes.len() - 1 {
                assert(before.byte((addr + i) as u64) == front[i]);
                assert(m.mapped((addr + i) as u64));
            }
        }
    }
}

/// Memory is little-endian: after a store of the eight bytes of `value` at
/// `addr`, a load of the byte at `addr + i` gives byte `i` of `value`.
pub proof fn law_store_is_little_endian(m: MemoryView, addr: u64, value: u64, i: int)
    requires
        m.well_formed(),
        m.store_value(addr, value, 8) is Some,
        0 <= i < 8,
    ensures
        m.store_value(addr, value, 8).unwrap().load_value((addr + i) as u64, 1) == Some(
            byte_of(value, i) as u64,
        ),
{
    let base = if m.in_growth_window(addr) {
        m.grown()
    } else {
        m
    };
    let bytes = le_bytes(value, 8);
    if m.in_growth_window(addr) {
        lemma_grown_is_well_formed(m);
    }
    lemma_write_keeps_shape(base, addr, bytes);
    let after = base.write(addr, bytes);
    let at = (addr + i) as u64;
    assert(base.mapped((addr + i) as u64));
    assert(after.byte((addr + i) as u64) == bytes[i]);
    assert(after.range_mapped(at, 1)) by {
        assert forall|j: int| 0 <= j < 1 implies #[trigger] after.mapped((at + j) as u64) by {}
    }
    assert(after.read(at, 1)[0] == after.byte((at + 0) as u64));
}

/// A load of the same width gives back what a store has written.
pub proof fn law_load_after_store(m: MemoryView, addr: u64, value: u64, count: int)
    requires
        m.well_formed(),
        count == 1 || count == 2 || count == 4 || count == 8,
        m.store_value(addr, value, count) is Some,
    ensures
        m.store_value(addr, value, count).unwrap().load(addr, count) == Some(
            le_bytes(value, count),
        ),
{
    let base = if m.in_growth_window(addr) {
        m.grown()
    } else {
        m
    };
    let bytes = le_bytes(value, count);
    if m.in_growth_window(addr) {
        lemma_grown_is_well_formed(m);
    }
    lemma_write_keeps_shape(base, addr, bytes);
    let after = base.write(addr, bytes);
    assert forall|j: int| 0 <= j < count implies #[trigger] after.mapped((addr + j) as u64) by {
        assert(base.mapped((addr + j) as u64));
    }
    assert(after.read(addr, count) =~= bytes);
}

/// The bytes of a doubleword, put together again, are the doubleword.
pub proof fn law_bytes_make_value(value: u64)
    ensures
        le_value(le_bytes(value, 8), 8) == value,
        le_value(le_bytes(value, 4), 4) == value & 0xFFFF_FFFF,
        le_value(le_bytes(value, 2), 2) == value & 0xFFFF,
        le_value(le_bytes(value, 1), 1) == value & 0xFF,
{
    assert(((value >> 0) as u8 as u64) | (((value >> 8) as u8 as u64) << 8) | (((value >> 16)
        as u8 as u64) << 16) | (((value >> 24) as u8 as u64) << 24) | (((value >> 32) as u8 as u64)
        << 32) | (((value >> 40) as u8 as u64) << 40) | (((value >> 48) as u8 as u64) << 48) | (((
    value >> 56) as u8 as u64) << 56) == value && ((value >> 0) as u8 as u64) | (((value >> 8)
        as u8 as u64) << 8) | (((value >> 16) as u8 as u64) << 16) | (((value >> 24) as u8 as u64)
        << 24) == value & 0xFFFF_FFFF && ((value >> 0) as u8 as u64) | (((value >> 8) as u8 as u64)
        << 8) == value & 0xFFFF && ((value >> 0) as u8 as u64) == value & 0xFF) by (bit_vector);
}

/// A load from an address that is not mapped fails, whatever lies around it:
/// a load never makes the stack grow.
pub proof fn law_unmapped_load_faults(m: MemoryView, addr: u64)
    requires
        !m.mapped(addr),
    ensures
        m.load_value(addr, 1) is None,
{
    assert(!m.mapped((addr + 0) as u64));
}

/// The state after the stack has grown is well formed.
pub proof fn lemma_grown_is_well_formed(m: MemoryView)
    requires
        m.well_formed(),
        m.stack_bottom >= PAGE_SIZE,
    ensures
        m.grown().well_formed(),
        m.grown().pages.dom() == m.pages.dom().insert(page_of(m.grown().stack_bottom)),
{
    let after = m.grown();
    let fresh = page_of(after.stack_bottom);
    assert(after.pages.dom() =~= m.pages.dom().insert(fresh));
    assert forall|page: u64| #[trigger] after.pages.contains_key(page) implies page < PAGE_COUNT
        && after.pages[page].len() == PAGE_SIZE by {
        if page != fresh {
            assert(m.pages.contains_key(page));
        }
    }
    assert forall|page: u64| page_of(after.stack_bottom) <= page < PAGE_COUNT implies
        #[trigger] after.pages.contains_key(page) by {
        if page != fresh {
            assert(page_of(m.stack_bottom) <= page);
            assert(m.pages.contains_key(page));
        }
    }
}

/// A store that starts below the stack bottom, by a page at most, succeeds
/// and extends the stack by exactly one page.
pub proof fn law_store_below_stack_grows(m: MemoryView, addr: u64, bytes: Seq<u8>)
    requires
        m.well_formed(),
        m.in_growth_window(addr),
        1 <= bytes.len() <= PAGE_SIZE,
    ensures
        m.store(addr, bytes) is Some,
        m.store(addr, bytes).unwrap().stack_bottom == m.stack_bottom - PAGE_SIZE,
        m.store(addr, bytes).unwrap().pages.dom() == m.pages.dom().insert(
            page_of((m.stack_bottom - PAGE_SIZE) as u64),
        ),
        m.store(addr, bytes).unwrap().well_formed(),
{
    lemma_grown_is_well_formed(m);
    let base = m.grown();
    assert(base.range_mapped(addr, bytes.len() as int)) by {
        assert forall|i: int| 0 <= i < bytes.len() implies #[trigger] base.mapped(
            (addr + i) as u64,
        ) by {
            let page = page_of((addr + i) as u64);
            assert(page_of(base.stack_bottom) <= page < PAGE_COUNT);
            assert(base.pages.contains_key(page));
        }
    }
    lemma_write_keeps_shape(base, addr, bytes);
}

/// After `brk(x)` with `x` at or above the break, and in the heap's region,
/// `brk(0)` changes nothing and returns `x` rounded up to a page.
pub proof fn law_brk_keeps_request(m: MemoryView, x: u64)
    requires
        m.well_formed(),
        x >= m.brk,
        x / REGION_SIZE == 1,
    ensures
        m.after_brk(x).brk == round_up_page(x),
        m.after_brk(x).after_brk(0) == m.after_brk(x),
        m.after_brk(x).brk >= m.brk,
{
}

/// The program break never goes down.
pub proof fn law_brk_only_grows(m: MemoryView, x: u64)
    requires
        m.well_formed(),
    ensures
        m.after_brk(x).brk >= m.brk,
{
}

/// A store over mapped addresses away from the stack's growth window maps
/// nothing and moves neither the stack bottom nor the break.
pub proof fn law_store_keeps_regions(m: MemoryView, addr: u64, bytes: Seq<u8>)
    requires
        m.well_formed(),
        !m.in_growth_window(addr),
        m.store(addr, bytes) is Some,
    ensures
        m.store(addr, bytes).unwrap().pages.dom() == m.pages.dom(),
        m.store(addr, bytes).unwrap().stack_bottom == m.stack_bottom,
        m.store(addr, bytes).unwrap().brk == m.brk,
        addr + bytes.len() <= STACK_START + 1,
{
    lemma_write_keeps_shape(m, addr, bytes);
}


/// Writing bytes changes pages only.
pub proof fn lemma_write_changes_pages_only(m: MemoryView, addr: u64, bytes: Seq<u8>)
    ensures
        m.write(addr, bytes) == (MemoryView { pages: m.write(addr, bytes).pages, ..m }),
    decreases bytes.len(),
{
    if bytes.len() > 0 {
        lemma_write_changes_pages_only(m, addr, bytes.drop_last());
    }
}

/// A store changes the pages and the stack bottom, and nothing else.
pub proof fn lemma_store_changes_memory_only(m: MemoryView, addr: u64, bytes: Seq<u8>)
    requires
        m.store(addr, bytes) is Some,
    ensures
        m.store(addr, bytes).unwrap() == (MemoryView {
            pages: m.store(addr, bytes).unwrap().pages,
            stack_bottom: m.store(addr, bytes).unwrap().stack_bottom,
            ..m
        }),
{
    let base = if m.in_growth_window(addr) {
        m.grown()
    } else {
        m
    };
    lemma_write_changes_pages_only(base, addr, bytes);
}

/// Stores of single bytes change the pages and the stack bottom, and nothing
/// else.
pub proof fn lemma_store_each_changes_memory_only(m: MemoryView, addr: u64, bytes: Seq<u8>)
    requires
        m.store_each(addr, bytes) is Some,
    ensures
        m.store_each(addr, bytes).unwrap() == (MemoryView {
            pages: m.store_each(addr, bytes).unwrap().pages,
            stack_bottom: m.store_each(addr, bytes).unwrap().stack_bottom,
            ..m
        }),
    decreases bytes.len(),
{
    if bytes.len() > 0 {
        lemma_store_each_changes_memory_only(m, addr, bytes.drop_last());
        let before = m.store_each(addr, bytes.drop_last()).unwrap();
        lemma_store_changes_memory_only(
            before,
            (addr + bytes.len() - 1) as u64,
            seq![bytes.last()],
        );
    }
}


/// The stack's first page, at the top of the address space, is always
/// mapped.
pub proof fn lemma_top_page_mapped(m: MemoryView, addr: u64, count: int)
    requires
        m.well_formed(),
        addr >= STACK_TOP_PAGE,
        0 <= count,
        addr + count <= STACK_START + 1,
    ensures
        m.range_mapped(addr, count),
{
    assert forall|i: int| 0 <= i < count implies #[trigger] m.mapped((addr + i) as u64) by {
        let page = page_of((addr + i) as u64);
        assert(page == PAGE_COUNT - 1);
        assert(page_of(m.stack_bottom) <= page);
        assert(m.pages.contains_key(page));
    }
}


/// The region that `mmap` hands out next holds no page.
pub proof fn lemma_fresh_region_is_empty(m: MemoryView, size: u64)
    requires
        m.well_formed(),
        m.mmap_accepts(0, size),
    ensures
        forall|a: u64|
            m.mmap_address(0) <= a < m.mmap_address(0) + round_up_page(size) ==> !#[trigger] m.mapped(
                a,
            ),
        m.mmap_address(0) % PAGE_SIZE == 0,
        m.mmap_address(0) < 0x8000_0000_0000_0000,
{
    let start = m.mmap_address(0);
    assert forall|a: u64| start <= a < start + round_up_page(size) implies !#[trigger] m.mapped(
        a,
    ) by {
        let p = page_of(a);
        assert(p / PAGES_PER_REGION >= m.mmap_count);
        assert(p < page_of(m.stack_bottom));
        assert(p < page_of(STACK_REGION));
    }
}

/// A mapping without a hint is fresh: its address is a multiple of the page
/// size and no negative number, nothing was mapped there before, and
/// afterwards every byte of it is mapped and zero.
pub proof fn law_mmap_is_fresh(m: MemoryView, size: u64)
    requires
        m.well_formed(),
        m.mmap_accepts(0, size),
    ensures
        m.mmap_address(0) % PAGE_SIZE == 0,
        m.mmap_address(0) as i64 >= 0,
        m.new_mapping(m.after_mmap(0, size), m.mmap_address(0), size),
{
    lemma_fresh_region_is_empty(m, size);
    let start = m.mmap_address(0);
    let after = m.after_mmap(0, size);
    assert(start as i64 >= 0) by (bit_vector)
        requires
            start < 0x8000_0000_0000_0000u64,
    ;
    assert forall|a: u64| start <= a < start + round_up_page(size) implies !m.mapped(a)
        && #[trigger] after.mapped(a) && after.byte(a) == 0 by {
        let p = page_of(a);
        assert(page_of(start) <= p < page_of(start) + round_up_page(size) / PAGE_SIZE as int);
    }
}

/// Writing bytes leaves every other byte as it was: one that lies outside
/// their range is mapped as before and holds what it held.
pub proof fn law_write_keeps_other_bytes(m: MemoryView, addr: u64, bytes: Seq<u8>, other: u64)
    requires
        m.well_formed(),
        m.range_mapped(addr, bytes.len() as int),
        !(addr <= other < addr + bytes.len()),
    ensures
        m.write(addr, bytes).mapped(other) == m.mapped(other),
        m.mapped(other) ==> m.write(addr, bytes).byte(other) == m.byte(other),
    decreases bytes.len(),
{
    if bytes.len() > 0 {
        let front = bytes.drop_last();
        let at = (addr + bytes.len() - 1) as u64;
        assert forall|i: int| 0 <= i < front.len() implies #[trigger] m.mapped(
            (addr + i) as u64,
        ) by {}
        law_write_keeps_other_bytes(m, addr, front, other);
        lemma_write_keeps_shape(m, addr, front);
        lemma_write_keeps_shape(m, addr, bytes);
        let before = m.write(addr, front);
        assert(m.mapped((addr + (bytes.len() - 1)) as u64));
        assert(before.pages.contains_key(page_of(at)));
        assert(before.pages[page_of(at)].len() == PAGE_SIZE);
    }
}

/// A store leaves every other byte as it was: one that is mapped and lies
/// outside the range of the store stays mapped and holds what it held.
pub proof fn law_store_keeps_other_bytes(m: MemoryView, addr: u64, bytes: Seq<u8>, other: u64)
    requires
        m.well_formed(),
        m.store(addr, bytes) is Some,
        m.mapped(other),
        !(addr <= other < addr + bytes.len()),
    ensures
        m.store(addr, bytes).unwrap().mapped(other),
        m.store(addr, bytes).unwrap().byte(other) == m.byte(other),
{
    if m.in_growth_window(addr) {
        lemma_grown_is_well_formed(m);
        law_write_keeps_other_bytes(m.grown(), addr, bytes, other);
    } else {
        law_write_keeps_other_bytes(m, addr, bytes, other);
    }
}

/// Stores of single bytes leave every other byte as it was: one that is
/// mapped and lies outside their range stays mapped and holds what it held.
pub proof fn law_store_each_keeps_other_bytes(
    m: MemoryView,
    addr: u64,
    bytes: Seq<u8>,
    other: u64,
)
    requires
        m.well_formed(),
        m.store_each(addr, bytes) is Some,
        m.mapped(other),
        !(addr <= other < addr + bytes.len()),
    ensures
        m.store_each(addr, bytes).unwrap().well_formed(),
        m.store_each(addr, bytes).unwrap().mapped(other),
        m.store_each(addr, bytes).unwrap().byte(other) == m.byte(other),
    decreases bytes.len(),
{
    if bytes.len() > 0 {
        law_store_each_keeps_other_bytes(m, addr, bytes.drop_last(), other);
        let before = m.store_each(addr, bytes.drop_last()).unwrap();
        let at = (addr + bytes.len() - 1) as u64;
        let last = seq![bytes.last()];
        law_store_keeps_other_bytes(before, at, last, other);
        if before.in_growth_window(at) {
            lemma_grown_is_well_formed(before);
            lemma_write_keeps_shape(before.grown(), at, last);
        } else {
            lemma_write_keeps_shape(before, at, last);
        }
    }
}

} // verus!
