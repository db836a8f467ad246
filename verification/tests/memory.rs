use remu::error::RVError;
use remu::files::FileDescriptor;
use remu::memory::Memory;

const HEAP_START: u64 = 0x0100_0000_0000_0000;
const STACK_BOTTOM: u64 = 0xffff_ffff_ffff_f000;

#[test]
fn new_memory_has_a_stack_page_and_an_empty_heap() {
    let mut memory = Memory::new();
    assert_eq!(memory.stack_bottom(), STACK_BOTTOM);
    assert_eq!(memory.heap_end(), HEAP_START);
    assert_eq!(memory.brk(0), HEAP_START);
    assert_eq!(memory.usage(), 4096);
    assert_eq!(memory.load_u64(STACK_BOTTOM), Ok(0));
    assert_eq!(memory.load_u8(u64::MAX), Ok(0));
    assert_eq!(memory.entry(), 0);
}

#[test]
fn memory_is_little_endian() {
    let mut memory = Memory::from_raw(&[0; 16]);
    let value = 0xdebc9a7856342312u64;
    memory.store_u64(8, value).unwrap();
    for i in 0..8 {
        assert_eq!(memory.load_u8(8 + i), Ok((value >> (8 * i)) as u8));
    }
    assert_eq!(memory.load_u16(8), Ok(0x2312));
    assert_eq!(memory.load_u32(8), Ok(0x56342312));
    assert_eq!(memory.load_u64(8), Ok(value));
    assert_eq!(memory.load(8, 4), Ok(0x56342312));
    memory.store_u16(0, 0xbeef).unwrap();
    memory.store_u32(2, 0x01020304).unwrap();
    memory.store_u8(6, 0x7f).unwrap();
    assert_eq!(memory.read_n(0, 8), Ok(vec![0xef, 0xbe, 4, 3, 2, 1, 0x7f, 0]));
    memory.store(0, 0x1122334455667788, 2).unwrap();
    assert_eq!(memory.read_n(0, 3), Ok(vec![0x88, 0x77, 4]));
}

#[test]
fn unmapped_loads_fault() {
    let memory = Memory::from_raw(&[0; 16]);
    assert_eq!(memory.load_u8(4095), Ok(0));
    assert_eq!(memory.load_u8(4096), Err(RVError::SegmentationFault));
    assert_eq!(memory.load_u64(0x5000), Err(RVError::SegmentationFault));
    // a load never makes the stack grow
    assert_eq!(
        memory.load_u8(STACK_BOTTOM - 1),
        Err(RVError::SegmentationFault)
    );
    assert_eq!(memory.stack_bottom(), STACK_BOTTOM);
    // a load that crosses into an unmapped page
    assert_eq!(memory.load_u64(4092), Err(RVError::SegmentationFault));
    // and one that crosses the top of the address space
    assert_eq!(memory.load_u16(u64::MAX), Err(RVError::SegmentationFault));
}

#[test]
fn unmapped_stores_fault_and_change_nothing() {
    let mut memory = Memory::from_raw(&[0; 16]);
    assert_eq!(memory.store_u8(4096, 1), Err(RVError::SegmentationFault));
    assert_eq!(memory.store_u64(4092, u64::MAX), Err(RVError::SegmentationFault));
    assert_eq!(memory.load_u32(4092), Ok(0));
    assert_eq!(memory.usage(), 2 * 4096);
}

#[test]
fn accesses_may_cross_pages() {
    let mut memory = Memory::from_raw(&[0; 8192]);
    memory.store_u64(4093, 0x0102030405060708).unwrap();
    assert_eq!(memory.load_u64(4093), Ok(0x0102030405060708));
    assert_eq!(memory.load_u8(4095), Ok(0x06));
    assert_eq!(memory.load_u8(4096), Ok(0x05));
}

#[test]
fn store_below_the_stack_grows_it_by_one_page() {
    let mut memory = Memory::new();
    let pages = memory.usage();
    memory.store_u8(STACK_BOTTOM - 1, 7).unwrap();
    assert_eq!(memory.stack_bottom(), STACK_BOTTOM - 4096);
    assert_eq!(memory.usage(), pages + 4096);
    assert_eq!(memory.load_u8(STACK_BOTTOM - 1), Ok(7));
    assert_eq!(memory.load_u8(STACK_BOTTOM - 4096), Ok(0));
    // exactly one page below the new bottom
    memory.store_u64(STACK_BOTTOM - 2 * 4096, 9).unwrap();
    assert_eq!(memory.stack_bottom(), STACK_BOTTOM - 2 * 4096);
    // a store that starts below and ends in the stack
    memory.store_u64(STACK_BOTTOM - 2 * 4096 - 3, u64::MAX).unwrap();
    assert_eq!(memory.stack_bottom(), STACK_BOTTOM - 3 * 4096);
    assert_eq!(memory.load_u8(STACK_BOTTOM - 2 * 4096 + 4), Ok(0xff));
    // more than a page below the bottom is a fault
    assert_eq!(
        memory.store_u8(STACK_BOTTOM - 4 * 4096 - 1, 1),
        Err(RVError::SegmentationFault)
    );
    assert_eq!(memory.stack_bottom(), STACK_BOTTOM - 3 * 4096);
}

#[test]
fn brk_grows_and_never_shrinks() {
    let mut memory = Memory::new();
    assert_eq!(memory.brk(HEAP_START + 1), HEAP_START + 4096);
    assert_eq!(memory.brk(0), HEAP_START + 4096);
    assert_eq!(memory.load_u8(HEAP_START + 4095), Ok(0));
    assert_eq!(
        memory.load_u8(HEAP_START + 4096),
        Err(RVError::SegmentationFault)
    );
    assert_eq!(memory.brk(HEAP_START + 3 * 4096), HEAP_START + 3 * 4096);
    assert_eq!(memory.brk(0), HEAP_START + 3 * 4096);
    memory.store_u64(HEAP_START + 2 * 4096, 5).unwrap();
    // a request below the break, or outside the heap, changes nothing
    assert_eq!(memory.brk(HEAP_START + 4096), HEAP_START + 3 * 4096);
    assert_eq!(memory.brk(0x0200_0000_0000_0000), HEAP_START + 3 * 4096);
    assert_eq!(memory.brk(0x1000), HEAP_START + 3 * 4096);
    assert_eq!(memory.heap_end(), HEAP_START + 3 * 4096);
    assert_eq!(memory.load_u64(HEAP_START + 2 * 4096), Ok(5));
}

#[test]
fn mmap_hands_out_fresh_regions() {
    let mut memory = Memory::new();
    assert_eq!(memory.mmap(0, 1), 0x0300_0000_0000_0000);
    assert_eq!(memory.load_u8(0x0300_0000_0000_0fff), Ok(0));
    assert_eq!(
        memory.load_u8(0x0300_0000_0000_1000),
        Err(RVError::SegmentationFault)
    );
    assert_eq!(memory.mmap(0, 4097), 0x0400_0000_0000_0000);
    assert_eq!(memory.load_u8(0x0400_0000_0000_1fff), Ok(0));
    assert_eq!(memory.mmap(0, 0x0100_0000_0000_0001), -1);
}

#[test]
fn mmap_at_an_address_clears_what_was_there() {
    let mut memory = Memory::from_raw(&[0x55; 8192]);
    assert_eq!(memory.mmap(4096, 100), 4096);
    assert_eq!(memory.load_u8(4095), Ok(0x55));
    assert_eq!(memory.load_u8(4096), Ok(0));
    assert_eq!(memory.load_u8(8191), Ok(0));
    // a mapping at an address ends in the lower half of the address space
    assert_eq!(memory.mmap(0x8000_0000_0000_0000, 1), -1);
    assert_eq!(memory.mmap(0xff00_0000_0000_0000, 1), -1);
    assert_eq!(memory.mmap(0x7fff_ffff_ffff_f000, 4097), -1);
    assert_eq!(memory.mmap(0x7fff_ffff_ffff_f000, 4096), 0x7fff_ffff_ffff_f000);
    assert_eq!(memory.load_u8(0x7fff_ffff_ffff_ffff), Ok(0));
}

#[test]
fn mmap_without_an_address_is_never_mapped_before() {
    let mut memory = Memory::new();
    // a mapping at an address in the region that is next, and one that
    // reaches into the sixth
    assert_eq!(memory.mmap(0x0300_0000_0000_0000, 4096), 0x0300_0000_0000_0000);
    memory.store_u8(0x0300_0000_0000_0010, 0x77).unwrap();
    assert_eq!(memory.mmap(0, 4096), 0x0400_0000_0000_0000);
    assert_eq!(memory.load_u8(0x0300_0000_0000_0010), Ok(0x77));
    assert_eq!(memory.mmap(0x05ff_ffff_ffff_f000, 8192), 0x05ff_ffff_ffff_f000);
    memory.store_u8(0x0600_0000_0000_0000, 0x78).unwrap();
    assert_eq!(memory.mmap(0, 1), 0x0700_0000_0000_0000);
    assert_eq!(memory.load_u8(0x0600_0000_0000_0000), Ok(0x78));
    // a mapping at an address below leaves the next region where it is
    assert_eq!(memory.mmap(0x0100_0000_0000_0000, 4096), 0x0100_0000_0000_0000);
    assert_eq!(memory.mmap(0, 1), 0x0800_0000_0000_0000);
    for fresh in [0x0400_0000_0000_0000u64, 0x0700_0000_0000_0000, 0x0800_0000_0000_0000] {
        assert_eq!(fresh % 16, 0);
        assert_eq!(memory.load_u64(fresh), Ok(0));
    }
}

#[test]
fn mmap_runs_out_of_regions() {
    let mut memory = Memory::new();
    for region in 3..=127u64 {
        let start = memory.mmap(0, 0);
        assert_eq!(start, (region << 56) as i64);
        assert!(start >= 0);
    }
    assert_eq!(memory.mmap(0, 0), -1);
    // a mapping at an address needs no fresh region
    assert_eq!(memory.mmap(0x1000, 1), 0x1000);
    assert_eq!(memory.mmap(0, 0), -1);
}

#[test]
fn mmap_file_copies_the_file() {
    let mut data = vec![0u8; 5000];
    for (i, byte) in data.iter_mut().enumerate() {
        *byte = (i % 251) as u8;
    }
    let file = FileDescriptor::new(data.clone());
    let mut memory = Memory::new();
    let start = memory.mmap_file(&file, 0, 4096, 2000).unwrap();
    assert_eq!(start, 0x0300_0000_0000_0000);
    let start = start as u64;
    assert_eq!(memory.read_n(start, 904), Ok(data[4096..5000].to_vec()));
    // behind the end of the file the mapping holds zeros
    assert_eq!(memory.read_n(start + 904, 1096), Ok(vec![0; 1096]));
    // an offset that is no multiple of the page size is refused
    assert_eq!(memory.mmap_file(&file, 0, 100, 10), Ok(-1));
}

#[test]
fn write_n_pads_with_zeros() {
    let mut memory = Memory::from_raw(&[0xaa; 16]);
    memory.write_n(b"abc", 4, 6).unwrap();
    assert_eq!(
        memory.read_n(0, 12),
        Ok(vec![0xaa, 0xaa, 0xaa, 0xaa, b'a', b'b', b'c', 0, 0, 0, 0xaa, 0xaa])
    );
    memory.write_n(b"abcdef", 0, 2).unwrap();
    assert_eq!(memory.read_n(0, 4), Ok(vec![b'a', b'b', 0xaa, 0xaa]));
    assert_eq!(
        memory.write_n(b"x", 4095, 2),
        Err(RVError::SegmentationFault)
    );
    memory.fill(0, 9, 3).unwrap();
    assert_eq!(memory.read_n(0, 4), Ok(vec![9, 9, 9, 0xaa]));
}

#[test]
fn write_n_grows_the_stack_as_it_goes() {
    let mut memory = Memory::new();
    memory.write_n(&[1; 3], STACK_BOTTOM - 2, 3).unwrap();
    assert_eq!(memory.stack_bottom(), STACK_BOTTOM - 4096);
    assert_eq!(memory.read_n(STACK_BOTTOM - 2, 3), Ok(vec![1, 1, 1]));
}

#[test]
fn read_string_stops_at_nul_or_limit() {
    let memory = Memory::from_raw(b"hello\0world");
    assert_eq!(memory.read_string_n(0, 64).unwrap(), "hello");
    assert_eq!(memory.read_string_n(6, 3).unwrap(), "wor");
    assert_eq!(memory.read_string_n(0, 0).unwrap(), "");
    assert_eq!(
        memory.read_bytes_until_nul(6, 64),
        Ok(b"world".to_vec())
    );
    let memory = Memory::from_raw(&[b'a'; 4096]);
    assert_eq!(
        memory.read_string_n(4090, 64),
        Err(RVError::SegmentationFault)
    );
    assert_eq!(memory.read_string_n(4090, 6).unwrap(), "aaaaaa");
}

#[test]
fn read_string_replaces_ill_formed_bytes() {
    let memory = Memory::from_raw(&[b'a', 0xff, b'b', 0xc3, 0xa9, 0]);
    assert_eq!(memory.read_string_n(0, 64).unwrap(), "a\u{fffd}b\u{e9}");
}

#[test]
fn read_file_moves_the_position() {
    let mut memory = Memory::from_raw(&[0; 16]);
    let mut file = FileDescriptor::new(b"abcdef".to_vec());
    assert_eq!(memory.read_file(&mut file, 0, 4), Ok(4));
    assert_eq!(file.offset, 4);
    assert_eq!(memory.read_file(&mut file, 8, 4), Ok(2));
    assert_eq!(file.offset, 6);
    assert_eq!(memory.read_file(&mut file, 8, 4), Ok(0));
    assert_eq!(memory.read_n(0, 10), Ok(b"abcd\0\0\0\0ef".to_vec()));
    file.offset = 100;
    assert_eq!(memory.read_file(&mut file, 0, 4), Ok(0));
    assert_eq!(file.offset, 100);
}

#[test]
fn hexdump_shows_printable_bytes() {
    let mut data = vec![0u8; 512];
    data[310..315].copy_from_slice(b"Hi ~\x7f");
    let memory = Memory::from_raw(&data);
    let dump = memory.hexdump(640 + 5, 12);
    let lines: Vec<&str> = dump.lines().collect();
    assert_eq!(lines.len(), 12);
    assert!(lines.iter().all(|line| line.len() == 32));
    // the dump starts 330 bytes below the address rounded down to 64
    assert_eq!(lines[0], "Hi ~.".to_string() + &".".repeat(27));
    assert_eq!(memory.hexdump(0, 0), "");
    assert_eq!(memory.hexdump(100, 1), ".".repeat(32) + "\n");
}

#[test]
fn from_raw_holds_the_data() {
    let data: Vec<u8> = (0..=255u8).cycle().take(5000).collect();
    let memory = Memory::from_raw(&data);
    assert_eq!(memory.read_n(0, 5000), Ok(data));
    assert_eq!(memory.load_u8(8191), Ok(0));
    assert!(!memory.is_mapped(8192));
    assert_eq!(memory.usage(), 3 * 4096);
}

#[test]
fn copies_share_nothing() {
    let mut memory = Memory::from_raw(&[1; 8]);
    let copy = memory.clone();
    memory.store_u8(0, 9).unwrap();
    assert_eq!(copy.load_u8(0), Ok(1));
    assert_eq!(memory.load_u8(0), Ok(9));
    assert_eq!(copy.stack_bottom(), memory.stack_bottom());
}

#[test]
fn a_copy_that_faults_keeps_what_was_copied() {
    let mut memory = Memory::from_raw(&[0xaa; 16]);
    assert_eq!(
        memory.write_n(b"xyz", 4094, 3),
        Err(RVError::SegmentationFault)
    );
    assert_eq!(memory.read_n(4093, 3), Ok(vec![0, b'x', b'y']));
    assert_eq!(memory.load_u8(4096), Err(RVError::SegmentationFault));
}

#[test]
fn a_store_leaves_the_bytes_around_it() {
    let mut memory = Memory::from_raw(&[0x11; 32]);
    memory.store_u32(8, 0xdead_beef).unwrap();
    assert_eq!(memory.read_n(4, 4), Ok(vec![0x11; 4]));
    assert_eq!(memory.read_n(8, 4), Ok(vec![0xef, 0xbe, 0xad, 0xde]));
    assert_eq!(memory.read_n(12, 4), Ok(vec![0x11; 4]));
}
