use remu::address_map::AddressMap;

#[test]
fn new_map_holds_nothing() {
    let mut map = AddressMap::new();
    assert!(map.get(0).is_none());
    assert!(map.get(0xffff_ffff_f000).is_none());
    assert!(map.get_mut(0x1000).is_none());
}

#[test]
fn inserted_pages_are_zero_and_apart() {
    let mut map = AddressMap::new();
    map.insert(0x1234);
    assert_eq!(map.get(0x1000).unwrap(), &[0u8; 4096]);
    assert!(map.get(0x1fff).is_some());
    assert!(map.get(0x2000).is_none());
    assert!(map.get(0x0fff).is_none());
    // the same slots at the lower levels, another at the top
    assert!(map.get(0x80_0000_1234).is_none());
    map.insert(0x80_0000_1234);
    map.insert(0xffff_ffff_f000);
    map.insert(0);
    map.get_mut(0x1234).unwrap()[0x234] = 7;
    map.get_mut(0x80_0000_1000).unwrap()[0] = 9;
    assert_eq!(map.get(0x1000).unwrap()[0x234], 7);
    assert_eq!(map.get(0x80_0000_1000).unwrap()[0], 9);
    assert_eq!(map.get(0x80_0000_1000).unwrap()[0x234], 0);
    assert_eq!(map.get(0).unwrap()[0x234], 0);
    assert_eq!(map.get(0xffff_ffff_ffff).unwrap(), &[0u8; 4096]);
}

#[test]
fn insert_clears_a_page_that_was_mapped() {
    let mut map = AddressMap::new();
    map.insert(0x5000);
    map.insert(0x6000);
    map.get_mut(0x5000).unwrap()[1] = 1;
    map.get_mut(0x6000).unwrap()[2] = 2;
    map.insert(0x5fff);
    assert_eq!(map.get(0x5000).unwrap()[1], 0);
    assert_eq!(map.get(0x6000).unwrap()[2], 2);
}

#[test]
fn many_pages_in_any_order() {
    let mut map = AddressMap::new();
    let pages: Vec<u64> = (0..600u64).map(|i| (i * 7919) % 1021).collect();
    for (i, page) in pages.iter().enumerate() {
        map.insert(page << 12);
        map.get_mut(page << 12).unwrap()[0] = (i % 251) as u8 + 1;
    }
    for page in 0..1021u64 {
        let last = pages.iter().rposition(|p| *p == page);
        match last {
            Some(i) => assert_eq!(map.get(page << 12).unwrap()[0], (i % 251) as u8 + 1),
            None => assert!(map.get(page << 12).is_none()),
        }
    }
}
