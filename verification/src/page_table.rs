//! The page table: a hash map from page number to page contents, hashed with
//! FNV as the addresses of a guest are no hostile input. Verus knows the map
//! through its view, a `Map` from each key to the `Vec` stored under it; the
//! functions of this file are the only ones that touch the map itself, and
//! their contracts are taken on trust.

use vstd::prelude::*;
use fnv::FnvHashMap;

verus! {

#[verifier::external_type_specification]
#[verifier::external_body]
pub struct ExFnvHasher(fnv::FnvHasher);

#[verifier::external_type_specification]
#[verifier::external_body]
#[verifier::reject_recursive_types(H)]
pub struct ExBuildHasherDefault<H>(core::hash::BuildHasherDefault<H>);

/// The hash map that holds the pages of an address space.
pub type PageTable = FnvHashMap<u64, Vec<u8>>;

/// The contents of a page table: each page number with the bytes of its page.
pub open spec fn contents(table: PageTable) -> Map<u64, Seq<u8>> {
    Map::new(|page: u64| table@.contains_key(page), |page: u64| table@[page]@)
}

/// `FnvHashMap::default`: a map that holds no key.
#[verifier::external_body]
pub(crate) fn table_new() -> (table: PageTable)
    ensures
        forall|page: u64| !table@.contains_key(page),
{
    FnvHashMap::default()
}

/// `HashMap::contains_key`: whether a value is stored under the key.
#[verifier::external_body]
pub(crate) fn table_contains(table: &PageTable, page: u64) -> (found: bool)
    ensures
        found == table@.contains_key(page),
{
    table.contains_key(&page)
}

/// `HashMap::get`: a reference to the value stored under the key, if any.
#[verifier::external_body]
pub(crate) fn table_get(table: &PageTable, page: u64) -> (found: Option<&Vec<u8>>)
    ensures
        match found {
            Some(bytes) => table@.contains_key(page) && *bytes == table@[page],
            None => !table@.contains_key(page),
        },
{
    table.get(&page)
}

/// `HashMap::get_mut`: a mutable reference to the value stored under the key,
/// if any. What the caller leaves behind the reference is what the map then
/// holds under that key; no other key changes.
#[verifier::external_body]
pub(crate) fn table_get_mut(table: &mut PageTable, page: u64) -> (found: Option<&mut Vec<u8>>)
    ensures
        match found {
            Some(bytes) => old(table)@.contains_key(page) && *bytes == old(table)@[page]
                && final(table)@ == old(table)@.insert(page, *final(bytes)),
            None => !old(table)@.contains_key(page) && final(table)@ == old(table)@,
        },
{
    table.get_mut(&page)
}

/// `HashMap::insert`: stores the value under the key, in place of any value
/// that was stored there.
#[verifier::external_body]
pub(crate) fn table_insert(table: &mut PageTable, page: u64, bytes: Vec<u8>)
    ensures
        final(table)@ == old(table)@.insert(page, bytes),
{
    table.insert(page, bytes);
}

/// `HashMap::len`: the number of keys.
#[verifier::external_body]
pub(crate) fn table_len(table: &PageTable) -> (count: usize)
    ensures
        count == table@.dom().len(),
{
    table.len()
}

/// `HashMap::clone`: a map with the same keys, each with a copy of its bytes.
#[verifier::external_body]
pub(crate) fn table_clone(table: &PageTable) -> (copy: PageTable)
    ensures
        contents(copy) == contents(*table),
{
    table.clone()
}

} // verus!
