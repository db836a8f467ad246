//! A page table as a tree: four levels of nodes, each sorted by the nine bits
//! of the address that select among its children, with the pages at the
//! leaves. It maps the pages of a 48-bit address space.
//!
//! Level `depth` is selected by bits `12 + 9 * (3 - depth)` and up of the
//! address: level 0 by bits 39 to 47, level 3 by bits 12 to 20.

use vstd::prelude::*;

verus! {

/// The number of bytes in a page.
pub const PAGE_BYTES: usize = 4096;

/// A page of memory.
pub type Page = [u8; 4096];

/// The deepest level of the tree, which holds the pages.
pub const MAXDEPTH: u8 = 3;

/// The first address that the tree does not map.
pub const ADDRESS_LIMIT: u64 = 0x1_0000_0000_0000;

/// The nine bits of `addr` that select the child at level `depth`.
pub open spec fn slot(addr: u64, depth: int) -> u16 {
    ((addr >> ((12 + 9 * (MAXDEPTH - depth)) as u64)) & 0b111111111) as u16
}

/// Whether two addresses select the same child at every level from `depth`
/// on.
pub open spec fn same_path(a: u64, b: u64, depth: int) -> bool
    decreases 4 - depth,
{
    if depth < 0 || depth > MAXDEPTH {
        true
    } else {
        slot(a, depth) == slot(b, depth) && same_path(a, b, depth + 1)
    }
}

/// A page of zeros.
pub open spec fn empty_page() -> Seq<u8> {
    Seq::new(PAGE_BYTES as nat, |i: int| 0u8)
}

struct TreeNode {
    index: u16,
    data: AddressEntry,
}

enum AddressEntry {
    Leaf { page: Box<Page> },
    Branch { map: Box<AddressMap> },
}

pub struct AddressMap {
    data: Vec<TreeNode>,
}

/// The position of the node that `index` selects, or -1 where there is none.
spec fn find(nodes: Seq<TreeNode>, index: u16) -> int {
    if exists|i: int| 0 <= i < nodes.len() && nodes[i].index == index {
        choose|i: int| 0 <= i < nodes.len() && nodes[i].index == index
    } else {
        -1
    }
}

/// The nodes are in the order of what selects them, each selected by
/// something else.
spec fn ordered(nodes: Seq<TreeNode>) -> bool {
    forall|i: int, j: int| 0 <= i < j < nodes.len() ==> nodes[i].index < nodes[j].index
}

/// In ordered nodes, the node at `at` is the one that its index selects.
proof fn lemma_find_is(nodes: Seq<TreeNode>, at: int)
    requires
        ordered(nodes),
        0 <= at < nodes.len(),
    ensures
        find(nodes, nodes[at].index) == at,
{
    let found = find(nodes, nodes[at].index);
    if found < at {
        assert(nodes[found].index < nodes[at].index);
    } else if found > at {
        assert(nodes[at].index < nodes[found].index);
    }
}

/// The page that a node of level `depth` holds for `addr`, if any.
spec fn node_lookup(node: TreeNode, addr: u64, depth: int) -> Option<Seq<u8>>
    decreases 4 - depth, 0int,
{
    if depth < 0 || depth > MAXDEPTH {
        None
    } else {
        match node.data {
            AddressEntry::Leaf { page } => Some(page@),
            AddressEntry::Branch { map } => map.lookup(addr, depth + 1),
        }
    }
}

/// A node of level `depth` is in order: a page at the deepest level, and a
/// tree in order above it.
spec fn node_ordered(node: TreeNode, depth: int) -> bool {
    match node.data {
        AddressEntry::Leaf { page } => depth == MAXDEPTH,
        AddressEntry::Branch { map } => depth < MAXDEPTH && map.ordered_from(depth + 1),
    }
}

impl AddressMap {
    /// The tree from level `depth` down is in order: the nodes of each level
    /// are sorted, the pages lie at the deepest level and nowhere else.
    pub closed spec fn ordered_from(&self, depth: int) -> bool
        decreases 4 - depth,
    {
        &&& 0 <= depth <= MAXDEPTH
        &&& ordered(self.data@)
        &&& forall|i: int|
            0 <= i < self.data@.len() ==> match #[trigger] self.data@[i].data {
                AddressEntry::Leaf { page } => depth == MAXDEPTH,
                AddressEntry::Branch { map } => depth < MAXDEPTH && map.ordered_from(depth + 1),
            }
    }

    /// The page that the tree from level `depth` down holds for `addr`, if
    /// any.
    pub closed spec fn lookup(&self, addr: u64, depth: int) -> Option<Seq<u8>>
        decreases 4 - depth, 1int,
    {
        if depth < 0 || depth > MAXDEPTH {
            None
        } else {
            let at = find(self.data@, slot(addr, depth));
            if at < 0 {
                None
            } else {
                node_lookup(self.data@[at], addr, depth)
            }
        }
    }

    /// The tree is in order.
    pub open spec fn well_formed(&self) -> bool {
        self.ordered_from(0)
    }

    /// The page that holds `addr`, if it is mapped.
    pub open spec fn page_at(&self, addr: u64) -> Option<Seq<u8>> {
        self.lookup(addr, 0)
    }

    /// Returns a tree that maps nothing.
    pub fn new() -> (map: AddressMap)
        ensures
            map.well_formed(),
            forall|addr: u64| map.page_at(addr) is None,
    {
        let map = AddressMap { data: Vec::new() };
        assert(forall|addr: u64| find(map.data@, slot(addr, 0)) == -1);
        map
    }

    /// Returns the nine bits of `addr` that select the child at level
    /// `depth`.
    fn get_idx(addr: u64, depth: u8) -> (index: u16)
        requires
            depth <= MAXDEPTH,
        ensures
            index == slot(addr, depth as int),
            index < 512,
    {
        let shift = (12 + 9 * (MAXDEPTH - depth)) as u64;
        let selected = (addr >> shift) & 0b111111111;
        assert(selected < 512) by (bit_vector)
            requires
                selected == (addr >> shift) & 0b111111111,
        ;
        selected as u16
    }

    /// Searches the nodes of this level for the one that `index` selects:
    /// `Ok` with its position, or `Err` with the position at which it would
    /// have to be inserted.
    fn search(&self, index: u16) -> (r: Result<usize, usize>)
        requires
            ordered(self.data@),
        ensures
            match r {
                Ok(at) => at < self.data@.len() && self.data@[at as int].index == index && find(
                    self.data@,
                    index,
                ) == at,
                Err(at) => at <= self.data@.len() && find(self.data@, index) == -1 && (forall|
                    i: int,
                |
                    0 <= i < at ==> self.data@[i].index < index) && (forall|i: int|
                    at <= i < self.data@.len() ==> self.data@[i].index > index),
            },
    {
        let mut low: usize = 0;
        let mut high: usize = self.data.len();
        while low < high
            invariant
                ordered(self.data@),
                low <= high <= self.data@.len(),
                forall|i: int| 0 <= i < low ==> self.data@[i].index < index,
                forall|i: int| high <= i < self.data@.len() ==> self.data@[i].index > index,
            decreases high - low,
        {
            let middle = low + (high - low) / 2;
            let here = self.data[middle].index;
            if here == index {
                proof {
                    lemma_find_is(self.data@, middle as int);
                }
                return Ok(middle);
            } else if here < index {
                low = middle + 1;
            } else {
                high = middle;
            }
        }
        Err(low)
    }

    fn get_internal(&self, addr: u64, depth: u8) -> (page: Option<&Page>)
        requires
            self.ordered_from(depth as int),
        ensures
            match page {
                Some(p) => self.lookup(addr, depth as int) == Some(p@),
                None => self.lookup(addr, depth as int) is None,
            },
        decreases MAXDEPTH - depth,
    {
        let idx = Self::get_idx(addr, depth);
        let res = match self.search(idx) {
            Ok(res) => res,
            Err(_) => {
                return None;
            },
        };
        match &self.data[res].data {
            AddressEntry::Leaf { page } => Some(&**page),
            AddressEntry::Branch { map } => map.get_internal(addr, depth + 1),
        }
    }

    /// Returns the page that holds `addr`, if it is mapped.
    pub fn get(&self, addr: u64) -> (page: Option<&Page>)
        requires
            self.well_formed(),
        ensures
            match page {
                Some(p) => self.page_at(addr) == Some(p@),
                None => self.page_at(addr) is None,
            },
    {
        self.get_internal(addr, 0)
    }
}


/// What is found is selected by the index sought.
proof fn lemma_found(nodes: Seq<TreeNode>, index: u16)
    ensures
        find(nodes, index) >= -1,
        find(nodes, index) >= 0 ==> find(nodes, index) < nodes.len() && nodes[find(
            nodes,
            index,
        )].index == index,
        find(nodes, index) == -1 ==> forall|i: int|
            0 <= i < nodes.len() ==> nodes[i].index != index,
{
}

/// Replacing a node by one that the same index selects changes what is found
/// for no other index.
proof fn lemma_find_after_update(before: Seq<TreeNode>, at: int, node: TreeNode, index: u16)
    requires
        ordered(before),
        0 <= at < before.len(),
        node.index == before[at].index,
        index != node.index,
    ensures
        ordered(before.update(at, node)),
        find(before.update(at, node), index) == find(before, index),
        find(before, index) >= 0 ==> before.update(at, node)[find(before, index)] == before[find(
            before,
            index,
        )],
{
    let after = before.update(at, node);
    assert(ordered(after)) by {
        assert forall|i: int, j: int| 0 <= i < j < after.len() implies after[i].index
            < after[j].index by {
            assert(after[i].index == before[i].index);
            assert(after[j].index == before[j].index);
        }
    }
    lemma_found(before, index);
    lemma_found(after, index);
    let k = find(before, index);
    if k >= 0 {
        assert(after[k] == before[k]);
        lemma_find_is(after, k);
    } else if find(after, index) >= 0 {
        let j = find(after, index);
        assert(before[j].index == index);
    }
}

/// Inserting a node that a new index selects changes what is found for no
/// other index.
proof fn lemma_find_after_insert(before: Seq<TreeNode>, at: int, node: TreeNode, index: u16)
    requires
        ordered(before),
        0 <= at <= before.len(),
        forall|i: int| 0 <= i < at ==> before[i].index < node.index,
        forall|i: int| at <= i < before.len() ==> before[i].index > node.index,
        index != node.index,
    ensures
        ordered(before.insert(at, node)),
        find(before, index) >= 0 <==> find(before.insert(at, node), index) >= 0,
        find(before, index) >= 0 ==> before.insert(at, node)[find(
            before.insert(at, node),
            index,
        )] == before[find(before, index)],
{
    let after = before.insert(at, node);
    assert(ordered(after)) by {
        assert forall|i: int, j: int| 0 <= i < j < after.len() implies after[i].index
            < after[j].index by {
            if i < at {
                assert(after[i] == before[i]);
            } else if i > at {
                assert(after[i] == before[i - 1]);
            }
            if j < at {
                assert(after[j] == before[j]);
            } else if j > at {
                assert(after[j] == before[j - 1]);
            }
        }
    }
    lemma_found(before, index);
    lemma_found(after, index);
    let k = find(before, index);
    if k >= 0 {
        if k < at {
            assert(after[k] == before[k]);
            lemma_find_is(after, k);
        } else {
            assert(after[k + 1] == before[k]);
            lemma_find_is(after, k + 1);
        }
    } else if find(after, index) >= 0 {
        let j = find(after, index);
        if j < at {
            assert(after[j] == before[j]);
        } else {
            assert(after[j] == before[j - 1]);
        }
    }
}

/// What a tree holds for an address after the node that another address
/// selects has been replaced or inserted, where the new node holds `content`
/// for the page of that other address.
proof fn lemma_lookup_after_change(
    old_map: AddressMap,
    new_map: AddressMap,
    at: int,
    a: u64,
    addr: u64,
    depth: int,
    replaced: bool,
    content: Seq<u8>,
)
    requires
        0 <= depth <= MAXDEPTH,
        ordered(old_map.data@),
        if replaced {
            0 <= at < old_map.data@.len() && old_map.data@[at].index == slot(addr, depth)
                && new_map.data@ == old_map.data@.update(at, new_map.data@[at])
        } else {
            0 <= at <= old_map.data@.len() && (forall|i: int|
                0 <= i < at ==> old_map.data@[i].index < slot(addr, depth)) && (forall|i: int|
                at <= i < old_map.data@.len() ==> old_map.data@[i].index > slot(addr, depth))
                && new_map.data@ == old_map.data@.insert(at, new_map.data@[at])
        },
        0 <= at < new_map.data@.len(),
        new_map.data@[at].index == slot(addr, depth),
        node_lookup(new_map.data@[at], a, depth) == if same_path(a, addr, depth + 1) {
            Some(content)
        } else if replaced {
            node_lookup(old_map.data@[at], a, depth)
        } else {
            None
        },
    ensures
        ordered(new_map.data@),
        new_map.lookup(a, depth) == if same_path(a, addr, depth) {
            Some(content)
        } else {
            old_map.lookup(a, depth)
        },
{
    let before = old_map.data@;
    let after = new_map.data@;
    let node = after[at];
    let idx = slot(addr, depth);
    let s = slot(a, depth);
    lemma_found(before, s);
    lemma_found(after, s);
    if s != idx {
        if replaced {
            lemma_find_after_update(before, at, node, s);
        } else {
            lemma_find_after_insert(before, at, node, s);
        }
    } else {
        if replaced {
            lemma_find_after_update(before, at, node, if idx == 0 { 1u16 } else { 0u16 });
            lemma_find_is(before, at);
        } else {
            lemma_find_after_insert(before, at, node, if idx == 0 { 1u16 } else { 0u16 });
        }
        lemma_find_is(after, at);
    }
}

impl AddressMap {
    /// Returns a node for level `depth` that holds a page of zeros for the
    /// page of `addr`, and nothing else.
    fn fresh_node(addr: u64, depth: u8) -> (node: TreeNode)
        requires
            depth <= MAXDEPTH,
        ensures
            node.index == slot(addr, depth as int),
            node_ordered(node, depth as int),
            forall|a: u64|
                #[trigger] node_lookup(node, a, depth as int) == if same_path(a, addr, depth + 1) {
                    Some(empty_page())
                } else {
                    None
                },
        decreases MAXDEPTH - depth, 0int,
    {
        let index = Self::get_idx(addr, depth);
        if depth == MAXDEPTH {
            let fresh: Page = [0u8;4096];
            assert(fresh@ =~= empty_page());
            let page = Box::new(fresh);
            assert(page@ == empty_page());
            let node = TreeNode { index, data: AddressEntry::Leaf { page } };
            assert forall|a: u64|
                (#[trigger] node_lookup(node, a, depth as int)) == Some(empty_page())
                    && same_path(a, addr, depth + 1) by {
                assert(same_path(a, addr, 4));
                assert(node_lookup(node, a, 3) == Some(page@));
            }
            node
        } else {
            let mut map = AddressMap { data: Vec::new() };
            proof {
                assert forall|a: u64| #[trigger] map.lookup(a, depth + 1) == None::<Seq<u8>> by {
                    lemma_found(map.data@, slot(a, depth + 1));
                }
            }
            map.insert_internal(addr, depth + 1);
            let ghost below = map;
            let node = TreeNode { index, data: AddressEntry::Branch { map: Box::new(map) } };
            assert forall|a: u64|
                (#[trigger] node_lookup(node, a, depth as int)) == if same_path(
                    a,
                    addr,
                    depth + 1,
                ) {
                    Some(empty_page())
                } else {
                    None
                } by {
                assert(node_lookup(node, a, depth as int) == below.lookup(a, depth + 1));
                assert(below.lookup(a, (depth + 1) as u8 as int) == below.lookup(a, depth + 1));
            }
            node
        }
    }

    /// Returns the node with a page of zeros for the page of `addr`; what it
    /// holds for other pages stays.
    fn renewed(node: TreeNode, addr: u64, depth: u8) -> (renewed: TreeNode)
        requires
            depth <= MAXDEPTH,
            node_ordered(node, depth as int),
        ensures
            renewed.index == node.index,
            node_ordered(renewed, depth as int),
            forall|a: u64|
                #[trigger] node_lookup(renewed, a, depth as int) == if same_path(
                    a,
                    addr,
                    depth + 1,
                ) {
                    Some(empty_page())
                } else {
                    node_lookup(node, a, depth as int)
                },
        decreases MAXDEPTH - depth, 0int,
    {
        match node.data {
            AddressEntry::Leaf { page } => {
                let fresh: Page = [0u8;4096];
                assert(fresh@ =~= empty_page());
                let page = Box::new(fresh);
                assert(page@ == empty_page());
                let renewed = TreeNode { index: node.index, data: AddressEntry::Leaf { page } };
                assert forall|a: u64|
                    (#[trigger] node_lookup(renewed, a, depth as int)) == Some(empty_page())
                        && same_path(a, addr, depth + 1) by {
                    assert(same_path(a, addr, 4));
                    assert(node_lookup(renewed, a, 3) == Some(page@));
                }
                renewed
            },
            AddressEntry::Branch { map } => {
                let mut map = map;
                let ghost above = *map;
                map.insert_internal(addr, depth + 1);
                let ghost below = *map;
                let renewed = TreeNode { index: node.index, data: AddressEntry::Branch { map } };
                assert forall|a: u64|
                    (#[trigger] node_lookup(renewed, a, depth as int)) == if same_path(
                        a,
                        addr,
                        depth + 1,
                    ) {
                        Some(empty_page())
                    } else {
                        node_lookup(node, a, depth as int)
                    } by {
                    assert(node_lookup(renewed, a, depth as int) == below.lookup(a, depth + 1));
                    assert(node_lookup(node, a, depth as int) == above.lookup(a, depth + 1));
                    assert(below.lookup(a, (depth + 1) as u8 as int) == below.lookup(
                        a,
                        depth + 1,
                    ));
                }
                renewed
            },
        }
    }

    #[verifier::spinoff_prover]
    fn insert_internal(&mut self, addr: u64, depth: u8)
        requires
            old(self).ordered_from(depth as int),
        ensures
            final(self).ordered_from(depth as int),
            forall|a: u64|
                #[trigger] final(self).lookup(a, depth as int) == if same_path(
                    a,
                    addr,
                    depth as int,
                ) {
                    Some(empty_page())
                } else {
                    old(self).lookup(a, depth as int)
                },
        decreases MAXDEPTH - depth, 1int,
    {
        let idx = Self::get_idx(addr, depth);
        let ghost before = self.data@;
        match self.search(idx) {
            Ok(res) => {
                let node = self.data.remove(res);
                assert(node_ordered(node, depth as int)) by {
                    assert(node == before[res as int]);
                }
                let entry = Self::renewed(node, addr, depth);
                let ghost fresh_node = entry;
                self.data.insert(res, entry);
                proof {
                    assert(self.data@ =~= before.update(res as int, fresh_node));
                    assert forall|a: u64| #[trigger]
                        self.lookup(a, depth as int) == if same_path(a, addr, depth as int) {
                            Some(empty_page())
                        } else {
                            old(self).lookup(a, depth as int)
                        } by {
                        lemma_lookup_after_change(
                            *old(self),
                            *self,
                            res as int,
                            a,
                            addr,
                            depth as int,
                            true,
                            empty_page(),
                        );
                    }
                    assert(ordered(self.data@)) by {
                        lemma_lookup_after_change(
                            *old(self),
                            *self,
                            res as int,
                            addr,
                            addr,
                            depth as int,
                            true,
                            empty_page(),
                        );
                    }
                    assert forall|i: int| 0 <= i < self.data@.len() implies match #[trigger]
                        self.data@[i].data {
                        AddressEntry::Leaf { page } => depth == MAXDEPTH,
                        AddressEntry::Branch { map } => depth < MAXDEPTH && map.ordered_from(
                            depth + 1,
                        ),
                    } by {
                        if i != res {
                            assert(self.data@[i] == before[i]);
                        }
                    }
                }
            },
            Err(new_idx) => {
                let entry = Self::fresh_node(addr, depth);
                let ghost fresh_node = entry;
                self.data.insert(new_idx, entry);
                proof {
                    assert(self.data@ =~= before.insert(new_idx as int, fresh_node));
                    assert forall|a: u64| #[trigger]
                        self.lookup(a, depth as int) == if same_path(a, addr, depth as int) {
                            Some(empty_page())
                        } else {
                            old(self).lookup(a, depth as int)
                        } by {
                        lemma_lookup_after_change(
                            *old(self),
                            *self,
                            new_idx as int,
                            a,
                            addr,
                            depth as int,
                            false,
                            empty_page(),
                        );
                    }
                    assert(ordered(self.data@)) by {
                        lemma_lookup_after_change(
                            *old(self),
                            *self,
                            new_idx as int,
                            addr,
                            addr,
                            depth as int,
                            false,
                            empty_page(),
                        );
                    }
                    assert forall|i: int| 0 <= i < self.data@.len() implies match #[trigger]
                        self.data@[i].data {
                        AddressEntry::Leaf { page } => depth == MAXDEPTH,
                        AddressEntry::Branch { map } => depth < MAXDEPTH && map.ordered_from(
                            depth + 1,
                        ),
                    } by {
                        if i < new_idx {
                            assert(self.data@[i] == before[i]);
                        } else if i > new_idx {
                            assert(self.data@[i] == before[i - 1]);
                        }
                    }
                }
            },
        };
    }

    fn get_mut_internal(&mut self, addr: u64, depth: u8) -> (page: &mut Page)
        requires
            old(self).ordered_from(depth as int),
            old(self).lookup(addr, depth as int) is Some,
        ensures
            old(self).lookup(addr, depth as int) == Some(page@),
            final(self).ordered_from(depth as int),
            forall|a: u64|
                #[trigger] final(self).lookup(a, depth as int) == if same_path(
                    a,
                    addr,
                    depth as int,
                ) {
                    Some(final(page)@)
                } else {
                    old(self).lookup(a, depth as int)
                },
        decreases MAXDEPTH - depth,
    {
        let idx = Self::get_idx(addr, depth);
        let res = match self.search(idx) {
            Ok(res) => res,
            Err(_) => vstd::pervasive::unreached(),
        };
        let ghost before = self.data@;
        let ghost after = *final(self);
        let node = &mut self.data[res];
        let ghost held = *node;
        let ghost renewed = *final(node);
        assert(held == before[res as int]);
        assert(node_ordered(held, depth as int));
        let page = match &mut node.data {
            AddressEntry::Leaf { page } => {
                let ghost boxed = *final(page);
                let inner: &mut Page = &mut **page;
                proof {
                    assert(renewed.data == AddressEntry::Leaf { page: boxed });
                    assert(boxed@ == final(inner)@);
                    assert forall|a: u64|
                        (#[trigger] node_lookup(renewed, a, depth as int)) == Some(
                            final(inner)@,
                        ) && same_path(a, addr, depth + 1) by {
                        assert(same_path(a, addr, 4));
                    }
                }
                inner
            },
            AddressEntry::Branch { map } => {
                let ghost above = **map;
                let ghost below = **final(map);
                let inner = map.get_mut_internal(addr, depth + 1);
                proof {
                    assert(renewed.data == AddressEntry::Branch { map: Box::new(below) });
                    assert forall|a: u64|
                        (#[trigger] node_lookup(renewed, a, depth as int)) == if same_path(
                            a,
                            addr,
                            depth + 1,
                        ) {
                            Some(final(inner)@)
                        } else {
                            node_lookup(held, a, depth as int)
                        } by {
                        assert(node_lookup(renewed, a, depth as int) == below.lookup(
                            a,
                            depth + 1,
                        ));
                        assert(node_lookup(held, a, depth as int) == above.lookup(a, depth + 1));
                        assert(below.lookup(a, (depth + 1) as u8 as int) == below.lookup(
                            a,
                            depth + 1,
                        ));
                    }
                    assert(node_ordered(renewed, depth as int));
                }
                inner
            },
        };
        proof {
            assert(after.data@ == before.update(res as int, renewed));
            assert(renewed.index == held.index);
            assert(node_ordered(renewed, depth as int));
            assert forall|a: u64| #[trigger]
                after.lookup(a, depth as int) == if same_path(a, addr, depth as int) {
                    Some(final(page)@)
                } else {
                    old(self).lookup(a, depth as int)
                } by {
                lemma_lookup_after_change(
                    *old(self),
                    after,
                    res as int,
                    a,
                    addr,
                    depth as int,
                    true,
                    final(page)@,
                );
            }
            lemma_lookup_after_change(
                *old(self),
                after,
                res as int,
                addr,
                addr,
                depth as int,
                true,
                final(page)@,
            );
            assert forall|i: int| 0 <= i < after.data@.len() implies node_ordered(
                #[trigger] after.data@[i],
                depth as int,
            ) by {
                if i != res {
                    assert(after.data@[i] == before[i]);
                }
            }
        }
        page
    }

    /// Returns the page that holds `addr`, if it is mapped, for writing. What
    /// the caller leaves in the page is what the tree then holds for it; no
    /// other page changes.
    pub fn get_mut(&mut self, addr: u64) -> (page: Option<&mut Page>)
        requires
            old(self).well_formed(),
            addr < ADDRESS_LIMIT,
        ensures
            match page {
                Some(p) => old(self).page_at(addr) == Some(p@) && final(self).well_formed()
                    && forall|a: u64|
                    a < ADDRESS_LIMIT ==> #[trigger] final(self).page_at(a) == if a / 4096 == addr
                        / 4096 {
                        Some(final(p)@)
                    } else {
                        old(self).page_at(a)
                    },
                None => old(self).page_at(addr) is None && *final(self) == *old(self),
            },
    {
        if self.get_internal(addr, 0).is_none() {
            None
        } else {
            let ghost after = *final(self);
            let page = self.get_mut_internal(addr, 0);
            proof {
                assert forall|a: u64| a < ADDRESS_LIMIT implies #[trigger] after.page_at(a)
                    == if a / 4096 == addr / 4096 {
                    Some(final(page)@)
                } else {
                    old(self).page_at(a)
                } by {
                    lemma_same_page(a, addr);
                }
            }
            Some(page)
        }
    }

    /// Maps the page that holds `addr`, which lies below `ADDRESS_LIMIT`, as
    /// a page of zeros; a page that was mapped there is replaced. No other
    /// page changes.
    pub fn insert(&mut self, addr: u64)
        requires
            old(self).well_formed(),
            addr < ADDRESS_LIMIT,
        ensures
            final(self).well_formed(),
            forall|a: u64|
                a < ADDRESS_LIMIT ==> #[trigger] final(self).page_at(a) == if a / 4096 == addr
                    / 4096 {
                    Some(empty_page())
                } else {
                    old(self).page_at(a)
                },
    {
        self.insert_internal(addr, 0);
        proof {
            assert forall|a: u64| a < ADDRESS_LIMIT implies #[trigger] self.page_at(a) == if a
                / 4096 == addr / 4096 {
                Some(empty_page())
            } else {
                old(self).page_at(a)
            } by {
                lemma_same_page(a, addr);
            }
        }
    }
}

/// Two addresses below `ADDRESS_LIMIT` select the same children at every
/// level if and only if they lie in the same page.
pub proof fn lemma_same_page(a: u64, b: u64)
    requires
        a < ADDRESS_LIMIT,
        b < ADDRESS_LIMIT,
    ensures
        same_path(a, b, 0) <==> a / 4096 == b / 4096,
{
    reveal_with_fuel(same_path, 5);
    assert((((a >> 39) & 0b111111111) as u16 == ((b >> 39) & 0b111111111) as u16 && ((a >> 30)
        & 0b111111111) as u16 == ((b >> 30) & 0b111111111) as u16 && ((a >> 21) & 0b111111111)
        as u16 == ((b >> 21) & 0b111111111) as u16 && ((a >> 12) & 0b111111111) as u16 == ((b
        >> 12) & 0b111111111) as u16) == (a / 4096 == b / 4096)) by (bit_vector)
        requires
            a < 0x1_0000_0000_0000u64,
            b < 0x1_0000_0000_0000u64,
    ;
}

} // verus!
