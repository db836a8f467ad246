//! A small cache of branch outcomes, keyed by the address of the branch: a
//! ring of `SIZE` slots that a new key enters at the oldest position.

use vstd::prelude::*;

verus! {

/// The contents of a cache: its slots, each a key with its value, and the ring
/// position, which names the slot that the next new key takes.
pub struct CacheView {
    pub slots: Seq<(u64, bool)>,
    pub index: int,
}

/// The position of the first slot at or after `from` that holds `key`, or the
/// length where there is none.
pub open spec fn first_match(slots: Seq<(u64, bool)>, key: u64, from: int) -> int
    decreases slots.len() - from,
{
    if from < 0 || from >= slots.len() {
        slots.len() as int
    } else if slots[from].0 == key {
        from
    } else {
        first_match(slots, key, from + 1)
    }
}

/// The first match lies in the searched part and holds the key, and no slot
/// before it does.
pub proof fn lemma_first_match(slots: Seq<(u64, bool)>, key: u64, from: int)
    requires
        0 <= from <= slots.len(),
    ensures
        from <= first_match(slots, key, from) <= slots.len(),
        first_match(slots, key, from) < slots.len() ==> slots[first_match(slots, key, from)].0
            == key,
        forall|i: int| from <= i < first_match(slots, key, from) ==> slots[i].0 != key,
    decreases slots.len() - from,
{
    if from < slots.len() && slots[from].0 != key {
        lemma_first_match(slots, key, from + 1);
    }
}

/// A search that starts behind slots without the key finds what a search from
/// the front finds.
pub proof fn lemma_first_match_skips(slots: Seq<(u64, bool)>, key: u64, upto: int)
    requires
        0 <= upto <= slots.len(),
        forall|i: int| 0 <= i < upto ==> slots[i].0 != key,
    ensures
        first_match(slots, key, 0) == first_match(slots, key, upto),
    decreases upto,
{
    if upto > 0 {
        lemma_first_match_skips(slots, key, upto - 1);
    }
}

impl CacheView {
    /// The cache has a slot, and the ring position names one.
    pub open spec fn well_formed(self) -> bool {
        0 <= self.index < self.slots.len()
    }

    /// The value under `key`: that of the first slot that holds the key.
    pub open spec fn value_of(self, key: u64) -> Option<bool> {
        let at = first_match(self.slots, key, 0);
        if at < self.slots.len() {
            Some(self.slots[at].1)
        } else {
            None
        }
    }

    /// The cache after `update(key, value)`: the value replaces that of the
    /// first slot that holds the key; where no slot does, key and value take
    /// the slot at the ring position, which moves on by one.
    pub open spec fn updated(self, key: u64, value: bool) -> CacheView {
        let at = first_match(self.slots, key, 0);
        if at < self.slots.len() {
            CacheView { slots: self.slots.update(at, (key, value)), index: self.index }
        } else {
            CacheView {
                slots: self.slots.update(self.index, (key, value)),
                index: (self.index + 1) % (self.slots.len() as int),
            }
        }
    }

    /// What `update(key, value)` returns: the new value where the key was held
    /// with the other value, and nothing where it was held with the same value
    /// or not at all.
    pub open spec fn update_result(self, key: u64, value: bool) -> Option<bool> {
        match self.value_of(key) {
            Some(held) => if held != value {
                Some(value)
            } else {
                None
            },
            None => None,
        }
    }
}

/// An update keeps the number of slots and the ring position in range.
pub proof fn lemma_update_keeps_length(cache: CacheView, key: u64, value: bool)
    requires
        cache.well_formed(),
    ensures
        cache.updated(key, value).well_formed(),
        cache.updated(key, value).slots.len() == cache.slots.len(),
        cache.updated(key, value).value_of(key) == Some(value),
{
    lemma_first_match(cache.slots, key, 0);
    let at = first_match(cache.slots, key, 0);
    let after = cache.updated(key, value);
    if at < cache.slots.len() {
        assert forall|i: int| 0 <= i < at implies after.slots[i].0 != key by {}
        lemma_first_match_skips(after.slots, key, at);
    } else {
        assert forall|i: int| 0 <= i < cache.index implies after.slots[i].0 != key by {}
        lemma_first_match_skips(after.slots, key, cache.index);
    }
}

/// A new cache of `size` slots: key 0 with `false` in each.
pub open spec fn fresh_cache(size: nat) -> CacheView {
    CacheView { slots: Seq::new(size, |i: int| (0u64, false)), index: 0 }
}

#[derive(Clone, Copy, Debug)]
pub struct Cache<const SIZE: usize> {
    data: [(u64, bool); SIZE],
    index: usize,
}

impl<const SIZE: usize> View for Cache<SIZE> {
    type V = CacheView;

    closed spec fn view(&self) -> CacheView {
        CacheView { slots: self.data@, index: self.index as int }
    }
}

impl<const SIZE: usize> Cache<SIZE> {
    /// Returns a new cache, which holds key 0 with `false` in every slot.
    pub fn new() -> (cache: Cache<SIZE>)
        requires
            SIZE > 0,
        ensures
            cache@ == fresh_cache(SIZE as nat),
            cache@.well_formed(),
    {
        let cache = Cache { data: [(0u64, false);SIZE], index: 0 };
        assert(cache@.slots =~= fresh_cache(SIZE as nat).slots);
        cache
    }

    /// Returns the value held under `key`, if any.
    pub fn get(&self, key: u64) -> (value: Option<bool>)
        ensures
            value == self@.value_of(key),
    {
        let mut i: usize = 0;
        while i < SIZE
            invariant
                i <= SIZE,
                self.data@.len() == SIZE,
                forall|j: int| 0 <= j < i ==> self.data@[j].0 != key,
            decreases SIZE - i,
        {
            let item = self.data[i];
            if item.0 == key {
                proof {
                    lemma_first_match_skips(self.data@, key, i as int);
                }
                return Some(item.1);
            }
            i += 1;
        }
        proof {
            lemma_first_match_skips(self.data@, key, SIZE as int);
        }
        None
    }

    /// Enters a key with its value at the ring position, which moves on.
    fn put(&mut self, data: (u64, bool))
        requires
            old(self)@.well_formed(),
        ensures
            final(self)@.well_formed(),
            final(self)@.slots == old(self)@.slots.update(old(self)@.index, data),
            final(self)@.index == (old(self)@.index + 1) % (SIZE as int),
    {
        self.data[self.index] = data;
        self.index = (self.index + 1) % SIZE;
    }

    /// Sets the value under `key`, entering the key where the cache does not
    /// hold it. Returns the new value where the key was held with the other
    /// value, and `None` where nothing had to change or the key was new.
    pub fn update(&mut self, key: u64, new_value: bool) -> (changed: Option<bool>)
        requires
            old(self)@.well_formed(),
        ensures
            final(self)@.well_formed(),
            final(self)@ == old(self)@.updated(key, new_value),
            changed == old(self)@.update_result(key, new_value),
    {
        let mut i: usize = 0;
        while i < SIZE
            invariant
                i <= SIZE,
                self.data@.len() == SIZE,
                *self == *old(self),
                self@.well_formed(),
                forall|j: int| 0 <= j < i ==> self.data@[j].0 != key,
            decreases SIZE - i,
        {
            let item = self.data[i];
            if item.0 == key {
                proof {
                    lemma_first_match_skips(self.data@, key, i as int);
                }
                if item.1 != new_value {
                    self.data[i] = (key, new_value);
                    return Some(new_value);
                } else {
                    assert(self.data@ =~= self.data@.update(i as int, (key, new_value)));
                    return None;
                }
            }
            i += 1;
        }
        proof {
            lemma_first_match_skips(self.data@, key, SIZE as int);
        }
        self.put((key, new_value));
        None
    }
}

} // verus!
