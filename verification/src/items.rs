//! Items and the fixed-capacity slot containers that hold them.

use vstd::prelude::*;

verus! {

/// The closed set of item kinds. Each has a fixed use-effect when consumed.
#[derive(Clone, Copy, PartialEq, Eq, Structural, Debug)]
pub enum Items {
    Food,
    Bandage,
}

/// Every container in the game (player inventory and tile ground storage)
/// holds exactly this many slots.
pub const CONTAINER_CAPACITY: usize = 9;

/// A fixed-capacity, ordered sequence of optional items. Slots are
/// independently occupied or empty; the length never changes and holes are
/// never compacted.
pub struct ItemContainer {
    items: Vec<Option<Items>>,
}

impl View for ItemContainer {
    type V = Seq<Option<Items>>;

    closed spec fn view(&self) -> Seq<Option<Items>> {
        self.items@
    }
}

/// The earliest index at or after `i` whose slot is empty, if any.
pub open spec fn first_empty_from(s: Seq<Option<Items>>, i: int) -> Option<int>
    decreases s.len() - i,
{
    if i < 0 || i >= s.len() {
        None
    } else if s[i] is None {
        Some(i)
    } else {
        first_empty_from(s, i + 1)
    }
}

/// The earliest empty slot of the whole sequence, if any.
pub open spec fn first_empty(s: Seq<Option<Items>>) -> Option<int> {
    first_empty_from(s, 0)
}

/// Skipping a prefix of occupied slots does not change the earliest empty slot.
proof fn lemma_first_empty_skip(s: Seq<Option<Items>>, k: int, i: int)
    requires
        0 <= k <= i <= s.len(),
        forall|j: int| k <= j < i ==> s[j] is Some,
    ensures
        first_empty_from(s, k) == first_empty_from(s, i),
    decreases i - k,
{
    if k < i {
        lemma_first_empty_skip(s, k + 1, i);
    }
}

impl ItemContainer {
    /// Invariant: the slot count is fixed at the capacity.
    pub open spec fn wf(&self) -> bool {
        self@.len() == CONTAINER_CAPACITY
    }

    /// A new container with every slot empty.
    pub fn new() -> (c: Self)
        ensures
            c.wf(),
            forall|i: int| 0 <= i < CONTAINER_CAPACITY ==> c@[i] is None,
    {
        let mut items: Vec<Option<Items>> = Vec::new();
        let mut n: usize = 0;
        while n < CONTAINER_CAPACITY
            invariant
                n <= CONTAINER_CAPACITY,
                items@.len() == n,
                forall|i: int| 0 <= i < n ==> items@[i] is None,
            decreases CONTAINER_CAPACITY - n,
        {
            items.push(None);
            n = n + 1;
        }
        Self { items }
    }

    /// Overwrites the first slot with the given item, as the map seeder does
    /// when it stocks a freshly built tile.
    pub fn add(&mut self, item: Items)
        requires
            old(self).wf(),
        ensures
            final(self)@ == old(self)@.update(0, Some(item)),
            final(self).wf(),
    {
        self.items.set(0, Some(item));
    }

    /// Scans slots in index order and occupies the first empty one; returns
    /// whether a slot was found. A full container rejects the item.
    pub fn place_first_empty(&mut self, item: Items) -> (ok: bool)
        requires
            old(self).wf(),
        ensures
            final(self).wf(),
            match first_empty(old(self)@) {
                Some(i) => ok && final(self)@ == old(self)@.update(i, Some(item)),
                None => !ok && final(self)@ == old(self)@,
            },
    {
        let ghost s = self@;
        let mut n: usize = 0;
        while n < CONTAINER_CAPACITY
            invariant
                self@ == s,
                s == old(self)@,
                s.len() == CONTAINER_CAPACITY,
                n <= CONTAINER_CAPACITY,
                forall|j: int| 0 <= j < n ==> s[j] is Some,
            decreases CONTAINER_CAPACITY - n,
        {
            if self.items[n].is_none() {
                proof {
                    lemma_first_empty_skip(s, 0, n as int);
                }
                self.items.set(n, Some(item));
                return true;
            }
            n = n + 1;
        }
        proof {
            lemma_first_empty_skip(s, 0, CONTAINER_CAPACITY as int);
        }
        false
    }

    /// The index of the earliest empty slot, if any slot is empty.
    pub fn first_empty_slot(&self) -> (r: Option<usize>)
        requires
            self.wf(),
        ensures
            match r {
                Some(i) => i < CONTAINER_CAPACITY && first_empty(self@) == Some(i as int),
                None => first_empty(self@) is None,
            },
    {
        let mut n: usize = 0;
        while n < CONTAINER_CAPACITY
            invariant
                self.wf(),
                n <= CONTAINER_CAPACITY,
                forall|j: int| 0 <= j < n ==> self@[j] is Some,
            decreases CONTAINER_CAPACITY - n,
        {
            if self.items[n].is_none() {
                proof {
                    lemma_first_empty_skip(self@, 0, n as int);
                }
                return Some(n);
            }
            n = n + 1;
        }
        proof {
            lemma_first_empty_skip(self@, 0, CONTAINER_CAPACITY as int);
        }
        None
    }

    /// Read access to one slot.
    pub fn slot(&self, i: usize) -> (r: &Option<Items>)
        requires
            self.wf(),
            i < CONTAINER_CAPACITY,
        ensures
            *r == self@[i as int],
    {
        &self.items[i]
    }

    /// Mutable access to one slot; the container afterwards holds whatever the
    /// caller left behind the reference.
    pub fn slot_mut(&mut self, i: usize) -> (r: &mut Option<Items>)
        requires
            old(self).wf(),
            i < CONTAINER_CAPACITY,
        ensures
            *r == old(self)@[i as int],
            final(self)@ == old(self)@.update(i as int, *final(r)),
    {
        &mut self.items[i]
    }

    /// Exchanges the contents of slot `i` with the value behind `other`.
    pub fn swap_slot(&mut self, i: usize, other: &mut Option<Items>)
        requires
            old(self).wf(),
            i < CONTAINER_CAPACITY,
        ensures
            final(self).wf(),
            final(self)@ == old(self)@.update(i as int, *old(other)),
            *final(other) == old(self)@[i as int],
    {
        let held = self.items[i];
        self.items.set(i, *other);
        *other = held;
    }
}

} // verus!
