use std::collections::VecDeque;
use vstd::prelude::*;

verus! {

/// The slots of a pool that no job holds, in the order they are handed out:
/// slots come off the front and go back on the end.
pub struct FreeSlots {
    free: VecDeque<usize>,
    capacity: usize,
}

/// Whether `free` is a valid set of free slots for a pool of `capacity`:
/// each slot below the capacity, none listed twice.
pub open spec fn free_slots_valid(free: Seq<usize>, capacity: nat) -> bool {
    &&& free.no_duplicates()
    &&& forall|i: int| 0 <= i < free.len() ==> #[trigger] free[i] < capacity
}

/// Whether `slot` is held: a slot of the pool that is not free.
pub open spec fn is_held(free: Seq<usize>, capacity: nat, slot: usize) -> bool {
    slot < capacity && !free.contains(slot)
}

impl FreeSlots {
    /// The free slots, front first.
    pub closed spec fn free(&self) -> Seq<usize> {
        self.free@
    }

    /// How many slots the pool has.
    pub closed spec fn capacity(&self) -> nat {
        self.capacity as nat
    }

    /// The pool's invariant.
    pub open spec fn well_formed(&self) -> bool {
        free_slots_valid(self.free(), self.capacity())
    }

    /// A pool of `max_parallel` slots, all free, lowest first.
    pub fn new(max_parallel: usize) -> (pool: Self)
        ensures
            pool.well_formed(),
            pool.capacity() == max_parallel,
            pool.free() == Seq::new(max_parallel as nat, |i: int| i as usize),
    {
        let mut free: VecDeque<usize> = VecDeque::new();
        let mut i: usize = 0;
        while i < max_parallel
            invariant
                i <= max_parallel,
                free@ == Seq::new(i as nat, |k: int| k as usize),
            decreases max_parallel - i,
        {
            free.push_back(i);
            i = i + 1;
            assert(free@ =~= Seq::new(i as nat, |k: int| k as usize));
        }
        FreeSlots { free, capacity: max_parallel }
    }

    /// Takes the free slot at the front, if any slot is free.
    pub fn take(&mut self) -> (slot: Option<usize>)
        requires
            old(self).well_formed(),
        ensures
            final(self).well_formed(),
            final(self).capacity() == old(self).capacity(),
            match slot {
                Some(s) => old(self).free().len() > 0 && s == old(self).free()[0] && final(self).free()
                    == old(self).free().drop_first(),
                None => old(self).free().len() == 0 && final(self).free() == old(self).free(),
            },
    {
        let slot = self.free.pop_front();
        assert(self.free@ =~= old(self).free@.drop_first() || self.free@ == old(self).free@);
        slot
    }

    /// Puts a held slot back on the end of the free slots.
    pub fn give_back(&mut self, slot: usize)
        requires
            old(self).well_formed(),
            is_held(old(self).free(), old(self).capacity(), slot),
        ensures
            final(self).well_formed(),
            final(self).capacity() == old(self).capacity(),
            final(self).free() == old(self).free().push(slot),
    {
        self.free.push_back(slot);
        proof {
            let before = old(self).free@;
            let after = self.free@;
            assert forall|i: int, j: int| 0 <= i < after.len() && 0 <= j < after.len() && i != j implies after[i]
                != after[j] by {
                if i == before.len() {
                    assert(after[j] == before[j]);
                    if after[i] == after[j] {
                        assert(before.contains(slot));
                    }
                } else if j == before.len() {
                    assert(before[i] == after[i]);
                    if after[i] == after[j] {
                        assert(before.contains(slot));
                    }
                } else {
                    assert(before[i] == after[i] && before[j] == after[j]);
                }
            }
        }
    }

    /// Whether `slot` is free.
    pub fn is_free(&self, slot: usize) -> (free: bool)
        ensures
            free == self.free().contains(slot),
    {
        let mut i: usize = 0;
        while i < self.free.len()
            invariant
                i <= self.free@.len(),
                forall|k: int| 0 <= k < i ==> self.free@[k] != slot,
            decreases self.free@.len() - i,
        {
            if self.free[i] == slot {
                return true;
            }
            i = i + 1;
        }
        false
    }

    /// How many slots the pool has.
    pub fn slot_count(&self) -> (count: usize)
        ensures
            count == self.capacity(),
    {
        self.capacity
    }
}

/// A slot that is handed out is held from then on: it is one of the pool's
/// slots and no longer free, so no other job can be handed it until it is
/// given back.
pub proof fn lemma_taken_slot_is_held(free: Seq<usize>, capacity: nat)
    requires
        free_slots_valid(free, capacity),
        free.len() > 0,
    ensures
        is_held(free.drop_first(), capacity, free[0]),
{
    if free.drop_first().contains(free[0]) {
        let k = choose|k: int| 0 <= k < free.drop_first().len() && free.drop_first()[k] == free[0];
        assert(free[k + 1] == free[0]);
    }
}

/// Two jobs that acquire slots one after the other, with no slot given back
/// between, get different slots.
pub proof fn lemma_consecutive_takes_differ(free: Seq<usize>, capacity: nat)
    requires
        free_slots_valid(free, capacity),
        free.len() >= 2,
    ensures
        free[0] != free.drop_first()[0],
{
    assert(free.drop_first()[0] == free[1]);
}

/// No more slots are free than the pool has, so the slots held never number
/// more than the pool's size minus those free, and never more than its size.
pub proof fn lemma_free_slots_fit_the_pool(free: Seq<usize>, capacity: nat)
    requires
        free_slots_valid(free, capacity),
    ensures
        free.len() <= capacity,
{
    let slots = Set::new(|s: usize| s < capacity);
    assert(free.to_set().subset_of(slots));
    lemma_slot_set_size(capacity);
    free.unique_seq_to_set();
    vstd::set_lib::lemma_len_subset(free.to_set(), slots);
}

proof fn lemma_slot_set_size(capacity: nat)
    ensures
        Set::new(|s: usize| s < capacity).finite(),
        Set::new(|s: usize| s < capacity).len() <= capacity,
    decreases capacity,
{
    let slots = Set::new(|s: usize| s < capacity);
    if capacity == 0 {
        assert(slots =~= Set::empty());
    } else {
        let smaller = Set::new(|s: usize| s < (capacity - 1) as nat);
        lemma_slot_set_size((capacity - 1) as nat);
        if capacity - 1 <= usize::MAX {
            assert(slots =~= smaller.insert((capacity - 1) as usize));
        } else {
            assert(slots =~= smaller);
        }
    }
}

} // verus!
