//! A slot-recycling container: values live in a dense vector of slots,
//! and the indices of removed values are kept on a free list so a later
//! allocation can reuse them.
//!
//! This is the only provided backend that supports both allocation and
//! removal, which makes it the natural storage for a dictionary whose
//! entries come and go. It does not hand out mutable references into its
//! slots; use `set` to replace a stored value.

use crate::backends::{index_range, lemma_index_range_len};
use crate::storage::{Storage, StorageAllocate, StorageIntoIter, StorageIter, StorageRemove,
    StorageSet};
use vstd::prelude::*;

verus! {

/// The contents of a sequence of slots as a partial map: an index is
/// occupied exactly when its slot holds a value.
pub open spec fn slot_contents<T>(s: Seq<Option<T>>) -> Map<usize, T> {
    Map::new(|i: usize| i < s.len() && s[i as int] is Some, |i: usize| s[i as int]->Some_0)
}

proof fn lemma_slot_contents_empty<T>()
    ensures
        slot_contents(Seq::<Option<T>>::empty()) == Map::<usize, T>::empty(),
        slot_contents(Seq::<Option<T>>::empty()).len() == 0,
{
    assert(slot_contents(Seq::<Option<T>>::empty()) =~= Map::<usize, T>::empty());
    assert(slot_contents(Seq::<Option<T>>::empty()).dom() =~= Set::<usize>::empty());
}

proof fn lemma_slot_contents_finite<T>(s: Seq<Option<T>>)
    requires
        s.len() <= usize::MAX,
    ensures
        slot_contents(s).dom().finite(),
        slot_contents(s).len() <= s.len(),
{
    let n = s.len() as usize;
    lemma_index_range_len(n);
    assert(slot_contents(s).dom() <= index_range(n));
    vstd::set_lib::lemma_len_subset(slot_contents(s).dom(), index_range(n));
}

/// A container that stores values in slots and recycles the indices of
/// removed values through a free list.
pub struct SlotStorage<T> {
    slots: Vec<Option<T>>,
    free: Vec<usize>,
    occupied: usize,
}

impl<T> SlotStorage<T> {
    #[verifier::type_invariant]
    spec fn wf(self) -> bool {
        &&& self.occupied == slot_contents(self.slots@).len()
        &&& self.free@.no_duplicates()
        &&& forall|k: int|
            0 <= k < self.free@.len() ==> (#[trigger] self.free@[k]) < self.slots@.len()
                && self.slots@[self.free@[k] as int] is None
    }

    /// Creates an empty slot storage.
    pub fn new() -> (s: Self)
        ensures
            s.contents() == Map::<usize, T>::empty(),
    {
        proof {
            lemma_slot_contents_empty::<T>();
        }
        SlotStorage { slots: Vec::new(), free: Vec::new(), occupied: 0 }
    }
}

impl<T> Default for SlotStorage<T> {
    fn default() -> (s: Self)
        ensures
            s.contents() == Map::<usize, T>::empty(),
    {
        SlotStorage::new()
    }
}

impl<T> Storage for SlotStorage<T> {
    type Value = T;

    closed spec fn contents(&self) -> Map<usize, T> {
        slot_contents(self.slots@)
    }

    fn get(&self, index: usize) -> (r: Option<&T>) {
        if index < self.slots.len() {
            match &self.slots[index] {
                Some(v) => Some(v),
                None => None,
            }
        } else {
            None
        }
    }

    fn capacity(&self) -> (r: usize) {
        proof {
            use_type_invariant(&*self);
            vstd::std_specs::vec::axiom_spec_len(&self.slots);
            lemma_slot_contents_finite(self.slots@);
        }
        self.slots.len()
    }

    fn len(&self) -> (r: usize) {
        proof {
            use_type_invariant(&*self);
        }
        self.occupied
    }

    fn is_empty(&self) -> (r: bool) {
        proof {
            use_type_invariant(&*self);
        }
        self.occupied == 0
    }
}

impl<T> StorageIter for SlotStorage<T> {
    #[verifier::loop_isolation(false)]
    fn iter(&self) -> (r: Vec<(usize, &T)>) {
        let n = self.slots.len();
        let mut out: Vec<(usize, &T)> = Vec::new();
        let mut i: usize = 0;
        while i < n
            invariant
                i <= n,
                forall|k: int|
                    0 <= k < out@.len() ==> (#[trigger] out@[k]).0 < i && self.contents(
                    ).contains_key(out@[k].0) && *out@[k].1 == self.contents()[out@[k].0],
                forall|k1: int, k2: int| 0 <= k1 < k2 < out@.len() ==> out@[k1].0 < out@[k2].0,
                forall|j: usize|
                    j < i && #[trigger] self.contents().contains_key(j) ==> exists|k: int|
                        0 <= k < out@.len() && (#[trigger] out@[k]).0 == j,
            decreases n - i,
        {
            match &self.slots[i] {
                Some(v) => {
                    let ghost prev = out@;
                    out.push((i, v));
                    proof {
                        assert forall|j: usize|
                            j < i + 1 && #[trigger] self.contents().contains_key(j) implies exists|
                            k: int,
                        | 0 <= k < out@.len() && (#[trigger] out@[k]).0 == j by {
                            if j == i {
                                assert(out@[out@.len() - 1].0 == j);
                            } else {
                                let kk = choose|k: int|
                                    0 <= k < prev.len() && (#[trigger] prev[k]).0 == j;
                                assert(out@[kk].0 == j);
                            }
                        }
                    }
                },
                None => {
                    proof {
                        assert(!self.contents().contains_key(i));
                    }
                },
            }
            i += 1;
        }
        out
    }
}

impl<T> StorageIntoIter for SlotStorage<T> {
    #[verifier::loop_isolation(false)]
    fn into_iter(self) -> (r: Vec<(usize, T)>) {
        proof {
            use_type_invariant(&self);
        }
        let ghost original = self.slots@;
        let SlotStorage { mut slots, free: _, occupied: _ } = self;
        let n = slots.len();
        let mut rev: Vec<(usize, T)> = Vec::new();
        while slots.len() > 0
            invariant
                slots@.len() <= n,
                slots@ == original.subrange(0, slots@.len() as int),
                forall|k: int|
                    0 <= k < rev@.len() ==> slots@.len() <= (#[trigger] rev@[k]).0 < n
                        && original[rev@[k].0 as int] == Some(rev@[k].1),
                forall|k1: int, k2: int| 0 <= k1 < k2 < rev@.len() ==> rev@[k1].0 > rev@[k2].0,
                forall|j: int|
                    slots@.len() <= j < n && original[j] is Some ==> exists|k: int|
                        0 <= k < rev@.len() && (#[trigger] rev@[k]).0 == j,
            decreases slots@.len(),
        {
            let i = slots.len() - 1;
            let ghost prev_rev = rev@;
            match slots.pop() {
                Some(slot) => {
                    match slot {
                        Some(v) => {
                            rev.push((i, v));
                            proof {
                                assert(slots@ =~= original.subrange(0, slots@.len() as int));
                                assert forall|j: int|
                                    slots@.len() <= j < n && original[j] is Some implies exists|
                                    k: int,
                                | 0 <= k < rev@.len() && (#[trigger] rev@[k]).0 == j by {
                                    if j == i {
                                        assert(rev@[rev@.len() - 1].0 == j);
                                    } else {
                                        let kk = choose|k: int|
                                            0 <= k < prev_rev.len() && (#[trigger] prev_rev[k]).0
                                                == j;
                                        assert(rev@[kk].0 == j);
                                    }
                                }
                            }
                        },
                        None => {
                            proof {
                                assert(slots@ =~= original.subrange(0, slots@.len() as int));
                                assert(original[i as int] is None);
                            }
                        },
                    }
                },
                None => vstd::pervasive::unreached(),
            }
        }
        let mut out: Vec<(usize, T)> = Vec::new();
        while rev.len() > 0
            invariant
                forall|k: int|
                    0 <= k < rev@.len() ==> (#[trigger] rev@[k]).0 < n && original[
                        rev@[k].0 as int
                    ] == Some(rev@[k].1),
                forall|k1: int, k2: int| 0 <= k1 < k2 < rev@.len() ==> rev@[k1].0 > rev@[k2].0,
                forall|k: int|
                    0 <= k < out@.len() ==> (#[trigger] out@[k]).0 < n && original[
                        out@[k].0 as int
                    ] == Some(out@[k].1),
                forall|k1: int, k2: int| 0 <= k1 < k2 < out@.len() ==> out@[k1].0 < out@[k2].0,
                forall|k1: int, k2: int|
                    0 <= k1 < out@.len() && 0 <= k2 < rev@.len() ==> out@[k1].0 < rev@[k2].0,
                forall|j: int|
                    0 <= j < n && original[j] is Some ==> (exists|k: int|
                        0 <= k < rev@.len() && (#[trigger] rev@[k]).0 == j) || (exists|k: int|
                        0 <= k < out@.len() && (#[trigger] out@[k]).0 == j),
            decreases rev@.len(),
        {
            let ghost prev_rev = rev@;
            let ghost prev_out = out@;
            match rev.pop() {
                Some(e) => out.push(e),
                None => vstd::pervasive::unreached(),
            }
            proof {
                assert forall|j: int|
                    0 <= j < n && original[j] is Some implies (exists|k: int|
                    0 <= k < rev@.len() && (#[trigger] rev@[k]).0 == j) || (exists|k: int|
                    0 <= k < out@.len() && (#[trigger] out@[k]).0 == j) by {
                    if exists|k: int| 0 <= k < prev_rev.len() && (#[trigger] prev_rev[k]).0 == j {
                        let kk = choose|k: int|
                            0 <= k < prev_rev.len() && (#[trigger] prev_rev[k]).0 == j;
                        if kk < prev_rev.len() - 1 {
                            assert(rev@[kk].0 == j);
                        } else {
                            assert(out@[out@.len() - 1].0 == j);
                        }
                    } else {
                        let kk = choose|k: int|
                            0 <= k < prev_out.len() && (#[trigger] prev_out[k]).0 == j;
                        assert(out@[kk].0 == j);
                    }
                }
            }
        }
        proof {
            assert forall|j: usize| #[trigger] slot_contents(original).contains_key(
                j,
            ) implies exists|k: int| 0 <= k < out@.len() && (#[trigger] out@[k]).0 == j by {
                let kk = choose|k: int| 0 <= k < out@.len() && (#[trigger] out@[k]).0 == j as int;
                assert(out@[kk].0 == j);
            }
        }
        out
    }
}

impl<T> StorageAllocate for SlotStorage<T> {
    fn allocate(&mut self, value: T) -> (index: usize) {
        proof {
            use_type_invariant(&*self);
            lemma_slot_contents_empty::<T>();
        }
        let ghost stored = value;
        let mut s = SlotStorage { slots: Vec::new(), free: Vec::new(), occupied: 0 };
        core::mem::swap(self, &mut s);
        let SlotStorage { mut slots, mut free, occupied } = s;
        let ghost pre = slots@;
        proof {
            vstd::std_specs::vec::axiom_spec_len(&slots);
            lemma_slot_contents_finite(pre);
        }
        let index: usize;
        match free.pop() {
            Some(i) => {
                index = i;
                vstd::pervasive::VecAdditionalExecFns::set(&mut slots, i, Some(value));
                proof {
                    assert forall|k: int| 0 <= k < free@.len() implies (#[trigger] free@[k])
                        < slots@.len() && slots@[free@[k] as int] is None by {
                        assert(free@[k] == old(self).free@[k]);
                        assert(old(self).free@[k] != i);
                    }
                    assert(!slot_contents(pre).contains_key(i));
                    assert(slot_contents(slots@) =~= slot_contents(pre).insert(i, stored));
                    let n = pre.len() as usize;
                    lemma_index_range_len(n);
                    assert(slot_contents(pre).dom() <= index_range(n).remove(i));
                    vstd::set_lib::lemma_len_subset(
                        slot_contents(pre).dom(),
                        index_range(n).remove(i),
                    );
                    vstd::set::axiom_set_remove_len(index_range(n), i);
                }
            },
            None => {
                let i = slots.len();
                index = i;
                slots.push(Some(value));
                proof {
                    vstd::std_specs::vec::axiom_spec_len(&slots);
                    assert(!slot_contents(pre).contains_key(i));
                    assert(slot_contents(slots@) =~= slot_contents(pre).insert(i, stored));
                }
            },
        }
        proof {
            vstd::set::axiom_set_insert_len(slot_contents(pre).dom(), index);
            assert(slot_contents(slots@).dom() =~= slot_contents(pre).dom().insert(index));
        }
        let occupied = occupied + 1;
        *self = SlotStorage { slots, free, occupied };
        index
    }
}

impl<T> StorageSet for SlotStorage<T> {
    fn set(&mut self, index: usize, value: T) -> (r: Result<T, T>) {
        proof {
            use_type_invariant(&*self);
            lemma_slot_contents_empty::<T>();
        }
        let ghost stored = value;
        if index < self.slots.len() && self.slots[index].is_some() {
            let mut s = SlotStorage { slots: Vec::new(), free: Vec::new(), occupied: 0 };
            core::mem::swap(self, &mut s);
            let SlotStorage { mut slots, free, occupied } = s;
            let ghost pre = slots@;
            proof {
                vstd::std_specs::vec::axiom_spec_len(&slots);
                lemma_slot_contents_finite(pre);
            }
            let mut swapped = Some(value);
            vstd::pervasive::VecAdditionalExecFns::set_and_swap(&mut slots, index, &mut swapped);
            proof {
                assert(slot_contents(slots@) =~= slot_contents(pre).insert(index, stored));
                vstd::set::axiom_set_insert_len(slot_contents(pre).dom(), index);
                assert(slot_contents(slots@).dom() =~= slot_contents(pre).dom().insert(index));
            }
            *self = SlotStorage { slots, free, occupied };
            match swapped {
                Some(prev) => Ok(prev),
                None => vstd::pervasive::unreached(),
            }
        } else {
            Err(value)
        }
    }
}

impl<T> StorageRemove for SlotStorage<T> {
    fn remove(&mut self, index: usize) -> (r: Option<T>) {
        proof {
            use_type_invariant(&*self);
            lemma_slot_contents_empty::<T>();
        }
        if index < self.slots.len() && self.slots[index].is_some() {
            let mut s = SlotStorage { slots: Vec::new(), free: Vec::new(), occupied: 0 };
            core::mem::swap(self, &mut s);
            let SlotStorage { mut slots, mut free, occupied } = s;
            let ghost pre = slots@;
            proof {
                vstd::std_specs::vec::axiom_spec_len(&slots);
                lemma_slot_contents_finite(pre);
            }
            let mut swapped = None;
            vstd::pervasive::VecAdditionalExecFns::set_and_swap(&mut slots, index, &mut swapped);
            free.push(index);
            proof {
                assert(slot_contents(slots@) =~= slot_contents(pre).remove(index));
                vstd::set::axiom_set_remove_len(slot_contents(pre).dom(), index);
                assert(slot_contents(slots@).dom() =~= slot_contents(pre).dom().remove(index));
                assert(forall|k: int|
                    0 <= k < old(self).free@.len() ==> old(self).free@[k] != index);
                assert forall|k: int| 0 <= k < free@.len() implies (#[trigger] free@[k])
                    < slots@.len() && slots@[free@[k] as int] is None by {
                    if k < free@.len() - 1 {
                        assert(free@[k] == old(self).free@[k]);
                    } else {
                        assert(free@[k] == index);
                    }
                }
            }
            let occupied = occupied - 1;
            *self = SlotStorage { slots, free, occupied };
            match swapped {
                Some(prev) => Some(prev),
                None => vstd::pervasive::unreached(),
            }
        } else {
            proof {
                assert(self.contents() =~= self.contents().remove(index));
            }
            None
        }
    }
}

} // verus!
