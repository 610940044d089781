//! Storage capabilities of a hashed map keyed by `usize`.
//!
//! As with the ordered map, the index of a value is its key, and the
//! indices of other entries are stable across insertions and removals.

use crate::storage::{Storage, StorageInsert, StorageIter, StorageMut, StorageRemove, StorageSet};
use std::collections::HashMap;
use vstd::std_specs::hash::spec_hash_map_iter;
use vstd::std_specs::iter::IteratorSpec;
use vstd::prelude::*;

verus! {

impl<T> Storage for HashMap<usize, T> {
    type Value = T;

    open spec fn contents(&self) -> Map<usize, T> {
        self@
    }

    fn get(&self, index: usize) -> (r: Option<&T>) {
        self.get(&index)
    }

    fn capacity(&self) -> (r: usize) {
        hash_map_capacity(self)
    }

    fn len(&self) -> (r: usize) {
        self.len()
    }

    fn is_empty(&self) -> (r: bool) {
        self.len() == 0
    }
}

impl<T> StorageIter for HashMap<usize, T> {
    #[verifier::loop_isolation(false)]
    fn iter(&self) -> (r: Vec<(usize, &T)>) {
        let mut out: Vec<(usize, &T)> = Vec::new();
        for pair in it: self.iter()
            invariant
                out@.len() == it.index(),
                forall|m: int|
                    0 <= m < out@.len() ==> (#[trigger] out@[m]).0 == *it.seq()[m].0 && out@[m].1
                        == it.seq()[m].1,
        {
            out.push((*pair.0, pair.1));
        }
        proof {
            let v = spec_hash_map_iter(self).remaining();
            assert forall|j: usize| #[trigger] self@.contains_key(j) implies exists|k: int|
                0 <= k < out@.len() && (#[trigger] out@[k]).0 == j by {
                assert(v.contains((&j, &self@[j])));
                let k = choose|k: int| 0 <= k < v.len() && v[k] == (&j, &self@[j]);
                assert(out@[k].0 == j);
            }
            assert forall|k1: int, k2: int| 0 <= k1 < k2 < out@.len() implies out@[k1].0
                != out@[k2].0 by {
                if out@[k1].0 == out@[k2].0 {
                    assert(self@.contains_key(*v[k1].0) && self@[*v[k1].0] == *v[k1].1);
                    assert(self@.contains_key(*v[k2].0) && self@[*v[k2].0] == *v[k2].1);
                    assert(v[k1] == v[k2]);
                }
            }
        }
        out
    }
}

impl<T> StorageMut for HashMap<usize, T> {
    fn get_mut(&mut self, index: usize) -> (r: &mut T) {
        hash_map_get_mut(self, index)
    }

    fn clear(&mut self) {
        self.clear()
    }
}

impl<T> StorageSet for HashMap<usize, T> {
    fn set(&mut self, index: usize, value: T) -> (r: Result<T, T>) {
        if self.contains_key(&index) {
            match self.insert(index, value) {
                Some(prev) => Ok(prev),
                None => vstd::pervasive::unreached(),
            }
        } else {
            Err(value)
        }
    }
}

impl<T> StorageInsert for HashMap<usize, T> {
    fn insert(&mut self, index: usize, value: T) -> (r: Option<T>) {
        self.insert(index, value)
    }
}

impl<T> StorageRemove for HashMap<usize, T> {
    fn remove(&mut self, index: usize) -> (r: Option<T>) {
        self.remove(&index)
    }
}

/// Relies on `HashMap::get_mut`: it hands out a mutable reference to the
/// value stored under the given key and touches no other entry.
#[verifier::external_body]
fn hash_map_get_mut<T>(m: &mut HashMap<usize, T>, index: usize) -> (r: &mut T)
    requires
        old(m)@.contains_key(index),
    ensures
        *r == old(m)@[index],
        final(m)@ == old(m)@.insert(index, *final(r)),
{
    m.get_mut(&index).unwrap()
}

/// Relies on `HashMap::capacity`: a hashed map holds all of its entries
/// without reallocating, so its capacity is at least its length.
#[verifier::external_body]
fn hash_map_capacity<T>(m: &HashMap<usize, T>) -> (r: usize)
    ensures
        r >= m@.len(),
{
    m.capacity()
}

} // verus!
