//! Storage capabilities of a dense growable vector.
//!
//! The index of a value is its position; allocation appends at the end.
//! Removal is deliberately unsupported: it would either shift later
//! indices or leave holes, neither of which a dense vector can express.

use crate::backends::{index_range, lemma_index_range_len};
use crate::storage::{Storage, StorageAllocate, StorageIntoIter, StorageIter, StorageMut,
    StorageSet};
use vstd::pervasive::VecAdditionalExecFns;
use vstd::prelude::*;

verus! {

/// The contents of a vector as a partial map: every position below the
/// length is occupied by the element there.
pub open spec fn vec_contents<T>(s: Seq<T>) -> Map<usize, T> {
    Map::new(|i: usize| i < s.len(), |i: usize| s[i as int])
}

proof fn lemma_vec_contents_len<T>(s: Seq<T>)
    requires
        s.len() <= usize::MAX,
    ensures
        vec_contents(s).dom().finite(),
        vec_contents(s).len() == s.len(),
{
    let n = s.len() as usize;
    lemma_index_range_len(n);
    assert(vec_contents(s).dom() =~= index_range(n));
}

/// Updating a position below the length updates the contents map at that
/// one index.
broadcast proof fn lemma_vec_contents_update<T>(s: Seq<T>, i: usize, v: T)
    requires
        i < s.len(),
    ensures
        vec_contents(s.update(i as int, v)) == #[trigger] vec_contents(s).insert(i, v),
{
    assert(vec_contents(s.update(i as int, v)) =~= vec_contents(s).insert(i, v));
}

impl<T> Storage for Vec<T> {
    type Value = T;

    open spec fn contents(&self) -> Map<usize, T> {
        vec_contents(self@)
    }

    fn get(&self, index: usize) -> (r: Option<&T>) {
        if index < self.len() {
            Some(&self[index])
        } else {
            None
        }
    }

    fn capacity(&self) -> (r: usize) {
        proof {
            vstd::std_specs::vec::axiom_spec_len(self);
            lemma_vec_contents_len(self@);
        }
        vec_capacity(self)
    }

    fn len(&self) -> (r: usize) {
        proof {
            vstd::std_specs::vec::axiom_spec_len(self);
            lemma_vec_contents_len(self@);
        }
        self.len()
    }

    fn is_empty(&self) -> (r: bool) {
        proof {
            vstd::std_specs::vec::axiom_spec_len(self);
            lemma_vec_contents_len(self@);
        }
        self.len() == 0
    }
}

impl<T> StorageIter for Vec<T> {
    fn iter(&self) -> (r: Vec<(usize, &T)>) {
        let n = self.len();
        let mut out: Vec<(usize, &T)> = Vec::new();
        let mut i: usize = 0;
        while i < n
            invariant
                n == self@.len(),
                i <= n,
                out@.len() == i,
                forall|k: int| 0 <= k < i ==> (#[trigger] out@[k]).0 == k && *out@[k].1 == self@[k],
            decreases n - i,
        {
            out.push((i, &self[i]));
            i += 1;
        }
        proof {
            assert forall|j: usize| #[trigger] self.contents().contains_key(j) implies exists|
                k: int,
            | 0 <= k < out@.len() && (#[trigger] out@[k]).0 == j by {
                assert(j < out@.len());
                assert(out@[j as int].0 == j);
            }
        }
        out
    }
}

impl<T> StorageIntoIter for Vec<T> {
    #[verifier::loop_isolation(false)]
    fn into_iter(self) -> (r: Vec<(usize, T)>) {
        let ghost original = self@;
        let n = self.len();
        let mut src = self;
        let mut rev: Vec<(usize, T)> = Vec::new();
        while src.len() > 0
            invariant
                src@ == original.subrange(0, src@.len() as int),
                rev@.len() + src@.len() == n,
                forall|k: int|
                    0 <= k < rev@.len() ==> (#[trigger] rev@[k]).0 == n - 1 - k && rev@[k].1
                        == original[n - 1 - k],
            decreases src@.len(),
        {
            let i = src.len() - 1;
            match src.pop() {
                Some(v) => rev.push((i, v)),
                None => vstd::pervasive::unreached(),
            }
            proof {
                assert(src@ =~= original.subrange(0, src@.len() as int));
            }
        }
        let mut out: Vec<(usize, T)> = Vec::new();
        while rev.len() > 0
            invariant
                out@.len() + rev@.len() == n,
                forall|k: int|
                    0 <= k < rev@.len() ==> (#[trigger] rev@[k]).0 == n - 1 - k && rev@[k].1
                        == original[n - 1 - k],
                forall|k: int|
                    0 <= k < out@.len() ==> (#[trigger] out@[k]).0 == k && out@[k].1
                        == original[k],
            decreases rev@.len(),
        {
            match rev.pop() {
                Some(e) => out.push(e),
                None => vstd::pervasive::unreached(),
            }
        }
        proof {
            assert forall|j: usize| #[trigger] vec_contents(original).contains_key(
                j,
            ) implies exists|k: int| 0 <= k < out@.len() && (#[trigger] out@[k]).0 == j by {
                assert(j < out@.len());
                assert(out@[j as int].0 == j);
            }
        }
        out
    }
}

impl<T> StorageMut for Vec<T> {
    fn get_mut(&mut self, index: usize) -> (r: &mut T) {
        broadcast use lemma_vec_contents_update;

        &mut self[index]
    }

    fn clear(&mut self) {
        self.clear();
        proof {
            assert(self.contents() =~= Map::<usize, T>::empty());
        }
    }
}

impl<T> StorageAllocate for Vec<T> {
    fn allocate(&mut self, value: T) -> (index: usize) {
        let ghost stored = value;
        let index = self.len();
        self.push(value);
        proof {
            assert(self.contents() =~= old(self).contents().insert(index, stored));
        }
        index
    }
}

impl<T> StorageSet for Vec<T> {
    fn set(&mut self, index: usize, value: T) -> (r: Result<T, T>) {
        let ghost stored = value;
        if index < self.len() {
            let mut value = value;
            self.set_and_swap(index, &mut value);
            proof {
                assert(self.contents() =~= old(self).contents().insert(index, stored));
            }
            Ok(value)
        } else {
            Err(value)
        }
    }
}

/// Relies on `Vec::capacity`: a vector holds all of its elements without
/// reallocating, so its capacity is at least its length.
#[verifier::external_body]
fn vec_capacity<T>(v: &Vec<T>) -> (r: usize)
    ensures
        r >= v@.len(),
{
    v.capacity()
}

} // verus!
