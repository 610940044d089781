//! Implementations of the storage capability traits for concrete
//! containers: a dense growable vector, the two standard maps keyed by
//! `usize`, and a slot-recycling container of this crate's own.

use vstd::prelude::*;

pub mod btree_map;
pub mod hash_map;
pub mod slot;
pub mod vec;

pub use slot::SlotStorage;

verus! {

/// The set of all indices below `n`.
pub open spec fn index_range(n: usize) -> Set<usize> {
    Set::new(|i: usize| i < n)
}

/// The set of all indices below `n` is finite and has exactly `n` elements.
pub proof fn lemma_index_range_len(n: usize)
    ensures
        index_range(n).finite(),
        index_range(n).len() == n,
    decreases n,
{
    if n == 0 {
        assert(index_range(0) =~= Set::<usize>::empty());
    } else {
        let m = (n - 1) as usize;
        lemma_index_range_len(m);
        assert(index_range(n) =~= index_range(m).insert(m));
        vstd::set::axiom_set_insert_len(index_range(m), m);
    }
}

} // verus!
