//! A small library for storing values in an indexed container and
//! referring to them through `Ref<T>`, a typed wrapper around a `usize`
//! index.
//!
//! Any container can sit behind a [`Shelf`] as long as it can store and
//! fetch values by index, which is captured by the capability traits in
//! [`storage`]. Implementations are provided for `Vec`, `BTreeMap`,
//! `HashMap` and for [`SlotStorage`], a slot-recycling container that
//! reuses freed indices.

use vstd::prelude::*;

pub mod backends;
pub mod btree_dictionary;
pub mod hash_dictionary;
pub mod interning;
pub mod ref_map;
pub mod shelf;
pub mod storage;

pub use backends::SlotStorage;
pub use btree_dictionary::BTreeDictionary;
pub use hash_dictionary::HashDictionary;
pub use ref_map::RefMap;
pub use shelf::Shelf;
pub use storage::{Project, Storage, StorageAllocate, StorageAllocateConst, StorageInsert,
    StorageInsertConst, StorageIntoIter, StorageIter, StorageMut, StorageRemove, StorageSet};

verus! {

/// Typed reference to a stored value.
///
/// Equality and ordering are defined purely on the wrapped index; the
/// type parameter is a phantom tag that only exists at the type level.
#[derive(Debug, Hash)]
pub struct Ref<T>(usize, core::marker::PhantomData<T>);

impl<T> Ref<T> {
    /// The raw index a reference denotes.
    pub closed spec fn idx(self) -> usize {
        self.0
    }

    /// Creates a new reference from an index.
    pub fn new(index: usize) -> (r: Self)
        ensures
            r.idx() == index,
    {
        Ref(index, core::marker::PhantomData)
    }

    /// Returns the underlying index referencing the value.
    pub fn index(&self) -> (i: usize)
        ensures
            i == self.idx(),
    {
        self.0
    }

    /// Changes the reference type. This is a pure reinterpretation of the
    /// phantom tag; the index is unchanged and nothing is checked.
    pub fn cast<U>(self) -> (r: Ref<U>)
        ensures
            r.idx() == self.idx(),
    {
        Ref(self.0, core::marker::PhantomData)
    }
}

impl<T> Clone for Ref<T> {
    fn clone(&self) -> (r: Self)
        ensures
            r == *self,
    {
        Ref(self.0, core::marker::PhantomData)
    }
}

impl<T> Copy for Ref<T> {

}

impl<T> PartialEq for Ref<T> {
    fn eq(&self, other: &Self) -> (r: bool) {
        self.0 == other.0
    }
}

impl<T> vstd::std_specs::cmp::PartialEqSpecImpl for Ref<T> {
    open spec fn obeys_eq_spec() -> bool {
        true
    }

    open spec fn eq_spec(&self, other: &Self) -> bool {
        self.idx() == other.idx()
    }
}

impl<T> Eq for Ref<T> {

}

impl<T> PartialOrd for Ref<T> {
    fn partial_cmp(&self, other: &Self) -> (r: Option<core::cmp::Ordering>) {
        if self.0 < other.0 {
            Some(core::cmp::Ordering::Less)
        } else if self.0 == other.0 {
            Some(core::cmp::Ordering::Equal)
        } else {
            Some(core::cmp::Ordering::Greater)
        }
    }
}

impl<T> vstd::std_specs::cmp::PartialOrdSpecImpl for Ref<T> {
    open spec fn obeys_partial_cmp_spec() -> bool {
        true
    }

    open spec fn partial_cmp_spec(&self, other: &Self) -> Option<core::cmp::Ordering> {
        if self.idx() < other.idx() {
            Some(core::cmp::Ordering::Less)
        } else if self.idx() == other.idx() {
            Some(core::cmp::Ordering::Equal)
        } else {
            Some(core::cmp::Ordering::Greater)
        }
    }
}

} // verus!
