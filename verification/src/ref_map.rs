//! A side table keyed by references that were minted elsewhere.
//!
//! Unlike a [`crate::Shelf`], this structure never allocates a reference
//! itself: the caller supplies references obtained from some other
//! arena and uses them as keys into a capability-constrained backend.

use crate::storage::{Storage, StorageInsert, StorageMut};
use crate::Ref;
use vstd::prelude::*;

verus! {

/// A map from externally supplied `Ref<K>` keys to values of the
/// backing container `S`.
pub struct RefMap<K, S> {
    storage: S,
    key: core::marker::PhantomData<K>,
}

impl<K, S> RefMap<K, S> {
    /// The backing container, as a mathematical value.
    pub closed spec fn spec_storage(&self) -> S {
        self.storage
    }

    /// Creates a map over the given container.
    pub fn new(storage: S) -> (s: Self)
        ensures
            s.spec_storage() == storage,
    {
        RefMap { storage, key: core::marker::PhantomData }
    }

    /// Consumes the map, handing the container back.
    pub fn into_storage(self) -> (r: S)
        ensures
            r == self.spec_storage(),
    {
        self.storage
    }

    /// Borrows the backing container.
    pub fn as_storage(&self) -> (r: &S)
        ensures
            *r == self.spec_storage(),
    {
        &self.storage
    }
}

impl<K, S: Default> Default for RefMap<K, S> {
    fn default() -> (s: Self)
        ensures
            call_ensures(S::default, (), s.spec_storage()),
    {
        RefMap { storage: S::default(), key: core::marker::PhantomData }
    }
}

impl<K, S: Storage> RefMap<K, S> {
    /// The contents of the map: which value, if any, each key index
    /// holds.
    pub open spec fn contents(&self) -> Map<usize, S::Value> {
        self.spec_storage().contents()
    }

    /// Returns the value stored under the given key, if any.
    pub fn get(&self, r: Ref<K>) -> (res: Option<&S::Value>)
        ensures
            match res {
                Some(v) => self.contents().contains_key(r.idx()) && *v == self.contents()[r.idx()],
                None => !self.contents().contains_key(r.idx()),
            },
    {
        self.storage.get(r.index())
    }
}

impl<K, S: StorageMut> RefMap<K, S> {
    /// Mutably borrows the value stored under the given key.
    pub fn get_mut(&mut self, r: Ref<K>) -> (res: &mut S::Value)
        requires
            old(self).contents().contains_key(r.idx()),
        ensures
            *res == old(self).contents()[r.idx()],
            final(self).contents() == old(self).contents().insert(r.idx(), *final(res)),
    {
        self.storage.get_mut(r.index())
    }
}

impl<K, S: StorageInsert> RefMap<K, S> {
    /// Stores a value under the given key, allocating the key's index if
    /// necessary, and returns the previous value if the key was present.
    pub fn insert(&mut self, r: Ref<K>, value: S::Value) -> (res: Option<S::Value>)
        ensures
            final(self).contents() == old(self).contents().insert(r.idx(), value),
            match res {
                Some(prev) => old(self).contents().contains_key(r.idx()) && prev == old(
                    self,
                ).contents()[r.idx()],
                None => !old(self).contents().contains_key(r.idx()),
            },
    {
        self.storage.insert(r.index(), value)
    }
}

} // verus!
