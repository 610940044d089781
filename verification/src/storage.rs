//! Capability traits for indexed containers.
//!
//! Each trait is an independent, minimal capability that a backing
//! container may or may not provide. Higher-level components such as
//! [`crate::Shelf`] only require the subset they need. A container is
//! modelled by its [`Storage::contents`]: a partial map from
//! indices to stored values.

use vstd::prelude::*;

verus! {

/// A narrower view that a stored value can yield.
///
/// A value of a compound type may expose one of its parts as a view of
/// type `T`; a reference tagged with `T` can then fetch that part from a
/// shelf whose values project to `T`. Every type trivially projects to
/// itself.
pub trait Project<T>: Sized {
    /// The part of the value that the projection denotes.
    spec fn projection(&self) -> T;

    /// The value with its projected part replaced.
    spec fn with_projection(&self, t: T) -> Self;

    /// Borrows the projected part.
    fn project(&self) -> (r: &T)
        ensures
            *r == self.projection(),
    ;

    /// Mutably borrows the projected part.
    fn project_mut(&mut self) -> (r: &mut T)
        ensures
            *r == (*old(self)).projection(),
            *final(self) == (*old(self)).with_projection(*final(r)),
    ;
}

impl<T> Project<T> for T {
    open spec fn projection(&self) -> T {
        *self
    }

    open spec fn with_projection(&self, t: T) -> T {
        t
    }

    fn project(&self) -> (r: &T) {
        self
    }

    fn project_mut(&mut self) -> (r: &mut T) {
        self
    }
}

/// Basic storage trait: read access to an indexed container.
pub trait Storage: Sized {
    /// Type of stored values.
    type Value;

    /// The mathematical contents of the container: which value, if any,
    /// sits at each index.
    spec fn contents(&self) -> Map<usize, Self::Value>;

    /// Get the value behind the given index, if any.
    fn get(&self, index: usize) -> (r: Option<&Self::Value>)
        ensures
            match r {
                Some(v) => self.contents().contains_key(index) && *v == self.contents()[index],
                None => !self.contents().contains_key(index),
            },
    ;

    /// Returns a lower bound to the capacity of the storage.
    fn capacity(&self) -> (r: usize)
        ensures
            r >= self.contents().len(),
    ;

    /// Returns the number of values stored.
    fn len(&self) -> (r: usize)
        ensures
            r == self.contents().len(),
    ;

    /// Checks if the storage is empty.
    fn is_empty(&self) -> (r: bool)
        ensures
            r == (self.contents().len() == 0),
    ;
}

/// Iteration: listing the stored values together with their indices.
pub trait StorageIter: Storage {
    /// Lists the (index, value) pairs currently stored. Each occupied
    /// index appears exactly once; the order is backend-defined.
    fn iter(&self) -> (r: Vec<(usize, &Self::Value)>)
        ensures
            forall|k: int|
                0 <= k < r@.len() ==> #[trigger] self.contents().contains_key(r@[k].0) && *r@[k].1
                    == self.contents()[r@[k].0],
            forall|i: usize| #[trigger]
                self.contents().contains_key(i) ==> exists|k: int|
                    0 <= k < r@.len() && (#[trigger] r@[k]).0 == i,
            forall|k1: int, k2: int| 0 <= k1 < k2 < r@.len() ==> r@[k1].0 != r@[k2].0,
    ;
}

/// Consuming iteration: the container is taken apart into its entries.
pub trait StorageIntoIter: Storage {
    /// Consumes the container, handing out every (index, value) pair it
    /// stored. Each occupied index appears exactly once; the order is
    /// backend-defined.
    fn into_iter(self) -> (r: Vec<(usize, Self::Value)>)
        ensures
            forall|k: int|
                0 <= k < r@.len() ==> #[trigger] self.contents().contains_key(r@[k].0) && r@[k].1
                    == self.contents()[r@[k].0],
            forall|i: usize| #[trigger]
                self.contents().contains_key(i) ==> exists|k: int|
                    0 <= k < r@.len() && (#[trigger] r@[k]).0 == i,
            forall|k1: int, k2: int| 0 <= k1 < k2 < r@.len() ==> r@[k1].0 != r@[k2].0,
    ;
}

/// Mutable access: in-place update of a stored value, and clearing.
pub trait StorageMut: Storage {
    /// Get a mutable reference to the value behind an occupied index.
    fn get_mut(&mut self, index: usize) -> (r: &mut Self::Value)
        requires
            old(self).contents().contains_key(index),
        ensures
            *r == old(self).contents()[index],
            final(self).contents() == old(self).contents().insert(index, *final(r)),
    ;

    /// Removes every value from the storage.
    fn clear(&mut self)
        ensures
            final(self).contents() == Map::<usize, Self::Value>::empty(),
    ;
}

/// Allocation: the container picks a fresh index for a new value.
pub trait StorageAllocate: Storage {
    /// Allocates an index for the given value.
    fn allocate(&mut self, value: Self::Value) -> (index: usize)
        ensures
            !old(self).contents().contains_key(index),
            final(self).contents() == old(self).contents().insert(index, value),
    ;
}

/// Allocation through a shared reference.
///
/// This is an extension point for containers that mutate through
/// internally synchronized state; no such container is provided here,
/// and no contract can be stated for it: a specification on `&self`
/// cannot speak of a state change, which is exactly what interior
/// mutability hides.
pub trait StorageAllocateConst: Storage {
    /// Allocates an index for the given value using interior mutability
    /// only.
    fn allocate_const(&self, value: Self::Value) -> usize;
}

/// Insertion at a caller-chosen index through a shared reference.
///
/// As with [`StorageAllocateConst`], this is an uncontracted extension
/// point for internally synchronized containers.
pub trait StorageInsertConst: Storage {
    /// Inserts the given value at the given index using interior
    /// mutability only, allocating the index if necessary, and returns
    /// the previous value if the index was occupied.
    fn insert_const(&self, index: usize, value: Self::Value) -> Option<Self::Value>;
}

/// Overwriting a value at an index that is already allocated.
pub trait StorageSet: Storage {
    /// Sets the already allocated index to the given value.
    ///
    /// Returns the previous value, or `Err(value)` if the
    /// given index is not allocated.
    fn set(&mut self, index: usize, value: Self::Value) -> (r: Result<Self::Value, Self::Value>)
        ensures
            match r {
                Ok(prev) => old(self).contents().contains_key(index) && prev == old(
                    self,
                ).contents()[index] && final(self).contents() == old(self).contents().insert(
                    index,
                    value,
                ),
                Err(rejected) => rejected == value && !old(self).contents().contains_key(index)
                    && final(self).contents() == old(self).contents(),
            },
    ;
}

/// Storing a value at a caller-chosen index, allocating it if necessary.
pub trait StorageInsert: Storage {
    /// Inserts the given value at the given index.
    ///
    /// Returns the previous value, or `None` if the given index was not
    /// allocated. Contrarily to `StorageSet`, this function does allocate
    /// the given index if necessary, and stores the value there.
    fn insert(&mut self, index: usize, value: Self::Value) -> (r: Option<Self::Value>)
        ensures
            final(self).contents() == old(self).contents().insert(index, value),
            match r {
                Some(prev) => old(self).contents().contains_key(index) && prev == old(
                    self,
                ).contents()[index],
                None => !old(self).contents().contains_key(index),
            },
    ;
}

/// Deallocation of a single index.
pub trait StorageRemove: Storage {
    /// Deletes the value at the given index, returning it if present.
    fn remove(&mut self, index: usize) -> (r: Option<Self::Value>)
        ensures
            final(self).contents() == old(self).contents().remove(index),
            match r {
                Some(v) => old(self).contents().contains_key(index) && v == old(
                    self,
                ).contents()[index],
                None => !old(self).contents().contains_key(index),
            },
    ;
}

} // verus!
