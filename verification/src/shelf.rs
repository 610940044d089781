//! The arena: a shelf owns one backing container and exposes
//! reference-typed accessors over it.

use crate::storage::{Project, Storage, StorageAllocate, StorageAllocateConst, StorageIter,
    StorageMut, StorageRemove, StorageSet};
use crate::Ref;
use vstd::prelude::*;

verus! {

/// An arena over a backing container `S`. Values are inserted, fetched,
/// overwritten and removed through `Ref`-typed handles; which of those
/// operations exist depends on the capabilities of `S`.
pub struct Shelf<S> {
    storage: S,
}

impl<S> Shelf<S> {
    /// The backing container, as a mathematical value.
    pub closed spec fn spec_storage(&self) -> S {
        self.storage
    }

    /// Creates a shelf over the given container.
    pub fn new(storage: S) -> (s: Self)
        ensures
            s.spec_storage() == storage,
    {
        Shelf { storage }
    }

    /// Consumes the shelf, handing the container back.
    pub fn into_storage(self) -> (r: S)
        ensures
            r == self.spec_storage(),
    {
        self.storage
    }

    /// Borrows the backing container.
    pub fn as_storage(&self) -> (r: &S)
        ensures
            *r == self.spec_storage(),
    {
        &self.storage
    }
}

impl<S: Default> Default for Shelf<S> {
    fn default() -> (s: Self)
        ensures
            call_ensures(S::default, (), s.spec_storage()),
    {
        Shelf { storage: S::default() }
    }
}

impl<S: Storage> Shelf<S> {
    /// The contents of the shelf: which value, if any, each index holds.
    pub open spec fn contents(&self) -> Map<usize, S::Value> {
        self.spec_storage().contents()
    }

    /// The number of values stored.
    pub fn len(&self) -> (r: usize)
        ensures
            r == self.contents().len(),
    {
        self.storage.len()
    }

    /// Checks if the shelf is empty.
    pub fn is_empty(&self) -> (r: bool)
        ensures
            r == (self.contents().len() == 0),
    {
        self.storage.is_empty()
    }

    /// Borrows the view of type `T` out of the value the reference
    /// denotes, if that index is occupied.
    pub fn borrow<T>(&self, r: Ref<T>) -> (res: Option<&T>) where S::Value: Project<T>
        ensures
            match res {
                Some(v) => self.contents().contains_key(r.idx()) && *v == self.contents()[
                    r.idx()
                ].projection(),
                None => !self.contents().contains_key(r.idx()),
            },
    {
        match self.storage.get(r.index()) {
            Some(v) => Some(v.project()),
            None => None,
        }
    }

    /// Returns the full stored value the reference denotes, if that
    /// index is occupied.
    pub fn get<T>(&self, r: Ref<T>) -> (res: Option<&S::Value>) where S::Value: Project<T>
        ensures
            match res {
                Some(v) => self.contents().contains_key(r.idx()) && *v == self.contents()[r.idx()],
                None => !self.contents().contains_key(r.idx()),
            },
    {
        self.storage.get(r.index())
    }
}

impl<S: StorageIter> Shelf<S> {
    /// Lists the stored values together with their references. Each
    /// occupied index appears exactly once; the order is that of the
    /// backing container.
    #[verifier::loop_isolation(false)]
    pub fn iter(&self) -> (r: Vec<(Ref<S::Value>, &S::Value)>)
        ensures
            forall|k: int|
                0 <= k < r@.len() ==> self.contents().contains_key((#[trigger] r@[k]).0.idx())
                    && *r@[k].1 == self.contents()[r@[k].0.idx()],
            forall|i: usize| #[trigger]
                self.contents().contains_key(i) ==> exists|k: int|
                    0 <= k < r@.len() && (#[trigger] r@[k]).0.idx() == i,
            forall|k1: int, k2: int| 0 <= k1 < k2 < r@.len() ==> r@[k1].0.idx() != r@[k2].0.idx(),
    {
        let entries = self.storage.iter();
        let n = entries.len();
        let mut out: Vec<(Ref<S::Value>, &S::Value)> = Vec::new();
        let mut k: usize = 0;
        while k < n
            invariant
                k <= n,
                out@.len() == k,
                forall|m: int|
                    0 <= m < k ==> (#[trigger] out@[m]).0.idx() == entries@[m].0 && out@[m].1
                        == entries@[m].1,
            decreases n - k,
        {
            let e = entries[k];
            out.push((Ref::new(e.0), e.1));
            k += 1;
        }
        proof {
            assert forall|i: usize| #[trigger] self.contents().contains_key(i) implies exists|
                k: int,
            | 0 <= k < out@.len() && (#[trigger] out@[k]).0.idx() == i by {
                let m = choose|m: int|
                    0 <= m < entries@.len() && (#[trigger] entries@[m]).0 == i;
                assert(out@[m].0.idx() == i);
            }
        }
        out
    }
}

impl<S: StorageMut> Shelf<S> {
    /// Mutably borrows the view of type `T` out of the value the
    /// reference denotes.
    pub fn borrow_mut<T>(&mut self, r: Ref<T>) -> (res: &mut T) where S::Value: Project<T>
        requires
            old(self).contents().contains_key(r.idx()),
        ensures
            *res == old(self).contents()[r.idx()].projection(),
            final(self).contents() == old(self).contents().insert(
                r.idx(),
                old(self).contents()[r.idx()].with_projection(*final(res)),
            ),
    {
        self.storage.get_mut(r.index()).project_mut()
    }

    /// Mutably borrows the full stored value the reference denotes.
    pub fn get_mut<T>(&mut self, r: Ref<T>) -> (res: &mut S::Value) where S::Value: Project<T>
        requires
            old(self).contents().contains_key(r.idx()),
        ensures
            *res == old(self).contents()[r.idx()],
            final(self).contents() == old(self).contents().insert(r.idx(), *final(res)),
    {
        self.storage.get_mut(r.index())
    }
}

impl<S: StorageAllocate> Shelf<S> {
    /// Stores a value and mints a fresh reference for it.
    pub fn insert(&mut self, value: S::Value) -> (r: Ref<S::Value>)
        ensures
            !old(self).contents().contains_key(r.idx()),
            final(self).contents() == old(self).contents().insert(r.idx(), value),
    {
        Ref::new(self.storage.allocate(value))
    }
}

impl<S: StorageAllocateConst> Shelf<S> {
    /// Stores a value through a shared reference and mints a reference
    /// for it. The state change happens behind the backing container's
    /// interior mutability, which no contract on `&self` can describe.
    pub fn insert_const(&self, value: S::Value) -> Ref<S::Value> {
        Ref::new(self.storage.allocate_const(value))
    }
}

impl<S: StorageSet> Shelf<S> {
    /// Overwrites the value the reference denotes, if its index is
    /// allocated; otherwise fails, handing the rejected value back.
    pub fn set<T>(&mut self, r: Ref<T>, value: S::Value) -> (res: Result<S::Value, S::Value>) where
        S::Value: Project<T>,

        ensures
            match res {
                Ok(prev) => old(self).contents().contains_key(r.idx()) && prev == old(
                    self,
                ).contents()[r.idx()] && final(self).contents() == old(self).contents().insert(
                    r.idx(),
                    value,
                ),
                Err(rejected) => rejected == value && !old(self).contents().contains_key(r.idx())
                    && final(self).contents() == old(self).contents(),
            },
    {
        self.storage.set(r.index(), value)
    }
}

impl<S: StorageRemove> Shelf<S> {
    /// Removes and returns the value the reference denotes, if its
    /// index is occupied.
    pub fn remove<T>(&mut self, r: Ref<T>) -> (res: Option<S::Value>) where S::Value: Project<T>
        ensures
            final(self).contents() == old(self).contents().remove(r.idx()),
            match res {
                Some(v) => old(self).contents().contains_key(r.idx()) && v == old(self).contents()[
                    r.idx()
                ],
                None => !old(self).contents().contains_key(r.idx()),
            },
    {
        self.storage.remove(r.index())
    }
}

impl<S: StorageSet + StorageRemove> Shelf<S> {
    /// Overwrites the value the reference denotes when a replacement is
    /// given, and removes it otherwise. Fails only on the overwrite path,
    /// when the index is not allocated.
    pub fn set_or_remove<T>(&mut self, r: Ref<T>, value: Option<S::Value>) -> (res: Result<
        Option<S::Value>,
        S::Value,
    >) where S::Value: Project<T>
        ensures
            match value {
                Some(v) => match res {
                    Ok(prev) => prev matches Some(p) && old(self).contents().contains_key(r.idx())
                        && p == old(self).contents()[r.idx()] && final(self).contents() == old(
                        self,
                    ).contents().insert(r.idx(), v),
                    Err(rejected) => rejected == v && !old(self).contents().contains_key(r.idx())
                        && final(self).contents() == old(self).contents(),
                },
                None => {
                    &&& final(self).contents() == old(self).contents().remove(r.idx())
                    &&& match res {
                        Ok(prev) => match prev {
                            Some(p) => old(self).contents().contains_key(r.idx()) && p == old(
                                self,
                            ).contents()[r.idx()],
                            None => !old(self).contents().contains_key(r.idx()),
                        },
                        Err(_) => false,
                    }
                },
            },
    {
        match value {
            Some(v) => match self.storage.set(r.index(), v) {
                Ok(prev) => Ok(Some(prev)),
                Err(rejected) => Err(rejected),
            },
            None => Ok(self.storage.remove(r.index())),
        }
    }
}

} // verus!
