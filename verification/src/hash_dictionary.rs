//! An interning dictionary whose reverse index is a hashed map.

use crate::interning::{
    clone_faithful, intern_bijection, intern_insert_step, intern_remove_step,
    intern_remove_value_step, lemma_insert_round_trip, lemma_insert_step_preserves_bijection,
    lemma_remove_step_preserves_bijection, lemma_remove_value_step_preserves_bijection,
};
use crate::storage::{Project, Storage, StorageAllocate, StorageMut, StorageRemove};
use crate::{Ref, Shelf};
use std::collections::HashMap;
use std::hash::Hash;
use vstd::prelude::*;
use vstd::std_specs::hash::obeys_key_model;

verus! {

/// Bidirectional mapping between values and their references: an arena
/// of stored values together with a hashed reverse index, guaranteeing
/// at most one stored copy per distinct value.
pub struct HashDictionary<S: Storage> {
    map: HashMap<S::Value, Ref<S::Value>>,
    values: Shelf<S>,
}

impl<S: Storage> HashDictionary<S> {
    /// The reverse index, as the mathematical map underlying the hashed
    /// map field.
    pub closed spec fn spec_map(&self) -> Map<S::Value, Ref<S::Value>> {
        self.map@
    }

    /// The arena holding the stored values.
    pub closed spec fn spec_values(&self) -> Shelf<S> {
        self.values
    }

    /// The reverse index: which index each present value is stored at.
    pub open spec fn index_of(&self) -> Map<S::Value, usize> {
        Map::new(
            |v: S::Value| self.spec_map().contains_key(v),
            |v: S::Value| self.spec_map()[v].idx(),
        )
    }

    /// The arena side: which value each occupied index holds.
    pub open spec fn contents(&self) -> Map<usize, S::Value> {
        self.spec_values().contents()
    }

    /// Well-formedness: the reverse index and the arena are a bijection
    /// over the present values, and both sides are finite.
    pub open spec fn wf(&self) -> bool {
        &&& intern_bijection(self.index_of(), self.contents())
        &&& self.contents().dom().finite()
        &&& self.index_of().dom().finite()
    }

    /// Creates a new dictionary over the given storage. The dictionary
    /// is well-formed when the storage starts out empty.
    pub fn new(storage: S) -> (d: Self)
        ensures
            d.index_of() == Map::<S::Value, usize>::empty(),
            d.contents() == storage.contents(),
            storage.contents() == Map::<usize, S::Value>::empty() ==> d.wf(),
    {
        let d = HashDictionary { map: HashMap::new(), values: Shelf::new(storage) };
        proof {
            assert(d.index_of() =~= Map::<S::Value, usize>::empty());
            assert(d.index_of().dom() =~= Set::<S::Value>::empty());
            if storage.contents() == Map::<usize, S::Value>::empty() {
                assert(d.contents().dom() =~= Set::<usize>::empty());
            }
        }
        d
    }

    /// Consumes the dictionary, handing out the reverse index and the
    /// arena.
    pub fn into_parts(self) -> (r: (HashMap<S::Value, Ref<S::Value>>, Shelf<S>))
        ensures
            r.0@ == self.spec_map(),
            r.1 == self.spec_values(),
    {
        (self.map, self.values)
    }

    /// Consumes the dictionary, handing out the reverse index.
    pub fn into_map(self) -> (r: HashMap<S::Value, Ref<S::Value>>)
        ensures
            r@ == self.spec_map(),
    {
        self.map
    }

    /// Borrows the reverse index.
    pub fn as_map(&self) -> (r: &HashMap<S::Value, Ref<S::Value>>)
        ensures
            r@ == self.spec_map(),
    {
        &self.map
    }

    /// Consumes the dictionary, handing out the arena.
    pub fn into_shelf(self) -> (r: Shelf<S>)
        ensures
            r == self.spec_values(),
    {
        self.values
    }

    /// Borrows the arena.
    pub fn as_shelf(&self) -> (r: &Shelf<S>)
        ensures
            *r == self.spec_values(),
    {
        &self.values
    }

    /// Consumes the dictionary, handing out the backing storage.
    pub fn into_storage(self) -> (r: S)
        ensures
            r == self.spec_values().spec_storage(),
    {
        self.values.into_storage()
    }

    /// Borrows the backing storage.
    pub fn as_storage(&self) -> (r: &S)
        ensures
            *r == self.spec_values().spec_storage(),
    {
        self.values.as_storage()
    }

    /// Borrows the view of type `T` out of the value the reference
    /// denotes, if present.
    pub fn borrow<T>(&self, r: Ref<T>) -> (res: Option<&T>) where S::Value: Project<T>
        ensures
            match res {
                Some(v) => self.contents().contains_key(r.idx()) && *v == self.contents()[
                    r.idx()
                ].projection(),
                None => !self.contents().contains_key(r.idx()),
            },
    {
        self.values.borrow(r)
    }

    /// Returns the stored value the reference denotes, if present.
    pub fn get<T>(&self, r: Ref<T>) -> (res: Option<&S::Value>) where S::Value: Project<T>
        ensures
            match res {
                Some(v) => self.contents().contains_key(r.idx()) && *v == self.contents()[r.idx()],
                None => !self.contents().contains_key(r.idx()),
            },
    {
        self.values.get(r)
    }
}

impl<S: Storage + Default> Default for HashDictionary<S> {
    fn default() -> (d: Self)
        ensures
            d.index_of() == Map::<S::Value, usize>::empty(),
            call_ensures(S::default, (), d.spec_values().spec_storage()),
            d.contents() == Map::<usize, S::Value>::empty() ==> d.wf(),
    {
        let d = HashDictionary { map: HashMap::new(), values: Shelf::default() };
        proof {
            assert(d.index_of() =~= Map::<S::Value, usize>::empty());
            assert(d.index_of().dom() =~= Set::<S::Value>::empty());
            if d.contents() == Map::<usize, S::Value>::empty() {
                assert(d.contents().dom() =~= Set::<usize>::empty());
            }
        }
        d
    }
}

impl<S: StorageMut> HashDictionary<S> {
    /// Mutably borrows the view of type `T` out of the value the
    /// reference denotes. Changing the stored value through the
    /// reference desynchronises the reverse index; the dictionary is
    /// only known to stay well-formed if the value is left unchanged.
    pub fn borrow_mut<T>(&mut self, r: Ref<T>) -> (res: &mut T) where S::Value: Project<T>
        requires
            old(self).contents().contains_key(r.idx()),
        ensures
            *res == old(self).contents()[r.idx()].projection(),
            final(self).index_of() == old(self).index_of(),
            final(self).contents() == old(self).contents().insert(
                r.idx(),
                old(self).contents()[r.idx()].with_projection(*final(res)),
            ),
    {
        self.values.borrow_mut(r)
    }

    /// Mutably borrows the stored value the reference denotes. Changing
    /// it desynchronises the reverse index; the dictionary stays
    /// well-formed exactly when the value is left unchanged.
    pub fn get_mut<T>(&mut self, r: Ref<T>) -> (res: &mut S::Value) where S::Value: Project<T>
        requires
            old(self).contents().contains_key(r.idx()),
        ensures
            *res == old(self).contents()[r.idx()],
            final(self).index_of() == old(self).index_of(),
            final(self).contents() == old(self).contents().insert(r.idx(), *final(res)),
            (old(self).wf() && *final(res) == old(self).contents()[r.idx()]) ==> final(self).wf(),
    {
        broadcast use crate::interning::lemma_map_insert_same;

        self.values.get_mut(r)
    }
}

impl<S: StorageAllocate> HashDictionary<S> {
    /// Inserts a new value and returns its unique reference.
    ///
    /// If the value is already registered, its old reference is returned
    /// without overriding the old value.
    pub fn insert(&mut self, value: S::Value) -> (r: Ref<S::Value>) where
        S::Value: Clone + Eq + Hash,

        requires
            old(self).wf(),
            obeys_key_model::<S::Value>(),
            clone_faithful::<S::Value>(),
        ensures
            final(self).wf(),
            intern_insert_step(
                old(self).index_of(),
                old(self).contents(),
                final(self).index_of(),
                final(self).contents(),
                value,
                r.idx(),
            ),
            final(self).index_of().contains_key(value) && final(self).index_of()[value] == r.idx(),
            final(self).contents().contains_key(r.idx()) && final(self).contents()[r.idx()]
                == value,
    {
        let existing: Option<Ref<S::Value>> = match self.map.get(&value) {
            Some(r) => Some(*r),
            None => None,
        };
        match existing {
            Some(r) => {
                proof {
                    assert(old(self).index_of().contains_key(value));
                    assert(old(self).index_of()[value] == r.idx());
                }
                r
            },
            None => {
                let stored = value.clone();
                proof {
                    assert(vstd::pervasive::cloned::<S::Value>(value, stored));
                    assert(stored == value);
                }
                let r = self.values.insert(stored);
                self.map.insert(value, r);
                proof {
                    assert(!old(self).index_of().contains_key(value));
                    assert(self.index_of() =~= old(self).index_of().insert(value, r.idx()));
                    lemma_insert_step_preserves_bijection(
                        old(self).index_of(),
                        old(self).contents(),
                        self.index_of(),
                        self.contents(),
                        value,
                        r.idx(),
                    );
                    lemma_insert_round_trip(
                        old(self).index_of(),
                        old(self).contents(),
                        self.index_of(),
                        self.contents(),
                        value,
                        r.idx(),
                    );
                }
                r
            },
        }
    }
}

impl<S: StorageRemove> HashDictionary<S> {
    /// Removes and returns the value the reference denotes, keeping the
    /// reverse index consistent.
    pub fn remove<T>(&mut self, r: Ref<T>) -> (res: Option<S::Value>) where
        S::Value: Project<T> + Eq + Hash,

        requires
            old(self).wf(),
            obeys_key_model::<S::Value>(),
        ensures
            final(self).wf(),
            intern_remove_step(
                old(self).index_of(),
                old(self).contents(),
                final(self).index_of(),
                final(self).contents(),
                r.idx(),
            ),
            match res {
                Some(v) => old(self).contents().contains_key(r.idx()) && v == old(self).contents()[
                    r.idx()
                ],
                None => !old(self).contents().contains_key(r.idx()),
            },
    {
        match self.values.remove(r) {
            Some(value) => {
                self.map.remove::<S::Value>(&value);
                proof {
                    assert(old(self).index_of().contains_key(value));
                    assert(self.index_of() =~= old(self).index_of().remove(value));
                    assert(self.contents() == old(self).contents().remove(r.idx()));
                    lemma_remove_step_preserves_bijection(
                        old(self).index_of(),
                        old(self).contents(),
                        self.index_of(),
                        self.contents(),
                        r.idx(),
                    );
                }
                Some(value)
            },
            None => {
                proof {
                    assert(self.contents() == old(self).contents());
                    assert(self.index_of() =~= old(self).index_of());
                }
                None
            },
        }
    }

    /// Removes a value given the value itself, returning its reference
    /// and the stored copy.
    pub fn remove_value(&mut self, value: &S::Value) -> (res: Option<(Ref<S::Value>, S::Value)>)
        where S::Value: Eq + Hash
        requires
            old(self).wf(),
            obeys_key_model::<S::Value>(),
        ensures
            final(self).wf(),
            intern_remove_value_step(
                old(self).index_of(),
                old(self).contents(),
                final(self).index_of(),
                final(self).contents(),
                *value,
            ),
            match res {
                Some((r, v)) => old(self).index_of().contains_key(*value) && r.idx() == old(
                    self,
                ).index_of()[*value] && v == *value,
                None => !old(self).index_of().contains_key(*value),
            },
    {
        match self.map.remove(value) {
            Some(r) => {
                proof {
                    assert(old(self).index_of().contains_key(*value));
                    assert(old(self).contents().contains_key(r.idx()));
                }
                let removed = match self.values.remove(r) {
                    Some(v) => v,
                    None => vstd::pervasive::unreached(),
                };
                proof {
                    assert(self.index_of() =~= old(self).index_of().remove(*value));
                    lemma_remove_value_step_preserves_bijection(
                        old(self).index_of(),
                        old(self).contents(),
                        self.index_of(),
                        self.contents(),
                        *value,
                    );
                }
                Some((r, removed))
            },
            None => {
                proof {
                    assert(self.index_of() =~= old(self).index_of());
                }
                None
            },
        }
    }
}

} // verus!
