//! The mathematical model of an interning dictionary.
//!
//! A dictionary is observed through two maps over the same value
//! domain: `index_of`, the reverse index from a value to the index of
//! its single stored copy, and `contents`, the arena from indices to
//! stored values. The predicates here describe the invariant tying the
//! two together and the step each mutating operation takes; the lemmas
//! state the laws every dictionary variant obeys.

use vstd::prelude::*;

verus! {

/// Cloning a value of `T` always yields a value equal to the original.
///
/// The dictionaries store one copy of an inserted value on each side,
/// so their bookkeeping is only meaningful for value types whose
/// `clone` is faithful in this sense.
pub open spec fn clone_faithful<T: Clone>() -> bool {
    forall|a: T, b: T| #[trigger] vstd::pervasive::cloned::<T>(a, b) ==> b == a
}

/// Writing back the value a key already holds leaves a map unchanged.
pub broadcast proof fn lemma_map_insert_same<K, V>(m: Map<K, V>, k: K, v: V)
    requires
        m.contains_key(k),
        m[k] == v,
    ensures
        #[trigger] m.insert(k, v) == m,
{
    assert(m.insert(k, v) =~= m);
}

/// The two sides of a dictionary are a bijection, restricted to the
/// values currently present: every indexed value is stored at exactly
/// that index, and every stored value is indexed by exactly its own
/// index.
pub open spec fn intern_bijection<V>(index_of: Map<V, usize>, contents: Map<usize, V>) -> bool {
    &&& forall|v: V| #[trigger]
        index_of.contains_key(v) ==> contents.contains_key(index_of[v]) && contents[index_of[v]]
            == v
    &&& forall|i: usize| #[trigger]
        contents.contains_key(i) ==> index_of.contains_key(contents[i]) && index_of[contents[i]]
            == i
}

/// What inserting `value` does: when the value is already present
/// nothing changes and its existing index `i` is returned; otherwise a
/// fresh index `i` is allocated and both sides gain the value.
pub open spec fn intern_insert_step<V>(
    pre_index: Map<V, usize>,
    pre_contents: Map<usize, V>,
    post_index: Map<V, usize>,
    post_contents: Map<usize, V>,
    value: V,
    i: usize,
) -> bool {
    if pre_index.contains_key(value) {
        &&& i == pre_index[value]
        &&& post_index == pre_index
        &&& post_contents == pre_contents
    } else {
        &&& !pre_contents.contains_key(i)
        &&& post_index == pre_index.insert(value, i)
        &&& post_contents == pre_contents.insert(i, value)
    }
}

/// What removing by index `i` does: when the index is occupied, its
/// value leaves both sides; otherwise nothing changes.
pub open spec fn intern_remove_step<V>(
    pre_index: Map<V, usize>,
    pre_contents: Map<usize, V>,
    post_index: Map<V, usize>,
    post_contents: Map<usize, V>,
    i: usize,
) -> bool {
    if pre_contents.contains_key(i) {
        &&& post_index == pre_index.remove(pre_contents[i])
        &&& post_contents == pre_contents.remove(i)
    } else {
        &&& post_index == pre_index
        &&& post_contents == pre_contents
    }
}

/// What removing by value does: when the value is present, it leaves
/// both sides; otherwise nothing changes.
pub open spec fn intern_remove_value_step<V>(
    pre_index: Map<V, usize>,
    pre_contents: Map<usize, V>,
    post_index: Map<V, usize>,
    post_contents: Map<usize, V>,
    value: V,
) -> bool {
    if pre_index.contains_key(value) {
        &&& post_index == pre_index.remove(value)
        &&& post_contents == pre_contents.remove(pre_index[value])
    } else {
        &&& post_index == pre_index
        &&& post_contents == pre_contents
    }
}

/// The two sides of a well-formed dictionary have the same number of
/// entries: there is exactly one reverse-index entry per stored value.
pub proof fn lemma_bijection_equal_len<V>(index_of: Map<V, usize>, contents: Map<usize, V>)
    requires
        intern_bijection(index_of, contents),
        index_of.dom().finite(),
    ensures
        contents.dom().finite(),
        index_of.len() == contents.len(),
{
    let f = |v: V| index_of[v];
    assert forall|v1: V, v2: V|
        index_of.dom().contains(v1) && index_of.dom().contains(v2) && #[trigger] f(v1)
            == #[trigger] f(v2) implies v1 == v2 by {
        assert(contents[index_of[v1]] == v1);
        assert(contents[index_of[v2]] == v2);
    }
    assert forall|i: usize| contents.dom().contains(i) implies index_of.dom().map(f).contains(
        i,
    ) by {
        assert(index_of.dom().contains(contents[i]) && f(contents[i]) == i);
    }
    assert(index_of.dom().map(f) =~= contents.dom());
    vstd::set_lib::lemma_map_size(index_of.dom(), contents.dom(), f);
}

/// Inserting preserves the bijection between the two sides.
pub proof fn lemma_insert_step_preserves_bijection<V>(
    pre_index: Map<V, usize>,
    pre_contents: Map<usize, V>,
    post_index: Map<V, usize>,
    post_contents: Map<usize, V>,
    value: V,
    i: usize,
)
    requires
        intern_bijection(pre_index, pre_contents),
        intern_insert_step(pre_index, pre_contents, post_index, post_contents, value, i),
    ensures
        intern_bijection(post_index, post_contents),
{
    if !pre_index.contains_key(value) {
        assert forall|v: V| #[trigger] post_index.contains_key(v) implies post_contents.contains_key(
            post_index[v],
        ) && post_contents[post_index[v]] == v by {
            if v != value {
                assert(pre_index.contains_key(v));
                assert(pre_contents.contains_key(pre_index[v]));
                assert(pre_index[v] != i);
            }
        }
        assert forall|j: usize| #[trigger]
            post_contents.contains_key(j) implies post_index.contains_key(post_contents[j])
            && post_index[post_contents[j]] == j by {
            if j != i {
                assert(pre_contents.contains_key(j));
                assert(pre_contents[j] != value);
            }
        }
    }
}

/// Removing by index preserves the bijection between the two sides.
pub proof fn lemma_remove_step_preserves_bijection<V>(
    pre_index: Map<V, usize>,
    pre_contents: Map<usize, V>,
    post_index: Map<V, usize>,
    post_contents: Map<usize, V>,
    i: usize,
)
    requires
        intern_bijection(pre_index, pre_contents),
        intern_remove_step(pre_index, pre_contents, post_index, post_contents, i),
    ensures
        intern_bijection(post_index, post_contents),
{
    if pre_contents.contains_key(i) {
        let value = pre_contents[i];
        assert forall|v: V| #[trigger] post_index.contains_key(v) implies post_contents.contains_key(
            post_index[v],
        ) && post_contents[post_index[v]] == v by {
            assert(pre_index.contains_key(v));
            assert(pre_index[v] != i);
        }
        assert forall|j: usize| #[trigger]
            post_contents.contains_key(j) implies post_index.contains_key(post_contents[j])
            && post_index[post_contents[j]] == j by {
            assert(pre_contents.contains_key(j));
            assert(pre_contents[j] != value);
        }
    }
}

/// Removing by value preserves the bijection between the two sides.
pub proof fn lemma_remove_value_step_preserves_bijection<V>(
    pre_index: Map<V, usize>,
    pre_contents: Map<usize, V>,
    post_index: Map<V, usize>,
    post_contents: Map<usize, V>,
    value: V,
)
    requires
        intern_bijection(pre_index, pre_contents),
        intern_remove_value_step(pre_index, pre_contents, post_index, post_contents, value),
    ensures
        intern_bijection(post_index, post_contents),
{
    if pre_index.contains_key(value) {
        lemma_remove_step_preserves_bijection(
            pre_index,
            pre_contents,
            post_index,
            post_contents,
            pre_index[value],
        );
    }
}

/// Round trip: after inserting a value, the returned index leads back
/// to exactly that value.
pub proof fn lemma_insert_round_trip<V>(
    pre_index: Map<V, usize>,
    pre_contents: Map<usize, V>,
    post_index: Map<V, usize>,
    post_contents: Map<usize, V>,
    value: V,
    i: usize,
)
    requires
        intern_bijection(pre_index, pre_contents),
        intern_insert_step(pre_index, pre_contents, post_index, post_contents, value, i),
    ensures
        post_contents.contains_key(i) && post_contents[i] == value,
        post_index.contains_key(value) && post_index[value] == i,
{
}

/// Interning is idempotent and deduplicates under equality: inserting a
/// value equal to one inserted just before returns the same index and
/// changes nothing, so the dictionary grows by one entry, not two.
pub proof fn lemma_insert_idempotent<V>(
    pre_index: Map<V, usize>,
    pre_contents: Map<usize, V>,
    mid_index: Map<V, usize>,
    mid_contents: Map<usize, V>,
    post_index: Map<V, usize>,
    post_contents: Map<usize, V>,
    value1: V,
    value2: V,
    i1: usize,
    i2: usize,
)
    requires
        intern_bijection(pre_index, pre_contents),
        value1 == value2,
        intern_insert_step(pre_index, pre_contents, mid_index, mid_contents, value1, i1),
        intern_insert_step(mid_index, mid_contents, post_index, post_contents, value2, i2),
    ensures
        i2 == i1,
        post_index == mid_index,
        post_contents == mid_contents,
{
}

/// Inserting an absent value grows the dictionary by exactly one entry;
/// inserting a present one does not grow it at all.
pub proof fn lemma_insert_step_len<V>(
    pre_index: Map<V, usize>,
    pre_contents: Map<usize, V>,
    post_index: Map<V, usize>,
    post_contents: Map<usize, V>,
    value: V,
    i: usize,
)
    requires
        intern_bijection(pre_index, pre_contents),
        pre_contents.dom().finite(),
        intern_insert_step(pre_index, pre_contents, post_index, post_contents, value, i),
    ensures
        post_contents.len() == pre_contents.len() + (if pre_index.contains_key(value) {
            0int
        } else {
            1int
        }),
{
    if !pre_index.contains_key(value) {
        vstd::set::axiom_set_insert_len(pre_contents.dom(), i);
        assert(post_contents.dom() =~= pre_contents.dom().insert(i));
    }
}

/// Remove, then absent: after removing an index its value is gone, and
/// removing the same index again changes nothing.
pub proof fn lemma_remove_then_absent<V>(
    pre_index: Map<V, usize>,
    pre_contents: Map<usize, V>,
    post_index: Map<V, usize>,
    post_contents: Map<usize, V>,
    i: usize,
)
    requires
        intern_bijection(pre_index, pre_contents),
        intern_remove_step(pre_index, pre_contents, post_index, post_contents, i),
    ensures
        !post_contents.contains_key(i),
        intern_remove_step(post_index, post_contents, post_index, post_contents, i),
{
    if pre_contents.contains_key(i) {
        assert(!post_contents.contains_key(i));
    }
}

} // verus!
