use shelf::{BTreeDictionary, HashDictionary, Ref, SlotStorage};
use std::collections::{BTreeMap, HashMap};

#[test]
fn hash_dictionary_scenario() {
    let mut d: HashDictionary<SlotStorage<String>> = HashDictionary::new(SlotStorage::new());
    let a = d.insert(String::from("a"));
    assert_eq!(a.index(), 0);
    let b = d.insert(String::from("b"));
    assert_eq!(b.index(), 1);
    let a_again = d.insert(String::from("a"));
    assert_eq!(a_again, a);
    assert_eq!(d.as_shelf().len(), 2);
    let removed = d.remove_value(&String::from("b"));
    assert_eq!(removed, Some((b, String::from("b"))));
    assert_eq!(d.as_shelf().len(), 1);
    assert_eq!(d.get(b), None);
}

#[test]
fn btree_dictionary_scenario() {
    let mut d: BTreeDictionary<SlotStorage<String>> = BTreeDictionary::new(SlotStorage::new());
    let a = d.insert(String::from("a"));
    assert_eq!(a.index(), 0);
    let b = d.insert(String::from("b"));
    assert_eq!(b.index(), 1);
    let a_again = d.insert(String::from("a"));
    assert_eq!(a_again, a);
    assert_eq!(d.len(), 2);
    assert!(!d.is_empty());
    let removed = d.remove_value(&String::from("b"));
    assert_eq!(removed, Some((b, String::from("b"))));
    assert_eq!(d.len(), 1);
    assert_eq!(d.get(b), None);
}

#[test]
fn dictionary_roundtrip() {
    let mut d: HashDictionary<Vec<String>> = HashDictionary::new(Vec::new());
    let r = d.insert(String::from("value"));
    assert_eq!(d.get(r), Some(&String::from("value")));
    assert_eq!(d.borrow(r), Some(&String::from("value")));
}

#[test]
fn dictionary_interning_is_idempotent() {
    let mut d: BTreeDictionary<Vec<u64>> = BTreeDictionary::new(Vec::new());
    let r1 = d.insert(42);
    assert_eq!(d.len(), 1);
    let r2 = d.insert(42);
    assert_eq!(r1, r2);
    assert_eq!(d.len(), 1);
    let r3 = d.insert(43);
    assert_ne!(r1, r3);
    assert_eq!(d.len(), 2);
}

#[test]
fn dictionary_dedups_equal_instances() {
    let mut d: HashDictionary<Vec<String>> = HashDictionary::new(Vec::new());
    let one = String::from("shared");
    let mut two = String::new();
    two.push_str("shared");
    let r1 = d.insert(one);
    let r2 = d.insert(two);
    assert_eq!(r1, r2);
    assert_eq!(d.as_shelf().len(), 1);
}

#[test]
fn dictionary_remove_then_absent() {
    let mut d: HashDictionary<SlotStorage<u32>> = HashDictionary::new(SlotStorage::new());
    let r = d.insert(1);
    assert_eq!(d.remove(r), Some(1));
    assert_eq!(d.get(r), None);
    assert_eq!(d.remove(r), None);
    assert_eq!(d.remove_value(&1), None);
}

#[test]
fn dictionary_remove_keeps_both_sides_consistent() {
    let mut d: BTreeDictionary<SlotStorage<u32>> = BTreeDictionary::new(SlotStorage::new());
    let r1 = d.insert(1);
    let r2 = d.insert(2);
    assert_eq!(d.remove(r1), Some(1));
    assert_eq!(d.len(), 1);
    let r1_new = d.insert(1);
    assert_ne!(r1_new, r2);
    assert_eq!(d.len(), 2);
    assert_eq!(d.as_map().len(), 2);
    assert_eq!(d.as_shelf().len(), 2);
}

#[test]
fn dictionary_get_mut_through_map_backends() {
    let mut hash_store: HashMap<usize, String> = HashMap::new();
    hash_store.insert(0, String::from("first"));
    let mut hd: HashDictionary<HashMap<usize, String>> = HashDictionary::new(hash_store);
    let h: Ref<String> = Ref::new(0);
    *hd.get_mut(h) = String::from("changed");
    assert_eq!(hd.get(h), Some(&String::from("changed")));
    *hd.borrow_mut(h) = String::from("again");
    assert_eq!(hd.get(h), Some(&String::from("again")));

    let mut tree_store: BTreeMap<usize, String> = BTreeMap::new();
    tree_store.insert(0, String::from("first"));
    let mut bd: BTreeDictionary<BTreeMap<usize, String>> = BTreeDictionary::new(tree_store);
    *bd.get_mut(h) = String::from("changed");
    assert_eq!(bd.get(h), Some(&String::from("changed")));
}

#[test]
fn dictionary_accessors() {
    let mut d: HashDictionary<Vec<u64>> = HashDictionary::default();
    let r = d.insert(5);
    assert_eq!(d.as_map().get(&5), Some(&r));
    assert_eq!(d.as_shelf().get(r), Some(&5));
    assert_eq!(d.as_storage(), &vec![5]);
    let (map, values) = d.into_parts();
    assert_eq!(map.get(&5), Some(&r));
    assert_eq!(values.get(r), Some(&5));

    let mut d2: BTreeDictionary<Vec<u64>> = BTreeDictionary::default();
    let r2 = d2.insert(6);
    assert_eq!(d2.as_map().get(&6), Some(&r2));
    assert_eq!(d2.as_shelf().get(r2), Some(&6));
    assert_eq!(d2.as_storage(), &vec![6]);
    let shelf_side = d2.into_shelf();
    assert_eq!(shelf_side.get(r2), Some(&6));

    let mut d3: HashDictionary<Vec<u64>> = HashDictionary::default();
    d3.insert(7);
    assert_eq!(d3.into_storage(), vec![7]);
    let mut d4: HashDictionary<Vec<u64>> = HashDictionary::default();
    let r4 = d4.insert(8);
    let m4 = d4.into_map();
    assert_eq!(m4.get(&8), Some(&r4));
    let mut d5: BTreeDictionary<Vec<u64>> = BTreeDictionary::default();
    let r5 = d5.insert(9);
    assert_eq!(d5.into_map().get(&9), Some(&r5));
    let mut d6: HashDictionary<Vec<u64>> = HashDictionary::default();
    let r6 = d6.insert(3);
    let s6 = d6.into_shelf();
    assert_eq!(s6.get(r6), Some(&3));
    let mut d7: BTreeDictionary<Vec<u64>> = BTreeDictionary::default();
    d7.insert(4);
    assert_eq!(d7.into_storage(), vec![4]);
    let mut d8: BTreeDictionary<Vec<u64>> = BTreeDictionary::default();
    let r8 = d8.insert(5);
    let (m8, v8) = d8.into_parts();
    assert_eq!(m8.get(&5), Some(&r8));
    assert_eq!(v8.get(r8), Some(&5));
}

#[test]
fn dictionary_handles_do_not_survive_removal() {
    let mut d: HashDictionary<SlotStorage<String>> = HashDictionary::new(SlotStorage::new());
    let stale = d.insert(String::from("old"));
    d.remove(stale);
    let fresh = d.insert(String::from("new"));
    assert_eq!(stale.index(), fresh.index());
    assert_eq!(d.get(stale), Some(&String::from("new")));
}
