use shelf::{Ref, RefMap, Shelf, SlotStorage};
use std::collections::{BTreeMap, HashMap};

#[test]
fn shelf_roundtrip() {
    let mut s: Shelf<Vec<String>> = Shelf::new(Vec::new());
    let r = s.insert(String::from("hello"));
    assert_eq!(s.get(r), Some(&String::from("hello")));
    assert_eq!(s.borrow(r), Some(&String::from("hello")));
    assert_eq!(s.len(), 1);
    assert!(!s.is_empty());
}

#[test]
fn shelf_absent_handle() {
    let s: Shelf<Vec<u32>> = Shelf::default();
    let bogus: Ref<u32> = Ref::new(0);
    assert_eq!(s.get(bogus), None);
    assert_eq!(s.borrow(bogus), None);
    assert!(s.is_empty());
}

#[test]
fn shelf_get_mut_updates_value() {
    let mut s: Shelf<Vec<u32>> = Shelf::new(Vec::new());
    let r = s.insert(1);
    *s.get_mut(r) = 2;
    assert_eq!(s.get(r), Some(&2));
    *s.borrow_mut(r) = 3;
    assert_eq!(s.get(r), Some(&3));
}

#[test]
fn shelf_set_rejects_unallocated() {
    let mut s: Shelf<SlotStorage<String>> = Shelf::new(SlotStorage::new());
    let r = s.insert(String::from("kept"));
    let gone = s.insert(String::from("gone"));
    assert_eq!(s.remove(gone), Some(String::from("gone")));
    assert_eq!(s.set(gone, String::from("new")), Err(String::from("new")));
    let never: Ref<String> = Ref::new(17);
    assert_eq!(s.set(never, String::from("new")), Err(String::from("new")));
    assert_eq!(s.len(), 1);
    assert_eq!(s.get(r), Some(&String::from("kept")));
    assert_eq!(s.set(r, String::from("swapped")), Ok(String::from("kept")));
    assert_eq!(s.get(r), Some(&String::from("swapped")));
}

#[test]
fn shelf_remove_then_absent() {
    let mut s: Shelf<SlotStorage<u32>> = Shelf::new(SlotStorage::new());
    let r = s.insert(5);
    assert_eq!(s.remove(r), Some(5));
    assert_eq!(s.get(r), None);
    assert_eq!(s.remove(r), None);
}

#[test]
fn shelf_set_or_remove() {
    let mut s: Shelf<SlotStorage<u32>> = Shelf::new(SlotStorage::new());
    let r = s.insert(1);
    assert_eq!(s.set_or_remove(r, Some(2)), Ok(Some(1)));
    assert_eq!(s.get(r), Some(&2));
    assert_eq!(s.set_or_remove(r, None), Ok(Some(2)));
    assert_eq!(s.get(r), None);
    assert_eq!(s.set_or_remove(r, None), Ok(None));
    assert_eq!(s.set_or_remove(r, Some(9)), Err(9));
}

#[test]
fn shelf_iter_lists_entries() {
    let mut s: Shelf<Vec<u32>> = Shelf::new(Vec::new());
    let a = s.insert(10);
    let b = s.insert(20);
    let entries = s.iter();
    assert_eq!(entries.len(), 2);
    assert_eq!(entries[0].0, a);
    assert_eq!(*entries[0].1, 10);
    assert_eq!(entries[1].0, b);
    assert_eq!(*entries[1].1, 20);
}

#[test]
fn shelf_storage_accessors() {
    let s: Shelf<Vec<u32>> = Shelf::new(vec![1, 2]);
    assert_eq!(s.as_storage().len(), 2);
    let v = s.into_storage();
    assert_eq!(v, vec![1, 2]);
}

#[test]
fn ref_map_side_table() {
    let mut arena: Shelf<Vec<String>> = Shelf::new(Vec::new());
    let a = arena.insert(String::from("alpha"));
    let b = arena.insert(String::from("beta"));
    let mut table: RefMap<String, BTreeMap<usize, u32>> = RefMap::new(BTreeMap::new());
    assert_eq!(table.insert(a, 1), None);
    assert_eq!(table.insert(b, 2), None);
    assert_eq!(table.insert(a, 10), Some(1));
    assert_eq!(table.get(a), Some(&10));
    assert_eq!(table.get(b), Some(&2));
    *table.get_mut(b) = 20;
    assert_eq!(table.get(b), Some(&20));
    let unknown: Ref<String> = Ref::new(9);
    assert_eq!(table.get(unknown), None);
}

#[test]
fn ref_map_hash_backend() {
    let mut table: RefMap<u64, HashMap<usize, String>> = RefMap::default();
    let k: Ref<u64> = Ref::new(3);
    assert_eq!(table.insert(k, String::from("x")), None);
    *table.get_mut(k) = String::from("y");
    assert_eq!(table.get(k), Some(&String::from("y")));
    assert_eq!(table.as_storage().len(), 1);
    let m = table.into_storage();
    assert_eq!(m.get(&3), Some(&String::from("y")));
}
