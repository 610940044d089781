use shelf::{SlotStorage, Storage, StorageAllocate, StorageInsert, StorageIntoIter, StorageIter,
    StorageMut, StorageRemove, StorageSet};
use std::collections::{BTreeMap, HashMap};

#[test]
fn vec_storage_allocates_in_order() {
    let mut v: Vec<u32> = Vec::new();
    let i0 = v.allocate(10);
    let i1 = v.allocate(11);
    assert_eq!(i0, 0);
    assert_eq!(i1, 1);
    assert_eq!(<Vec<u32> as Storage>::len(&v), 2);
    assert_eq!(<Vec<u32> as Storage>::get(&v, 0), Some(&10));
    assert_eq!(<Vec<u32> as Storage>::get(&v, 1), Some(&11));
    assert_eq!(<Vec<u32> as Storage>::get(&v, 2), None);
    assert!(!<Vec<u32> as Storage>::is_empty(&v));
}

#[test]
fn vec_storage_capacity_is_at_least_len() {
    let mut v: Vec<u32> = Vec::new();
    for k in 0..10 {
        v.allocate(k);
    }
    assert!(<Vec<u32> as Storage>::capacity(&v) >= 10);
}

#[test]
fn vec_storage_set_swaps_and_rejects() {
    let mut v: Vec<u32> = vec![1, 2, 3];
    assert_eq!(v.set(1, 20), Ok(2));
    assert_eq!(<Vec<u32> as Storage>::get(&v, 1), Some(&20));
    assert_eq!(v.set(3, 30), Err(30));
    assert_eq!(<Vec<u32> as Storage>::len(&v), 3);
}

#[test]
fn vec_storage_get_mut_and_clear() {
    let mut v: Vec<u32> = vec![5];
    *v.get_mut(0) = 6;
    assert_eq!(<Vec<u32> as Storage>::get(&v, 0), Some(&6));
    <Vec<u32> as StorageMut>::clear(&mut v);
    assert!(<Vec<u32> as Storage>::is_empty(&v));
}

#[test]
fn vec_storage_iter_is_ascending() {
    let mut v: Vec<u32> = vec![7, 8, 9];
    let entries = <Vec<u32> as StorageIter>::iter(&v);
    assert_eq!(entries.len(), 3);
    assert_eq!(entries[0], (0, &7));
    assert_eq!(entries[1], (1, &8));
    assert_eq!(entries[2], (2, &9));
    v.clear();
    assert!(<Vec<u32> as StorageIter>::iter(&v).is_empty());
}

#[test]
fn vec_storage_into_iter_lists_all() {
    let v: Vec<u32> = vec![5, 6, 7];
    let entries = <Vec<u32> as StorageIntoIter>::into_iter(v);
    assert_eq!(entries, vec![(0, 5), (1, 6), (2, 7)]);
}

#[test]
fn slot_storage_reuses_freed_indices() {
    let mut s: SlotStorage<&str> = SlotStorage::new();
    let a = s.allocate("a");
    let b = s.allocate("b");
    assert_eq!(a, 0);
    assert_eq!(b, 1);
    assert_eq!(s.remove(0), Some("a"));
    assert_eq!(s.remove(0), None);
    assert_eq!(s.len(), 1);
    let c = s.allocate("c");
    assert_eq!(c, 0);
    assert_eq!(s.get(0), Some(&"c"));
    assert_eq!(s.get(1), Some(&"b"));
    assert_eq!(s.len(), 2);
    assert!(s.capacity() >= 2);
}

#[test]
fn slot_storage_set_only_on_occupied() {
    let mut s: SlotStorage<u32> = SlotStorage::default();
    let i = s.allocate(1);
    assert_eq!(s.set(i, 2), Ok(1));
    assert_eq!(s.get(i), Some(&2));
    assert_eq!(s.set(5, 9), Err(9));
    assert_eq!(s.remove(i), Some(2));
    assert_eq!(s.set(i, 9), Err(9));
    assert!(s.is_empty());
}

#[test]
fn slot_storage_iter_skips_holes() {
    let mut s: SlotStorage<u32> = SlotStorage::new();
    s.allocate(10);
    let middle = s.allocate(11);
    s.allocate(12);
    s.remove(middle);
    let entries = s.iter();
    assert_eq!(entries.len(), 2);
    assert_eq!(entries[0], (0, &10));
    assert_eq!(entries[1], (2, &12));
}

#[test]
fn slot_storage_into_iter_skips_holes() {
    let mut s: SlotStorage<u32> = SlotStorage::new();
    s.allocate(10);
    let middle = s.allocate(11);
    s.allocate(12);
    s.remove(middle);
    let entries = <SlotStorage<u32> as StorageIntoIter>::into_iter(s);
    assert_eq!(entries, vec![(0, 10), (2, 12)]);
}

#[test]
fn btree_storage_insert_set_remove() {
    let mut m: BTreeMap<usize, String> = BTreeMap::new();
    assert_eq!(StorageInsert::insert(&mut m, 4, String::from("x")), None);
    assert_eq!(
        StorageInsert::insert(&mut m, 4, String::from("y")),
        Some(String::from("x"))
    );
    assert_eq!(StorageSet::set(&mut m, 4, String::from("z")), Ok(String::from("y")));
    assert_eq!(StorageSet::set(&mut m, 5, String::from("w")), Err(String::from("w")));
    assert_eq!(<BTreeMap<usize, String> as Storage>::get(&m, 4), Some(&String::from("z")));
    *StorageMut::get_mut(&mut m, 4) = String::from("q");
    assert_eq!(<BTreeMap<usize, String> as Storage>::get(&m, 4), Some(&String::from("q")));
    assert_eq!(StorageRemove::remove(&mut m, 4), Some(String::from("q")));
    assert_eq!(StorageRemove::remove(&mut m, 4), None);
    assert!(<BTreeMap<usize, String> as Storage>::is_empty(&m));
}

#[test]
fn btree_storage_iter_is_ascending() {
    let mut m: BTreeMap<usize, u32> = BTreeMap::new();
    StorageInsert::insert(&mut m, 3, 30);
    StorageInsert::insert(&mut m, 1, 10);
    let entries = <BTreeMap<usize, u32> as StorageIter>::iter(&m);
    assert_eq!(entries, vec![(1, &10), (3, &30)]);
}

#[test]
fn hash_storage_iter_lists_entries() {
    let mut m: HashMap<usize, u32> = HashMap::new();
    StorageInsert::insert(&mut m, 3, 30);
    StorageInsert::insert(&mut m, 1, 10);
    let mut entries = <HashMap<usize, u32> as StorageIter>::iter(&m);
    entries.sort();
    assert_eq!(entries, vec![(1, &10), (3, &30)]);
}

#[test]
fn hash_storage_insert_set_remove() {
    let mut m: HashMap<usize, String> = HashMap::new();
    assert_eq!(StorageInsert::insert(&mut m, 2, String::from("x")), None);
    assert_eq!(StorageSet::set(&mut m, 2, String::from("y")), Ok(String::from("x")));
    assert_eq!(StorageSet::set(&mut m, 9, String::from("n")), Err(String::from("n")));
    *StorageMut::get_mut(&mut m, 2) = String::from("z");
    assert_eq!(<HashMap<usize, String> as Storage>::get(&m, 2), Some(&String::from("z")));
    assert!(<HashMap<usize, String> as Storage>::capacity(&m) >= 1);
    assert_eq!(<HashMap<usize, String> as Storage>::len(&m), 1);
    assert_eq!(StorageRemove::remove(&mut m, 2), Some(String::from("z")));
    assert!(<HashMap<usize, String> as Storage>::is_empty(&m));
    StorageMut::clear(&mut m);
    assert!(<HashMap<usize, String> as Storage>::is_empty(&m));
}
