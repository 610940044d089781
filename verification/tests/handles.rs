use shelf::Ref;

#[test]
fn handle_new_and_index() {
    let r: Ref<String> = Ref::new(7);
    assert_eq!(r.index(), 7);
}

#[test]
fn handle_cast_keeps_index() {
    let r: Ref<String> = Ref::new(3);
    let s: Ref<u64> = r.cast();
    assert_eq!(s.index(), 3);
}

#[test]
fn handle_equality_is_by_index() {
    let a: Ref<String> = Ref::new(4);
    let b: Ref<String> = Ref::new(4);
    let c: Ref<String> = Ref::new(5);
    assert_eq!(a, b);
    assert_ne!(a, c);
}

#[test]
fn handle_order_is_by_index() {
    let a: Ref<String> = Ref::new(1);
    let b: Ref<String> = Ref::new(2);
    assert!(a < b);
    assert!(b > a);
    assert!(a <= a);
}

#[test]
fn handle_is_copy() {
    let a: Ref<String> = Ref::new(9);
    let b = a;
    let c = a.clone();
    assert_eq!(b.index(), 9);
    assert_eq!(c.index(), 9);
}
