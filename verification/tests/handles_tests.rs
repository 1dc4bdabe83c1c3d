use finch_gen::handles::HandleTable;

#[test]
fn fresh_handles_are_distinct_and_live() {
    let mut t = HandleTable::new();
    let a = t.box_value();
    let b = t.box_value();
    assert_ne!(a, b);
    assert!(t.is_live(a));
    assert!(t.is_live(b));
    assert_eq!(t.allocation_count(), 2);
    assert_eq!(t.release_count(), 0);
}

#[test]
fn consuming_call_kills_the_handle() {
    let mut t = HandleTable::new();
    let h = t.box_value();
    // the consuming method reconstructs the owned value exactly once
    t.release(h);
    // afterwards the pointer is invalid: the destructor gate sees a dead handle
    assert!(!t.is_live(h));
}

#[test]
fn exactly_one_release_per_allocation() {
    let mut t = HandleTable::new();
    let a = t.box_value();
    let b = t.box_value();
    let c = t.box_value();
    t.release(b);  // consuming method
    t.release(a);  // destructor export
    t.release(c);  // destructor export
    assert_eq!(t.allocation_count(), 3);
    assert_eq!(t.release_count(), 3);
    assert!(!t.is_live(a) && !t.is_live(b) && !t.is_live(c));
}

#[test]
fn other_handles_survive_a_release() {
    let mut t = HandleTable::new();
    let a = t.box_value();
    let b = t.box_value();
    t.release(a);
    assert!(!t.is_live(a));
    assert!(t.is_live(b));
}
