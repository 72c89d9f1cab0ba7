use rws::error::BridgeError;
use rws::table::HandleTable;

#[test]
fn handles_start_at_one_and_grow() {
    let mut t: HandleTable<&str> = HandleTable::new();
    assert!(t.has_spare());
    assert_eq!(t.insert("a"), 1);
    assert_eq!(t.insert("b"), 2);
    assert_eq!(t.insert("c"), 3);
    assert_eq!(t.get(2), Ok(&"b"));
    assert!(t.contains(3));
    assert!(!t.contains(0));
    assert!(!t.contains(4));
}

#[test]
fn a_removed_handle_is_unknown_and_never_comes_back() {
    let mut t: HandleTable<u32> = HandleTable::new();
    let a = t.insert(10);
    let b = t.insert(20);
    assert_eq!(t.remove(a), Ok(10));
    assert_eq!(t.remove(a), Err(BridgeError::UnknownHandle));
    assert_eq!(t.get(a), Err(BridgeError::UnknownHandle));
    let c = t.insert(30);
    assert_ne!(c, a);
    assert_ne!(c, b);
    assert_eq!(c, 3);
    assert_eq!(t.get(b), Ok(&20));
    assert_eq!(t.get(c), Ok(&30));
}

#[test]
fn a_handle_of_another_table_names_nothing_here() {
    let mut one: HandleTable<u32> = HandleTable::new();
    let two: HandleTable<u32> = HandleTable::new();
    let h = one.insert(5);
    assert_eq!(two.get(h), Err(BridgeError::UnknownHandle));
    assert_eq!(one.get(h), Ok(&5));
}

#[test]
fn zero_is_never_a_handle() {
    let mut t: HandleTable<u32> = HandleTable::new();
    for n in 0..50u32 {
        assert_ne!(t.insert(n), 0);
    }
    assert_eq!(t.get(0), Err(BridgeError::UnknownHandle));
    assert_eq!(t.remove(0), Err(BridgeError::UnknownHandle));
}
