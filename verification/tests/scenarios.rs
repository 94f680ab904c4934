use sob::Sob;

#[test]
fn insert_into_new_set() {
    let mut s = Sob::new();
    assert_eq!(s.capacity(), 0);
    assert!(s.insert(5));
    assert!(s.contains(&5));
    assert!(s.capacity() >= 6);
    assert_eq!(s.capacity(), 6);
    assert_eq!(s.len(), 1);
}

#[test]
fn with_capacity_is_empty() {
    let s = Sob::with_capacity(100);
    assert!(s.capacity() >= 100);
    assert_eq!(s.capacity(), 100);
    assert!(s.is_empty());
    assert_eq!(s.len(), 0);
}

#[test]
fn insert_then_remove_leaves_empty() {
    let mut s = Sob::new();
    assert!(s.insert(10));
    assert!(s.remove(&10));
    assert!(s.is_empty());
    assert!(!s.contains(&10));
}

#[test]
fn two_inserts_then_clear() {
    let mut s = Sob::new();
    s.insert(3);
    s.insert(0);
    assert_eq!(s.len(), 2);
    s.clear();
    assert_eq!(s.len(), 0);
    assert!(s.is_empty());
}

#[test]
fn shrink_after_large_insert_and_remove() {
    let mut s = Sob::new();
    assert!(s.insert(32183231));
    assert_eq!(s.capacity(), 32183232);
    assert!(s.remove(&32183231));
    assert_eq!(s.capacity(), 32183232);
    s.shrink_to_fit();
    assert_eq!(s.capacity(), 0);
    assert!(s.is_empty());
}

#[test]
fn new_is_empty() {
    let s = Sob::new();
    assert_eq!(s.is_empty(), true);
    assert_eq!(s.len(), 0);
    assert_eq!(s.capacity(), 0);
}

#[test]
fn reserve_len_on_new_set() {
    let mut s = Sob::new();
    s.reserve_len(10);
    assert_eq!(s.capacity(), 10);
    assert!(s.is_empty());
}

#[test]
fn insert_twice_returns_true_then_false() {
    let mut s = Sob::new();
    assert_eq!(s.insert(10), true);
    assert_eq!(s.insert(10), false);
    assert!(s.contains(&10));
    assert_eq!(s.len(), 1);
    assert_eq!(s.capacity(), 11);
}

#[test]
fn remove_twice_returns_true_then_false() {
    let mut s = Sob::new();
    s.insert(10);
    assert_eq!(s.remove(&10), true);
    assert_eq!(s.remove(&10), false);
    assert_eq!(s.capacity(), 11);
}

#[test]
fn clear_empties_the_set() {
    let mut s = Sob::new();
    s.insert(10);
    assert_eq!(s.is_empty(), false);
    s.clear();
    assert_eq!(s.is_empty(), true);
    assert!(!s.contains(&10));
}

#[test]
fn contains_after_insert() {
    let mut s = Sob::new();
    s.insert(10);
    assert_eq!(s.contains(&10), true);
    assert_eq!(s.contains(&9), false);
    assert_eq!(s.contains(&11), false);
}
