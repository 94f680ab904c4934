use sob::Sob;

fn sample() -> Sob {
    let mut s = Sob::new();
    for v in [0usize, 3, 63, 64, 65, 200] {
        assert!(s.insert(v));
    }
    s
}

#[test]
fn insert_is_idempotent() {
    for v in [0usize, 1, 63, 64, 127, 128, 1000] {
        let mut s = sample();
        let before = s.contains(&v);
        assert_eq!(s.insert(v), !before);
        let len = s.len();
        let cap = s.capacity();
        assert_eq!(s.insert(v), false);
        assert!(s.contains(&v));
        assert_eq!(s.len(), len);
        assert_eq!(s.capacity(), cap);
    }
}

#[test]
fn remove_undoes_insert() {
    for v in [1usize, 2, 62, 66, 199, 201, 5000] {
        let mut s = sample();
        let len = s.len();
        assert_eq!(s.insert(v), true);
        assert_eq!(s.len(), len + 1);
        assert_eq!(s.remove(&v), true);
        assert_eq!(s.contains(&v), false);
        assert_eq!(s.len(), len);
        for w in [0usize, 3, 63, 64, 65, 200] {
            assert!(s.contains(&w));
        }
    }
}

#[test]
fn insert_of_a_member_changes_nothing() {
    let mut s = sample();
    assert_eq!(s.insert(64), false);
    assert_eq!(s.len(), 6);
    assert_eq!(s.capacity(), 201);
}

#[test]
fn len_counts_distinct_members() {
    let mut s = Sob::new();
    assert_eq!(s.len(), 0);
    s.insert(7);
    s.insert(7);
    s.insert(2);
    assert_eq!(s.len(), 2);
    s.insert(300);
    assert_eq!(s.len(), 3);
    s.remove(&7);
    assert_eq!(s.len(), 2);
    s.remove(&7);
    assert_eq!(s.len(), 2);
    s.remove(&9999);
    assert_eq!(s.len(), 2);
    s.clear();
    assert_eq!(s.len(), 0);
    s.insert(300);
    s.insert(1);
    s.insert(300);
    assert_eq!(s.len(), 2);
    assert_eq!(s.is_empty(), false);
}

#[test]
fn len_of_a_full_block() {
    let mut s = Sob::new();
    for v in 0..130usize {
        assert!(s.insert(v));
    }
    assert_eq!(s.len(), 130);
    assert_eq!(s.capacity(), 130);
    for v in (0..130usize).step_by(2) {
        assert!(s.remove(&v));
    }
    assert_eq!(s.len(), 65);
}

#[test]
fn reserve_len_never_shrinks() {
    let mut s = sample();
    assert_eq!(s.capacity(), 201);
    s.reserve_len(0);
    assert_eq!(s.capacity(), 201);
    s.reserve_len(100);
    assert_eq!(s.capacity(), 201);
    s.reserve_len(201);
    assert_eq!(s.capacity(), 201);
    assert_eq!(s.len(), 6);
    s.reserve_len(202);
    assert_eq!(s.capacity(), 202);
    s.reserve_len(1000);
    assert_eq!(s.capacity(), 1000);
    assert_eq!(s.len(), 6);
    for w in [0usize, 3, 63, 64, 65, 200] {
        assert!(s.contains(&w));
    }
    assert!(!s.contains(&201));
    assert!(!s.contains(&999));
}

#[test]
fn reserve_len_grows_by_the_shortfall() {
    let mut s = Sob::with_capacity(5);
    s.insert(4);
    s.reserve_len(7);
    assert_eq!(s.capacity(), 7);
    assert!(s.contains(&4));
    assert_eq!(s.len(), 1);
}

#[test]
fn shrink_keeps_members() {
    let mut s = sample();
    s.reserve_len(4096);
    s.remove(&200);
    assert_eq!(s.capacity(), 4096);
    s.shrink_to_fit();
    assert_eq!(s.capacity(), 66);
    assert_eq!(s.len(), 5);
    for w in [0usize, 3, 63, 64, 65] {
        assert!(s.contains(&w));
    }
    for w in [1usize, 2, 62, 66, 200, 4095] {
        assert!(!s.contains(&w));
    }
    s.shrink_to_fit();
    assert_eq!(s.capacity(), 66);
}

#[test]
fn shrink_of_an_empty_set_leaves_no_capacity() {
    let mut s = Sob::with_capacity(300);
    s.shrink_to_fit();
    assert_eq!(s.capacity(), 0);
    assert!(s.is_empty());
    let mut t = Sob::new();
    t.shrink_to_fit();
    assert_eq!(t.capacity(), 0);
}

#[test]
fn shrink_to_a_single_low_member() {
    let mut s = Sob::with_capacity(129);
    s.insert(0);
    s.shrink_to_fit();
    assert_eq!(s.capacity(), 1);
    assert!(s.contains(&0));
}

#[test]
fn contains_beyond_capacity_is_false() {
    let s = sample();
    assert_eq!(s.capacity(), 201);
    assert!(!s.contains(&201));
    assert!(!s.contains(&202));
    assert!(!s.contains(&usize::MAX));
    let e = Sob::new();
    assert!(!e.contains(&0));
    assert!(!e.contains(&usize::MAX));
}

#[test]
fn remove_beyond_capacity_is_false() {
    let mut s = sample();
    assert_eq!(s.remove(&201), false);
    assert_eq!(s.remove(&usize::MAX), false);
    assert_eq!(s.capacity(), 201);
    assert_eq!(s.len(), 6);
}

#[test]
fn remove_never_shrinks() {
    let mut s = sample();
    assert!(s.remove(&200));
    assert_eq!(s.capacity(), 201);
    assert!(s.remove(&0));
    assert_eq!(s.capacity(), 201);
}

#[test]
fn insert_at_and_below_capacity() {
    let mut s = Sob::with_capacity(64);
    assert!(s.insert(63));
    assert_eq!(s.capacity(), 64);
    assert!(s.insert(64));
    assert_eq!(s.capacity(), 65);
    assert!(s.insert(10));
    assert_eq!(s.capacity(), 65);
    assert_eq!(s.len(), 3);
}

#[test]
fn clear_keeps_capacity() {
    let mut s = sample();
    s.clear();
    assert_eq!(s.capacity(), 201);
    assert_eq!(s.len(), 0);
    for w in [0usize, 3, 63, 64, 65, 200] {
        assert!(!s.contains(&w));
    }
    assert!(s.insert(3));
    assert_eq!(s.len(), 1);
}

#[test]
fn get_reads_one_bit() {
    assert_eq!(sample().get(3), Some(true));
    assert_eq!(sample().get(4), Some(false));
    assert_eq!(sample().get(200), Some(true));
    assert_eq!(sample().get(201), None);
    assert_eq!(sample().get(usize::MAX), None);
    assert_eq!(Sob::new().get(0), None);
    assert_eq!(Sob::with_capacity(1).get(0), Some(false));
}
