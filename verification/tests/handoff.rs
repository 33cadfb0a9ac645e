use audioviz::handoff::RingHandoff;

#[test]
fn fifo_order_is_kept() {
    let mut h: RingHandoff<i64> = RingHandoff::new(8);
    assert!(h.try_push(10));
    assert!(h.try_push(20));
    assert!(h.try_push(30));
    assert_eq!(h.try_pop(), Some(10));
    assert_eq!(h.try_pop(), Some(20));
    assert_eq!(h.try_pop(), Some(30));
    assert_eq!(h.try_pop(), None);
}

#[test]
fn full_handoff_drops_new_values() {
    let mut h: RingHandoff<i64> = RingHandoff::new(2);
    assert!(h.try_push(1));
    assert!(h.try_push(2));
    assert!(!h.try_push(3));
    assert_eq!(h.len(), 2);
    assert_eq!(h.try_pop(), Some(1));
    assert_eq!(h.try_pop(), Some(2));
    assert_eq!(h.try_pop(), None);
}

#[test]
fn empty_handoff_pops_nothing() {
    let mut h: RingHandoff<i64> = RingHandoff::new(4);
    assert_eq!(h.capacity(), 4);
    assert_eq!(h.len(), 0);
    assert_eq!(h.try_pop(), None);
    assert_eq!(h.len(), 0);
}

#[test]
fn push_all_adds_the_fitting_prefix() {
    let mut h: RingHandoff<i64> = RingHandoff::new(3);
    assert!(h.try_push(4));
    let vals: Vec<i64> = vec![5, 6, 7, 8];
    let pushed = h.push_all(&vals);
    assert_eq!(pushed, 2);
    assert_eq!(h.try_pop(), Some(4));
    assert_eq!(h.try_pop(), Some(5));
    assert_eq!(h.try_pop(), Some(6));
    assert_eq!(h.try_pop(), None);
}
