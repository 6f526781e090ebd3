use slotgate::slot_pool::FreeSlots;

#[test]
fn a_new_pool_hands_out_its_slots_lowest_first() {
    let mut pool = FreeSlots::new(3);
    assert_eq!(pool.slot_count(), 3);
    assert_eq!(pool.take(), Some(0));
    assert_eq!(pool.take(), Some(1));
    assert_eq!(pool.take(), Some(2));
    assert_eq!(pool.take(), None);
}

#[test]
fn two_takes_without_a_give_back_get_different_slots() {
    let mut pool = FreeSlots::new(2);
    let first = pool.take().expect("a slot");
    let second = pool.take().expect("a slot");
    assert_ne!(first, second);
}

#[test]
fn a_given_back_slot_is_the_one_that_returns() {
    let mut pool = FreeSlots::new(3);
    let first = pool.take().expect("a slot");
    let second = pool.take().expect("a slot");
    assert!(!pool.is_free(first));
    pool.give_back(second);
    assert!(pool.is_free(second));
    assert!(!pool.is_free(first));
    assert_eq!(pool.take(), Some(2));
    assert_eq!(pool.take(), Some(second));
    assert_eq!(pool.take(), None);
}

#[test]
fn slots_given_back_out_of_order_each_return() {
    let mut pool = FreeSlots::new(3);
    let a = pool.take().expect("a slot");
    let b = pool.take().expect("a slot");
    let c = pool.take().expect("a slot");
    pool.give_back(c);
    pool.give_back(a);
    pool.give_back(b);
    assert_eq!(pool.take(), Some(c));
    assert_eq!(pool.take(), Some(a));
    assert_eq!(pool.take(), Some(b));
}

#[test]
fn a_pool_of_no_slots_hands_out_none() {
    let mut pool = FreeSlots::new(0);
    assert_eq!(pool.take(), None);
    assert!(!pool.is_free(0));
}
