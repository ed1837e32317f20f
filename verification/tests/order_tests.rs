use shmempipe::UnparkInOrder;

// The token stands for the calling thread throughout a test, the way the
// real queue records the current thread with each ticket.
const SELF: u64 = 7;

#[test]
fn unparks_in_order() {
    let mut uio = UnparkInOrder::default();
    uio.store_current(0, SELF);
    assert!(uio.current_is_front(0, SELF));
    uio.pop_front(0, SELF);
    // there is no front() right now
    assert_eq!(uio.unpark_front(1), None);

    uio.store_current(2, SELF);
    uio.store_current(1, SELF);
    assert!(uio.current_is_front(1, SELF));
    uio.pop_front(1, SELF);
    // unparking 2 now finds its entry at the front
    assert_eq!(uio.unpark_front(2), Some(SELF));
    uio.store_current(3, SELF);
}

#[test]
fn heap_ordering() {
    const T1: u64 = 11;
    const T2: u64 = 22;

    let mut q = UnparkInOrder::new();
    q.store_current(2, T2);
    q.store_current(1, T1);

    // the root is the least ticket regardless of arrival order
    assert!(q.current_is_front(1, T1));
    assert_eq!(q.unpark_front(1), Some(T1));
    // waking ticket 2 is a no-op until (1, T1) is popped
    assert_eq!(q.unpark_front(2), None);

    q.pop_front(1, T1);
    assert_eq!(q.unpark_front(2), Some(T2));
}

#[test]
fn front_mismatch_is_not_current() {
    let mut q = UnparkInOrder::new();
    assert!(!q.current_is_front(0, SELF));
    q.store_current(5, SELF);
    // wrong ticket, and wrong thread under the right ticket
    assert!(!q.current_is_front(4, SELF));
    assert!(!q.current_is_front(5, SELF + 1));
    assert_eq!(q.unpark_front(4), None);
}
