use shmempipe::Ring;

#[test]
fn fifo_across_wrap() {
    let mut r = Ring::new(8);
    assert!(r.is_empty());
    assert_eq!(r.capacity(), 8);

    assert_eq!(r.push_slice(&[1, 2, 3, 4, 5, 6]), 6);
    assert_eq!(r.len(), 6);

    let mut out = vec![0u8; 3];
    assert_eq!(r.pop_slice(&mut out), 3);
    assert_eq!(out, vec![1, 2, 3]);

    // wraps around the end of the storage
    assert_eq!(r.push_slice(&[7, 8, 9, 10, 11]), 5);
    assert_eq!(r.len(), 8);
    assert_eq!(r.free(), 0);

    // full: nothing more fits
    assert_eq!(r.push_slice(&[99]), 0);

    let mut out = vec![0u8; 8];
    assert_eq!(r.pop_slice(&mut out), 8);
    assert_eq!(out, vec![4, 5, 6, 7, 8, 9, 10, 11]);
    assert!(r.is_empty());
}

#[test]
fn partial_push_and_pop() {
    let mut r = Ring::new(4);
    // only the prefix that fits is taken
    assert_eq!(r.push_slice(&[1, 2, 3, 4, 5, 6]), 4);
    assert_eq!(r.push_slice(&[7]), 0);

    // a pop against a larger buffer takes what is there
    let mut out = vec![0u8; 6];
    assert_eq!(r.pop_slice(&mut out), 4);
    assert_eq!(out, vec![1, 2, 3, 4, 0, 0]);
    assert_eq!(r.pop_slice(&mut out), 0);
}

#[test]
fn push_all_streams_everything() {
    let mut r = Ring::new(16);
    r.push_all(&[1, 2, 3]);
    r.push_all(&[4, 5]);
    let mut out = vec![0u8; 5];
    assert_eq!(r.pop_slice(&mut out), 5);
    assert_eq!(out, vec![1, 2, 3, 4, 5]);
}
