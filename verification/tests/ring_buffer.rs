use embassy::ring_buffer::RingBuffer;

#[test]
fn bytes_leave_in_the_order_in_which_they_came() {
    let mut ring = RingBuffer::new(vec![0; 4]);
    assert!(ring.is_empty());
    assert_eq!(ring.push_len(), 4);
    assert_eq!(ring.push_slice(&[1, 2, 3]), 3);
    assert_eq!(ring.push_len(), 1);
    assert_eq!(ring.pop_buf(), &[1, 2, 3]);
    ring.pop(2);
    assert_eq!(ring.push_slice(&[4, 5]), 1);
    assert_eq!(ring.push_len(), 2);
    assert_eq!(ring.push_slice(&[5, 6, 7]), 2);
    assert!(ring.is_full());
    assert_eq!(ring.push_len(), 0);
    assert_eq!(ring.pop_buf(), &[3, 4]);
    ring.pop(2);
    assert!(!ring.is_full());
    assert_eq!(ring.pop_buf(), &[5, 6]);
    ring.pop(2);
    assert!(ring.is_empty());
    assert_eq!(ring.pop_buf(), &[] as &[u8]);
}

#[test]
fn bytes_are_written_in_place() {
    let mut ring = RingBuffer::new(vec![0; 3]);
    ring.write(0, 9);
    ring.write(1, 8);
    assert!(ring.is_empty());
    ring.push(1);
    assert_eq!(ring.pop_buf(), &[9]);
    ring.push(1);
    assert_eq!(ring.pop_buf(), &[9, 8]);
    ring.push(0);
    ring.pop(0);
    assert_eq!(ring.pop_buf(), &[9, 8]);
}

#[test]
fn a_ring_without_places() {
    let mut ring = RingBuffer::new(Vec::new());
    assert!(ring.is_empty());
    assert!(!ring.is_full());
    assert_eq!(ring.push_len(), 0);
    assert_eq!(ring.push_slice(&[1]), 0);
    assert_eq!(ring.pop_buf(), &[] as &[u8]);
}
