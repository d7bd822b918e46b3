use lipsync::ring::RingBuffer;

#[test]
fn new_ring_is_filled_and_has_its_capacity() {
    let ring = RingBuffer::new(5, 0.25_f64);
    assert_eq!(ring.capacity(), 5);
    assert_eq!(ring.index(), 0);
    assert_eq!(ring.snapshot(), vec![0.25; 5]);
}

#[test]
fn capture_keeps_older_samples_in_front() {
    let mut ring = RingBuffer::new(4, 0.0_f64);
    ring.capture(&[1.0, 2.0, 3.0], 1);
    assert_eq!(ring.snapshot(), vec![0.0, 1.0, 2.0, 3.0]);
    assert_eq!(ring.index(), 3);
    assert_eq!(ring.capacity(), 4);
}

#[test]
fn capture_wraps_and_forgets_the_oldest() {
    let mut ring = RingBuffer::new(4, 0.0_f64);
    ring.capture(&[1.0, 2.0, 3.0, 4.0, 5.0, 6.0], 1);
    assert_eq!(ring.snapshot(), vec![3.0, 4.0, 5.0, 6.0]);
    assert_eq!(ring.index(), 2);
}

#[test]
fn capture_takes_every_stride_th_sample_from_the_first() {
    let mut ring = RingBuffer::new(3, 0.0_f64);
    ring.capture(&[1.0, 10.0, 2.0, 20.0, 3.0, 30.0], 2);
    assert_eq!(ring.snapshot(), vec![1.0, 2.0, 3.0]);

    let mut wide = RingBuffer::new(3, 0.0_f64);
    wide.capture(&[1.0, 10.0, 2.0, 20.0, 3.0, 30.0], 4);
    assert_eq!(wide.snapshot(), vec![0.0, 1.0, 3.0]);
    assert_eq!(wide.index(), 2);
}

#[test]
fn capture_with_a_stride_beyond_the_input_takes_the_first_sample() {
    let mut ring = RingBuffer::new(2, 0.0_f64);
    ring.capture(&[7.0, 8.0, 9.0], usize::MAX);
    assert_eq!(ring.snapshot(), vec![0.0, 7.0]);
    assert_eq!(ring.index(), 1);
}

#[test]
fn capture_of_nothing_changes_nothing() {
    let mut ring = RingBuffer::new(3, 0.0_f64);
    ring.capture(&[1.0, 2.0], 1);
    ring.capture(&[], 1);
    assert_eq!(ring.snapshot(), vec![0.0, 1.0, 2.0]);
    assert_eq!(ring.index(), 2);
}

#[test]
fn ring_without_capacity_keeps_nothing() {
    let mut ring = RingBuffer::new(0, 0.0_f64);
    ring.capture(&[1.0, 2.0, 3.0], 1);
    assert_eq!(ring.capacity(), 0);
    assert_eq!(ring.index(), 0);
    assert!(ring.snapshot().is_empty());
}

#[test]
fn capture_in_two_parts_is_capture_in_one() {
    let mut parts = RingBuffer::new(5, 0_i32);
    parts.capture(&[1, 2, 3], 1);
    parts.capture(&[4, 5, 6, 7], 1);
    let mut whole = RingBuffer::new(5, 0_i32);
    whole.capture(&[1, 2, 3, 4, 5, 6, 7], 1);
    assert_eq!(parts.snapshot(), whole.snapshot());
    assert_eq!(parts.snapshot(), vec![3, 4, 5, 6, 7]);
    assert_eq!(parts.index(), whole.index());
}

#[test]
fn ring_of_one_slot_holds_the_last_sample() {
    let mut ring = RingBuffer::new(1, 0_i32);
    ring.capture(&[4, 5, 6], 1);
    assert_eq!(ring.snapshot(), vec![6]);
    assert_eq!(ring.index(), 0);
}
