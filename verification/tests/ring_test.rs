use tock_virtio::virtio::queues::ring::AvailableRingHandler;

#[test]
fn ring_starts_empty() {
    let ring = AvailableRingHandler::new(2);
    assert!(ring.is_empty());
    assert!(!ring.is_full());
    assert_eq!(ring.next_index(), 0);
}

#[test]
fn ring_hands_out_positions_in_order_and_wraps() {
    let mut ring = AvailableRingHandler::new(3);
    assert_eq!(ring.insert(), Some(0));
    assert_eq!(ring.insert(), Some(1));
    assert_eq!(ring.pop(), Some(0));
    assert_eq!(ring.next_index(), 1);
    assert_eq!(ring.insert(), Some(2));
    assert_eq!(ring.insert(), Some(0));
    assert!(ring.is_full());
    assert_eq!(ring.insert(), None);
    assert_eq!(ring.pop(), Some(1));
    assert_eq!(ring.pop(), Some(2));
    assert_eq!(ring.pop(), Some(0));
    assert_eq!(ring.pop(), None);
    assert!(ring.is_empty());
}

#[test]
fn ring_of_one_position_alternates() {
    let mut ring = AvailableRingHandler::new(1);
    for _ in 0..3 {
        assert_eq!(ring.insert(), Some(0));
        assert!(ring.is_full());
        assert!(!ring.is_empty());
        assert_eq!(ring.insert(), None);
        assert_eq!(ring.pop(), Some(0));
        assert!(ring.is_empty());
        assert!(!ring.is_full());
    }
}

#[test]
fn ring_without_positions_is_empty_and_not_full() {
    let mut ring = AvailableRingHandler::new(0);
    assert!(ring.is_empty());
    assert!(!ring.is_full());
    assert_eq!(ring.pop(), None);
}

#[test]
fn ring_of_every_index_wraps_at_the_end() {
    let mut ring = AvailableRingHandler::new(65536);
    for expected in 0..65536u32 {
        assert_eq!(ring.insert(), Some(expected as u16));
    }
    assert!(ring.is_full());
    assert_eq!(ring.pop(), Some(0));
    assert_eq!(ring.insert(), Some(0));
    assert_eq!(ring.next_index(), 1);
}

#[test]
fn ring_reset_forgets_and_resizes() {
    let mut ring = AvailableRingHandler::new(2);
    ring.insert();
    ring.insert();
    ring.pop();
    ring.reset(1);
    assert!(ring.is_empty());
    assert_eq!(ring.next_index(), 0);
    assert_eq!(ring.insert(), Some(0));
    assert!(ring.is_full());
}
