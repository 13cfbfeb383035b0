use server_h264::dispatch::{FrameQueue, FRAME_QUEUE_CAPACITY};
use server_h264::RgbFrame;

fn frame(tag: u8) -> RgbFrame {
    RgbFrame { width: 1, height: 1, data: vec![tag, tag, tag, 255] }
}

#[test]
fn full_queue_drops_newest_and_keeps_order() {
    let mut q = FrameQueue::new();
    for tag in 0..FRAME_QUEUE_CAPACITY as u8 {
        assert!(q.offer(frame(tag)));
    }
    assert_eq!(q.len(), 4);
    // The queue is full: the fifth frame is dropped without blocking.
    assert!(!q.offer(frame(99)));
    assert_eq!(q.len(), 4);
    // The frames queued earlier come out unchanged, oldest first.
    for tag in 0..FRAME_QUEUE_CAPACITY as u8 {
        let f = q.take().expect("a queued frame");
        assert_eq!(f.data[0], tag);
    }
    assert!(q.take().is_none());
}

#[test]
fn take_from_empty_is_none() {
    let mut q = FrameQueue::new();
    assert!(q.take().is_none());
    assert_eq!(q.len(), 0);
}

#[test]
fn slot_freed_by_take_accepts_again() {
    let mut q = FrameQueue::new();
    for tag in 0..4u8 {
        assert!(q.offer(frame(tag)));
    }
    assert!(!q.offer(frame(4)));
    let first = q.take().unwrap();
    assert_eq!(first.data[0], 0);
    assert!(q.offer(frame(5)));
    assert_eq!(q.len(), 4);
}
