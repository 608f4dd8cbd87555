use canary::can::{Frame, FrameId};
use canary::queue::{FrameQueue, RX_CAPACITY, TX_CAPACITY};
use canary::tasks::sender_step;

fn frame(id: u16) -> Frame {
    Frame::new(FrameId::Standard(id), vec![id as u8]).unwrap()
}

#[test]
fn tx_queue_takes_eight_then_refuses() {
    let mut q = FrameQueue::tx();
    assert_eq!(q.capacity(), TX_CAPACITY);
    for id in 1..=8u16 {
        assert!(q.try_push(frame(id)).is_ok());
    }
    assert_eq!(q.len(), 8);
    assert!(!q.ready());
    let rejected = q.try_push(frame(9)).unwrap_err();
    assert_eq!(rejected, frame(9));
    assert_eq!(q.len(), 8);
    for id in 1..=8u16 {
        assert_eq!(q.pop(), Some(frame(id)));
    }
    assert_eq!(q.pop(), None);
}

#[test]
fn pops_follow_push_order_when_interleaved() {
    let mut q = FrameQueue::tx();
    q.try_push(frame(1)).unwrap();
    q.try_push(frame(2)).unwrap();
    assert_eq!(q.pop(), Some(frame(1)));
    q.try_push(frame(3)).unwrap();
    assert_eq!(q.pop(), Some(frame(2)));
    assert_eq!(q.pop(), Some(frame(3)));
    assert!(q.is_empty());
}

#[test]
fn peek_leaves_the_front_in_place() {
    let mut q = FrameQueue::rx();
    assert!(q.peek().is_none());
    q.try_push(frame(5)).unwrap();
    q.try_push(frame(6)).unwrap();
    assert_eq!(q.peek(), Some(&frame(5)));
    assert_eq!(q.len(), 2);
    assert_eq!(q.pop(), Some(frame(5)));
    assert_eq!(q.peek(), Some(&frame(6)));
}

#[test]
fn rx_queue_holds_sixty_four() {
    let mut q = FrameQueue::rx();
    assert_eq!(q.capacity(), RX_CAPACITY);
    for id in 0..64u16 {
        assert!(q.try_push(frame(id)).is_ok());
    }
    assert!(q.try_push(frame(64)).is_err());
    assert_eq!(q.pop(), Some(frame(0)));
    assert!(q.ready());
}

#[test]
fn custom_capacity_queue() {
    let mut q = FrameQueue::with_capacity(1);
    assert!(q.try_push(frame(1)).is_ok());
    assert!(q.try_push(frame(2)).is_err());
    assert_eq!(q.pop(), Some(frame(1)));
    assert!(q.try_push(frame(2)).is_ok());
}

#[test]
fn sender_step_keeps_unsent_frames() {
    let mut q = FrameQueue::tx();
    q.try_push(frame(1)).unwrap();
    q.try_push(frame(2)).unwrap();
    assert!(!sender_step(&mut q, false));
    assert_eq!(q.len(), 2);
    assert!(sender_step(&mut q, true));
    assert_eq!(q.peek(), Some(&frame(2)));
    assert!(!sender_step(&mut q, true));
    assert!(q.is_empty());
}
