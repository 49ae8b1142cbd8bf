use kernel_core::task::keyboard::{AddOutcome, Poll, ScancodeStream, QUEUE_CAPACITY};

#[test]
fn bytes_leave_the_queue_in_the_order_they_came() {
    let mut stream = ScancodeStream::new();
    assert!(stream.initialized());
    assert_eq!(stream.poll_next(), Poll::Pending);
    assert_eq!(stream.add_scancode(0x1e), AddOutcome::Queued);
    assert_eq!(stream.add_scancode(0x9e), AddOutcome::Queued);
    assert_eq!(stream.add_scancode(0x30), AddOutcome::Queued);
    assert_eq!(stream.poll_next(), Poll::Ready(0x1e));
    assert_eq!(stream.poll_next(), Poll::Ready(0x9e));
    assert_eq!(stream.add_scancode(0x2e), AddOutcome::Queued);
    assert_eq!(stream.poll_next(), Poll::Ready(0x30));
    assert_eq!(stream.poll_next(), Poll::Ready(0x2e));
    assert_eq!(stream.poll_next(), Poll::Pending);
}

#[test]
fn full_queue_drops_the_byte() {
    let mut stream = ScancodeStream::new();
    for byte in 0..QUEUE_CAPACITY {
        assert_eq!(stream.add_scancode(byte as u8), AddOutcome::Queued);
    }
    assert_eq!(stream.add_scancode(0xff), AddOutcome::Full);
    assert_eq!(stream.poll_next(), Poll::Ready(0));
    assert_eq!(stream.add_scancode(0xfe), AddOutcome::Queued);
    for byte in 1..QUEUE_CAPACITY {
        assert_eq!(stream.poll_next(), Poll::Ready(byte as u8));
    }
    assert_eq!(stream.poll_next(), Poll::Ready(0xfe));
    assert_eq!(stream.poll_next(), Poll::Pending);
}

#[test]
fn byte_for_a_queue_that_is_not_made_is_dropped() {
    let mut stream = ScancodeStream::uninit();
    assert!(!stream.initialized());
    assert_eq!(stream.add_scancode(1), AddOutcome::Uninitialized);
    assert!(!stream.initialized());
}
