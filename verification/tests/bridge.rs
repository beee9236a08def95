use futures_util::task::noop_waker;
use smol_os::keyboard::{PollResult, ScancodeStream, QUEUE_CAPACITY};

#[test]
fn scancodes_come_out_in_push_order() {
    let waker = noop_waker();
    let mut s = ScancodeStream::new();
    assert!(s.add_scancode(11));
    assert!(s.add_scancode(22));
    assert!(s.add_scancode(33));
    assert_eq!(s.poll_next(&waker), PollResult::Ready(11));
    assert_eq!(s.poll_next(&waker), PollResult::Ready(22));
    assert_eq!(s.poll_next(&waker), PollResult::Ready(33));
    assert_eq!(s.poll_next(&waker), PollResult::Pending);
}

#[test]
fn overflow_drops_the_latest_and_signals_once_per_rejection() {
    let waker = noop_waker();
    let mut s = ScancodeStream::new();
    let mut rejections = 0;
    for i in 0..(QUEUE_CAPACITY + 1) {
        if !s.add_scancode((i % 251) as u8) {
            rejections += 1;
        }
    }
    // Exactly one scancode beyond capacity was offered, and exactly one
    // "queue full" signal came back.
    assert_eq!(rejections, 1);
    // Draining yields exactly the capacity, the earliest pushed first.
    let mut drained = Vec::new();
    loop {
        match s.poll_next(&waker) {
            PollResult::Ready(code) => drained.push(code),
            PollResult::Pending => break,
        }
    }
    assert_eq!(drained.len(), QUEUE_CAPACITY);
    for (i, code) in drained.iter().enumerate() {
        assert_eq!(*code, (i % 251) as u8);
    }
}

#[test]
fn empty_poll_suspends_and_push_delivers_on_the_next_poll() {
    let waker = noop_waker();
    let mut s = ScancodeStream::new();
    // Poll-then-push: the poll suspends, the push signals the registered
    // waker, and the next poll returns that very scancode.
    assert_eq!(s.poll_next(&waker), PollResult::Pending);
    assert!(s.add_scancode(42));
    assert_eq!(s.poll_next(&waker), PollResult::Ready(42));
    // Push-then-poll: no suspension at all.
    assert!(s.add_scancode(7));
    assert_eq!(s.poll_next(&waker), PollResult::Ready(7));
    assert_eq!(s.poll_next(&waker), PollResult::Pending);
}

#[test]
fn default_stream_starts_empty() {
    let waker = noop_waker();
    let mut s = ScancodeStream::default();
    assert_eq!(s.poll_next(&waker), PollResult::Pending);
}
