//! The interrupt-to-task event bridge: a bounded scancode queue filled from
//! interrupt context and drained by a polling consumer, with a wake-up slot
//! that lets the consumer sleep until new input exists.
//!
//! The queue is a `crossbeam_queue::ArrayQueue` and the wake-up slot a
//! `futures_util::task::AtomicWaker`; both stand behind trusted declarations
//! whose contracts state what their sources show.  All decisions around them
//! (drop-on-full, the register-then-recheck poll protocol, when to signal the
//! waker) are verified here.

use vstd::prelude::*;
use crossbeam_queue::ArrayQueue;
use futures_util::task::AtomicWaker;
use core::task::Waker;

verus! {

/// How many scancodes the queue can hold before new ones are dropped.
pub const QUEUE_CAPACITY: usize = 100;

#[verifier::external_type_specification]
#[verifier::external_body]
#[verifier::reject_recursive_types(T)]
pub struct ExArrayQueue<T>(ArrayQueue<T>);

#[verifier::external_type_specification]
#[verifier::external_body]
pub struct ExAtomicWaker(AtomicWaker);

#[verifier::external_type_specification]
#[verifier::external_body]
pub struct ExWaker(Waker);

/// The scancodes currently queued, head first.
pub uninterp spec fn queue_contents(q: ArrayQueue<u8>) -> Seq<u8>;

/// The fixed capacity the queue was created with.
pub uninterp spec fn queue_capacity(q: ArrayQueue<u8>) -> nat;

/// Relies on crossbeam_queue::ArrayQueue::new: creates an empty queue with
/// the given capacity (a capacity of zero would panic).
#[verifier::external_body]
fn queue_new(cap: usize) -> (q: ArrayQueue<u8>)
    requires
        cap >= 1,
    ensures
        queue_contents(q) == Seq::<u8>::empty(),
        queue_capacity(q) == cap,
{
    ArrayQueue::new(cap)
}

/// Relies on crossbeam_queue::ArrayQueue::push: appends the value at the
/// tail and returns `Ok` if the queue is below capacity, otherwise rejects
/// it unchanged.
#[verifier::external_body]
fn queue_push(q: &mut ArrayQueue<u8>, value: u8) -> (accepted: bool)
    ensures
        queue_capacity(*final(q)) == queue_capacity(*old(q)),
        accepted == (queue_contents(*old(q)).len() < queue_capacity(*old(q))),
        accepted ==> queue_contents(*final(q)) == queue_contents(*old(q)).push(value),
        !accepted ==> queue_contents(*final(q)) == queue_contents(*old(q)),
{
    q.push(value).is_ok()
}

/// Relies on crossbeam_queue::ArrayQueue::pop: removes and returns the head
/// element if one exists.
#[verifier::external_body]
fn queue_pop(q: &mut ArrayQueue<u8>) -> (r: Option<u8>)
    ensures
        queue_capacity(*final(q)) == queue_capacity(*old(q)),
        queue_contents(*old(q)).len() == 0 ==> r is None && queue_contents(*final(q))
            == queue_contents(*old(q)),
        queue_contents(*old(q)).len() > 0 ==> r == Some(queue_contents(*old(q))[0])
            && queue_contents(*final(q)) == queue_contents(*old(q)).drop_first(),
{
    q.pop().ok()
}

/// Relies on futures_core's AtomicWaker::new: an empty wake-up slot.
#[verifier::external_body]
fn waker_new() -> AtomicWaker {
    AtomicWaker::new()
}

/// Relies on AtomicWaker::register: stores the waker in the slot,
/// superseding any previously registered one.
#[verifier::external_body]
fn waker_register(slot: &AtomicWaker, waker: &Waker) {
    slot.register(waker)
}

/// Relies on AtomicWaker::wake: takes the stored waker out of the slot, if
/// any, and wakes it; with no waker registered this is a no-op.
#[verifier::external_body]
fn waker_wake(slot: &AtomicWaker) {
    slot.wake()
}

/// Relies on AtomicWaker::take: removes the stored waker, if any, without
/// waking it.
#[verifier::external_body]
fn waker_take(slot: &AtomicWaker) {
    let _ = slot.take();
}

/// Whether a queue with the given contents accepts one more scancode.
pub open spec fn spec_accepts(queue: Seq<u8>) -> bool {
    queue.len() < QUEUE_CAPACITY
}

/// Contents after offering one scancode: appended at the tail when the queue
/// has room, dropped otherwise.
pub open spec fn spec_offer(queue: Seq<u8>, code: u8) -> Seq<u8> {
    if spec_accepts(queue) {
        queue.push(code)
    } else {
        queue
    }
}

/// Whether a waiter is still registered after offering one scancode: an
/// accepted scancode always signals (and thereby consumes) the registered
/// waker; a dropped one signals nothing.
pub open spec fn spec_offer_waiting(queue: Seq<u8>, waiting: bool) -> bool {
    if spec_accepts(queue) {
        false
    } else {
        waiting
    }
}

/// The scancode a poll returns: the head of the queue, if any.
pub open spec fn spec_poll_item(queue: Seq<u8>) -> Option<u8> {
    if queue.len() > 0 {
        Some(queue[0])
    } else {
        None
    }
}

/// Contents after a poll: the head is removed if one existed.
pub open spec fn spec_poll_rest(queue: Seq<u8>) -> Seq<u8> {
    if queue.len() > 0 {
        queue.drop_first()
    } else {
        queue
    }
}

/// Whether a waiter is registered after a poll: a poll that found the queue
/// empty leaves the caller's waker registered; one that yielded a scancode
/// does not change the slot.
pub open spec fn spec_poll_waiting(queue: Seq<u8>, waiting: bool) -> bool {
    if queue.len() == 0 {
        true
    } else {
        waiting
    }
}

/// What a poll returns to the scheduler: a scancode, or a request to be
/// resumed once the producer signals the registered waker.
#[derive(Debug, Clone, Copy, PartialEq, Eq, Structural)]
pub enum PollResult {
    Ready(u8),
    Pending,
}

/// A decoded key event, as the consumer-facing layer sees it: either a
/// printable character or a raw control key code.
#[derive(Debug, Clone, Copy, PartialEq, Eq, Structural)]
pub enum LogicalKey {
    PrintableCharacter(char),
    ControlKey(u8),
}

/// The asynchronous stream of raw scancodes.  It owns the bounded queue and
/// the wake-up slot; the interrupt side feeds it through `add_scancode` and
/// the consumer drains it through `poll_next`.
pub struct ScancodeStream {
    queue: ArrayQueue<u8>,
    waker: AtomicWaker,
    registered: bool,
}

impl ScancodeStream {
    /// The scancodes currently queued, head first.
    pub closed spec fn contents(&self) -> Seq<u8> {
        queue_contents(self.queue)
    }

    /// Whether a consumer's waker is registered in the wake-up slot.
    pub closed spec fn waiting(&self) -> bool {
        self.registered
    }

    /// The queue was created with the fixed capacity.
    pub closed spec fn wf(&self) -> bool {
        queue_capacity(self.queue) == QUEUE_CAPACITY
    }

    /// A fresh bridge: empty queue, no waiter registered.  The surrounding
    /// program must create exactly one and share it between the interrupt
    /// handler and the consumer task.
    pub fn new() -> (s: ScancodeStream)
        ensures
            s.wf(),
            s.contents() == Seq::<u8>::empty(),
            !s.waiting(),
    {
        ScancodeStream { queue: queue_new(QUEUE_CAPACITY), waker: waker_new(), registered: false }
    }

    /// The producer-side entry point, called once per scancode received from
    /// the hardware.  If the queue has room the scancode is appended and the
    /// registered waker (if any) is signalled; on a full queue the scancode
    /// is dropped and `false` is returned so the caller can report the loss.
    /// It never blocks and never panics.
    pub fn add_scancode(&mut self, scancode: u8) -> (accepted: bool)
        requires
            old(self).wf(),
        ensures
            final(self).wf(),
            accepted == spec_accepts(old(self).contents()),
            final(self).contents() == spec_offer(old(self).contents(), scancode),
            final(self).waiting() == spec_offer_waiting(
                old(self).contents(),
                old(self).waiting(),
            ),
    {
        let accepted = queue_push(&mut self.queue, scancode);
        if accepted {
            waker_wake(&self.waker);
            self.registered = false;
        }
        accepted
    }

    /// The consumer-side poll.  A queued scancode is returned at once.  On
    /// an empty queue the caller's waker is registered and the queue is
    /// checked once more, closing the race with a push that arrived in
    /// between; only if it is still empty does the poll return `Pending`.
    pub fn poll_next(&mut self, waker: &Waker) -> (r: PollResult)
        requires
            old(self).wf(),
        ensures
            final(self).wf(),
            r == (match spec_poll_item(old(self).contents()) {
                Some(code) => PollResult::Ready(code),
                None => PollResult::Pending,
            }),
            final(self).contents() == spec_poll_rest(old(self).contents()),
            final(self).waiting() == spec_poll_waiting(
                old(self).contents(),
                old(self).waiting(),
            ),
    {
        match queue_pop(&mut self.queue) {
            Some(code) => PollResult::Ready(code),
            None => {
                waker_register(&self.waker, waker);
                self.registered = true;
                match queue_pop(&mut self.queue) {
                    Some(code) => {
                        waker_take(&self.waker);
                        self.registered = false;
                        PollResult::Ready(code)
                    },
                    None => PollResult::Pending,
                }
            },
        }
    }
}

/// Contents after offering a whole sequence of scancodes, first to last.
pub open spec fn spec_offer_all(queue: Seq<u8>, codes: Seq<u8>) -> Seq<u8>
    decreases codes.len(),
{
    if codes.len() == 0 {
        queue
    } else {
        spec_offer_all(spec_offer(queue, codes[0]), codes.drop_first())
    }
}

/// How many of the offered scancodes are rejected for want of room.
pub open spec fn spec_reject_count(queue: Seq<u8>, codes: Seq<u8>) -> nat
    decreases codes.len(),
{
    if codes.len() == 0 {
        0
    } else {
        (if spec_accepts(queue) {
            0nat
        } else {
            1nat
        }) + spec_reject_count(spec_offer(queue, codes[0]), codes.drop_first())
    }
}

/// The scancodes which a given number of successive polls yields, in order.
pub open spec fn spec_drain(queue: Seq<u8>, n: nat) -> Seq<u8>
    decreases n,
{
    if n == 0 {
        Seq::<u8>::empty()
    } else {
        match spec_poll_item(queue) {
            None => Seq::<u8>::empty(),
            Some(code) => seq![code] + spec_drain(spec_poll_rest(queue), (n - 1) as nat),
        }
    }
}

/// Draining as many polls as the queue holds yields exactly its contents.
pub proof fn lemma_drain_all(queue: Seq<u8>)
    ensures
        spec_drain(queue, queue.len()) == queue,
    decreases queue.len(),
{
    if queue.len() > 0 {
        lemma_drain_all(queue.drop_first());
        assert(seq![queue[0]] + queue.drop_first() =~= queue);
    }
}

/// Offering a sequence to a partly filled queue appends it, truncated at
/// capacity: the earliest offered scancodes are the ones retained.
pub proof fn lemma_offer_all_from(queue: Seq<u8>, codes: Seq<u8>)
    requires
        queue.len() <= QUEUE_CAPACITY,
    ensures
        spec_offer_all(queue, codes) == (queue + codes).take(
            if queue.len() + codes.len() <= QUEUE_CAPACITY {
                (queue.len() + codes.len()) as int
            } else {
                QUEUE_CAPACITY as int
            },
        ),
    decreases codes.len(),
{
    if codes.len() == 0 {
        assert((queue + codes).take(queue.len() as int) =~= queue);
    } else {
        let q1 = spec_offer(queue, codes[0]);
        lemma_offer_all_from(q1, codes.drop_first());
        if spec_accepts(queue) {
            assert(q1 + codes.drop_first() =~= queue + codes);
        } else {
            assert(queue.len() == QUEUE_CAPACITY);
            let lhs = (q1 + codes.drop_first()).take(QUEUE_CAPACITY as int);
            let rhs = (queue + codes).take(QUEUE_CAPACITY as int);
            assert(lhs =~= rhs);
        }
    }
}

/// Ordering: offering up to a queue's capacity of scancodes to an empty
/// queue retains them all, and draining as many polls returns them in
/// exactly the order they were offered.
pub proof fn lemma_fifo_ordering(codes: Seq<u8>)
    requires
        codes.len() <= QUEUE_CAPACITY,
    ensures
        spec_offer_all(Seq::<u8>::empty(), codes) == codes,
        spec_drain(spec_offer_all(Seq::<u8>::empty(), codes), codes.len()) == codes,
{
    lemma_offer_all_from(Seq::<u8>::empty(), codes);
    assert((Seq::<u8>::empty() + codes).take(codes.len() as int) =~= codes);
    lemma_drain_all(codes);
}

/// Overflow: offering more scancodes than the capacity to an empty queue
/// retains exactly the earliest `QUEUE_CAPACITY` of them, drains to exactly
/// those, and rejects (with one full signal each) exactly the surplus.
pub proof fn lemma_overflow(codes: Seq<u8>)
    requires
        codes.len() > QUEUE_CAPACITY,
    ensures
        spec_offer_all(Seq::<u8>::empty(), codes) == codes.take(QUEUE_CAPACITY as int),
        spec_drain(spec_offer_all(Seq::<u8>::empty(), codes), codes.len()) == codes.take(
            QUEUE_CAPACITY as int,
        ),
        spec_reject_count(Seq::<u8>::empty(), codes) == codes.len() - QUEUE_CAPACITY,
{
    lemma_offer_all_from(Seq::<u8>::empty(), codes);
    assert((Seq::<u8>::empty() + codes).take(QUEUE_CAPACITY as int) =~= codes.take(
        QUEUE_CAPACITY as int,
    ));
    let kept = codes.take(QUEUE_CAPACITY as int);
    lemma_drain_all(kept);
    lemma_drain_stops_when_empty(kept, codes.len());
    lemma_reject_count(Seq::<u8>::empty(), codes);
}

/// Draining with more polls than the queue holds still yields only its
/// contents: the extra polls find the queue empty.
pub proof fn lemma_drain_stops_when_empty(queue: Seq<u8>, n: nat)
    requires
        n >= queue.len(),
    ensures
        spec_drain(queue, n) == queue,
    decreases n,
{
    if n > 0 && queue.len() > 0 {
        lemma_drain_stops_when_empty(queue.drop_first(), (n - 1) as nat);
        assert(seq![queue[0]] + queue.drop_first() =~= queue);
    }
}

/// Each scancode offered beyond what fits is rejected exactly once.
pub proof fn lemma_reject_count(queue: Seq<u8>, codes: Seq<u8>)
    requires
        queue.len() <= QUEUE_CAPACITY,
    ensures
        spec_reject_count(queue, codes) == if queue.len() + codes.len() > QUEUE_CAPACITY {
            queue.len() + codes.len() - QUEUE_CAPACITY
        } else {
            0
        },
    decreases codes.len(),
{
    if codes.len() > 0 {
        lemma_reject_count(spec_offer(queue, codes[0]), codes.drop_first());
    }
}

/// Wake correctness: a poll on an empty queue suspends and leaves the
/// caller's waker registered; a scancode offered to an empty queue is always
/// accepted and signals (consumes) the registered waker, so no wake-up is
/// missed; and in either interleaving of one push with one poll, the poll
/// that follows the push returns that very scancode.
pub proof fn lemma_wake_correctness(code: u8, waiting: bool)
    ensures
        spec_poll_item(Seq::<u8>::empty()) is None,
        spec_poll_waiting(Seq::<u8>::empty(), waiting),
        spec_accepts(Seq::<u8>::empty()),
        !spec_offer_waiting(Seq::<u8>::empty(), waiting),
        spec_offer(Seq::<u8>::empty(), code) == seq![code],
        spec_poll_item(spec_offer(Seq::<u8>::empty(), code)) == Some(code),
        spec_poll_rest(spec_offer(Seq::<u8>::empty(), code)) == Seq::<u8>::empty(),
{
    assert(spec_offer(Seq::<u8>::empty(), code) =~= seq![code]);
    assert(seq![code].drop_first() =~= Seq::<u8>::empty());
}

impl Default for ScancodeStream {
    /// The same fresh bridge as `ScancodeStream::new`.
    fn default() -> (s: Self)
        ensures
            s.wf(),
            s.contents() == Seq::<u8>::empty(),
            !s.waiting(),
    {
        Self::new()
    }
}

} // verus!
