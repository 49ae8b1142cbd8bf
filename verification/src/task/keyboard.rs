//! The bytes of the keyboard on their way from the interrupt handler to
//! the task that decodes them.

use vstd::prelude::*;
use crossbeam_queue::ArrayQueue;

verus! {

/// How many bytes the queue holds.
pub const QUEUE_CAPACITY: usize = 100;

/// The bounded queue of the crate crossbeam_queue.
#[verifier::external_type_specification]
#[verifier::external_body]
#[verifier::reject_recursive_types(T)]
pub struct ExArrayQueue<T>(ArrayQueue<T>);

/// The bytes that a queue holds, the oldest first.
pub uninterp spec fn queue_contents(queue: ArrayQueue<u8>) -> Seq<u8>;

/// The number of bytes that a queue was made for.
pub uninterp spec fn queue_capacity(queue: ArrayQueue<u8>) -> nat;

/// `ArrayQueue::new` of the crate crossbeam_queue: an empty queue for
/// `capacity` bytes. The capacity is neither zero nor so large that the
/// function's own arithmetic overflows.
#[verifier::external_body]
fn queue_new(capacity: usize) -> (queue: ArrayQueue<u8>)
    requires
        0 < capacity <= 0x4000_0000,
    ensures
        queue_contents(queue) == Seq::<u8>::empty(),
        queue_capacity(queue) == capacity,
{
    ArrayQueue::new(capacity)
}

/// `ArrayQueue::push_mut` of the crate crossbeam_queue: the byte is put
/// behind the others, and not where the queue holds as many bytes as it was
/// made for. Says whether the byte was put.
#[verifier::external_body]
fn queue_push(queue: &mut ArrayQueue<u8>, value: u8) -> (pushed: bool)
    ensures
        queue_capacity(*final(queue)) == queue_capacity(*old(queue)),
        pushed == (queue_contents(*old(queue)).len() < queue_capacity(*old(queue))),
        queue_contents(*final(queue)) == if pushed {
            queue_contents(*old(queue)).push(value)
        } else {
            queue_contents(*old(queue))
        },
{
    queue.push_mut(value).is_ok()
}

/// `ArrayQueue::pop_mut` of the crate crossbeam_queue: the oldest byte
/// leaves the queue, if the queue holds one.
#[verifier::external_body]
fn queue_pop(queue: &mut ArrayQueue<u8>) -> (res: Option<u8>)
    ensures
        queue_capacity(*final(queue)) == queue_capacity(*old(queue)),
        queue_contents(*old(queue)).len() == 0 ==> res is None && queue_contents(*final(queue))
            == queue_contents(*old(queue)),
        queue_contents(*old(queue)).len() > 0 ==> res == Some(queue_contents(*old(queue))[0])
            && queue_contents(*final(queue)) == queue_contents(*old(queue)).drop_first(),
{
    queue.pop_mut()
}

/// What became of a byte that the keyboard handler handed over.
#[derive(Debug, Clone, Copy, PartialEq, Eq, Structural)]
pub enum AddOutcome {
    /// The byte is queued: the reader is to be woken.
    Queued,
    /// The queue is full: the byte is dropped.
    Full,
    /// There is no queue yet: the byte is dropped.
    Uninitialized,
}

/// What a reader finds.
#[derive(Debug, Clone, Copy, PartialEq, Eq, Structural)]
pub enum Poll {
    /// A byte.
    Ready(u8),
    /// Nothing yet: the reader is to wait until it is woken.
    Pending,
}

/// The queue of the bytes of the keyboard. The interrupt handler adds to
/// it; the task that decodes the bytes reads from it.
pub struct ScancodeStream {
    queue: Option<ArrayQueue<u8>>,
}

impl ScancodeStream {
    /// Whether the queue is made.
    pub closed spec fn is_initialized(&self) -> bool {
        self.queue is Some
    }

    /// The bytes that wait, the oldest first; none where no queue is made.
    pub closed spec fn waiting(&self) -> Seq<u8> {
        match self.queue {
            Some(queue) => queue_contents(queue),
            None => Seq::empty(),
        }
    }

    /// The queue, where it is made, is one for `QUEUE_CAPACITY` bytes.
    pub closed spec fn wf(&self) -> bool {
        self.queue matches Some(queue) ==> queue_capacity(queue) == QUEUE_CAPACITY
    }

    /// A stream whose queue is yet to be made.
    pub fn uninit() -> (stream: ScancodeStream)
        ensures
            stream.wf(),
            !stream.is_initialized(),
            stream.waiting() == Seq::<u8>::empty(),
    {
        ScancodeStream { queue: None }
    }

    /// A stream with an empty queue.
    pub fn new() -> (stream: ScancodeStream)
        ensures
            stream.wf(),
            stream.is_initialized(),
            stream.waiting() == Seq::<u8>::empty(),
    {
        ScancodeStream { queue: Some(queue_new(QUEUE_CAPACITY)) }
    }

    /// Whether the queue is made.
    pub fn initialized(&self) -> (res: bool)
        ensures
            res == self.is_initialized(),
    {
        self.queue.is_some()
    }

    /// Hands over a byte of the keyboard: it is queued where a queue is made
    /// and holds fewer than `QUEUE_CAPACITY` bytes, and dropped else.
    pub fn add_scancode(&mut self, scancode: u8) -> (outcome: AddOutcome)
        requires
            old(self).wf(),
        ensures
            final(self).wf(),
            final(self).is_initialized() == old(self).is_initialized(),
            outcome == if !old(self).is_initialized() {
                AddOutcome::Uninitialized
            } else if old(self).waiting().len() >= QUEUE_CAPACITY {
                AddOutcome::Full
            } else {
                AddOutcome::Queued
            },
            final(self).waiting() == if outcome == AddOutcome::Queued {
                old(self).waiting().push(scancode)
            } else {
                old(self).waiting()
            },
    {
        match self.queue.take() {
            None => AddOutcome::Uninitialized,
            Some(mut queue) => {
                let pushed = queue_push(&mut queue, scancode);
                self.queue = Some(queue);
                if pushed {
                    AddOutcome::Queued
                } else {
                    AddOutcome::Full
                }
            },
        }
    }

    /// Takes the oldest byte that waits, if one does.
    pub fn poll_next(&mut self) -> (res: Poll)
        requires
            old(self).wf(),
            old(self).is_initialized(),
        ensures
            final(self).wf(),
            final(self).is_initialized(),
            res == if old(self).waiting().len() > 0 {
                Poll::Ready(old(self).waiting()[0])
            } else {
                Poll::Pending
            },
            final(self).waiting() == if old(self).waiting().len() > 0 {
                old(self).waiting().drop_first()
            } else {
                old(self).waiting()
            },
    {
        match self.queue.take() {
            None => vstd::pervasive::unreached(),
            Some(mut queue) => {
                let popped = queue_pop(&mut queue);
                self.queue = Some(queue);
                match popped {
                    Some(scancode) => Poll::Ready(scancode),
                    None => Poll::Pending,
                }
            },
        }
    }
}

} // verus!
