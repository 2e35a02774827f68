//! The bounded first-in first-out channel between the pool and one worker.

use crossbeam_queue::ArrayQueue;
use crossbeam_queue::PushError;
use vstd::prelude::*;

use crate::event::Event;

verus! {

/// Why a submission was turned down.
#[derive(Clone, Copy, Debug, PartialEq, Eq, Structural)]
pub enum PoolError {
    /// The chosen channel already holds as many events as it has room for.
    Full,
    /// The pool has no worker to give the task to.
    NoChannel,
}

impl PoolError {
    /// The words that say what went wrong.
    pub open spec fn text(self) -> Seq<char> {
        match self {
            PoolError::Full => "pushing into a full queue"@,
            PoolError::NoChannel => "not found a channel to push"@,
        }
    }

    /// The words that say what went wrong.
    pub fn message(&self) -> (text: String)
        ensures
            text@ == self.text(),
    {
        match self {
            PoolError::Full => "pushing into a full queue".to_owned(),
            PoolError::NoChannel => "not found a channel to push".to_owned(),
        }
    }
}

/// The largest capacity a channel can be made with: the buffer of a queue
/// that large still fits in the address space.
pub const MAX_CHANNEL_TOTAL: usize = usize::MAX / 64;

/// `crossbeam_queue::ArrayQueue`: a bounded queue whose inside is not
/// looked into; what is known of it is what the functions below state.
#[verifier::external_type_specification]
#[verifier::external_body]
#[verifier::reject_recursive_types(T)]
pub struct ExArrayQueue<T>(ArrayQueue<T>);

/// The events that a queue holds, oldest first.
pub uninterp spec fn queue_items(queue: ArrayQueue<Event>) -> Seq<Event>;

/// The capacity that a queue was made with.
pub uninterp spec fn queue_capacity(queue: ArrayQueue<Event>) -> nat;

/// `ArrayQueue::new`: an empty queue with room for `capacity` events. The
/// call panics on a capacity of zero and reserves the whole buffer at once,
/// so both ends of the range are asked of the caller.
#[verifier::external_body]
fn queue_new(capacity: usize) -> (queue: ArrayQueue<Event>)
    requires
        0 < capacity <= MAX_CHANNEL_TOTAL,
    ensures
        queue_items(queue) == Seq::<Event>::empty(),
        queue_capacity(queue) == capacity,
{
    ArrayQueue::new(capacity)
}

/// `ArrayQueue::push` on a queue that nobody else is using: below capacity
/// the event goes to the back; at capacity the queue stays as it is and the
/// event comes back.
#[verifier::external_body]
fn queue_push(queue: &mut ArrayQueue<Event>, event: Event) -> (rejected: Option<Event>)
    ensures
        queue_capacity(*final(queue)) == queue_capacity(*old(queue)),
        queue_items(*old(queue)).len() < queue_capacity(*old(queue)) ==> rejected.is_none()
            && queue_items(*final(queue)) == queue_items(*old(queue)).push(event),
        queue_items(*old(queue)).len() >= queue_capacity(*old(queue)) ==> rejected == Some(event)
            && queue_items(*final(queue)) == queue_items(*old(queue)),
{
    match queue.push(event) {
        Ok(()) => None,
        Err(PushError(event)) => Some(event),
    }
}

/// `ArrayQueue::pop` on a queue that nobody else is using: the oldest event
/// leaves and is returned; an empty queue stays empty and gives nothing.
#[verifier::external_body]
fn queue_pop(queue: &mut ArrayQueue<Event>) -> (oldest: Option<Event>)
    ensures
        queue_capacity(*final(queue)) == queue_capacity(*old(queue)),
        queue_items(*old(queue)).len() == 0 ==> oldest.is_none() && queue_items(*final(queue))
            == queue_items(*old(queue)),
        queue_items(*old(queue)).len() > 0 ==> oldest == Some(queue_items(*old(queue)).first())
            && queue_items(*final(queue)) == queue_items(*old(queue)).drop_first(),
{
    queue.pop().ok()
}

/// `ArrayQueue::len` on a queue that nobody else is using: how many events
/// the queue holds.
#[verifier::external_body]
fn queue_len(queue: &ArrayQueue<Event>) -> (len: usize)
    ensures
        len == queue_items(*queue).len(),
{
    queue.len()
}

/// What a channel of room `capacity` that holds `items` holds after `event`
/// was offered to it: the event is at the back, unless the channel was full.
pub open spec fn offered(items: Seq<Event>, capacity: nat, event: Event) -> Seq<Event> {
    if items.len() < capacity {
        items.push(event)
    } else {
        items
    }
}

/// What the channel holds after `events` were offered one after another,
/// with nothing taken off in between.
pub open spec fn offered_all(items: Seq<Event>, capacity: nat, events: Seq<Event>) -> Seq<Event>
    decreases events.len(),
{
    if events.len() == 0 {
        items
    } else {
        offered(offered_all(items, capacity, events.drop_last()), capacity, events.last())
    }
}

/// The capacity holds: of events offered to an empty channel with nothing
/// taken off in between, the channel keeps the first `capacity` in their
/// order and turns every later one down; none is lost or overwritten.
pub proof fn lemma_capacity_holds(capacity: nat, events: Seq<Event>)
    ensures
        events.len() <= capacity ==> offered_all(Seq::empty(), capacity, events) == events,
        events.len() > capacity ==> offered_all(Seq::empty(), capacity, events) == events.take(
            capacity as int,
        ),
    decreases events.len(),
{
    if events.len() > 0 {
        let earlier = events.drop_last();
        lemma_capacity_holds(capacity, earlier);
        if events.len() <= capacity {
            assert(earlier.push(events.last()) == events);
        } else if earlier.len() == capacity {
            assert(events.take(capacity as int) == earlier);
        } else {
            assert(events.take(capacity as int) == earlier.take(capacity as int));
        }
    }
}

/// A bounded queue of events with one producer side and one consumer side.
#[derive(Debug)]
pub struct Channel {
    queue: ArrayQueue<Event>,
}

impl Channel {
    /// The events waiting in the channel, oldest first.
    pub closed spec fn view(&self) -> Seq<Event> {
        queue_items(self.queue)
    }

    /// The number of events the channel has room for.
    pub closed spec fn capacity(&self) -> nat {
        queue_capacity(self.queue)
    }

    /// A channel never holds more than its capacity, which is positive.
    pub open spec fn wf(&self) -> bool {
        0 < self.capacity() && self@.len() <= self.capacity()
    }

    /// An empty channel with room for `channel_total` events.
    pub fn new(channel_total: usize) -> (channel: Channel)
        requires
            0 < channel_total <= MAX_CHANNEL_TOTAL,
        ensures
            channel.wf(),
            channel@ == Seq::<Event>::empty(),
            channel.capacity() == channel_total,
    {
        Channel { queue: queue_new(channel_total) }
    }

    /// Appends `event` unless the channel is full. A full channel is left as
    /// it is and the event is dropped; nothing already queued is lost or
    /// overwritten.
    pub fn enqueue(&mut self, event: Event) -> (outcome: Result<(), PoolError>)
        requires
            old(self).wf(),
        ensures
            final(self).wf(),
            final(self).capacity() == old(self).capacity(),
            final(self)@ == offered(old(self)@, old(self).capacity(), event),
            old(self)@.len() < old(self).capacity() ==> outcome == Ok::<(), PoolError>(()),
            old(self)@.len() == old(self).capacity() ==> outcome == Err::<(), PoolError>(
                PoolError::Full,
            ),
    {
        match queue_push(&mut self.queue, event) {
            None => Ok(()),
            Some(_) => Err(PoolError::Full),
        }
    }

    /// Takes the oldest event out, if there is one.
    pub fn dequeue(&mut self) -> (oldest: Option<Event>)
        requires
            old(self).wf(),
        ensures
            final(self).wf(),
            final(self).capacity() == old(self).capacity(),
            old(self)@.len() == 0 ==> oldest.is_none() && final(self)@ == old(self)@,
            old(self)@.len() > 0 ==> oldest == Some(old(self)@.first()) && final(self)@ == old(
                self,
            )@.drop_first(),
    {
        queue_pop(&mut self.queue)
    }

    /// The number of events waiting.
    pub fn length(&self) -> (len: usize)
        ensures
            len == self@.len(),
    {
        queue_len(&self.queue)
    }
}

} // verus!
