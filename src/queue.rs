//! Bounded first-in first-out queue of frames, the hand-off between the tasks that read or
//! write storage and the bus interrupts.

use vstd::prelude::*;

use crate::can::{Frame, FrameView};

verus! {

/// Slots of the underlying queue; it holds one item less than that.
pub const STORAGE_SLOTS: usize = 65;

/// Largest capacity of a [`FrameQueue`].
pub const MAX_CAPACITY: usize = 64;

/// Capacity of the queue that feeds the bus transmitter.
pub const TX_CAPACITY: usize = 8;

/// Capacity of the queue that feeds the storage writer.
pub const RX_CAPACITY: usize = 64;

#[verifier::external_type_specification]
#[verifier::external_body]
#[verifier::reject_recursive_types(T)]
pub struct ExQueue<T, const N: usize>(heapless::spsc::Queue<T, N>);

/// The frames held by a queue, from the front (oldest) to the back (newest).
pub uninterp spec fn queued(q: heapless::spsc::Queue<Frame, STORAGE_SLOTS>) -> Seq<FrameView>;

/// Relies on heapless::spsc::Queue::new: a new queue holds nothing.
#[verifier::external_body]
fn slots_new() -> (r: heapless::spsc::Queue<Frame, STORAGE_SLOTS>)
    ensures
        queued(r) == Seq::<FrameView>::empty(),
{
    heapless::spsc::Queue::new()
}

/// Relies on heapless::spsc::Queue::len: the number of frames held, never more than
/// `STORAGE_SLOTS - 1`.
#[verifier::external_body]
fn slots_len(q: &heapless::spsc::Queue<Frame, STORAGE_SLOTS>) -> (r: usize)
    ensures
        r == queued(*q).len(),
        r <= MAX_CAPACITY,
{
    q.len()
}

/// Relies on heapless::spsc::Queue::enqueue: appends at the back, or hands the frame back
/// unchanged when `STORAGE_SLOTS - 1` frames are held.
#[verifier::external_body]
fn slots_enqueue(q: &mut heapless::spsc::Queue<Frame, STORAGE_SLOTS>, f: Frame) -> (r: Result<(), Frame>)
    ensures
        queued(*old(q)).len() < MAX_CAPACITY ==> r is Ok && queued(*final(q)) == queued(*old(q)).push(f@),
        queued(*old(q)).len() >= MAX_CAPACITY ==> (r matches Err(g) && g@ == f@) && queued(*final(q)) == queued(*old(q)),
{
    q.enqueue(f)
}

/// Relies on heapless::spsc::Queue::dequeue: removes and returns the front frame, if any.
#[verifier::external_body]
fn slots_dequeue(q: &mut heapless::spsc::Queue<Frame, STORAGE_SLOTS>) -> (r: Option<Frame>)
    ensures
        queued(*old(q)).len() == 0 ==> r is None && queued(*final(q)) == queued(*old(q)),
        queued(*old(q)).len() > 0 ==> (r matches Some(g) && g@ == queued(*old(q))[0])
            && queued(*final(q)) == queued(*old(q)).drop_first(),
{
    q.dequeue()
}

/// Relies on heapless::spsc::Queue::peek: the front frame, if any, left in place.
#[verifier::external_body]
fn slots_peek(q: &heapless::spsc::Queue<Frame, STORAGE_SLOTS>) -> (r: Option<&Frame>)
    ensures
        r is Some <==> queued(*q).len() > 0,
        r matches Some(g) ==> g@ == queued(*q)[0],
{
    q.peek()
}

/// What a push does to the held frames: appended when there is room, else nothing.
pub open spec fn after_push(items: Seq<FrameView>, capacity: nat, f: FrameView) -> Seq<FrameView> {
    if items.len() < capacity {
        items.push(f)
    } else {
        items
    }
}

/// What a pop does to the held frames: the front one leaves, if there is one.
pub open spec fn after_pop(items: Seq<FrameView>) -> Seq<FrameView> {
    if items.len() > 0 {
        items.drop_first()
    } else {
        items
    }
}

/// The frame that a pop returns: the front one, if there is one.
pub open spec fn front(items: Seq<FrameView>) -> Option<FrameView> {
    if items.len() > 0 {
        Some(items[0])
    } else {
        None
    }
}

/// A single-producer single-consumer queue of frames with a fixed capacity.
pub struct FrameQueue {
    slots: heapless::spsc::Queue<Frame, STORAGE_SLOTS>,
    capacity: usize,
}

impl FrameQueue {
    /// The frames held, oldest first.
    pub closed spec fn items(&self) -> Seq<FrameView> {
        queued(self.slots)
    }

    /// The number of frames the queue can hold.
    pub closed spec fn cap(&self) -> nat {
        self.capacity as nat
    }

    /// The capacity is between 1 and [`MAX_CAPACITY`] and is not exceeded.
    pub closed spec fn wf(&self) -> bool {
        1 <= self.capacity <= MAX_CAPACITY && self.items().len() <= self.capacity
    }

    /// An empty queue that holds at most `capacity` frames.
    pub fn with_capacity(capacity: usize) -> (r: FrameQueue)
        requires
            1 <= capacity <= MAX_CAPACITY,
        ensures
            r.wf(),
            r.cap() == capacity,
            r.items() == Seq::<FrameView>::empty(),
    {
        FrameQueue { slots: slots_new(), capacity }
    }

    /// The empty queue that feeds the transmitter, of capacity [`TX_CAPACITY`].
    pub fn tx() -> (r: FrameQueue)
        ensures
            r.wf(),
            r.cap() == TX_CAPACITY,
            r.items() == Seq::<FrameView>::empty(),
    {
        FrameQueue::with_capacity(TX_CAPACITY)
    }

    /// The empty queue that feeds the storage writer, of capacity [`RX_CAPACITY`].
    pub fn rx() -> (r: FrameQueue)
        ensures
            r.wf(),
            r.cap() == RX_CAPACITY,
            r.items() == Seq::<FrameView>::empty(),
    {
        FrameQueue::with_capacity(RX_CAPACITY)
    }

    /// The number of frames the queue can hold.
    pub fn capacity(&self) -> (r: usize)
        requires
            self.wf(),
        ensures
            r == self.cap(),
    {
        self.capacity
    }

    /// The number of frames held.
    pub fn len(&self) -> (r: usize)
        requires
            self.wf(),
        ensures
            r == self.items().len(),
    {
        slots_len(&self.slots)
    }

    /// Whether no frame is held.
    pub fn is_empty(&self) -> (r: bool)
        requires
            self.wf(),
        ensures
            r == (self.items().len() == 0),
    {
        slots_len(&self.slots) == 0
    }

    /// Whether a push would be accepted.
    pub fn ready(&self) -> (r: bool)
        requires
            self.wf(),
        ensures
            r == (self.items().len() < self.cap()),
    {
        slots_len(&self.slots) < self.capacity
    }

    /// Appends `f` at the back; when the queue is full it is left unchanged and `f` is handed
    /// back.
    pub fn try_push(&mut self, f: Frame) -> (r: Result<(), Frame>)
        requires
            old(self).wf(),
        ensures
            final(self).wf(),
            final(self).cap() == old(self).cap(),
            final(self).items() == after_push(old(self).items(), old(self).cap(), f@),
            r is Ok <==> old(self).items().len() < old(self).cap(),
            r matches Err(g) ==> g@ == f@,
    {
        if slots_len(&self.slots) >= self.capacity {
            return Err(f);
        }
        let r = slots_enqueue(&mut self.slots, f);
        r
    }

    /// Removes and returns the oldest frame, if any.
    pub fn pop(&mut self) -> (r: Option<Frame>)
        requires
            old(self).wf(),
        ensures
            final(self).wf(),
            final(self).cap() == old(self).cap(),
            final(self).items() == after_pop(old(self).items()),
            r is Some <==> front(old(self).items()) is Some,
            r matches Some(g) ==> front(old(self).items()) == Some(g@),
    {
        slots_dequeue(&mut self.slots)
    }

    /// The oldest frame, if any, left in place.
    pub fn peek(&self) -> (r: Option<&Frame>)
        requires
            self.wf(),
        ensures
            r is Some <==> front(self.items()) is Some,
            r matches Some(g) ==> front(self.items()) == Some(g@),
    {
        slots_peek(&self.slots)
    }
}

/// One operation on a queue: a push of a frame, or a pop.
pub enum QueueOp {
    /// A push of the frame.
    Push(FrameView),
    /// A pop.
    Pop,
}

/// The frames pushed by a sequence of operations, in order.
pub open spec fn pushed(ops: Seq<QueueOp>) -> Seq<FrameView>
    decreases ops.len(),
{
    if ops.len() == 0 {
        Seq::empty()
    } else {
        let rest = pushed(ops.drop_first());
        match ops[0] {
            QueueOp::Push(f) => seq![f] + rest,
            QueueOp::Pop => rest,
        }
    }
}

/// The held frames after a sequence of operations, starting from `items`, as
/// [`FrameQueue::try_push`] and [`FrameQueue::pop`] change them.
pub open spec fn held_after(items: Seq<FrameView>, capacity: nat, ops: Seq<QueueOp>) -> Seq<FrameView>
    decreases ops.len(),
{
    if ops.len() == 0 {
        items
    } else {
        let next = match ops[0] {
            QueueOp::Push(f) => after_push(items, capacity, f),
            QueueOp::Pop => after_pop(items),
        };
        held_after(next, capacity, ops.drop_first())
    }
}

/// The frames that the pops of a sequence of operations return, in order.
pub open spec fn popped(items: Seq<FrameView>, capacity: nat, ops: Seq<QueueOp>) -> Seq<FrameView>
    decreases ops.len(),
{
    if ops.len() == 0 {
        Seq::empty()
    } else {
        match ops[0] {
            QueueOp::Push(f) => popped(after_push(items, capacity, f), capacity, ops.drop_first()),
            QueueOp::Pop => {
                let out = match front(items) {
                    Some(f) => seq![f],
                    None => Seq::empty(),
                };
                out + popped(after_pop(items), capacity, ops.drop_first())
            },
        }
    }
}

/// No push of the sequence finds the queue full.
pub open spec fn fits(items: Seq<FrameView>, capacity: nat, ops: Seq<QueueOp>) -> bool
    decreases ops.len(),
{
    if ops.len() == 0 {
        true
    } else {
        match ops[0] {
            QueueOp::Push(f) => items.len() < capacity && fits(after_push(items, capacity, f), capacity, ops.drop_first()),
            QueueOp::Pop => fits(after_pop(items), capacity, ops.drop_first()),
        }
    }
}

/// First in, first out: when no push finds the queue full, the frames popped followed by
/// the frames still held are the frames held at the start followed by the frames pushed,
/// in the same order.
pub proof fn lemma_fifo(items: Seq<FrameView>, capacity: nat, ops: Seq<QueueOp>)
    requires
        fits(items, capacity, ops),
    ensures
        popped(items, capacity, ops) + held_after(items, capacity, ops) == items + pushed(ops),
    decreases ops.len(),
{
    if ops.len() == 0 {
        assert(items + Seq::<FrameView>::empty() =~= items);
        assert(Seq::<FrameView>::empty() + items =~= items);
    } else {
        match ops[0] {
            QueueOp::Push(f) => {
                let next = after_push(items, capacity, f);
                lemma_fifo(next, capacity, ops.drop_first());
                assert(next == items.push(f));
                assert(items.push(f) + pushed(ops.drop_first()) =~= items + (seq![f] + pushed(ops.drop_first())));
            },
            QueueOp::Pop => {
                let next = after_pop(items);
                lemma_fifo(next, capacity, ops.drop_first());
                if items.len() > 0 {
                    assert(seq![items[0]] + next =~= items);
                    assert(seq![items[0]] + popped(next, capacity, ops.drop_first()) + held_after(next, capacity, ops.drop_first())
                        =~= seq![items[0]] + (popped(next, capacity, ops.drop_first()) + held_after(next, capacity, ops.drop_first())));
                    assert(seq![items[0]] + (next + pushed(ops.drop_first())) =~= items + pushed(ops.drop_first()));
                } else {
                    assert(Seq::<FrameView>::empty() + popped(next, capacity, ops.drop_first()) =~= popped(next, capacity, ops.drop_first()));
                }
            },
        }
    }
}

} // verus!
