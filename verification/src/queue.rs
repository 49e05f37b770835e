use heapless::consts::U64;
use heapless::spsc::Queue;
use vstd::prelude::*;

verus! {

/// The number of key strokes that can wait to be sent.
pub const CAPACITY: usize = 64;

/// The bounded queue of pending key strokes: a `heapless::spsc::Queue` of
/// `(modifier, keycode)` pairs with room for `CAPACITY` of them.
///
/// The queue itself is not verified here. What it holds is known only
/// through `queue_items`, and only as far as the operations below say.
#[verifier::external_body]
pub struct EventQueue {
    inner: Queue<(u8, u8), U64>,
}

/// The pairs that a queue holds, the one that leaves next first.
pub uninterp spec fn queue_items(q: EventQueue) -> Seq<(u8, u8)>;

impl EventQueue {
    /// `heapless::spsc::Queue::new`: a queue that holds nothing.
    #[verifier::external_body]
    pub(crate) fn new() -> (q: EventQueue)
        ensures
            queue_items(q) == Seq::<(u8, u8)>::empty(),
    {
        EventQueue { inner: Queue::new() }
    }

    /// `heapless::spsc::Queue::len`: the number of pairs held.
    #[verifier::external_body]
    pub(crate) fn len(&self) -> (n: usize)
        ensures
            n == queue_items(*self).len(),
    {
        self.inner.len()
    }

    /// `heapless::spsc::Queue::enqueue`: while fewer than `CAPACITY` pairs
    /// are held the pair goes to the back; a full queue hands it back and
    /// stays as it was. The call does not panic.
    #[verifier::external_body]
    pub(crate) fn enqueue(&mut self, item: (u8, u8)) -> (r: Result<(), (u8, u8)>)
        ensures
            match r {
                Ok(_) => queue_items(*old(self)).len() < CAPACITY
                    && queue_items(*final(self)) == queue_items(*old(self)).push(item),
                Err(back) => queue_items(*old(self)).len() >= CAPACITY && back == item
                    && queue_items(*final(self)) == queue_items(*old(self)),
            },
        no_unwind
    {
        self.inner.enqueue(item)
    }

    /// `heapless::spsc::Queue::dequeue`: the pair at the front leaves the
    /// queue and is returned; an empty queue returns nothing and stays empty.
    /// The call does not panic.
    #[verifier::external_body]
    pub(crate) fn dequeue(&mut self) -> (r: Option<(u8, u8)>)
        ensures
            match r {
                Some(front) => queue_items(*old(self)).len() > 0
                    && front == queue_items(*old(self))[0]
                    && queue_items(*final(self)) == queue_items(*old(self)).drop_first(),
                None => queue_items(*old(self)).len() == 0
                    && queue_items(*final(self)) == queue_items(*old(self)),
            },
        no_unwind
    {
        self.inner.dequeue()
    }
}

} // verus!
