use vstd::prelude::*;

verus! {

/// A capacity-limited FIFO queue: the handoff discipline between a capture
/// producer and the relay loop. A full queue never drops an item offered to
/// it; the item comes back to the producer, which suspends and offers it
/// again once room is available. Delivery order is the order of acceptance.
pub struct BoundedQueue<T> {
    items: Vec<T>,
    cap: usize,
}

impl<T> BoundedQueue<T> {
    /// The queued items, oldest first.
    pub closed spec fn contents(self) -> Seq<T> {
        self.items@
    }

    /// The fixed capacity the queue was created with.
    pub closed spec fn capacity(self) -> nat {
        self.cap as nat
    }

    /// Well-formed: never holds more than its capacity, and has room for at
    /// least one item.
    pub open spec fn wf(self) -> bool {
        self.contents().len() <= self.capacity() && self.capacity() >= 1
    }

    /// Creates an empty queue of the given capacity.
    pub fn new(cap: usize) -> (q: Self)
        requires
            cap >= 1,
        ensures
            q.wf(),
            q.contents() == Seq::<T>::empty(),
            q.capacity() == cap as nat,
    {
        BoundedQueue { items: Vec::new(), cap }
    }

    /// Offers an item to the queue. A queue with room accepts it at the
    /// back; a full queue hands it back unchanged, so nothing offered is
    /// ever lost: the producer keeps the item and must suspend until room
    /// is available.
    pub fn offer(&mut self, item: T) -> (rejected: Option<T>)
        requires
            old(self).wf(),
        ensures
            final(self).wf(),
            final(self).capacity() == old(self).capacity(),
            old(self).contents().len() < old(self).capacity() ==> {
                &&& final(self).contents() == old(self).contents().push(item)
                &&& rejected is None
            },
            old(self).contents().len() >= old(self).capacity() ==> {
                &&& final(self).contents() == old(self).contents()
                &&& rejected == Some(item)
            },
    {
        if self.items.len() < self.cap {
            self.items.push(item);
            None
        } else {
            Some(item)
        }
    }

    /// Takes the oldest item, if any: delivery is first-in, first-out.
    pub fn poll(&mut self) -> (r: Option<T>)
        requires
            old(self).wf(),
        ensures
            final(self).wf(),
            final(self).capacity() == old(self).capacity(),
            old(self).contents().len() > 0 ==> {
                &&& r == Some(old(self).contents()[0])
                &&& final(self).contents() == old(self).contents().drop_first()
            },
            old(self).contents().len() == 0 ==> {
                &&& r is None
                &&& final(self).contents() == old(self).contents()
            },
    {
        if self.items.len() > 0 {
            let item = self.items.remove(0);
            proof {
                assert(self.items@ =~= old(self).items@.drop_first());
            }
            Some(item)
        } else {
            None
        }
    }

    /// How many items are queued.
    pub fn len(&self) -> (n: usize)
        ensures
            n == self.contents().len(),
    {
        self.items.len()
    }

    /// Whether the queue holds no items.
    pub fn is_empty(&self) -> (r: bool)
        ensures
            r == (self.contents().len() == 0),
    {
        self.items.len() == 0
    }

    /// Whether an offer would be handed back.
    pub fn is_full(&self) -> (r: bool)
        requires
            self.wf(),
        ensures
            r == (self.contents().len() >= self.capacity()),
    {
        self.items.len() >= self.cap
    }
}

} // verus!
