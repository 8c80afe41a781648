//! The bounded response queue between a connection's handler and its
//! response loop.
//!
//! Handlers push responses here; the response loop drains it in order. The
//! capacity bounds memory under a slow or stalled client: a push against a
//! full queue hands the item back untouched — the producer suspends and
//! retries, and nothing is ever dropped or reordered.

use vstd::prelude::*;

verus! {

/// A first-in, first-out queue with a fixed capacity.
pub struct BoundedQueue<T> {
    items: Vec<T>,
    capacity: usize,
}

impl<T> BoundedQueue<T> {
    /// The queued items, oldest first.
    pub closed spec fn view(&self) -> Seq<T> {
        self.items@
    }

    /// The capacity the queue was created with.
    pub closed spec fn spec_capacity(&self) -> int {
        self.capacity as int
    }

    pub open spec fn wf(&self) -> bool {
        self.view().len() <= self.spec_capacity()
    }

    pub fn new(capacity: usize) -> (r: BoundedQueue<T>)
        requires
            capacity >= 1,
        ensures
            r.wf(),
            r.view() =~= Seq::<T>::empty(),
            r.spec_capacity() == capacity,
    {
        BoundedQueue { items: Vec::new(), capacity }
    }

    pub fn len(&self) -> (r: usize)
        ensures
            r == self.view().len(),
    {
        self.items.len()
    }

    pub fn capacity(&self) -> (r: usize)
        ensures
            r == self.spec_capacity(),
    {
        self.capacity
    }

    /// Appends one item at the back, unless the queue is full — then the
    /// item comes back unchanged and the queue keeps exactly what it held:
    /// backpressure, never loss, never reordering.
    pub fn try_push(&mut self, item: T) -> (r: Result<(), T>)
        requires
            old(self).wf(),
        ensures
            final (self).wf(),
            final (self).spec_capacity() == old(self).spec_capacity(),
            old(self).view().len() < old(self).spec_capacity() ==> r is Ok && final (self).view()
                =~= old(self).view().push(item),
            old(self).view().len() == old(self).spec_capacity() ==> r == Err::<(), T>(item)
                && final (self).view() =~= old(self).view(),
    {
        if self.items.len() < self.capacity {
            self.items.push(item);
            Ok(())
        } else {
            Err(item)
        }
    }

    /// Takes the oldest item, or nothing when the queue is empty.
    pub fn pop_front(&mut self) -> (r: Option<T>)
        requires
            old(self).wf(),
        ensures
            final (self).wf(),
            final (self).spec_capacity() == old(self).spec_capacity(),
            old(self).view().len() == 0 ==> r is None && final (self).view() =~= old(self).view(),
            old(self).view().len() > 0 ==> r == Some(old(self).view()[0]) && final (self).view()
                =~= old(self).view().drop_first(),
    {
        if self.items.len() == 0 {
            None
        } else {
            let item = self.items.remove(0);
            proof {
                assert(self.items@ =~= old(self).items@.drop_first());
            }
            Some(item)
        }
    }
}

} // verus!
