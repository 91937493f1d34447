use vstd::prelude::*;

verus! {

/// A bounded first-in-first-out buffer.  Pushing onto a full buffer
/// drops the new item and reports the drop.
pub struct BoundedFifo<T> {
    items: Vec<T>,
    capacity: usize,
}

impl<T> BoundedFifo<T> {
    /// The queued items, oldest first.
    pub closed spec fn view(&self) -> Seq<T> {
        self.items@
    }

    /// The most items the buffer will hold.
    pub closed spec fn spec_capacity(&self) -> int {
        self.capacity as int
    }

    /// The buffer never holds more than its capacity.
    pub open spec fn wf(&self) -> bool {
        self.view().len() <= self.spec_capacity() && self.spec_capacity() >= 1
    }

    pub fn new(capacity: usize) -> (r: BoundedFifo<T>)
        requires
            capacity >= 1,
        ensures
            r.wf(),
            r.view() =~= Seq::<T>::empty(),
            r.spec_capacity() == capacity,
    {
        BoundedFifo { items: Vec::new(), capacity }
    }

    pub fn len(&self) -> (r: usize)
        ensures
            r == self.view().len(),
    {
        self.items.len()
    }

    /// Non-blocking enqueue: appends when there is room, drops the item
    /// and returns false when the buffer is full.
    pub fn try_push(&mut self, item: T) -> (r: bool)
        requires
            old(self).wf(),
        ensures
            final(self).wf(),
            final(self).spec_capacity() == old(self).spec_capacity(),
            old(self).view().len() < old(self).spec_capacity() ==> r && final(self).view()
                == old(self).view().push(item),
            old(self).view().len() >= old(self).spec_capacity() ==> !r && final(self).view()
                == old(self).view(),
    {
        if self.items.len() < self.capacity {
            self.items.push(item);
            true
        } else {
            false
        }
    }

    /// Dequeues the oldest item, if any.
    pub fn try_pop(&mut self) -> (r: Option<T>)
        requires
            old(self).wf(),
        ensures
            final(self).wf(),
            final(self).spec_capacity() == old(self).spec_capacity(),
            old(self).view().len() == 0 ==> r is None && final(self).view() == old(self).view(),
            old(self).view().len() > 0 ==> r == Some(old(self).view()[0]) && final(self).view()
                == old(self).view().drop_first(),
    {
        if self.items.len() == 0 {
            return None;
        }
        let ghost before = self.items@;
        let item = self.items.remove(0);
        proof {
            assert(self.items@ =~= before.drop_first());
        }
        Some(item)
    }
}

} // verus!
