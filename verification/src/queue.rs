//! The bounded hand-off buffer between watcher and dispatcher.
//!
//! A FIFO with a fixed capacity.  A full queue refuses the offered item and
//! hands it back: the producer must keep it and try again only after the
//! consumer has drained at least one entry.  This refusal is the pipeline's
//! only flow-control mechanism; nothing is ever dropped.

use crate::watcher::Document;
use vstd::prelude::*;

verus! {

/// Capacity of the hand-off queue between watcher and dispatcher.
pub const QUEUE_CAPACITY: usize = 1024;

/// One queued notification: the rule that matched, by its position in the
/// rule list, and the matching document.
#[derive(Debug)]
pub struct QueueItem {
    pub rule_index: usize,
    pub doc: Document,
}

/// A bounded FIFO of pending notifications, single producer and single
/// consumer.  Its view is the sequence of queued items, oldest first.
pub struct EventQueue {
    items: Vec<QueueItem>,
    capacity: usize,
}

impl View for EventQueue {
    type V = Seq<QueueItem>;

    closed spec fn view(&self) -> Seq<QueueItem> {
        self.items@
    }
}

impl EventQueue {
    /// The fixed bound the queue was made with.
    pub closed spec fn spec_capacity(&self) -> usize {
        self.capacity
    }

    /// The queue never holds more than its capacity.
    pub closed spec fn wf(&self) -> bool {
        self.items@.len() <= self.capacity
    }

    /// An empty queue with the given bound.
    pub fn new(capacity: usize) -> (q: EventQueue)
        ensures
            q@ =~= Seq::<QueueItem>::empty(),
            q.spec_capacity() == capacity,
            q.wf(),
    {
        EventQueue { items: Vec::new(), capacity }
    }

    pub fn len(&self) -> (n: usize)
        ensures
            n == self@.len(),
    {
        self.items.len()
    }

    pub fn capacity(&self) -> (n: usize)
        ensures
            n == self.spec_capacity(),
    {
        self.capacity
    }

    /// Offer an item to the back of the queue.  A queue at capacity refuses
    /// and returns the item unchanged; otherwise the item is appended.
    pub fn try_enqueue(&mut self, item: QueueItem) -> (r: Result<(), QueueItem>)
        requires
            old(self).wf(),
        ensures
            final(self).wf(),
            final(self).spec_capacity() == old(self).spec_capacity(),
            old(self)@.len() < old(self).spec_capacity() ==> r is Ok && final(self)@ =~= old(
                self,
            )@.push(item),
            old(self)@.len() >= old(self).spec_capacity() ==> r is Err && r->Err_0 == item
                && final(self)@ =~= old(self)@,
    {
        if self.items.len() < self.capacity {
            self.items.push(item);
            Ok(())
        } else {
            Err(item)
        }
    }

    /// Take the oldest item, or nothing from an empty queue.  After a
    /// successful dequeue the queue is strictly below capacity, so the
    /// producer's next offer is accepted.
    pub fn dequeue(&mut self) -> (r: Option<QueueItem>)
        requires
            old(self).wf(),
        ensures
            final(self).wf(),
            final(self).spec_capacity() == old(self).spec_capacity(),
            old(self)@.len() == 0 ==> r is None && final(self)@ =~= old(self)@,
            old(self)@.len() > 0 ==> r is Some && r->0 == old(self)@[0] && final(self)@ =~= old(
                self,
            )@.drop_first() && final(self)@.len() < final(self).spec_capacity(),
    {
        if self.items.len() == 0 {
            None
        } else {
            let item = self.items.remove(0);
            Some(item)
        }
    }
}

} // verus!
