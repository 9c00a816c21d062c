use vstd::prelude::*;

verus! {

use crate::message::TransferDataMessage;

/// The one shared outbound queue the Writer drains: bounded, first in first
/// out, never dropping an accepted frame.
pub struct OutboundQueue {
    pub items: Vec<TransferDataMessage>,
    pub capacity: usize,
}

/// Default bound of the outbound queue.
pub const DEFAULT_QUEUE_CAPACITY: usize = 32;

impl OutboundQueue {
    pub open spec fn wf(&self) -> bool {
        self.items@.len() <= self.capacity
    }

    /// An empty queue with the given bound.
    pub fn new(capacity: usize) -> (r: Self)
        ensures
            r.wf(),
            r.capacity == capacity,
            r.items@.len() == 0,
    {
        OutboundQueue { items: Vec::new(), capacity }
    }

    /// Offer a frame. A frame enqueued below the bound is appended at the
    /// tail; at the bound the queue is left unchanged and the frame is handed
    /// back to the producer, never silently dropped.
    pub fn try_enqueue(&mut self, msg: TransferDataMessage) -> (r: Option<TransferDataMessage>)
        requires
            old(self).wf(),
        ensures
            final(self).wf(),
            final(self).capacity == old(self).capacity,
            old(self).items@.len() < old(self).capacity ==> final(self).items@ == old(
                self,
            ).items@.push(msg) && r is None,
            old(self).items@.len() >= old(self).capacity ==> *final(self) == *old(self) && r == Some(
                msg,
            ),
    {
        if self.items.len() < self.capacity {
            self.items.push(msg);
            None
        } else {
            Some(msg)
        }
    }

    /// Take the oldest frame, the next one to appear on the wire.
    pub fn dequeue(&mut self) -> (r: Option<TransferDataMessage>)
        requires
            old(self).wf(),
        ensures
            final(self).wf(),
            final(self).capacity == old(self).capacity,
            old(self).items@.len() == 0 ==> r is None && *final(self) == *old(self),
            old(self).items@.len() > 0 ==> r == Some(old(self).items@[0]) && final(self).items@
                == old(self).items@.drop_first(),
    {
        if self.items.len() == 0 {
            None
        } else {
            let m = self.items.remove(0);
            proof {
                assert(old(self).items@.remove(0) =~= old(self).items@.drop_first());
            }
            Some(m)
        }
    }

    /// How many frames wait to be written.
    pub fn len(&self) -> (r: usize)
        ensures
            r == self.items@.len(),
    {
        self.items.len()
    }
}

} // verus!
