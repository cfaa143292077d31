use vstd::prelude::*;

verus! {

/// What a producer sees when it submits a record.
#[derive(Clone, Copy, Debug, PartialEq, Eq, Structural)]
pub enum SubmitOutcome {
    /// The record was enqueued.
    Accepted,
    /// The queue is at capacity: the producer must wait for the consumer to
    /// drain before retrying. This is the backpressure policy: producers slow
    /// down rather than records being dropped or the queue growing unbounded.
    Saturated,
    /// The queue was closed: the record was not enqueued and never will be.
    Closed,
}

/// What the single consumer sees on one receive attempt with a deadline.
pub enum ReceiveEvent<T> {
    /// A record arrived within the idle deadline.
    Delivered(T),
    /// No record arrived within the idle deadline; the queue is still open.
    TimedOut,
    /// The queue is closed and every queued record has been delivered.
    Closed,
}

/// The bounded submission queue: a fixed-capacity FIFO decoupling many
/// producers from the single consumer of one telemetry kind.
///
/// Closing is terminal: no later `submit` succeeds, but records queued
/// before the close are still delivered to the consumer before the consumer
/// observes closure.
pub struct BoundedQueue<T> {
    capacity: usize,
    pending: Vec<T>,
    closed: bool,
}

impl<T> BoundedQueue<T> {
    /// The capacity fixed at construction.
    pub closed spec fn cap(&self) -> int {
        self.capacity as int
    }

    /// The queued records not yet delivered, in submission order.
    pub closed spec fn queued(&self) -> Seq<T> {
        self.pending@
    }

    /// Whether the queue has been closed.
    pub closed spec fn is_closed(&self) -> bool {
        self.closed
    }

    /// The queue never holds more than its capacity.
    pub open spec fn wf(&self) -> bool {
        &&& self.cap() > 0
        &&& self.queued().len() <= self.cap()
    }

    pub fn new(capacity: usize) -> (q: BoundedQueue<T>)
        requires
            capacity > 0,
        ensures
            q.wf(),
            q.cap() == capacity,
            q.queued() == Seq::<T>::empty(),
            !q.is_closed(),
    {
        BoundedQueue { capacity, pending: Vec::new(), closed: false }
    }

    /// Submit one record. FIFO: an accepted record goes behind everything
    /// queued before it, and nothing is duplicated or reordered. After the
    /// queue is closed no submission ever succeeds.
    pub fn submit(&mut self, record: T) -> (outcome: SubmitOutcome)
        requires
            old(self).wf(),
        ensures
            final(self).wf(),
            final(self).cap() == old(self).cap(),
            final(self).is_closed() == old(self).is_closed(),
            old(self).is_closed() ==> {
                &&& outcome == SubmitOutcome::Closed
                &&& final(self).queued() == old(self).queued()
            },
            !old(self).is_closed() && old(self).queued().len() == old(self).cap() ==> {
                &&& outcome == SubmitOutcome::Saturated
                &&& final(self).queued() == old(self).queued()
            },
            !old(self).is_closed() && old(self).queued().len() < old(self).cap() ==> {
                &&& outcome == SubmitOutcome::Accepted
                &&& final(self).queued() == old(self).queued().push(record)
            },
    {
        if self.closed {
            SubmitOutcome::Closed
        } else if self.pending.len() == self.capacity {
            SubmitOutcome::Saturated
        } else {
            self.pending.push(record);
            SubmitOutcome::Accepted
        }
    }

    /// Close the queue. Terminal, and the sole shutdown signal: records
    /// already queued stay queued and will still be delivered.
    pub fn close(&mut self)
        requires
            old(self).wf(),
        ensures
            final(self).wf(),
            final(self).cap() == old(self).cap(),
            final(self).is_closed(),
            final(self).queued() == old(self).queued(),
    {
        self.closed = true;
    }

    /// One receive attempt by the consumer. Oldest record first; with
    /// nothing queued, an open queue reports an idle deadline and a closed
    /// queue reports closure, so the consumer observes closure only after
    /// every queued record has been delivered.
    pub fn receive(&mut self) -> (ev: ReceiveEvent<T>)
        requires
            old(self).wf(),
        ensures
            final(self).wf(),
            final(self).cap() == old(self).cap(),
            final(self).is_closed() == old(self).is_closed(),
            old(self).queued().len() > 0 ==> {
                &&& (ev matches ReceiveEvent::Delivered(r) && r == old(self).queued()[0])
                &&& final(self).queued() == old(self).queued().drop_first()
            },
            old(self).queued().len() == 0 ==> final(self).queued() == old(self).queued(),
            old(self).queued().len() == 0 && !old(self).is_closed() ==> ev is TimedOut,
            old(self).queued().len() == 0 && old(self).is_closed() ==> ev is Closed,
    {
        if self.pending.len() > 0 {
            let r = self.pending.remove(0);
            ReceiveEvent::Delivered(r)
        } else if self.closed {
            ReceiveEvent::Closed
        } else {
            ReceiveEvent::TimedOut
        }
    }
}

} // verus!
