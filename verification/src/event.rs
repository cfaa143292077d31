use vstd::prelude::*;

verus! {

/// One unit of event telemetry: an opaque payload plus the identifier of the
/// tenant that owns it. Immutable once submitted.
#[derive(Debug, PartialEq, Eq)]
pub struct EventRecord {
    pub owner_id: String,
    pub payload: String,
}

/// The batch accumulator and flush scheduler for the event kind.
///
/// Records are buffered in submission order and the whole buffer is handed
/// out (never appended to while draining: the caller receives the full `Vec`
/// and a fresh empty buffer takes its place) either when it reaches the
/// configured batch capacity, or when the caller reports an idle deadline or
/// queue closure while records are pending.
pub struct EventBatcher {
    capacity: usize,
    buffer: Vec<EventRecord>,
}

impl EventBatcher {
    /// The batch capacity fixed at construction.
    pub closed spec fn cap(&self) -> int {
        self.capacity as int
    }

    /// The records currently buffered, in submission order.
    pub closed spec fn buf(&self) -> Seq<EventRecord> {
        self.buffer@
    }

    /// Between flush decisions the buffer stays strictly below capacity:
    /// a buffer that reaches capacity is dispatched at once.
    pub open spec fn wf(&self) -> bool {
        &&& self.cap() > 0
        &&& self.buf().len() < self.cap()
    }

    pub fn new(capacity: usize) -> (b: EventBatcher)
        requires
            capacity > 0,
        ensures
            b.wf(),
            b.cap() == capacity,
            b.buf() == Seq::<EventRecord>::empty(),
    {
        EventBatcher { capacity, buffer: Vec::new() }
    }

    /// A record arrived within the idle deadline: append it to the buffer,
    /// and dispatch the whole buffer exactly when it reaches capacity.
    pub fn accept(&mut self, r: EventRecord) -> (dispatched: Option<Vec<EventRecord>>)
        requires
            old(self).wf(),
        ensures
            final(self).wf(),
            final(self).cap() == old(self).cap(),
            old(self).buf().len() + 1 == old(self).cap() ==> {
                &&& (dispatched matches Some(batch) && batch@ == old(self).buf().push(r))
                &&& final(self).buf() == Seq::<EventRecord>::empty()
            },
            old(self).buf().len() + 1 < old(self).cap() ==> {
                &&& dispatched is None
                &&& final(self).buf() == old(self).buf().push(r)
            },
    {
        self.buffer.push(r);
        if self.buffer.len() == self.capacity {
            let mut full: Vec<EventRecord> = Vec::new();
            core::mem::swap(&mut full, &mut self.buffer);
            Some(full)
        } else {
            None
        }
    }

    /// The idle deadline elapsed with no new record, or the queue closed:
    /// flush whatever is pending, in submission order. An empty buffer
    /// flushes nothing, so an idle period with no pending data dispatches
    /// no write.
    pub fn flush_pending(&mut self) -> (dispatched: Option<Vec<EventRecord>>)
        requires
            old(self).wf(),
        ensures
            final(self).wf(),
            final(self).cap() == old(self).cap(),
            final(self).buf() == Seq::<EventRecord>::empty(),
            old(self).buf().len() > 0 ==> (dispatched matches Some(batch) && batch@ == old(
                self,
            ).buf()),
            old(self).buf().len() == 0 ==> dispatched is None,
    {
        if self.buffer.len() > 0 {
            let mut full: Vec<EventRecord> = Vec::new();
            core::mem::swap(&mut full, &mut self.buffer);
            Some(full)
        } else {
            None
        }
    }
}

} // verus!
