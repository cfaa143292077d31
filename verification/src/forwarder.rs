use vstd::prelude::*;

use crate::metric::FieldDelta;

verus! {

/// The tracking message mirrored to the analytics sink for one metric: the
/// owning client and the field mutations, sized by how many mutations it
/// carries.
#[derive(Debug, PartialEq, Eq)]
pub struct TrackingMessage {
    pub client_id: String,
    pub deltas: Vec<FieldDelta>,
}

impl TrackingMessage {
    /// The size the sink limits: the number of field mutations carried.
    pub open spec fn size(&self) -> int {
        self.deltas@.len() as int
    }
}

/// What the forwarder did with a pushed message.
#[derive(Clone, Copy, Debug, PartialEq, Eq, Structural)]
pub enum PushOutcome {
    /// The message was buffered for the next flush.
    Queued,
    /// The message exceeds the sink's size limit: it was dropped, and
    /// nothing else changed — later pushes are unaffected. Never escalated.
    TooLarge,
}

/// The best-effort analytics forwarder: buffers tracking messages and hands
/// the whole buffer out on flush. Push and flush failures are logged by the
/// caller and never block the primary write path.
pub struct AnalyticsForwarder {
    size_limit: usize,
    buffer: Vec<TrackingMessage>,
}

impl AnalyticsForwarder {
    /// The sink's size limit for a single message.
    pub closed spec fn limit(&self) -> int {
        self.size_limit as int
    }

    /// The messages buffered since the last flush, oldest first.
    pub closed spec fn queued(&self) -> Seq<TrackingMessage> {
        self.buffer@
    }

    /// Everything buffered respects the size limit.
    pub open spec fn wf(&self) -> bool {
        forall|i: int| 0 <= i < self.queued().len() ==> #[trigger] self.queued()[i].size()
            <= self.limit()
    }

    pub fn new(size_limit: usize) -> (f: AnalyticsForwarder)
        ensures
            f.wf(),
            f.limit() == size_limit,
            f.queued() == Seq::<TrackingMessage>::empty(),
    {
        AnalyticsForwarder { size_limit, buffer: Vec::new() }
    }

    /// Push one message, best-effort: a message over the size limit is
    /// dropped without affecting anything already queued or any later push.
    pub fn push(&mut self, m: TrackingMessage) -> (o: PushOutcome)
        requires
            old(self).wf(),
        ensures
            final(self).wf(),
            final(self).limit() == old(self).limit(),
            m.size() > old(self).limit() ==> {
                &&& o == PushOutcome::TooLarge
                &&& final(self).queued() == old(self).queued()
            },
            m.size() <= old(self).limit() ==> {
                &&& o == PushOutcome::Queued
                &&& final(self).queued() == old(self).queued().push(m)
            },
    {
        if m.deltas.len() > self.size_limit {
            PushOutcome::TooLarge
        } else {
            self.buffer.push(m);
            proof {
                assert forall|i: int|
                    0 <= i < self.queued().len() implies #[trigger] self.queued()[i].size()
                    <= self.limit() by {
                    if i < old(self).queued().len() {
                        assert(old(self).queued()[i].size() <= old(self).limit());
                    } else {
                        assert(self.queued()[i] == m);
                    }
                }
            }
            PushOutcome::Queued
        }
    }

    /// Flush: hand out everything queued, in push order, leaving the buffer
    /// empty. Invoked on the consumer's idle deadline, and exactly once more
    /// at consumer shutdown, so no buffered message is lost on graceful
    /// termination.
    pub fn flush(&mut self) -> (sent: Vec<TrackingMessage>)
        requires
            old(self).wf(),
        ensures
            final(self).wf(),
            final(self).limit() == old(self).limit(),
            final(self).queued() == Seq::<TrackingMessage>::empty(),
            sent@ == old(self).queued(),
    {
        let mut sent: Vec<TrackingMessage> = Vec::new();
        core::mem::swap(&mut sent, &mut self.buffer);
        sent
    }
}

} // verus!
