use vstd::prelude::*;

use crate::div_ceil;
use crate::event::{EventBatcher, EventRecord};
use crate::queue::ReceiveEvent;

verus! {

/// What one consumer step asks its caller to do.
pub struct StepOutcome {
    /// A batch to hand to the batch writer, dispatched fire-and-forget:
    /// a slow or failing write never stalls intake.
    pub dispatch: Option<Vec<EventRecord>>,
    /// The queue closed and the final flush above (if any) was issued:
    /// the consumer is drained and must not be stepped again.
    pub terminated: bool,
}

/// The batches dispatched by the event consumer, starting from buffer `buf`,
/// while it works through the receive outcomes `tl` with batch capacity `c`.
///
/// A delivered record joins the buffer, which is dispatched exactly when it
/// reaches `c`; an idle deadline dispatches a non-empty buffer; closure
/// dispatches whatever is left and ends the run.
pub open spec fn run_batches(
    buf: Seq<EventRecord>,
    tl: Seq<ReceiveEvent<EventRecord>>,
    c: int,
) -> Seq<Seq<EventRecord>>
    decreases tl.len(),
{
    if tl.len() == 0 {
        Seq::empty()
    } else {
        match tl[0] {
            ReceiveEvent::Delivered(r) => {
                let grown = buf.push(r);
                if grown.len() == c {
                    seq![grown] + run_batches(Seq::empty(), tl.drop_first(), c)
                } else {
                    run_batches(grown, tl.drop_first(), c)
                }
            },
            ReceiveEvent::TimedOut => {
                if buf.len() > 0 {
                    seq![buf] + run_batches(Seq::empty(), tl.drop_first(), c)
                } else {
                    run_batches(buf, tl.drop_first(), c)
                }
            },
            ReceiveEvent::Closed => {
                if buf.len() > 0 {
                    seq![buf]
                } else {
                    Seq::empty()
                }
            },
        }
    }
}

/// What stays buffered (not yet dispatched) after the same run.
pub open spec fn run_leftover(
    buf: Seq<EventRecord>,
    tl: Seq<ReceiveEvent<EventRecord>>,
    c: int,
) -> Seq<EventRecord>
    decreases tl.len(),
{
    if tl.len() == 0 {
        buf
    } else {
        match tl[0] {
            ReceiveEvent::Delivered(r) => {
                let grown = buf.push(r);
                if grown.len() == c {
                    run_leftover(Seq::empty(), tl.drop_first(), c)
                } else {
                    run_leftover(grown, tl.drop_first(), c)
                }
            },
            ReceiveEvent::TimedOut => {
                if buf.len() > 0 {
                    run_leftover(Seq::empty(), tl.drop_first(), c)
                } else {
                    run_leftover(buf, tl.drop_first(), c)
                }
            },
            ReceiveEvent::Closed => Seq::empty(),
        }
    }
}

/// The records delivered to the consumer, in delivery order, up to closure.
pub open spec fn delivered(tl: Seq<ReceiveEvent<EventRecord>>) -> Seq<EventRecord>
    decreases tl.len(),
{
    if tl.len() == 0 {
        Seq::empty()
    } else {
        match tl[0] {
            ReceiveEvent::Delivered(r) => seq![r] + delivered(tl.drop_first()),
            ReceiveEvent::TimedOut => delivered(tl.drop_first()),
            ReceiveEvent::Closed => Seq::empty(),
        }
    }
}

/// Whether the consumer observes closure somewhere in `tl`.
pub open spec fn observes_close(tl: Seq<ReceiveEvent<EventRecord>>) -> bool
    decreases tl.len(),
{
    if tl.len() == 0 {
        false
    } else {
        tl[0] is Closed || observes_close(tl.drop_first())
    }
}

/// The views of a vector of dispatched batches.
pub open spec fn views_of(batches: Seq<Vec<EventRecord>>) -> Seq<Seq<EventRecord>> {
    batches.map_values(|b: Vec<EventRecord>| b@)
}

proof fn lemma_views_push(s: Seq<Vec<EventRecord>>, v: Vec<EventRecord>)
    ensures
        views_of(s.push(v)) == views_of(s).push(v@),
{
    assert(views_of(s.push(v)) =~= views_of(s).push(v@));
}

/// One step of the event consumer state machine: feed it the outcome of one
/// receive attempt and get the batch to dispatch, if any.
///
/// On an idle deadline with `K` records buffered (`0 < K <` capacity),
/// exactly one flush of exactly those `K` records occurs, before any further
/// accumulation: the buffer is empty afterwards. On closure, exactly one
/// final flush of everything still buffered is issued and the consumer
/// terminates.
pub fn consumer_step(b: &mut EventBatcher, ev: ReceiveEvent<EventRecord>) -> (out: StepOutcome)
    requires
        old(b).wf(),
    ensures
        final(b).wf(),
        final(b).cap() == old(b).cap(),
        match ev {
            ReceiveEvent::Delivered(r) => {
                &&& !out.terminated
                &&& if old(b).buf().len() + 1 == old(b).cap() {
                    &&& (out.dispatch matches Some(batch) && batch@ == old(b).buf().push(r))
                    &&& final(b).buf() == Seq::<EventRecord>::empty()
                } else {
                    &&& out.dispatch is None
                    &&& final(b).buf() == old(b).buf().push(r)
                }
            },
            ReceiveEvent::TimedOut => {
                &&& !out.terminated
                &&& final(b).buf() == Seq::<EventRecord>::empty()
                &&& if old(b).buf().len() > 0 {
                    (out.dispatch matches Some(batch) && batch@ == old(b).buf())
                } else {
                    out.dispatch is None
                }
            },
            ReceiveEvent::Closed => {
                &&& out.terminated
                &&& final(b).buf() == Seq::<EventRecord>::empty()
                &&& if old(b).buf().len() > 0 {
                    (out.dispatch matches Some(batch) && batch@ == old(b).buf())
                } else {
                    out.dispatch is None
                }
            },
        },
    {
    match ev {
        ReceiveEvent::Delivered(r) => {
            let dispatch = b.accept(r);
            StepOutcome { dispatch, terminated: false }
        },
        ReceiveEvent::TimedOut => {
            let dispatch = b.flush_pending();
            StepOutcome { dispatch, terminated: false }
        },
        ReceiveEvent::Closed => {
            let dispatch = b.flush_pending();
            StepOutcome { dispatch, terminated: true }
        },
    }
}

/// Run the event consumer over a whole sequence of receive outcomes and
/// collect every dispatched batch, in dispatch order.
pub fn consume_timeline(capacity: usize, timeline: Vec<ReceiveEvent<EventRecord>>) -> (batches:
    Vec<Vec<EventRecord>>)
    requires
        capacity > 0,
    ensures
        views_of(batches@) == run_batches(
            Seq::<EventRecord>::empty(),
            timeline@,
            capacity as int,
        ),
{
    let ghost goal = run_batches(Seq::<EventRecord>::empty(), timeline@, capacity as int);
    let ghost c = capacity as int;
    let mut timeline = timeline;
    let mut batcher = EventBatcher::new(capacity);
    let mut batches: Vec<Vec<EventRecord>> = Vec::new();
    let mut terminated = false;
    proof {
        assert(views_of(batches@) =~= Seq::<Seq<EventRecord>>::empty());
    }
    while !terminated && timeline.len() > 0
        invariant
            c == capacity > 0,
            batcher.wf(),
            batcher.cap() == c,
            !terminated ==> goal == views_of(batches@) + run_batches(batcher.buf(), timeline@, c),
            terminated ==> goal == views_of(batches@),
        decreases timeline@.len(),
    {
        let ghost pre_buf = batcher.buf();
        let ghost pre_tl = timeline@;
        let ev = timeline.remove(0);
        proof {
            assert(timeline@ =~= pre_tl.drop_first());
        }
        let out = consumer_step(&mut batcher, ev);
        let ghost gdispatch = out.dispatch;
        let ghost pre_batches = batches@;
        if let Some(batch) = out.dispatch {
            batches.push(batch);
        }
        terminated = out.terminated;
        proof {
            let rest = pre_tl.drop_first();
            match gdispatch {
                Some(batch) => {
                    lemma_views_push(pre_batches, batch);
                    assert(run_batches(pre_buf, pre_tl, c) == seq![batch@] + run_batches(
                        batcher.buf(),
                        timeline@,
                        c,
                    ) || (terminated && run_batches(pre_buf, pre_tl, c) == seq![batch@]));
                    if terminated {
                        assert(run_batches(pre_buf, pre_tl, c) =~= seq![batch@]);
                        assert(views_of(pre_batches) + seq![batch@] =~= views_of(batches@));
                        assert(goal == views_of(batches@));
                    } else {
                        assert(views_of(pre_batches) + (seq![batch@] + run_batches(
                            batcher.buf(),
                            timeline@,
                            c,
                        )) =~= views_of(batches@) + run_batches(batcher.buf(), timeline@, c));
                        assert(goal == views_of(batches@) + run_batches(batcher.buf(), timeline@, c));
                    }
                },
                None => {
                    if terminated {
                        assert(run_batches(pre_buf, pre_tl, c) =~= Seq::<Seq<EventRecord>>::empty());
                        assert(views_of(pre_batches) + Seq::<Seq<EventRecord>>::empty()
                            =~= views_of(batches@));
                        assert(goal == views_of(batches@));
                    } else {
                        if pre_tl[0] is TimedOut {
                            assert(pre_buf =~= Seq::<EventRecord>::empty());
                        }
                        assert(run_batches(pre_buf, pre_tl, c) == run_batches(
                            batcher.buf(),
                            timeline@,
                            c,
                        ));
                    }
                },
            }
        }
    }
    proof {
        if !terminated {
            assert(run_batches(batcher.buf(), timeline@, c) =~= Seq::<Seq<EventRecord>>::empty());
            assert(goal =~= views_of(batches@));
        }
    }
    batches
}

proof fn lemma_flatten_cons(x: Seq<EventRecord>, r: Seq<Seq<EventRecord>>)
    ensures
        (seq![x] + r).flatten() == x + r.flatten(),
{
    assert((seq![x] + r).drop_first() =~= r);
    assert((seq![x] + r).flatten() == (seq![x] + r).first() + (seq![x] + r).drop_first().flatten());
}

/// No record is lost, duplicated or reordered by the consumer: the
/// dispatched batches, concatenated in dispatch order, followed by whatever
/// is still buffered, are exactly the records delivered to the consumer, in
/// delivery (that is, submission) order. In particular, for any two records
/// A delivered before B that land in the same batch, A precedes B in that
/// batch.
pub proof fn lemma_run_preserves_order(
    buf: Seq<EventRecord>,
    tl: Seq<ReceiveEvent<EventRecord>>,
    c: int,
)
    requires
        c > 0,
        buf.len() < c,
    ensures
        run_batches(buf, tl, c).flatten() + run_leftover(buf, tl, c) == buf + delivered(tl),
    decreases tl.len(),
{
    if tl.len() == 0 {
        assert(Seq::<Seq<EventRecord>>::empty().flatten() =~= Seq::<EventRecord>::empty());
        assert(Seq::<EventRecord>::empty() + buf =~= buf + Seq::<EventRecord>::empty());
    } else {
        let rest = tl.drop_first();
        match tl[0] {
            ReceiveEvent::Delivered(r) => {
                let grown = buf.push(r);
                if grown.len() == c {
                    lemma_run_preserves_order(Seq::empty(), rest, c);
                    let rb = run_batches(Seq::<EventRecord>::empty(), rest, c);
                    let lo = run_leftover(Seq::<EventRecord>::empty(), rest, c);
                    lemma_flatten_cons(grown, rb);
                    assert(Seq::<EventRecord>::empty() + delivered(rest) =~= delivered(rest));
                    assert((grown + rb.flatten()) + lo =~= grown + (rb.flatten() + lo));
                    assert(grown + delivered(rest) =~= buf + (seq![r] + delivered(rest)));
                } else {
                    lemma_run_preserves_order(grown, rest, c);
                    assert(grown + delivered(rest) =~= buf + (seq![r] + delivered(rest)));
                }
            },
            ReceiveEvent::TimedOut => {
                if buf.len() > 0 {
                    lemma_run_preserves_order(Seq::empty(), rest, c);
                    let rb = run_batches(Seq::<EventRecord>::empty(), rest, c);
                    let lo = run_leftover(Seq::<EventRecord>::empty(), rest, c);
                    lemma_flatten_cons(buf, rb);
                    assert(Seq::<EventRecord>::empty() + delivered(rest) =~= delivered(rest));
                    assert((buf + rb.flatten()) + lo =~= buf + (rb.flatten() + lo));
                } else {
                    lemma_run_preserves_order(buf, rest, c);
                }
            },
            ReceiveEvent::Closed => {
                if buf.len() > 0 {
                    lemma_flatten_cons(buf, Seq::empty());
                    assert(seq![buf] + Seq::<Seq<EventRecord>>::empty() =~= seq![buf]);
                    assert(Seq::<Seq<EventRecord>>::empty().flatten()
                        =~= Seq::<EventRecord>::empty());
                    assert(buf + Seq::<EventRecord>::empty() + Seq::<EventRecord>::empty()
                        =~= buf + Seq::<EventRecord>::empty());
                } else {
                    assert(Seq::<Seq<EventRecord>>::empty().flatten()
                        =~= Seq::<EventRecord>::empty());
                    assert(Seq::<EventRecord>::empty() + Seq::<EventRecord>::empty()
                        =~= buf + Seq::<EventRecord>::empty());
                }
            },
        }
    }
}

/// Once the consumer observes closure, nothing stays buffered.
pub proof fn lemma_close_leaves_nothing(
    buf: Seq<EventRecord>,
    tl: Seq<ReceiveEvent<EventRecord>>,
    c: int,
)
    requires
        observes_close(tl),
    ensures
        run_leftover(buf, tl, c) == Seq::<EventRecord>::empty(),
    decreases tl.len(),
{
    let rest = tl.drop_first();
    match tl[0] {
        ReceiveEvent::Delivered(r) => {
            let grown = buf.push(r);
            if grown.len() == c {
                lemma_close_leaves_nothing(Seq::empty(), rest, c);
            } else {
                lemma_close_leaves_nothing(grown, rest, c);
            }
        },
        ReceiveEvent::TimedOut => {
            if buf.len() > 0 {
                lemma_close_leaves_nothing(Seq::empty(), rest, c);
            } else {
                lemma_close_leaves_nothing(buf, rest, c);
            }
        },
        ReceiveEvent::Closed => {
        },
    }
}

/// Queue closure drains everything: when the consumer observes closure, the
/// dispatched batches, concatenated, are exactly the records delivered, in
/// order — the final flush carries every buffered, unflushed record, and
/// nothing stays behind.
pub proof fn lemma_close_drains_all(
    buf: Seq<EventRecord>,
    tl: Seq<ReceiveEvent<EventRecord>>,
    c: int,
)
    requires
        c > 0,
        buf.len() < c,
        observes_close(tl),
    ensures
        run_batches(buf, tl, c).flatten() == buf + delivered(tl),
{
    lemma_run_preserves_order(buf, tl, c);
    lemma_close_leaves_nothing(buf, tl, c);
    assert(run_batches(buf, tl, c).flatten() + Seq::<EventRecord>::empty() =~= run_batches(
        buf,
        tl,
        c,
    ).flatten());
}

/// When submissions outpace the idle deadline — every receive up to closure
/// delivers a record, and no idle deadline fires — a run over N delivered
/// records dispatches exactly `ceil(N / c)` write calls, each carrying
/// exactly `c` records except possibly the last, which is non-empty.
pub proof fn lemma_steady_submission_batches(
    buf: Seq<EventRecord>,
    tl: Seq<ReceiveEvent<EventRecord>>,
    c: int,
)
    requires
        c > 0,
        buf.len() < c,
        tl.len() >= 1,
        tl[tl.len() - 1] is Closed,
        forall|i: int| 0 <= i < tl.len() - 1 ==> tl[i] is Delivered,
    ensures
        run_batches(buf, tl, c).len() == div_ceil(buf.len() + tl.len() - 1, c),
        forall|j: int|
            0 <= j < run_batches(buf, tl, c).len() - 1 ==> #[trigger] run_batches(
                buf,
                tl,
                c,
            )[j].len() == c,
        run_batches(buf, tl, c).len() > 0 ==> 0 < run_batches(buf, tl, c)[run_batches(
            buf,
            tl,
            c,
        ).len() - 1].len() <= c,
    decreases tl.len(),
{
    if tl.len() == 1 {
        assert(tl[0] is Closed);
    } else {
        let rest = tl.drop_first();
        assert(tl[0] is Delivered);
        assert(rest[rest.len() - 1] is Closed);
        assert(forall|i: int| 0 <= i < rest.len() - 1 ==> #[trigger] rest[i] == tl[i + 1]);
        let r = tl[0]->Delivered_0;
        let grown = buf.push(r);
        if grown.len() == c {
            lemma_steady_submission_batches(Seq::empty(), rest, c);
            let rb = run_batches(Seq::<EventRecord>::empty(), rest, c);
            let run = run_batches(buf, tl, c);
            assert(run == seq![grown] + rb);
            assert(run.len() == 1 + rb.len());
            assert(rb.len() == div_ceil(rest.len() - 1, c));
            assert(div_ceil(buf.len() + tl.len() - 1, c) == 1 + div_ceil(tl.len() - 2, c));
            assert forall|j: int| 0 <= j < run.len() - 1 implies #[trigger] run[j].len() == c by {
                if j == 0 {
                    assert(run[0] == grown);
                } else {
                    assert(run[j] == rb[j - 1]);
                }
            }
            if run.len() > 0 {
                if rb.len() == 0 {
                    assert(run[run.len() - 1] == grown);
                } else {
                    assert(run[run.len() - 1] == rb[rb.len() - 1]);
                }
            }
        } else {
            lemma_steady_submission_batches(grown, rest, c);
        }
    }
}

} // verus!
