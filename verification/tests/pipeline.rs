use telemetry_pipeline::consumer::{consume_timeline, consumer_step};
use telemetry_pipeline::event::{EventBatcher, EventRecord};
use telemetry_pipeline::queue::{BoundedQueue, ReceiveEvent, SubmitOutcome};

fn ev(payload: &str) -> EventRecord {
    EventRecord { owner_id: "tenant-1".to_string(), payload: payload.to_string() }
}

#[test]
fn batch_dispatches_exactly_at_capacity() {
    let mut b = EventBatcher::new(3);
    assert_eq!(b.accept(ev("e1")), None);
    assert_eq!(b.accept(ev("e2")), None);
    let batch = b.accept(ev("e3")).expect("third record must fill the batch");
    assert_eq!(batch, vec![ev("e1"), ev("e2"), ev("e3")]);
    // The buffer was swapped for a fresh one: the next record starts over.
    assert_eq!(b.accept(ev("e4")), None);
}

#[test]
fn idle_flush_drains_pending_records_once() {
    let mut b = EventBatcher::new(3);
    assert_eq!(b.accept(ev("e1")), None);
    assert_eq!(b.accept(ev("e2")), None);
    // Idle deadline with 0 < K < C buffered: exactly one flush of K records.
    let flushed = b.flush_pending().expect("a non-empty buffer must flush");
    assert_eq!(flushed, vec![ev("e1"), ev("e2")]);
    // Nothing left: a second idle deadline flushes nothing.
    assert_eq!(b.flush_pending(), None);
}

#[test]
fn steady_submissions_batch_by_capacity() {
    // Five records at capacity two: ceil(5 / 2) = 3 write calls, each of
    // exactly two records except the last.
    let timeline = vec![
        ReceiveEvent::Delivered(ev("e1")),
        ReceiveEvent::Delivered(ev("e2")),
        ReceiveEvent::Delivered(ev("e3")),
        ReceiveEvent::Delivered(ev("e4")),
        ReceiveEvent::Delivered(ev("e5")),
        ReceiveEvent::Closed,
    ];
    let batches = consume_timeline(2, timeline);
    assert_eq!(
        batches,
        vec![vec![ev("e1"), ev("e2")], vec![ev("e3"), ev("e4")], vec![ev("e5")]]
    );
}

#[test]
fn steady_submissions_at_an_exact_multiple_leave_nothing_for_the_final_flush() {
    let timeline = vec![
        ReceiveEvent::Delivered(ev("e1")),
        ReceiveEvent::Delivered(ev("e2")),
        ReceiveEvent::Delivered(ev("e3")),
        ReceiveEvent::Delivered(ev("e4")),
        ReceiveEvent::Closed,
    ];
    let batches = consume_timeline(2, timeline);
    assert_eq!(batches, vec![vec![ev("e1"), ev("e2")], vec![ev("e3"), ev("e4")]]);
}

#[test]
fn idle_then_shutdown_scenario() {
    // capacity = 3: submit e1, e2; the idle deadline fires; then e3 arrives
    // and the queue closes. First write [e1, e2] (idle-triggered), second
    // write [e3] (shutdown-triggered).
    let timeline = vec![
        ReceiveEvent::Delivered(ev("e1")),
        ReceiveEvent::Delivered(ev("e2")),
        ReceiveEvent::TimedOut,
        ReceiveEvent::Delivered(ev("e3")),
        ReceiveEvent::Closed,
    ];
    let batches = consume_timeline(3, timeline);
    assert_eq!(batches, vec![vec![ev("e1"), ev("e2")], vec![ev("e3")]]);
}

#[test]
fn idle_with_empty_buffer_rearms_without_flush() {
    let timeline = vec![
        ReceiveEvent::TimedOut,
        ReceiveEvent::TimedOut,
        ReceiveEvent::Delivered(ev("e1")),
        ReceiveEvent::Closed,
    ];
    let batches = consume_timeline(3, timeline);
    assert_eq!(batches, vec![vec![ev("e1")]]);
}

#[test]
fn close_flushes_all_buffered_records_in_one_final_write() {
    let mut b = EventBatcher::new(10);
    let mut dispatched = Vec::new();
    for name in ["m1", "m2", "m3"] {
        if let Some(batch) = b.accept(ev(name)) {
            dispatched.push(batch);
        }
    }
    assert!(dispatched.is_empty());
    let out = consumer_step(&mut b, ReceiveEvent::Closed);
    assert!(out.terminated);
    assert_eq!(out.dispatch, Some(vec![ev("m1"), ev("m2"), ev("m3")]));
}

#[test]
fn queue_is_fifo_and_bounded() {
    let mut q: BoundedQueue<EventRecord> = BoundedQueue::new(2);
    assert_eq!(q.submit(ev("a")), SubmitOutcome::Accepted);
    assert_eq!(q.submit(ev("b")), SubmitOutcome::Accepted);
    // At capacity: the producer is pushed back, nothing is dropped.
    assert_eq!(q.submit(ev("c")), SubmitOutcome::Saturated);
    match q.receive() {
        ReceiveEvent::Delivered(r) => assert_eq!(r, ev("a")),
        _ => panic!("expected the oldest record"),
    }
    assert_eq!(q.submit(ev("c")), SubmitOutcome::Accepted);
}

#[test]
fn no_submit_succeeds_after_close_and_queued_records_still_deliver() {
    let mut q: BoundedQueue<EventRecord> = BoundedQueue::new(4);
    assert_eq!(q.submit(ev("a")), SubmitOutcome::Accepted);
    assert_eq!(q.submit(ev("b")), SubmitOutcome::Accepted);
    q.close();
    assert_eq!(q.submit(ev("c")), SubmitOutcome::Closed);
    match q.receive() {
        ReceiveEvent::Delivered(r) => assert_eq!(r, ev("a")),
        _ => panic!("queued records must still be delivered after close"),
    }
    match q.receive() {
        ReceiveEvent::Delivered(r) => assert_eq!(r, ev("b")),
        _ => panic!("queued records must still be delivered after close"),
    }
    assert!(matches!(q.receive(), ReceiveEvent::Closed));
}

#[test]
fn nothing_is_consumed_after_closure() {
    let timeline = vec![
        ReceiveEvent::Delivered(ev("e1")),
        ReceiveEvent::Closed,
        ReceiveEvent::Delivered(ev("e2")),
    ];
    let batches = consume_timeline(3, timeline);
    assert_eq!(batches, vec![vec![ev("e1")]]);
}

#[test]
fn empty_open_queue_times_out() {
    let mut q: BoundedQueue<EventRecord> = BoundedQueue::new(1);
    assert!(matches!(q.receive(), ReceiveEvent::TimedOut));
}
