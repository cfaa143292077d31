use telemetry_pipeline::forwarder::{AnalyticsForwarder, PushOutcome, TrackingMessage};
use telemetry_pipeline::metric::{
    consume_metric_timeline, metric_consumer_step, plan_upserts, record_dual_outcome, update_doc,
    FieldDelta, MetricRecord, MetricStoreModel,
};
use telemetry_pipeline::queue::ReceiveEvent;

fn count_metric(client: &str, amount: i64) -> MetricRecord {
    MetricRecord {
        client_id: client.to_string(),
        deltas: vec![FieldDelta { field: "count".to_string(), amount }],
    }
}

#[test]
fn one_metric_plans_two_upserts_with_identical_updates() {
    // Submit metric {clientId: "c1", count + 1}: expect an upsert filtered
    // by clientId "c1" and one filtered by the system id, both carrying the
    // same update document {count += 1}.
    let m = count_metric("c1", 1);
    let (client_cmd, system_cmd) = plan_upserts(&m, "system");
    assert_eq!(client_cmd.filter_client_id, "c1");
    assert_eq!(system_cmd.filter_client_id, "system");
    assert_eq!(client_cmd.update.increments, m.deltas);
    assert_eq!(system_cmd.update.increments, m.deltas);
    assert_eq!(client_cmd.update, system_cmd.update);
}

#[test]
fn update_doc_carries_exactly_the_metric_fields() {
    let m = MetricRecord {
        client_id: "c9".to_string(),
        deltas: vec![
            FieldDelta { field: "count".to_string(), amount: 1 },
            FieldDelta { field: "bytes".to_string(), amount: 512 },
        ],
    };
    let d = update_doc(&m);
    assert_eq!(d.increments, m.deltas);
}

#[test]
fn failed_client_upsert_does_not_prevent_or_alter_the_system_upsert() {
    let mut store = MetricStoreModel::new();
    let m = count_metric("c1", 1);
    let cmds = plan_upserts(&m, "system");
    record_dual_outcome(&mut store, &cmds, false, true);
    assert_eq!(store.applied_count(&"c1".to_string()), 0);
    assert_eq!(store.applied_count(&"system".to_string()), 1);
}

#[test]
fn failed_system_upsert_does_not_prevent_or_alter_the_client_upsert() {
    let mut store = MetricStoreModel::new();
    let m = count_metric("c1", 1);
    let cmds = plan_upserts(&m, "system");
    record_dual_outcome(&mut store, &cmds, true, false);
    assert_eq!(store.applied_count(&"c1".to_string()), 1);
    assert_eq!(store.applied_count(&"system".to_string()), 0);
}

#[test]
fn each_delivered_metric_reaches_both_destinations_and_no_other() {
    let mut store = MetricStoreModel::new();
    for _ in 0..3 {
        let m = count_metric("c1", 1);
        let cmds = plan_upserts(&m, "system");
        record_dual_outcome(&mut store, &cmds, true, true);
    }
    let m = count_metric("c2", 5);
    let cmds = plan_upserts(&m, "system");
    record_dual_outcome(&mut store, &cmds, true, true);
    assert_eq!(store.applied_count(&"c1".to_string()), 3);
    assert_eq!(store.applied_count(&"c2".to_string()), 1);
    assert_eq!(store.applied_count(&"system".to_string()), 4);
    assert_eq!(store.applied_count(&"c3".to_string()), 0);
}

#[test]
fn delivered_metric_forwards_when_configured() {
    let m = count_metric("c1", 1);
    let out = metric_consumer_step(ReceiveEvent::Delivered(m), "system", true);
    assert!(!out.terminated);
    assert!(!out.flush_forwarder);
    let (client_cmd, system_cmd) = out.upserts.expect("a delivered metric must be written");
    assert_eq!(client_cmd.filter_client_id, "c1");
    assert_eq!(system_cmd.filter_client_id, "system");
    let msg = out.forward.expect("forwarding is configured");
    assert_eq!(msg.client_id, "c1");
    assert_eq!(msg.deltas, vec![FieldDelta { field: "count".to_string(), amount: 1 }]);
}

#[test]
fn delivered_metric_does_not_forward_when_unconfigured() {
    let m = count_metric("c1", 1);
    let out = metric_consumer_step(ReceiveEvent::Delivered(m), "system", false);
    assert!(out.upserts.is_some());
    assert_eq!(out.forward, None);
    assert!(!out.flush_forwarder);
}

#[test]
fn idle_deadline_triggers_forwarder_flush_even_with_no_metric() {
    let out = metric_consumer_step(ReceiveEvent::TimedOut, "system", true);
    assert!(!out.terminated);
    assert!(out.upserts.is_none());
    assert!(out.forward.is_none());
    assert!(out.flush_forwarder);
}

#[test]
fn closure_flushes_forwarder_exactly_once_more_then_terminates() {
    let out = metric_consumer_step(ReceiveEvent::Closed, "system", true);
    assert!(out.terminated);
    assert!(out.upserts.is_none());
    assert!(out.forward.is_none());
    assert!(out.flush_forwarder);
    // Without forwarding configured, closure still terminates, with no flush.
    let out = metric_consumer_step(ReceiveEvent::Closed, "system", false);
    assert!(out.terminated);
    assert!(!out.flush_forwarder);
}

#[test]
fn forwarder_flushes_once_per_idle_and_exactly_once_more_on_close() {
    let timeline = vec![
        ReceiveEvent::Delivered(count_metric("c1", 1)),
        ReceiveEvent::TimedOut,
        ReceiveEvent::Delivered(count_metric("c2", 2)),
        ReceiveEvent::Delivered(count_metric("c1", 1)),
        ReceiveEvent::TimedOut,
        ReceiveEvent::Closed,
    ];
    let log = consume_metric_timeline(timeline, "system", true);
    assert_eq!(log.upserts.len(), 3);
    assert_eq!(log.forwarded.len(), 3);
    // Two idle flushes, then exactly one more at closure, after the last
    // metric was processed.
    assert_eq!(log.forwarder_flushes, 3);
    assert_eq!(log.upserts[1].0.filter_client_id, "c2");
    assert_eq!(log.upserts[1].1.filter_client_id, "system");
    assert_eq!(log.forwarded[2].client_id, "c1");
}

#[test]
fn unconfigured_forwarding_pushes_and_flushes_nothing() {
    let timeline = vec![
        ReceiveEvent::Delivered(count_metric("c1", 1)),
        ReceiveEvent::TimedOut,
        ReceiveEvent::Closed,
    ];
    let log = consume_metric_timeline(timeline, "system", false);
    assert_eq!(log.upserts.len(), 1);
    assert!(log.forwarded.is_empty());
    assert_eq!(log.forwarder_flushes, 0);
}

fn msg(client: &str, fields: usize) -> TrackingMessage {
    let mut deltas = Vec::new();
    for i in 0..fields {
        deltas.push(FieldDelta { field: format!("f{i}"), amount: 1 });
    }
    TrackingMessage { client_id: client.to_string(), deltas }
}

#[test]
fn oversize_message_is_dropped_without_affecting_later_pushes() {
    let mut f = AnalyticsForwarder::new(2);
    assert_eq!(f.push(msg("c1", 3)), PushOutcome::TooLarge);
    assert_eq!(f.push(msg("c2", 1)), PushOutcome::Queued);
    assert_eq!(f.push(msg("c3", 2)), PushOutcome::Queued);
    let sent = f.flush();
    assert_eq!(sent, vec![msg("c2", 1), msg("c3", 2)]);
}

#[test]
fn flush_empties_the_forwarder_buffer() {
    let mut f = AnalyticsForwarder::new(8);
    assert_eq!(f.push(msg("c1", 1)), PushOutcome::Queued);
    assert_eq!(f.flush(), vec![msg("c1", 1)]);
    assert_eq!(f.flush(), Vec::<TrackingMessage>::new());
}
