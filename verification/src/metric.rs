use vstd::prelude::*;

use crate::forwarder::TrackingMessage;
use crate::queue::ReceiveEvent;

verus! {

/// One additive field mutation: `field` is increased by `amount`.
#[derive(Debug, PartialEq, Eq)]
pub struct FieldDelta {
    pub field: String,
    pub amount: i64,
}

impl Clone for FieldDelta {
    fn clone(&self) -> (r: Self)
        ensures
            r == *self,
    {
        FieldDelta { field: self.field.clone(), amount: self.amount }
    }
}

/// One unit of metric telemetry: the owning client and the measured field
/// mutations. Two logical destinations are derived from it: the per-client
/// aggregate document and the fixed-key system aggregate document.
#[derive(Debug, PartialEq, Eq)]
pub struct MetricRecord {
    pub client_id: String,
    pub deltas: Vec<FieldDelta>,
}

/// The update document derived from a metric: the additive field mutations
/// to apply with an upsert. It never substitutes unrelated fields.
#[derive(Debug, PartialEq, Eq)]
pub struct UpdateDoc {
    pub increments: Vec<FieldDelta>,
}

/// One upsert call to issue against the metric store: update the single
/// document whose client id equals the filter, creating it if absent.
#[derive(Debug, PartialEq, Eq)]
pub struct UpsertCommand {
    pub filter_client_id: String,
    pub update: UpdateDoc,
}

/// Derive the update document from a metric's fields.
pub fn update_doc(m: &MetricRecord) -> (d: UpdateDoc)
    ensures
        d.increments@ == m.deltas@,
{
    let increments = m.deltas.clone();
    proof {
        assert(increments@ =~= m.deltas@);
    }
    UpdateDoc { increments }
}

/// Plan the dual upsert for one metric: one command keyed by the metric's
/// owning client, one keyed by the configured system aggregate id, both
/// carrying identical update documents.
pub fn plan_upserts(m: &MetricRecord, system_id: &str) -> (cmds: (UpsertCommand, UpsertCommand))
    ensures
        cmds.0.filter_client_id@ == m.client_id@,
        cmds.1.filter_client_id@ == system_id@,
        cmds.0.update.increments@ == m.deltas@,
        cmds.1.update.increments@ == m.deltas@,
        cmds.0.update.increments@ == cmds.1.update.increments@,
{
    let client_cmd = UpsertCommand { filter_client_id: m.client_id.clone(), update: update_doc(m) };
    let system_cmd = UpsertCommand { filter_client_id: system_id.to_owned(), update: update_doc(m) };
    (client_cmd, system_cmd)
}

/// One document of the metric store model: the owning client id and the
/// update documents applied to it so far, oldest first.
#[derive(Debug, PartialEq, Eq)]
pub struct StoredDoc {
    pub client_id: String,
    pub applied: Vec<UpdateDoc>,
}

/// The field mutations of each applied update document, in order.
pub open spec fn doc_views(applied: Seq<UpdateDoc>) -> Seq<Seq<FieldDelta>> {
    applied.map_values(|d: UpdateDoc| d.increments@)
}

/// The history of update documents applied to the document keyed `key`:
/// those of the first stored document with that client id, or empty if no
/// such document exists yet.
pub open spec fn hist(s: Seq<StoredDoc>, key: Seq<char>) -> Seq<Seq<FieldDelta>>
    decreases s.len(),
{
    if s.len() == 0 {
        Seq::empty()
    } else if s[0].client_id@ == key {
        doc_views(s[0].applied@)
    } else {
        hist(s.drop_first(), key)
    }
}

/// Whether some stored document is keyed `key`.
pub open spec fn has_key(s: Seq<StoredDoc>, key: Seq<char>) -> bool
    decreases s.len(),
{
    if s.len() == 0 {
        false
    } else {
        s[0].client_id@ == key || has_key(s.drop_first(), key)
    }
}

/// A model of the metric store under atomic upserts: per client id, one
/// logical document, created on first write, and the ordered history of
/// update documents applied to it. An upsert touches exactly the document
/// its filter names and no other, so the failure or success of one upsert
/// never prevents or alters another with a different key.
pub struct MetricStoreModel {
    docs: Vec<StoredDoc>,
}

impl MetricStoreModel {
    /// The applied history of the document keyed `key`.
    pub closed spec fn history(&self, key: Seq<char>) -> Seq<Seq<FieldDelta>> {
        hist(self.docs@, key)
    }

    pub fn new() -> (s: MetricStoreModel)
        ensures
            forall|k: Seq<char>| s.history(k) == Seq::<Seq<FieldDelta>>::empty(),
    {
        MetricStoreModel { docs: Vec::new() }
    }

    /// How many update documents have been applied to the document keyed by
    /// the given client id (zero when no such document exists).
    pub fn applied_count(&self, client_id: &String) -> (n: usize)
        ensures
            n as int == self.history(client_id@).len(),
    {
        let k = self.docs.len();
        let mut i: usize = 0;
        while i < k
            invariant
                k == self.docs.len(),
                i <= k,
                forall|j: int| 0 <= j < i ==> self.docs@[j].client_id@ != client_id@,
            decreases k - i,
        {
            if self.docs[i].client_id.eq(client_id) {
                let count = self.docs[i].applied.len();
                proof {
                    lemma_hist_first_match(self.docs@, i as int, client_id@);
                }
                return count;
            }
            i = i + 1;
        }
        proof {
            lemma_no_match_no_key(self.docs@, client_id@);
            lemma_absent_hist_empty(self.docs@, client_id@);
        }
        0
    }

    /// Apply one upsert: create-if-absent, then append the update document
    /// to the history of the filtered document. Every other document is
    /// untouched.
    pub fn upsert(&mut self, cmd: &UpsertCommand)
        ensures
            final(self).history(cmd.filter_client_id@) == old(self).history(
                cmd.filter_client_id@,
            ).push(cmd.update.increments@),
            forall|k: Seq<char>|
                k != cmd.filter_client_id@ ==> final(self).history(k) == old(self).history(k),
    {
        let ghost pre = self.docs@;
        let ghost gkey = cmd.filter_client_id@;
        let key = &cmd.filter_client_id;
        let doc = UpdateDoc { increments: cmd.update.increments.clone() };
        proof {
            assert(doc.increments@ =~= cmd.update.increments@);
        }
        let ghost gdoc = doc;
        let n = self.docs.len();
        let mut i: usize = 0;
        while i < n
            invariant
                n == self.docs.len(),
                self.docs@ == pre,
                pre == old(self).docs@,
                key@ == gkey,
                gkey == cmd.filter_client_id@,
                doc == gdoc,
                gdoc.increments@ == cmd.update.increments@,
                forall|j: int| 0 <= j < i ==> pre[j].client_id@ != gkey,
            decreases n - i,
        {
            if self.docs[i].client_id.eq(key) {
                let mut entry = self.docs.remove(i);
                entry.applied.push(doc);
                let ghost gentry = entry;
                self.docs.insert(i, entry);
                proof {
                    assert(gentry.client_id@ == gkey);
                    assert(gentry.applied@ == pre[i as int].applied@.push(gdoc));
                    assert(self.docs@ =~= pre.update(i as int, gentry));
                    lemma_hist_first_match(pre, i as int, gkey);
                    lemma_hist_update(pre, i as int, gentry, gkey);
                    assert(doc_views(gentry.applied@) =~= doc_views(pre[i as int].applied@).push(
                        cmd.update.increments@,
                    ));
                }
                return ;
            }
            i = i + 1;
        }
        let fresh = StoredDoc { client_id: cmd.filter_client_id.clone(), applied: vec![doc] };
        let ghost gfresh = fresh;
        self.docs.push(fresh);
        proof {
            assert(gfresh.client_id@ == gkey);
            assert(self.docs@ == pre.push(gfresh));
            assert(!has_key(pre, gkey)) by {
                lemma_no_match_no_key(pre, gkey);
            }
            lemma_hist_push(pre, gfresh, gkey);
            assert forall|k: Seq<char>| k != gkey implies hist(self.docs@, k) == hist(pre, k) by {
                lemma_hist_push(pre, gfresh, k);
                if !has_key(pre, k) {
                    assert(gfresh.client_id@ != k);
                }
            }
            assert(hist(pre, gkey) =~= Seq::<Seq<FieldDelta>>::empty()) by {
                lemma_absent_hist_empty(pre, gkey);
            }
            assert(doc_views(gfresh.applied@) =~= Seq::<Seq<FieldDelta>>::empty().push(
                cmd.update.increments@,
            ));
        }
    }
}

/// With no stored document keyed `key` among the first `i`, and a match at
/// `i`, the history of `key` is the match's history.
proof fn lemma_hist_first_match(s: Seq<StoredDoc>, i: int, key: Seq<char>)
    requires
        0 <= i < s.len(),
        forall|j: int| 0 <= j < i ==> s[j].client_id@ != key,
        s[i].client_id@ == key,
    ensures
        hist(s, key) == doc_views(s[i].applied@),
    decreases i,
{
    if i > 0 {
        lemma_hist_first_match(s.drop_first(), i - 1, key);
    }
}

/// Updating the first document keyed `key` in place rewrites that key's
/// history and no other key's.
proof fn lemma_hist_update(s: Seq<StoredDoc>, i: int, e: StoredDoc, key: Seq<char>)
    requires
        0 <= i < s.len(),
        forall|j: int| 0 <= j < i ==> s[j].client_id@ != key,
        s[i].client_id@ == key,
        e.client_id@ == key,
    ensures
        hist(s.update(i, e), key) == doc_views(e.applied@),
        forall|k: Seq<char>| k != key ==> hist(s.update(i, e), k) == hist(s, k),
    decreases s.len(),
{
    let t = s.update(i, e);
    if i == 0 {
        assert(t.drop_first() =~= s.drop_first());
        assert(t[0] == e);
        assert(hist(t, key) == doc_views(e.applied@));
        assert forall|k: Seq<char>| k != key implies hist(t, k) == hist(s, k) by {
            assert(hist(t, k) == hist(t.drop_first(), k));
            assert(hist(s, k) == hist(s.drop_first(), k));
        }
    } else {
        assert(t.drop_first() =~= s.drop_first().update(i - 1, e));
        assert(forall|j: int| 0 <= j < i - 1 ==> s.drop_first()[j] == s[j + 1]);
        lemma_hist_update(s.drop_first(), i - 1, e, key);
        assert(t[0] == s[0]);
        assert(s[0].client_id@ != key);
        assert(hist(t, key) == hist(t.drop_first(), key));
        assert(hist(t.drop_first(), key) == doc_views(e.applied@));
        assert forall|k: Seq<char>| k != key implies hist(t, k) == hist(s, k) by {
            if s[0].client_id@ == k {
                assert(hist(t, k) == doc_views(t[0].applied@));
                assert(hist(s, k) == doc_views(s[0].applied@));
            } else {
                assert(hist(t, k) == hist(t.drop_first(), k));
                assert(hist(s, k) == hist(s.drop_first(), k));
                assert(hist(s.drop_first().update(i - 1, e), k) == hist(s.drop_first(), k));
            }
        }
    }
}

/// Appending a document changes no existing key's history, and gives a key
/// not stored before the new document's history (or still none).
proof fn lemma_hist_push(s: Seq<StoredDoc>, x: StoredDoc, key: Seq<char>)
    ensures
        has_key(s, key) ==> hist(s.push(x), key) == hist(s, key),
        !has_key(s, key) && x.client_id@ == key ==> hist(s.push(x), key) == doc_views(x.applied@),
        !has_key(s, key) && x.client_id@ != key ==> hist(s.push(x), key) == hist(s, key),
    decreases s.len(),
{
    let t = s.push(x);
    if s.len() == 0 {
        assert(t.drop_first() =~= Seq::<StoredDoc>::empty());
        assert(t[0] == x);
        if x.client_id@ == key {
            assert(hist(t, key) == doc_views(x.applied@));
        } else {
            assert(hist(t, key) == hist(t.drop_first(), key));
            assert(hist(Seq::<StoredDoc>::empty(), key) == Seq::<Seq<FieldDelta>>::empty());
        }
    } else {
        assert(t.drop_first() =~= s.drop_first().push(x));
        lemma_hist_push(s.drop_first(), x, key);
        assert(t[0] == s[0]);
        if s[0].client_id@ == key {
            assert(hist(t, key) == doc_views(s[0].applied@));
            assert(hist(s, key) == doc_views(s[0].applied@));
        } else {
            assert(hist(t, key) == hist(s.drop_first().push(x), key));
            assert(hist(s, key) == hist(s.drop_first(), key));
            assert(has_key(s, key) == has_key(s.drop_first(), key));
        }
    }
}

/// A key matching no stored document is not stored.
proof fn lemma_no_match_no_key(s: Seq<StoredDoc>, key: Seq<char>)
    requires
        forall|j: int| 0 <= j < s.len() ==> s[j].client_id@ != key,
    ensures
        !has_key(s, key),
    decreases s.len(),
{
    if s.len() > 0 {
        lemma_no_match_no_key(s.drop_first(), key);
    }
}

/// A key that is not stored has an empty history.
proof fn lemma_absent_hist_empty(s: Seq<StoredDoc>, key: Seq<char>)
    requires
        !has_key(s, key),
    ensures
        hist(s, key) == Seq::<Seq<FieldDelta>>::empty(),
    decreases s.len(),
{
    if s.len() > 0 {
        lemma_absent_hist_empty(s.drop_first(), key);
    }
}

/// Record the outcome of the two writes of one metric against the store
/// model: each destination's history grows by the shared update document
/// exactly when its own write succeeded — the failure of either write
/// neither prevents nor alters the other destination's write.
pub fn record_dual_outcome(
    store: &mut MetricStoreModel,
    cmds: &(UpsertCommand, UpsertCommand),
    client_ok: bool,
    system_ok: bool,
)
    requires
        cmds.0.filter_client_id@ != cmds.1.filter_client_id@,
    ensures
        final(store).history(cmds.0.filter_client_id@) == if client_ok {
            old(store).history(cmds.0.filter_client_id@).push(cmds.0.update.increments@)
        } else {
            old(store).history(cmds.0.filter_client_id@)
        },
        final(store).history(cmds.1.filter_client_id@) == if system_ok {
            old(store).history(cmds.1.filter_client_id@).push(cmds.1.update.increments@)
        } else {
            old(store).history(cmds.1.filter_client_id@)
        },
        forall|k: Seq<char>|
            k != cmds.0.filter_client_id@ && k != cmds.1.filter_client_id@ ==> final(store).history(
                k,
            ) == old(store).history(k),
{
    if client_ok {
        store.upsert(&cmds.0);
    }
    if system_ok {
        store.upsert(&cmds.1);
    }
}

/// What one step of the metric consumer asks its caller to do.
pub struct MetricStepOutcome {
    /// The two upsert calls to issue for a received metric, both required to
    /// complete before the metric counts as delivered; a failure of either
    /// is logged and the loop continues.
    pub upserts: Option<(UpsertCommand, UpsertCommand)>,
    /// The tracking message to push to the analytics forwarder.
    pub forward: Option<TrackingMessage>,
    /// Whether to flush the analytics forwarder now: on every idle deadline,
    /// and exactly once more on closure, after the last metric.
    pub flush_forwarder: bool,
    /// The queue closed and the final forwarder flush above was requested:
    /// the consumer is drained and must not be stepped again.
    pub terminated: bool,
}

/// One step of the metric consumer state machine. Unlike events, metrics
/// are not accumulated: each received metric becomes its dual upsert at
/// once, plus a forwarder push when forwarding is configured. Idle deadlines
/// and closure trigger the forwarder's flush (when configured), closure
/// exactly once more after the last metric, before termination.
pub fn metric_consumer_step(
    ev: ReceiveEvent<MetricRecord>,
    system_id: &str,
    forwarding_enabled: bool,
) -> (out: MetricStepOutcome)
    ensures
        match ev {
            ReceiveEvent::Delivered(m) => {
                &&& !out.terminated
                &&& !out.flush_forwarder
                &&& (out.upserts matches Some(cmds) && {
                    &&& cmds.0.filter_client_id@ == m.client_id@
                    &&& cmds.1.filter_client_id@ == system_id@
                    &&& cmds.0.update.increments@ == m.deltas@
                    &&& cmds.1.update.increments@ == m.deltas@
                })
                &&& forwarding_enabled ==> (out.forward matches Some(t) && {
                    &&& t.client_id@ == m.client_id@
                    &&& t.deltas@ == m.deltas@
                })
                &&& !forwarding_enabled ==> out.forward is None
            },
            ReceiveEvent::TimedOut => {
                &&& !out.terminated
                &&& out.upserts is None
                &&& out.forward is None
                &&& out.flush_forwarder == forwarding_enabled
            },
            ReceiveEvent::Closed => {
                &&& out.terminated
                &&& out.upserts is None
                &&& out.forward is None
                &&& out.flush_forwarder == forwarding_enabled
            },
        },
{
    match ev {
        ReceiveEvent::Delivered(m) => {
            let cmds = plan_upserts(&m, system_id);
            let forward = if forwarding_enabled {
                let deltas = m.deltas.clone();
                proof {
                    assert(deltas@ =~= m.deltas@);
                }
                Some(TrackingMessage { client_id: m.client_id.clone(), deltas })
            } else {
                None
            };
            MetricStepOutcome { upserts: Some(cmds), forward, flush_forwarder: false, terminated: false }
        },
        ReceiveEvent::TimedOut => {
            MetricStepOutcome {
                upserts: None,
                forward: None,
                flush_forwarder: forwarding_enabled,
                terminated: false,
            }
        },
        ReceiveEvent::Closed => {
            MetricStepOutcome {
                upserts: None,
                forward: None,
                flush_forwarder: forwarding_enabled,
                terminated: true,
            }
        },
    }
}

/// The metrics delivered to the consumer, in delivery order, up to closure.
pub open spec fn delivered_metrics(tl: Seq<ReceiveEvent<MetricRecord>>) -> Seq<MetricRecord>
    decreases tl.len(),
{
    if tl.len() == 0 {
        Seq::empty()
    } else {
        match tl[0] {
            ReceiveEvent::Delivered(m) => seq![m] + delivered_metrics(tl.drop_first()),
            ReceiveEvent::TimedOut => delivered_metrics(tl.drop_first()),
            ReceiveEvent::Closed => Seq::empty(),
        }
    }
}

/// How often the configured forwarder is flushed over a run: once per idle
/// deadline, and exactly once more on closure — never for a delivered
/// metric, and never at all when forwarding is not configured.
pub open spec fn forwarder_flush_count(tl: Seq<ReceiveEvent<MetricRecord>>, enabled: bool) -> int
    decreases tl.len(),
{
    if !enabled || tl.len() == 0 {
        0
    } else {
        match tl[0] {
            ReceiveEvent::Delivered(_) => forwarder_flush_count(tl.drop_first(), enabled),
            ReceiveEvent::TimedOut => 1 + forwarder_flush_count(tl.drop_first(), enabled),
            ReceiveEvent::Closed => 1,
        }
    }
}

/// Everything the metric consumer asked its caller to do over a whole run.
pub struct MetricRunLog {
    /// The dual-upsert pairs, one per delivered metric, in delivery order.
    pub upserts: Vec<(UpsertCommand, UpsertCommand)>,
    /// The tracking messages pushed to the forwarder, one per delivered
    /// metric when forwarding is configured, none otherwise.
    pub forwarded: Vec<TrackingMessage>,
    /// How often the forwarder was flushed.
    pub forwarder_flushes: usize,
}

/// Run the metric consumer over a whole sequence of receive outcomes:
/// every delivered metric becomes exactly one dual upsert (and one forwarded
/// message when forwarding is configured), and the forwarder is flushed on
/// every idle deadline and exactly once more on closure, after the last
/// metric, before the consumer terminates.
pub fn consume_metric_timeline(
    timeline: Vec<ReceiveEvent<MetricRecord>>,
    system_id: &str,
    forwarding_enabled: bool,
) -> (log: MetricRunLog)
    ensures
        log.upserts@.len() == delivered_metrics(timeline@).len(),
        forall|i: int|
            0 <= i < log.upserts@.len() ==> {
                &&& (#[trigger] log.upserts@[i]).0.filter_client_id@ == delivered_metrics(
                    timeline@,
                )[i].client_id@
                &&& log.upserts@[i].1.filter_client_id@ == system_id@
                &&& log.upserts@[i].0.update.increments@ == delivered_metrics(
                    timeline@,
                )[i].deltas@
                &&& log.upserts@[i].1.update.increments@ == delivered_metrics(
                    timeline@,
                )[i].deltas@
            },
        forwarding_enabled ==> {
            &&& log.forwarded@.len() == delivered_metrics(timeline@).len()
            &&& forall|i: int|
                0 <= i < log.forwarded@.len() ==> {
                    &&& (#[trigger] log.forwarded@[i]).client_id@ == delivered_metrics(
                        timeline@,
                    )[i].client_id@
                    &&& log.forwarded@[i].deltas@ == delivered_metrics(timeline@)[i].deltas@
                }
        },
        !forwarding_enabled ==> log.forwarded@.len() == 0,
        log.forwarder_flushes as int == forwarder_flush_count(timeline@, forwarding_enabled),
{
    let ghost tl0 = timeline@;
    let n0 = timeline.len();
    let mut timeline = timeline;
    let mut upserts: Vec<(UpsertCommand, UpsertCommand)> = Vec::new();
    let mut forwarded: Vec<TrackingMessage> = Vec::new();
    let mut flushes: usize = 0;
    let mut terminated = false;
    let ghost mut done: Seq<MetricRecord> = Seq::empty();
    proof {
        assert(done + delivered_metrics(tl0) =~= delivered_metrics(tl0));
    }
    while !terminated && timeline.len() > 0
        invariant
            n0 == tl0.len(),
            !terminated ==> delivered_metrics(tl0) == done + delivered_metrics(timeline@),
            terminated ==> delivered_metrics(tl0) == done,
            !terminated ==> forwarder_flush_count(tl0, forwarding_enabled) == flushes
                + forwarder_flush_count(timeline@, forwarding_enabled),
            terminated ==> forwarder_flush_count(tl0, forwarding_enabled) == flushes,
            flushes <= n0 - timeline@.len(),
            upserts@.len() == done.len(),
            forall|i: int|
                0 <= i < upserts@.len() ==> {
                    &&& (#[trigger] upserts@[i]).0.filter_client_id@ == done[i].client_id@
                    &&& upserts@[i].1.filter_client_id@ == system_id@
                    &&& upserts@[i].0.update.increments@ == done[i].deltas@
                    &&& upserts@[i].1.update.increments@ == done[i].deltas@
                },
            forwarding_enabled ==> forwarded@.len() == done.len(),
            !forwarding_enabled ==> forwarded@.len() == 0,
            forall|i: int|
                0 <= i < forwarded@.len() ==> {
                    &&& (#[trigger] forwarded@[i]).client_id@ == done[i].client_id@
                    &&& forwarded@[i].deltas@ == done[i].deltas@
                },
        decreases timeline@.len(),
    {
        let ghost pre_tl = timeline@;
        let ghost pre_done = done;
        let ev = timeline.remove(0);
        proof {
            assert(timeline@ =~= pre_tl.drop_first());
        }
        let ghost gev = ev;
        let out = metric_consumer_step(ev, system_id, forwarding_enabled);
        if let Some(cmds) = out.upserts {
            upserts.push(cmds);
        }
        if let Some(msg) = out.forward {
            forwarded.push(msg);
        }
        if out.flush_forwarder {
            flushes = flushes + 1;
        }
        terminated = out.terminated;
        proof {
            match gev {
                ReceiveEvent::Delivered(m) => {
                    done = pre_done.push(m);
                    assert(delivered_metrics(pre_tl) == seq![m] + delivered_metrics(timeline@));
                    assert(pre_done + (seq![m] + delivered_metrics(timeline@)) =~= done
                        + delivered_metrics(timeline@));
                },
                ReceiveEvent::TimedOut => {
                },
                ReceiveEvent::Closed => {
                    assert(delivered_metrics(pre_tl) =~= Seq::<MetricRecord>::empty());
                    assert(pre_done + Seq::<MetricRecord>::empty() =~= pre_done);
                },
            }
        }
    }
    proof {
        if !terminated {
            assert(delivered_metrics(timeline@) =~= Seq::<MetricRecord>::empty());
            assert(done + Seq::<MetricRecord>::empty() =~= done);
        }
    }
    MetricRunLog { upserts, forwarded, forwarder_flushes: flushes }
}

} // verus!
