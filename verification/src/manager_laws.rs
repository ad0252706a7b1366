//! What holds of the dispatcher over a whole cycle of one key: from the
//! report of its worker to the moment it is due again.
//!
//! Every law that adds a delay to a time asks that the sum fits in `u64`,
//! as the steps do.

use vstd::prelude::*;
use crate::error::Error;
use crate::key::KeyView;
use crate::manager::{outcome_of_fetch, recorded, requeue_delay, settled};
use crate::metrics::{
    capped, capped_add, exported, lemma_histogram_tallies, observed_all, Metrics, MetricsView,
    ValueView,
};
use crate::queue::{
    busy, distinct_keys, earlier, enqueued, in_flight, is_ready, lemma_busy_acked,
    lemma_busy_enqueued, phase_of, served, Item, Phase,
};
use crate::queue_laws::{
    handed, holds_once, lemma_acked, lemma_enqueued, lemma_holds_once, lemma_ready_is_served,
    lemma_run_distinct, lemma_waits_until_due, run, Op,
};
use crate::reconcile::{outcome_of, Outcome, ERROR_BACKOFF_MS, REQUEUE_AFTER_MS};

verus! {

/// The time for which a key waits once its worker has reported and it was
/// asked to run again at `at`: `at`, or the earlier time that a request asked
/// for while the key was with the worker.
pub open spec fn due_after(q: Seq<Item>, k: KeyView, at: u64) -> u64 {
    match phase_of(q, k) {
        Some(Phase::InFlight { requeue: Some(asked) }) => earlier(asked, at),
        _ => at,
    }
}

/// Every report queues its key again, exactly once. Let `k` be with a
/// worker. After the report the queue holds `k` once, waiting for
/// `due_after`; one worker fewer is busy; no other key is touched.
pub proof fn lemma_settled(q: Seq<Item>, k: KeyView, at: u64, other: KeyView)
    requires
        distinct_keys(q),
        in_flight(q, k),
    ensures
        distinct_keys(settled(q, k, at)),
        holds_once(settled(q, k, at), k),
        phase_of(settled(q, k, at), k) == Some(
            Phase::Pending { not_before: due_after(q, k, at) },
        ),
        due_after(q, k, at) <= at,
        busy(settled(q, k, at)) + 1 == busy(q),
        other != k ==> phase_of(settled(q, k, at), other) == phase_of(q, other),
{
    let asked = enqueued(q, k, at);
    lemma_enqueued(q, k, at, k);
    lemma_enqueued(q, k, at, other);
    lemma_busy_enqueued(q, k, at);
    lemma_acked(asked, k, k);
    lemma_acked(asked, k, other);
    lemma_busy_acked(asked, k);
    lemma_holds_once(settled(q, k, at), k);
}

/// An object that is gone at the fetch is no failure. The fetch ends the
/// cycle as a success with the default interval: the key is queued once,
/// for the default interval from now or an earlier time that was asked for,
/// and the metrics stay as they were, the count of failures included.
pub proof fn lemma_gone_is_success(
    q: Seq<Item>,
    m: MetricsView,
    k: KeyView,
    default_resync_ms: u64,
    now: u64,
)
    requires
        distinct_keys(q),
        in_flight(q, k),
        now + default_resync_ms <= u64::MAX,
    ensures
        ({
            let outcome = Outcome::Success { requeue_after: Some(default_resync_ms) };
            let at = (now + default_resync_ms) as u64;
            &&& outcome_of_fetch(Err(Error::NotFound), default_resync_ms) == Some(outcome)
            &&& requeue_delay(outcome, default_resync_ms) == default_resync_ms
            &&& holds_once(settled(q, k, at), k)
            &&& phase_of(settled(q, k, at), k) == Some(
                Phase::Pending { not_before: due_after(q, k, at) },
            )
            &&& recorded(m, outcome, None) == m
        }),
{
    lemma_settled(q, k, (now + default_resync_ms) as u64, k);
}

/// A reconcile that went through is left alone for its delay. Let the
/// worker on `k` report at `now` a success that asks for `delay`, with no
/// request for `k` outstanding. Then `k` waits for `now + delay`. Over any
/// run in which nobody asks for `k` and every dequeue comes before that
/// time, `k` is handed out to nobody and keeps waiting; at that time or
/// later a dequeue hands a key out, and it is `k` where no other key is
/// ready.
pub proof fn lemma_success_waits_its_delay(
    q: Seq<Item>,
    k: KeyView,
    now: u64,
    delay: u64,
    default_resync_ms: u64,
    ops: Seq<Op>,
    later: u64,
)
    requires
        distinct_keys(q),
        phase_of(q, k) == Some(Phase::InFlight { requeue: None }),
        now + delay <= u64::MAX,
        forall|i: int|
            0 <= i < ops.len() ==> match #[trigger] ops[i] {
                Op::Enqueue { key, .. } => key != k,
                Op::Dequeue { now: at } => at < now + delay,
                Op::Ack { .. } => true,
            },
        now + delay <= later,
    ensures
        ({
            let outcome = Outcome::Success { requeue_after: Some(delay) };
            let due = (now + delay) as u64;
            let rest = run(settled(q, k, due), ops);
            &&& requeue_delay(outcome, default_resync_ms) == delay
            &&& phase_of(settled(q, k, due), k) == Some(Phase::Pending { not_before: due })
            &&& forall|i: int|
                0 <= i < ops.len() ==> handed(
                    run(settled(q, k, due), #[trigger] ops.take(i)),
                    ops[i],
                ) != Some(k)
            &&& phase_of(rest, k) == Some(Phase::Pending { not_before: due })
            &&& served(rest, later) is Some
            &&& (forall|other: KeyView| other != k ==> !#[trigger] is_ready(rest, other, later))
                ==> served(rest, later) == Some(k)
        }),
{
    let due = (now + delay) as u64;
    let start = settled(q, k, due);
    lemma_settled(q, k, due, k);
    lemma_waits_until_due(start, ops, k, due);
    lemma_run_distinct(start, ops);
    lemma_ready_is_served(run(start, ops), later, k);
}

/// A patch that went through asks for thirty minutes.
pub proof fn lemma_patched_requeues_in_thirty_minutes(default_resync_ms: u64)
    ensures
        outcome_of(Ok(())) == (Outcome::Success { requeue_after: Some(REQUEUE_AFTER_MS) }),
        requeue_delay(outcome_of(Ok(())), default_resync_ms) == 1_800_000,
{
}

/// A failure backs off and is counted, and nothing else is. Let the worker
/// on `k` report at `now` that the store refused the patch with `error`, a
/// conflict for one. The outcome is a failure; the key is queued once, for
/// the fixed interval of the error policy from now or an earlier time that
/// was asked for; one failure more is counted; the count of handled events
/// and the histogram of durations stay as they were.
pub proof fn lemma_failure_backs_off(
    q: Seq<Item>,
    m: MetricsView,
    k: KeyView,
    error: Error,
    elapsed_ms: Option<u64>,
    default_resync_ms: u64,
    now: u64,
)
    requires
        distinct_keys(q),
        in_flight(q, k),
        now + ERROR_BACKOFF_MS <= u64::MAX,
    ensures
        ({
            let outcome = outcome_of(Err(error));
            let at = (now + ERROR_BACKOFF_MS) as u64;
            &&& outcome == (Outcome::Failure { error })
            &&& requeue_delay(outcome, default_resync_ms) == 360_000
            &&& holds_once(settled(q, k, at), k)
            &&& phase_of(settled(q, k, at), k) == Some(
                Phase::Pending { not_before: due_after(q, k, at) },
            )
            &&& recorded(m, outcome, elapsed_ms) == (MetricsView {
                failures: capped_add(m.failures, 1),
                ..m
            })
            &&& recorded(m, outcome, elapsed_ms).handled_events == m.handled_events
            &&& recorded(m, outcome, elapsed_ms).durations == m.durations
        }),
{
    lemma_settled(q, k, (now + ERROR_BACKOFF_MS) as u64, k);
}

/// The metrics after one reconcile that went through for each duration in
/// `seen`, in order.
pub open spec fn after_successes(m: MetricsView, seen: Seq<u64>) -> MetricsView
    decreases seen.len(),
{
    if seen.len() == 0 {
        m
    } else {
        recorded(
            after_successes(m, seen.drop_last()),
            Outcome::Success { requeue_after: None },
            Some(seen.last()),
        )
    }
}

/// Successes are counted under the names the exporter knows. A fresh
/// registry exports the count of handled events and the histogram of
/// durations under their names, both at zero. After any number of
/// reconciles that went through, and nothing else, the count of handled
/// events and the sample count of the histogram are that number, held at
/// `u64::MAX`, and no failure is counted.
pub proof fn lemma_successes_are_counted(seen: Seq<u64>)
    ensures
        ({
            let m = after_successes(Metrics::new_view(), seen);
            &&& m.handled_events == capped(seen.len())
            &&& m.failures == 0
            &&& m.durations == observed_all(seen)
            &&& exported(m)[0].name == "foo_controller_handled_events"@
            &&& exported(m)[0].value == (ValueView::Counter { value: capped(seen.len()) })
            &&& exported(m)[2].name == "foo_controller_reconcile_duration_seconds"@
            &&& exported(m)[2].value matches ValueView::Histogram { count, .. } && count
                == capped(seen.len())
        }),
    decreases seen.len(),
{
    if seen.len() > 0 {
        lemma_successes_are_counted(seen.drop_last());
    }
    lemma_histogram_tallies(seen);
}

} // verus!
