//! The dispatcher: it takes change events into the work queue, hands keys to
//! workers within the bound of the pool, and turns each worker's report into
//! the next entry of the queue and into metrics.
//!
//! Every operation is one step from state and input to next state and
//! result. Whoever drives the manager performs what lies between the steps:
//! reading the clock, fetching the object, running the reconcile.

use vstd::prelude::*;
use crate::error::Error;
use crate::key::{event_views, ChangeEvent, EventView, KeyView, ObjectKey};
use crate::metrics::{capped_add, exported, family_views, observed, MetricFamily, Metrics, MetricsView};
use crate::queue::{
    acked, busy, dequeued, distinct_keys, earlier, enqueued, in_flight, is_next_due,
    lemma_busy_acked, lemma_busy_dequeued, lemma_busy_enqueued, phase_of, served, Item, Phase,
    WorkQueue,
};
use crate::queue_laws::{
    enqueued_all, holds_once, lemma_acked, lemma_enqueued, lemma_holds_once, Request,
};
use crate::reconcile::{error_policy, Outcome, ERROR_BACKOFF_MS};
use crate::resource::Foo;

verus! {

/// What the dispatcher is set up with.
#[derive(Clone, Copy, Debug, PartialEq, Eq, Structural)]
pub struct Settings {
    /// Delay before an object is looked at again where its reconcile asked
    /// for none.
    pub default_resync_ms: u64,
    /// Size of the worker pool: how many keys may be with workers at once.
    pub workers: usize,
}

/// Whether the pipeline takes new work.
#[derive(Clone, Copy, Debug, PartialEq, Eq)]
pub enum Lifecycle {
    Running,
    /// Cancelled at some point: no new work is taken, and workers have until
    /// `deadline` to report.
    Draining { deadline: u64 },
}

/// The manager as contracts see it.
pub struct ManagerView {
    pub queue: Seq<Item>,
    pub metrics: MetricsView,
    pub settings: Settings,
    pub lifecycle: Lifecycle,
}

/// The delay after which a key is queued again once its worker reported
/// `outcome`.
pub open spec fn requeue_delay(outcome: Outcome, default_resync_ms: u64) -> u64 {
    match outcome {
        Outcome::Success { requeue_after: Some(delay) } => delay,
        Outcome::Success { requeue_after: None } => default_resync_ms,
        Outcome::Failure { .. } => ERROR_BACKOFF_MS,
    }
}

/// What a fetch decides before any reconcile runs: `None` where the object
/// is there and is to be reconciled, else the outcome to report at once. An
/// object that is gone counts as done, to be looked at again after the
/// default interval; any other failure of the fetch is a failure.
pub open spec fn outcome_of_fetch(fetched: Result<(), Error>, default_resync_ms: u64) -> Option<
    Outcome,
> {
    match fetched {
        Ok(_) => None,
        Err(Error::NotFound) => Some(Outcome::Success { requeue_after: Some(default_resync_ms) }),
        Err(error) => Some(Outcome::Failure { error }),
    }
}

/// The metrics after a report: a failure counts as one failure; a reconcile
/// that went through counts as one handled event and adds its duration; a
/// success without a reconcile (the object was gone) records nothing.
pub open spec fn recorded(m: MetricsView, outcome: Outcome, elapsed_ms: Option<u64>) -> MetricsView {
    match outcome {
        Outcome::Failure { .. } => MetricsView { failures: capped_add(m.failures, 1), ..m },
        Outcome::Success { .. } => match elapsed_ms {
            Some(millis) => MetricsView {
                handled_events: capped_add(m.handled_events, 1),
                durations: observed(m.durations, millis),
                ..m
            },
            None => m,
        },
    }
}

/// The requests that a batch of events makes when it arrives at `now`: one
/// per event, for its key, to run at once.
pub open spec fn requests_at(events: Seq<EventView>, now: u64) -> Seq<Request> {
    Seq::new(events.len(), |i: int| Request { key: events[i].key, at: now })
}

/// The queue after the worker on `k` reported and `k` was asked to run
/// again at `at`.
pub open spec fn settled(q: Seq<Item>, k: KeyView, at: u64) -> Seq<Item> {
    acked(enqueued(q, k, at), k)
}

/// The dispatcher's state: the work queue, the metrics and the settings.
pub struct Manager {
    queue: WorkQueue,
    metrics: Metrics,
    settings: Settings,
    lifecycle: Lifecycle,
}

impl View for Manager {
    type V = ManagerView;

    closed spec fn view(&self) -> ManagerView {
        ManagerView {
            queue: self.queue@,
            metrics: self.metrics@,
            settings: self.settings,
            lifecycle: self.lifecycle,
        }
    }
}

impl Manager {
    /// What every manager made and changed through this interface
    /// satisfies: no key is queued twice, and no more keys are with workers
    /// than the pool has workers.
    pub closed spec fn wf(&self) -> bool {
        &&& self.queue.wf()
        &&& self.metrics.wf()
        &&& busy(self.queue@) <= self.settings.workers
    }

    /// The properties of a well-formed manager, over its view.
    pub proof fn lemma_wf(&self)
        requires
            self.wf(),
        ensures
            distinct_keys(self@.queue),
            busy(self@.queue) <= self@.settings.workers,
    {
    }

    /// A manager with nothing queued and nothing recorded.
    pub fn new(settings: Settings) -> (m: Manager)
        ensures
            m.wf(),
            m@.queue == Seq::<Item>::empty(),
            m@.metrics == Metrics::new_view(),
            m@.settings == settings,
            m@.lifecycle == Lifecycle::Running,
    {
        Manager {
            queue: WorkQueue::new(),
            metrics: Metrics::new(),
            settings,
            lifecycle: Lifecycle::Running,
        }
    }

    /// A copy of the metrics recorded so far, for export.
    pub fn metrics(&self) -> (families: Vec<MetricFamily>)
        requires
            self.wf(),
        ensures
            family_views(families@) == exported(self@.metrics),
    {
        self.metrics.snapshot()
    }

    /// Takes in one change event at time `now`: whatever its kind, the key is
    /// asked to run at once. While draining, events are dropped.
    pub fn notify(&mut self, event: ChangeEvent, now: u64)
        requires
            old(self).wf(),
        ensures
            final(self).wf(),
            final(self)@ == (ManagerView {
                queue: if old(self)@.lifecycle == Lifecycle::Running {
                    enqueued(old(self)@.queue, event.key@, now)
                } else {
                    old(self)@.queue
                },
                ..old(self)@
            }),
    {
        match self.lifecycle {
            Lifecycle::Running => {
                proof {
                    lemma_busy_enqueued(self.queue@, event.key@, now);
                }
                self.queue.enqueue(event.key, now, 0);
            },
            Lifecycle::Draining { .. } => {},
        }
    }

    /// Takes in a batch of change events at time `now`, in order. However
    /// many of them name one key, the queue holds that key once.
    pub fn notify_all(&mut self, events: &Vec<ChangeEvent>, now: u64)
        requires
            old(self).wf(),
        ensures
            final(self).wf(),
            final(self)@ == (ManagerView {
                queue: if old(self)@.lifecycle == Lifecycle::Running {
                    enqueued_all(old(self)@.queue, requests_at(event_views(events@), now))
                } else {
                    old(self)@.queue
                },
                ..old(self)@
            }),
    {
        let ghost asked = requests_at(event_views(events@), now);
        let mut i: usize = 0;
        while i < events.len()
            invariant
                i <= events.len(),
                self.wf(),
                asked == requests_at(event_views(events@), now),
                self@ == (ManagerView {
                    queue: if old(self)@.lifecycle == Lifecycle::Running {
                        enqueued_all(old(self)@.queue, asked.take(i as int))
                    } else {
                        old(self)@.queue
                    },
                    ..old(self)@
                }),
            decreases events.len() - i,
        {
            proof {
                assert(asked.take(i + 1).drop_last() =~= asked.take(i as int));
                assert(asked.take(i + 1).last() == (Request { key: events@[i as int].key@, at: now }));
            }
            self.notify(ChangeEvent { key: events[i].key.clone(), kind: events[i].kind }, now);
            i += 1;
        }
        assert(asked.take(events.len() as int) =~= asked);
    }

    /// Hands out the next key to reconcile at `now`: the one that the queue
    /// serves, as long as a worker is free and the pipeline is running. The
    /// key is with a worker until `settle` takes its report.
    pub fn next(&mut self, now: u64) -> (key: Option<ObjectKey>)
        requires
            old(self).wf(),
        ensures
            final(self).wf(),
            if old(self)@.lifecycle == Lifecycle::Running && busy(old(self)@.queue) < old(
                self,
            )@.settings.workers {
                &&& final(self)@ == (ManagerView {
                    queue: dequeued(old(self)@.queue, now),
                    ..old(self)@
                })
                &&& match key {
                    Some(k) => served(old(self)@.queue, now) == Some(k@),
                    None => served(old(self)@.queue, now) is None,
                }
            } else {
                final(self)@ == old(self)@ && key is None
            },
    {
        match self.lifecycle {
            Lifecycle::Running => {
                if self.queue.in_flight_count() < self.settings.workers {
                    proof {
                        lemma_busy_dequeued(self.queue@, now);
                    }
                    self.queue.dequeue(now)
                } else {
                    None
                }
            },
            Lifecycle::Draining { .. } => None,
        }
    }

    /// Reads the result of the fetch that follows a dequeue. `None`: the
    /// object is there, reconcile it. `Some(outcome)`: there is nothing to
    /// reconcile, report `outcome` at once. An object that is gone is no
    /// failure: it is a success, due again after the default interval.
    pub fn after_fetch(&self, fetched: &Result<Foo, Error>) -> (verdict: Option<Outcome>)
        ensures
            verdict == outcome_of_fetch(
                match *fetched {
                    Ok(_) => Ok(()),
                    Err(error) => Err(error),
                },
                self@.settings.default_resync_ms,
            ),
    {
        match fetched {
            Ok(_) => None,
            Err(Error::NotFound) => Some(
                Outcome::Success { requeue_after: Some(self.settings.default_resync_ms) },
            ),
            Err(error) => Some(Outcome::Failure { error: *error }),
        }
    }

    /// The delay after which a key is queued again once its worker reported
    /// `outcome`: what the reconcile asked for, the default where it asked
    /// for nothing, the error policy's interval after a failure.
    pub fn delay_for(&self, outcome: &Outcome) -> (delay: u64)
        ensures
            delay == requeue_delay(*outcome, self@.settings.default_resync_ms),
    {
        match outcome {
            Outcome::Success { requeue_after: Some(delay) } => *delay,
            Outcome::Success { requeue_after: None } => self.settings.default_resync_ms,
            Outcome::Failure { error } => error_policy(error),
        }
    }

    /// Takes the report of the worker on `key` at time `now`. `elapsed_ms` is
    /// the time the reconcile function ran, `None` where it did not run.
    ///
    /// The key is queued again, exactly once, for `now` plus the delay that
    /// `outcome` calls for, or for an earlier time that an event asked for
    /// while the key was with the worker; then the key is released. The
    /// outcome is recorded in the metrics. Returns `false`, and changes
    /// nothing, where `key` is not with a worker.
    pub fn settle(&mut self, key: &ObjectKey, outcome: Outcome, elapsed_ms: Option<u64>, now: u64) -> (done: bool)
        requires
            old(self).wf(),
            now + requeue_delay(outcome, old(self)@.settings.default_resync_ms) <= u64::MAX,
        ensures
            final(self).wf(),
            done == in_flight(old(self)@.queue, key@),
            !done ==> final(self)@ == old(self)@,
            done ==> ({
                let at = (now + requeue_delay(outcome, old(self)@.settings.default_resync_ms)) as u64;
                &&& final(self)@ == (ManagerView {
                    queue: settled(old(self)@.queue, key@, at),
                    metrics: recorded(old(self)@.metrics, outcome, elapsed_ms),
                    ..old(self)@
                })
                &&& holds_once(final(self)@.queue, key@)
                &&& phase_of(final(self)@.queue, key@) == Some(
                    Phase::Pending {
                        not_before: match phase_of(old(self)@.queue, key@) {
                            Some(Phase::InFlight { requeue: Some(asked) }) => earlier(asked, at),
                            _ => at,
                        },
                    },
                )
                &&& busy(final(self)@.queue) + 1 == busy(old(self)@.queue)
            }),
    {
        let was = self.queue.phase(key);
        match was {
            Some(Phase::InFlight { .. }) => {},
            _ => {
                return false;
            },
        }
        let delay = self.delay_for(&outcome);
        let ghost at = (now + delay) as u64;
        proof {
            let q0 = self.queue@;
            let q1 = enqueued(q0, key@, at);
            lemma_enqueued(q0, key@, at, key@);
            lemma_busy_enqueued(q0, key@, at);
            lemma_acked(q1, key@, key@);
            lemma_busy_acked(q1, key@);
            assert(phase_of(acked(q1, key@), key@) is Some);
            lemma_holds_once(acked(q1, key@), key@);
        }
        self.queue.enqueue(key.clone(), now, delay);
        let _ = self.queue.ack(key);
        match outcome {
            Outcome::Failure { .. } => {
                self.metrics.record_failure();
            },
            Outcome::Success { .. } => {
                match elapsed_ms {
                    Some(millis) => {
                        self.metrics.record_reconcile_duration(millis);
                        self.metrics.record_event();
                    },
                    None => {},
                }
            },
        }
        true
    }

    /// When to look at the queue again: the time the earliest waiting key
    /// waits for. `None` where no key waits.
    pub fn next_wakeup(&self) -> (at: Option<u64>)
        ensures
            match at {
                Some(t) => is_next_due(self@.queue, t),
                None => forall|j: int|
                    0 <= j < self@.queue.len() ==> (#[trigger] self@.queue[j]).phase is InFlight,
            },
    {
        self.queue.next_due()
    }

    /// The phase of `key` in the queue: `None` where the key is neither
    /// waiting nor with a worker.
    pub fn phase(&self, key: &ObjectKey) -> (p: Option<Phase>)
        requires
            self.wf(),
        ensures
            p == phase_of(self@.queue, key@),
    {
        self.queue.phase(key)
    }

    /// Number of keys that are with workers.
    pub fn in_flight(&self) -> (n: usize)
        ensures
            n == busy(self@.queue),
    {
        self.queue.in_flight_count()
    }

    /// Number of keys in the queue, waiting or with workers.
    pub fn queued(&self) -> (n: usize)
        ensures
            n == self@.queue.len(),
    {
        self.queue.len()
    }

    /// Cancels the pipeline at `now`: from here on no event is taken in and
    /// no key handed out. Workers have `grace_ms` to report. A second cancel
    /// changes nothing.
    pub fn cancel(&mut self, now: u64, grace_ms: u64)
        requires
            old(self).wf(),
            now + grace_ms <= u64::MAX,
        ensures
            final(self).wf(),
            final(self)@ == (ManagerView {
                lifecycle: match old(self)@.lifecycle {
                    Lifecycle::Running => Lifecycle::Draining { deadline: (now + grace_ms) as u64 },
                    draining => draining,
                },
                ..old(self)@
            }),
    {
        match self.lifecycle {
            Lifecycle::Running => {
                self.lifecycle = Lifecycle::Draining { deadline: now + grace_ms };
            },
            Lifecycle::Draining { .. } => {},
        }
    }

    /// Whether the pipeline has come to its end at `now`: it was cancelled,
    /// and either every worker has reported or the grace period is over.
    pub fn finished(&self, now: u64) -> (done: bool)
        ensures
            done == match self@.lifecycle {
                Lifecycle::Running => false,
                Lifecycle::Draining { deadline } => busy(self@.queue) == 0 || deadline <= now,
            },
    {
        match self.lifecycle {
            Lifecycle::Running => false,
            Lifecycle::Draining { deadline } => self.queue.in_flight_count() == 0 || deadline <= now,
        }
    }
}

} // verus!
