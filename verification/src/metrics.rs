//! The metrics registry: plain in-memory counters and one histogram, and the
//! point-in-time copy that an exporter reads.
//!
//! The registry holds durations as whole milliseconds: the bounds, the sum and
//! every field whose name ends in `_ms`. The histogram is exported under a
//! name in seconds, the unit of the exposition format; whoever writes that
//! format out divides the bounds and the sum by a thousand. Every count
//! saturates at `u64::MAX`, so recording can never fail.

use vstd::prelude::*;

verus! {

/// Number of buckets of the duration histogram.
pub const BUCKETS: usize = 8;

/// Upper bounds of the histogram's buckets, in milliseconds: from a hundredth
/// of a second to a minute.
pub open spec fn bucket_bounds() -> Seq<u64> {
    seq![10u64, 100u64, 250u64, 500u64, 1000u64, 5000u64, 15000u64, 60000u64]
}

/// `a + b`, held at `u64::MAX`.
pub open spec fn capped_add(a: u64, b: u64) -> u64 {
    if a + b > u64::MAX {
        u64::MAX
    } else {
        (a + b) as u64
    }
}

/// A histogram as contracts see it. `buckets[i]` counts the observations that
/// were at most `bucket_bounds()[i]`.
pub struct HistogramView {
    pub buckets: Seq<u64>,
    pub count: u64,
    pub sum_ms: u64,
}

/// The registry as contracts see it.
pub struct MetricsView {
    pub handled_events: u64,
    pub failures: u64,
    pub durations: HistogramView,
}

/// A histogram that has seen nothing.
pub open spec fn empty_histogram() -> HistogramView {
    HistogramView { buckets: Seq::new(BUCKETS as nat, |i: int| 0u64), count: 0, sum_ms: 0 }
}

/// The histogram after one more observation of `millis`.
pub open spec fn observed(h: HistogramView, millis: u64) -> HistogramView {
    HistogramView {
        buckets: Seq::new(
            h.buckets.len(),
            |i: int|
                if millis <= bucket_bounds()[i] {
                    capped_add(h.buckets[i], 1)
                } else {
                    h.buckets[i]
                },
        ),
        count: capped_add(h.count, 1),
        sum_ms: capped_add(h.sum_ms, millis),
    }
}

/// The shape of a cumulative histogram: one count per bound, none smaller
/// than the one before, none larger than the number of observations.
pub open spec fn cumulative(h: HistogramView) -> bool {
    &&& h.buckets.len() == BUCKETS
    &&& forall|i: int, j: int| 0 <= i <= j < BUCKETS ==> h.buckets[i] <= h.buckets[j]
    &&& forall|i: int| 0 <= i < BUCKETS ==> h.buckets[i] <= h.count
}

/// One bucket of an exported histogram.
#[derive(Clone, Copy, Debug, PartialEq, Eq, Structural)]
pub struct Bucket {
    pub upper_bound_ms: u64,
    pub cumulative_count: u64,
}

/// The value of an exported metric.
#[derive(Debug, PartialEq, Eq)]
pub enum MetricValue {
    Counter { value: u64 },
    Histogram { buckets: Vec<Bucket>, count: u64, sum_ms: u64 },
}

/// One exported metric with its name and help text.
#[derive(Debug, PartialEq, Eq)]
pub struct MetricFamily {
    pub name: String,
    pub help: String,
    pub value: MetricValue,
}

/// Mathematical value of a [`MetricValue`].
pub enum ValueView {
    Counter { value: u64 },
    Histogram { buckets: Seq<Bucket>, count: u64, sum_ms: u64 },
}

/// Mathematical value of a [`MetricFamily`].
pub struct FamilyView {
    pub name: Seq<char>,
    pub help: Seq<char>,
    pub value: ValueView,
}

impl View for MetricValue {
    type V = ValueView;

    open spec fn view(&self) -> ValueView {
        match *self {
            MetricValue::Counter { value } => ValueView::Counter { value },
            MetricValue::Histogram { buckets, count, sum_ms } => ValueView::Histogram {
                buckets: buckets@,
                count,
                sum_ms,
            },
        }
    }
}

impl View for MetricFamily {
    type V = FamilyView;

    open spec fn view(&self) -> FamilyView {
        FamilyView { name: self.name@, help: self.help@, value: self.value@ }
    }
}

/// The buckets of an exported histogram: each bound with its count.
pub open spec fn exported_buckets(h: HistogramView) -> Seq<Bucket> {
    Seq::new(
        h.buckets.len(),
        |i: int| Bucket { upper_bound_ms: bucket_bounds()[i], cumulative_count: h.buckets[i] },
    )
}

/// What a snapshot of `m` holds: the count of handled events, the count of
/// failed reconciles and the histogram of reconcile durations, in this order.
/// The histogram goes by its name in seconds; its bounds and its sum are in
/// milliseconds, as the names of their fields say.
pub open spec fn exported(m: MetricsView) -> Seq<FamilyView> {
    seq![
        FamilyView {
            name: "foo_controller_handled_events"@,
            help: "handled events"@,
            value: ValueView::Counter { value: m.handled_events },
        },
        FamilyView {
            name: "foo_controller_reconcile_failures"@,
            help: "failed reconciles"@,
            value: ValueView::Counter { value: m.failures },
        },
        FamilyView {
            name: "foo_controller_reconcile_duration_seconds"@,
            help: "The duration of reconcile to complete in seconds"@,
            value: ValueView::Histogram {
                buckets: exported_buckets(m.durations),
                count: m.durations.count,
                sum_ms: m.durations.sum_ms,
            },
        },
    ]
}

/// The families of a list, each by its value.
pub open spec fn family_views(families: Seq<MetricFamily>) -> Seq<FamilyView> {
    Seq::new(families.len(), |i: int| families[i]@)
}

fn bucket_bound(i: usize) -> (bound: u64)
    requires
        i < BUCKETS,
    ensures
        bound == bucket_bounds()[i as int],
{
    if i == 0 {
        10
    } else if i == 1 {
        100
    } else if i == 2 {
        250
    } else if i == 3 {
        500
    } else if i == 4 {
        1000
    } else if i == 5 {
        5000
    } else if i == 6 {
        15000
    } else {
        60000
    }
}

/// Metrics of the controller: reconciles handled, reconciles failed, and how
/// long the handled ones took.
pub struct Metrics {
    handled_events: u64,
    failures: u64,
    buckets: Vec<u64>,
    count: u64,
    sum_ms: u64,
}

impl View for Metrics {
    type V = MetricsView;

    closed spec fn view(&self) -> MetricsView {
        MetricsView {
            handled_events: self.handled_events,
            failures: self.failures,
            durations: HistogramView {
                buckets: self.buckets@,
                count: self.count,
                sum_ms: self.sum_ms,
            },
        }
    }
}

impl Metrics {
    /// What every registry made and changed through this interface
    /// satisfies: its histogram is cumulative.
    pub open spec fn wf(&self) -> bool {
        cumulative(self@.durations)
    }

    /// What a registry holds that has recorded nothing.
    pub open spec fn new_view() -> MetricsView {
        MetricsView { handled_events: 0, failures: 0, durations: empty_histogram() }
    }

    /// A registry that has recorded nothing.
    pub fn new() -> (m: Metrics)
        ensures
            m.wf(),
            m@ == Metrics::new_view(),
    {
        let mut buckets: Vec<u64> = Vec::new();
        let mut i: usize = 0;
        while i < BUCKETS
            invariant
                i <= BUCKETS,
                buckets@.len() == i,
                forall|j: int| 0 <= j < i ==> buckets@[j] == 0,
            decreases BUCKETS - i,
        {
            buckets.push(0);
            i += 1;
        }
        let m = Metrics { handled_events: 0, failures: 0, buckets, count: 0, sum_ms: 0 };
        assert(m@.durations.buckets =~= empty_histogram().buckets);
        m
    }

    /// Counts one handled event.
    pub fn record_event(&mut self)
        requires
            old(self).wf(),
        ensures
            final(self).wf(),
            final(self)@ == (MetricsView {
                handled_events: capped_add(old(self)@.handled_events, 1),
                ..old(self)@
            }),
    {
        self.handled_events = self.handled_events.saturating_add(1);
    }

    /// Counts one failed reconcile.
    pub fn record_failure(&mut self)
        requires
            old(self).wf(),
        ensures
            final(self).wf(),
            final(self)@ == (MetricsView {
                failures: capped_add(old(self)@.failures, 1),
                ..old(self)@
            }),
    {
        self.failures = self.failures.saturating_add(1);
    }

    /// Records that a reconcile took `millis` milliseconds: one more
    /// observation in every bucket whose bound it does not exceed.
    pub fn record_reconcile_duration(&mut self, millis: u64)
        requires
            old(self).wf(),
        ensures
            final(self).wf(),
            final(self)@ == (MetricsView {
                durations: observed(old(self)@.durations, millis),
                ..old(self)@
            }),
    {
        let mut i: usize = 0;
        while i < BUCKETS
            invariant
                i <= BUCKETS,
                self.buckets@.len() == BUCKETS,
                old(self).buckets@.len() == BUCKETS,
                self.handled_events == old(self).handled_events,
                self.failures == old(self).failures,
                self.count == old(self).count,
                self.sum_ms == old(self).sum_ms,
                forall|j: int|
                    0 <= j < i ==> self.buckets@[j] == observed(
                        old(self)@.durations,
                        millis,
                    ).buckets[j],
                forall|j: int| i <= j < BUCKETS ==> self.buckets@[j] == old(self).buckets@[j],
            decreases BUCKETS - i,
        {
            if millis <= bucket_bound(i) {
                let bumped = self.buckets[i].saturating_add(1);
                self.buckets[i] = bumped;
            }
            i += 1;
        }
        self.count = self.count.saturating_add(1);
        self.sum_ms = self.sum_ms.saturating_add(millis);
        assert(self@.durations.buckets =~= observed(old(self)@.durations, millis).buckets);
    }

    /// Number of handled events recorded so far.
    pub fn handled_events(&self) -> (n: u64)
        ensures
            n == self@.handled_events,
    {
        self.handled_events
    }

    /// Number of failed reconciles recorded so far.
    pub fn failures(&self) -> (n: u64)
        ensures
            n == self@.failures,
    {
        self.failures
    }

    /// A copy of everything recorded so far, as a list of families. The copy
    /// is the caller's own: later recording does not change it.
    pub fn snapshot(&self) -> (families: Vec<MetricFamily>)
        requires
            self.wf(),
        ensures
            family_views(families@) == exported(self@),
    {
        let mut buckets: Vec<Bucket> = Vec::new();
        let mut i: usize = 0;
        while i < BUCKETS
            invariant
                i <= BUCKETS,
                self.buckets@.len() == BUCKETS,
                buckets@.len() == i,
                forall|j: int| 0 <= j < i ==> buckets@[j] == exported_buckets(self@.durations)[j],
            decreases BUCKETS - i,
        {
            buckets.push(
                Bucket { upper_bound_ms: bucket_bound(i), cumulative_count: self.buckets[i] },
            );
            i += 1;
        }
        assert(buckets@ =~= exported_buckets(self@.durations));
        let mut families: Vec<MetricFamily> = Vec::new();
        families.push(
            MetricFamily {
                name: "foo_controller_handled_events".to_owned(),
                help: "handled events".to_owned(),
                value: MetricValue::Counter { value: self.handled_events },
            },
        );
        families.push(
            MetricFamily {
                name: "foo_controller_reconcile_failures".to_owned(),
                help: "failed reconciles".to_owned(),
                value: MetricValue::Counter { value: self.failures },
            },
        );
        families.push(
            MetricFamily {
                name: "foo_controller_reconcile_duration_seconds".to_owned(),
                help: "The duration of reconcile to complete in seconds".to_owned(),
                value: MetricValue::Histogram { buckets, count: self.count, sum_ms: self.sum_ms },
            },
        );
        assert(family_views(families@) =~= exported(self@));
        families
    }
}

/// The histogram after the observations `seen`, made in order.
pub open spec fn observed_all(seen: Seq<u64>) -> HistogramView
    decreases seen.len(),
{
    if seen.len() == 0 {
        empty_histogram()
    } else {
        observed(observed_all(seen.drop_last()), seen.last())
    }
}

/// Number of observations in `seen` that are at most `bound`.
pub open spec fn at_most(seen: Seq<u64>, bound: u64) -> nat
    decreases seen.len(),
{
    if seen.len() == 0 {
        0
    } else {
        at_most(seen.drop_last(), bound) + if seen.last() <= bound {
            1nat
        } else {
            0nat
        }
    }
}

/// Sum of the observations in `seen`.
pub open spec fn total(seen: Seq<u64>) -> nat
    decreases seen.len(),
{
    if seen.len() == 0 {
        0
    } else {
        total(seen.drop_last()) + seen.last() as nat
    }
}

/// A natural number, held at `u64::MAX`.
pub open spec fn capped(n: nat) -> u64 {
    if n > u64::MAX {
        u64::MAX
    } else {
        n as u64
    }
}

/// The histogram is the tally of what was recorded. After any run of
/// observations each bucket holds the number of observations within its
/// bound, the count is their number and the sum their sum, each held at
/// `u64::MAX`; and the histogram is cumulative.
pub proof fn lemma_histogram_tallies(seen: Seq<u64>)
    ensures
        cumulative(observed_all(seen)),
        observed_all(seen).count == capped(seen.len()),
        observed_all(seen).sum_ms == capped(total(seen)),
        forall|i: int|
            0 <= i < BUCKETS ==> #[trigger] observed_all(seen).buckets[i] == capped(
                at_most(seen, bucket_bounds()[i]),
            ),
    decreases seen.len(),
{
    if seen.len() > 0 {
        lemma_histogram_tallies(seen.drop_last());
    }
}

} // verus!
