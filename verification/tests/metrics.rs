use foo_controller::metrics::{Bucket, MetricFamily, MetricValue, Metrics, BUCKETS};

fn bucket_counts(m: &Metrics) -> Vec<u64> {
    match &m.snapshot()[2].value {
        MetricValue::Histogram { buckets, .. } => buckets.iter().map(|b| b.cumulative_count).collect(),
        MetricValue::Counter { .. } => panic!("family 2 is no histogram"),
    }
}

#[test]
fn new_registry_exports_zeroes() {
    let m = Metrics::new();
    let zero = |bound: u64| Bucket { upper_bound_ms: bound, cumulative_count: 0 };
    let expected = vec![
        MetricFamily {
            name: "foo_controller_handled_events".to_string(),
            help: "handled events".to_string(),
            value: MetricValue::Counter { value: 0 },
        },
        MetricFamily {
            name: "foo_controller_reconcile_failures".to_string(),
            help: "failed reconciles".to_string(),
            value: MetricValue::Counter { value: 0 },
        },
        MetricFamily {
            name: "foo_controller_reconcile_duration_seconds".to_string(),
            help: "The duration of reconcile to complete in seconds".to_string(),
            value: MetricValue::Histogram {
                buckets: vec![
                    zero(10),
                    zero(100),
                    zero(250),
                    zero(500),
                    zero(1_000),
                    zero(5_000),
                    zero(15_000),
                    zero(60_000),
                ],
                count: 0,
                sum_ms: 0,
            },
        },
    ];
    assert_eq!(m.snapshot(), expected);
    assert_eq!(BUCKETS, 8);
}

#[test]
fn events_and_failures_are_counted_apart() {
    let mut m = Metrics::new();
    m.record_event();
    m.record_event();
    m.record_failure();
    assert_eq!(m.handled_events(), 2);
    assert_eq!(m.failures(), 1);
    let families = m.snapshot();
    assert_eq!(families[0].value, MetricValue::Counter { value: 2 });
    assert_eq!(families[1].value, MetricValue::Counter { value: 1 });
    assert_eq!(bucket_counts(&m), vec![0; 8]);
}

#[test]
fn duration_lands_in_every_bucket_that_admits_it() {
    let mut m = Metrics::new();
    m.record_reconcile_duration(300);
    assert_eq!(bucket_counts(&m), vec![0, 0, 0, 1, 1, 1, 1, 1]);
    m.record_reconcile_duration(7);
    assert_eq!(bucket_counts(&m), vec![1, 1, 1, 2, 2, 2, 2, 2]);
    m.record_reconcile_duration(20_000);
    assert_eq!(bucket_counts(&m), vec![1, 1, 1, 2, 2, 2, 2, 3]);
}

#[test]
fn bucket_bounds_are_inclusive() {
    let mut m = Metrics::new();
    m.record_reconcile_duration(10);
    assert_eq!(bucket_counts(&m), vec![1, 1, 1, 1, 1, 1, 1, 1]);
    m.record_reconcile_duration(11);
    assert_eq!(bucket_counts(&m), vec![1, 2, 2, 2, 2, 2, 2, 2]);
    m.record_reconcile_duration(60_000);
    assert_eq!(bucket_counts(&m), vec![1, 2, 2, 2, 2, 2, 2, 3]);
    m.record_reconcile_duration(0);
    assert_eq!(bucket_counts(&m), vec![2, 3, 3, 3, 3, 3, 3, 4]);
}

#[test]
fn duration_beyond_the_last_bound_counts_in_no_bucket() {
    let mut m = Metrics::new();
    m.record_reconcile_duration(60_001);
    assert_eq!(bucket_counts(&m), vec![0; 8]);
    match &m.snapshot()[2].value {
        MetricValue::Histogram { count, sum_ms, .. } => {
            assert_eq!(*count, 1);
            assert_eq!(*sum_ms, 60_001);
        },
        MetricValue::Counter { .. } => panic!("family 2 is no histogram"),
    }
}

#[test]
fn count_and_sum_follow_the_observations() {
    let mut m = Metrics::new();
    m.record_reconcile_duration(12);
    m.record_reconcile_duration(250);
    m.record_reconcile_duration(4_000);
    match &m.snapshot()[2].value {
        MetricValue::Histogram { buckets, count, sum_ms } => {
            assert_eq!(*count, 3);
            assert_eq!(*sum_ms, 4_262);
            assert_eq!(buckets[0], Bucket { upper_bound_ms: 10, cumulative_count: 0 });
            assert_eq!(buckets[1], Bucket { upper_bound_ms: 100, cumulative_count: 1 });
            assert_eq!(buckets[2], Bucket { upper_bound_ms: 250, cumulative_count: 2 });
            assert_eq!(buckets[5], Bucket { upper_bound_ms: 5_000, cumulative_count: 3 });
        },
        MetricValue::Counter { .. } => panic!("family 2 is no histogram"),
    }
}

#[test]
fn sum_saturates() {
    let mut m = Metrics::new();
    m.record_reconcile_duration(u64::MAX);
    m.record_reconcile_duration(5);
    match &m.snapshot()[2].value {
        MetricValue::Histogram { count, sum_ms, .. } => {
            assert_eq!(*count, 2);
            assert_eq!(*sum_ms, u64::MAX);
        },
        MetricValue::Counter { .. } => panic!("family 2 is no histogram"),
    }
    assert_eq!(bucket_counts(&m), vec![1; 8]);
}

#[test]
fn snapshot_does_not_follow_later_recording() {
    let mut m = Metrics::new();
    m.record_event();
    let earlier = m.snapshot();
    m.record_event();
    m.record_reconcile_duration(1);
    assert_eq!(earlier[0].value, MetricValue::Counter { value: 1 });
    assert_eq!(m.snapshot()[0].value, MetricValue::Counter { value: 2 });
    assert_ne!(earlier, m.snapshot());
}
