use foo_controller::key::{ChangeEvent, ChangeKind, ObjectKey};
use foo_controller::watch::{StoreNotice, WatchSettings, WatchSource, WatchStep};

fn source(now: u64) -> WatchSource {
    WatchSource::new(WatchSettings { resync_period_ms: 300_000, retry_ms: 5_000 }, now)
}

fn wkey(name: &str) -> ObjectKey {
    ObjectKey::new("ns", name)
}

#[test]
fn new_source_lists_at_once() {
    let w = source(1_000);
    assert_eq!(w.step(1_000), WatchStep::Relist);
    assert_eq!(w.step(2_000), WatchStep::Relist);
    assert_eq!(w.step(999), WatchStep::Wait { until: 1_000 });
}

#[test]
fn listing_resyncs_every_object_in_order() {
    let mut w = source(0);
    let events = w.absorb(StoreNotice::Listed(vec![wkey("b"), wkey("a"), wkey("c")]), 10);
    assert_eq!(
        events,
        vec![
            ChangeEvent { key: wkey("b"), kind: ChangeKind::Resynced },
            ChangeEvent { key: wkey("a"), kind: ChangeKind::Resynced },
            ChangeEvent { key: wkey("c"), kind: ChangeKind::Resynced },
        ]
    );
}

#[test]
fn empty_listing_emits_nothing_and_still_connects() {
    let mut w = source(0);
    let events = w.absorb(StoreNotice::Listed(vec![]), 10);
    assert!(events.is_empty());
    assert_eq!(w.step(11), WatchStep::Follow { until: 300_010 });
}

#[test]
fn after_a_listing_the_next_is_due_one_period_later() {
    let mut w = source(0);
    w.absorb(StoreNotice::Listed(vec![wkey("a")]), 10);
    assert_eq!(w.step(10), WatchStep::Follow { until: 300_010 });
    assert_eq!(w.step(300_009), WatchStep::Follow { until: 300_010 });
    assert_eq!(w.step(300_010), WatchStep::Relist);
    w.absorb(StoreNotice::Listed(vec![wkey("a")]), 300_020);
    assert_eq!(w.step(300_021), WatchStep::Follow { until: 600_020 });
}

#[test]
fn changes_pass_through_with_their_kind() {
    let mut w = source(0);
    w.absorb(StoreNotice::Listed(vec![]), 0);
    assert_eq!(
        w.absorb(StoreNotice::Added(wkey("a")), 5),
        vec![ChangeEvent { key: wkey("a"), kind: ChangeKind::Added }]
    );
    assert_eq!(
        w.absorb(StoreNotice::Modified(wkey("a")), 6),
        vec![ChangeEvent { key: wkey("a"), kind: ChangeKind::Modified }]
    );
    assert_eq!(
        w.absorb(StoreNotice::Deleted(wkey("a")), 7),
        vec![ChangeEvent { key: wkey("a"), kind: ChangeKind::Deleted }]
    );
    assert_eq!(w.step(8), WatchStep::Follow { until: 300_000 });
}

#[test]
fn broken_stream_is_no_event_and_leads_back_to_listing() {
    let mut w = source(0);
    w.absorb(StoreNotice::Listed(vec![wkey("a")]), 0);
    let events = w.absorb(StoreNotice::Disconnected, 100);
    assert!(events.is_empty());
    assert_eq!(w.step(100), WatchStep::Wait { until: 5_100 });
    assert_eq!(w.step(5_099), WatchStep::Wait { until: 5_100 });
    assert_eq!(w.step(5_100), WatchStep::Relist);
    let again = w.absorb(StoreNotice::Listed(vec![wkey("a")]), 5_100);
    assert_eq!(again, vec![ChangeEvent { key: wkey("a"), kind: ChangeKind::Resynced }]);
    assert_eq!(w.step(5_101), WatchStep::Follow { until: 305_100 });
}

#[test]
fn break_before_the_first_listing_waits_one_retry() {
    let mut w = source(0);
    w.absorb(StoreNotice::Disconnected, 40);
    assert_eq!(w.step(41), WatchStep::Wait { until: 5_040 });
    assert_eq!(w.step(5_040), WatchStep::Relist);
}
