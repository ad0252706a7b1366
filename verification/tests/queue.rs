use foo_controller::key::ObjectKey;
use foo_controller::queue::{Phase, WorkQueue};

fn qkey(name: &str) -> ObjectKey {
    ObjectKey::new("ns", name)
}

#[test]
fn new_queue_is_empty() {
    let mut q = WorkQueue::new();
    assert_eq!(q.len(), 0);
    assert_eq!(q.in_flight_count(), 0);
    assert_eq!(q.next_due(), None);
    assert!(q.dequeue(u64::MAX).is_none());
    assert_eq!(q.phase(&qkey("a")), None);
}

#[test]
fn enqueue_makes_key_wait_for_now_plus_delay() {
    let mut q = WorkQueue::new();
    q.enqueue(qkey("a"), 1_000, 250);
    assert_eq!(q.len(), 1);
    assert_eq!(q.phase(&qkey("a")), Some(Phase::Pending { not_before: 1_250 }));
}

#[test]
fn repeated_enqueue_keeps_one_item_with_the_earliest_time() {
    let mut q = WorkQueue::new();
    q.enqueue(qkey("a"), 100, 50);
    q.enqueue(qkey("a"), 100, 20);
    q.enqueue(qkey("a"), 100, 70);
    q.enqueue(qkey("a"), 110, 15);
    assert_eq!(q.len(), 1);
    assert_eq!(q.phase(&qkey("a")), Some(Phase::Pending { not_before: 120 }));
}

#[test]
fn later_enqueue_never_delays_ready_work() {
    let mut q = WorkQueue::new();
    q.enqueue(qkey("a"), 10, 0);
    q.enqueue(qkey("a"), 10, 1_800_000);
    assert_eq!(q.phase(&qkey("a")), Some(Phase::Pending { not_before: 10 }));
    assert!(q.dequeue(10).unwrap().same(&qkey("a")));
}

#[test]
fn enqueues_of_other_keys_do_not_touch_a_key() {
    let mut q = WorkQueue::new();
    q.enqueue(qkey("a"), 0, 500);
    q.enqueue(qkey("b"), 0, 5);
    q.enqueue(qkey("c"), 0, 1);
    q.enqueue(qkey("a"), 0, 300);
    q.enqueue(qkey("b"), 0, 2);
    assert_eq!(q.len(), 3);
    assert_eq!(q.phase(&qkey("a")), Some(Phase::Pending { not_before: 300 }));
    assert_eq!(q.phase(&qkey("b")), Some(Phase::Pending { not_before: 2 }));
    assert_eq!(q.phase(&qkey("c")), Some(Phase::Pending { not_before: 1 }));
}

#[test]
fn enqueue_at_the_end_of_time() {
    let mut q = WorkQueue::new();
    q.enqueue(qkey("a"), u64::MAX - 5, 5);
    assert_eq!(q.phase(&qkey("a")), Some(Phase::Pending { not_before: u64::MAX }));
    assert!(q.dequeue(u64::MAX - 1).is_none());
    assert!(q.dequeue(u64::MAX).is_some());
}

#[test]
fn dequeue_waits_for_not_before() {
    let mut q = WorkQueue::new();
    q.enqueue(qkey("a"), 100, 50);
    assert!(q.dequeue(149).is_none());
    assert_eq!(q.phase(&qkey("a")), Some(Phase::Pending { not_before: 150 }));
    let got = q.dequeue(150).unwrap();
    assert!(got.same(&qkey("a")));
    assert_eq!(q.phase(&qkey("a")), Some(Phase::InFlight { requeue: None }));
}

#[test]
fn dequeue_serves_the_earliest_ready_key() {
    let mut q = WorkQueue::new();
    q.enqueue(qkey("late"), 0, 30);
    q.enqueue(qkey("early"), 0, 10);
    q.enqueue(qkey("mid"), 0, 20);
    q.enqueue(qkey("future"), 0, 999);
    assert!(q.dequeue(100).unwrap().same(&qkey("early")));
    assert!(q.dequeue(100).unwrap().same(&qkey("mid")));
    assert!(q.dequeue(100).unwrap().same(&qkey("late")));
    assert!(q.dequeue(100).is_none());
    assert_eq!(q.in_flight_count(), 3);
}

#[test]
fn dequeue_breaks_ties_by_position() {
    let mut q = WorkQueue::new();
    q.enqueue(qkey("first"), 0, 10);
    q.enqueue(qkey("second"), 0, 10);
    q.enqueue(qkey("third"), 5, 5);
    assert!(q.dequeue(10).unwrap().same(&qkey("first")));
    assert!(q.dequeue(10).unwrap().same(&qkey("second")));
    assert!(q.dequeue(10).unwrap().same(&qkey("third")));
}

#[test]
fn key_in_flight_is_not_served_again() {
    let mut q = WorkQueue::new();
    q.enqueue(qkey("a"), 0, 0);
    assert!(q.dequeue(0).unwrap().same(&qkey("a")));
    assert!(q.dequeue(0).is_none());
    q.enqueue(qkey("a"), 1, 0);
    q.enqueue(qkey("a"), 2, 0);
    assert!(q.dequeue(1_000).is_none());
    assert_eq!(q.len(), 1);
    q.enqueue(qkey("b"), 3, 0);
    assert!(q.dequeue(1_000).unwrap().same(&qkey("b")));
    assert!(q.ack(&qkey("b")));
    assert!(q.dequeue(1_000).is_none());
}

#[test]
fn enqueue_during_flight_is_kept_and_coalesced() {
    let mut q = WorkQueue::new();
    q.enqueue(qkey("a"), 0, 0);
    q.dequeue(0).unwrap();
    q.enqueue(qkey("a"), 10, 500);
    assert_eq!(q.phase(&qkey("a")), Some(Phase::InFlight { requeue: Some(510) }));
    q.enqueue(qkey("a"), 20, 100);
    assert_eq!(q.phase(&qkey("a")), Some(Phase::InFlight { requeue: Some(120) }));
    q.enqueue(qkey("a"), 30, 400);
    assert_eq!(q.phase(&qkey("a")), Some(Phase::InFlight { requeue: Some(120) }));
    assert_eq!(q.len(), 1);
}

#[test]
fn ack_releases_the_request_that_arrived_in_flight() {
    let mut q = WorkQueue::new();
    q.enqueue(qkey("a"), 0, 0);
    q.dequeue(0).unwrap();
    q.enqueue(qkey("a"), 5, 0);
    assert!(q.ack(&qkey("a")));
    assert_eq!(q.phase(&qkey("a")), Some(Phase::Pending { not_before: 5 }));
    assert!(q.dequeue(5).unwrap().same(&qkey("a")));
}

#[test]
fn ack_without_request_forgets_the_key() {
    let mut q = WorkQueue::new();
    q.enqueue(qkey("a"), 0, 0);
    q.enqueue(qkey("b"), 0, 7);
    q.dequeue(0).unwrap();
    assert!(q.ack(&qkey("a")));
    assert_eq!(q.phase(&qkey("a")), None);
    assert_eq!(q.len(), 1);
    assert_eq!(q.phase(&qkey("b")), Some(Phase::Pending { not_before: 7 }));
}

#[test]
fn ack_of_a_key_not_in_flight_changes_nothing() {
    let mut q = WorkQueue::new();
    q.enqueue(qkey("a"), 0, 9);
    assert!(!q.ack(&qkey("a")));
    assert!(!q.ack(&qkey("unknown")));
    assert_eq!(q.len(), 1);
    assert_eq!(q.phase(&qkey("a")), Some(Phase::Pending { not_before: 9 }));
}

#[test]
fn second_ack_is_refused() {
    let mut q = WorkQueue::new();
    q.enqueue(qkey("a"), 0, 0);
    q.dequeue(0).unwrap();
    q.enqueue(qkey("a"), 1, 1);
    assert!(q.ack(&qkey("a")));
    assert!(!q.ack(&qkey("a")));
    assert_eq!(q.phase(&qkey("a")), Some(Phase::Pending { not_before: 2 }));
}

#[test]
fn next_due_is_the_earliest_waiting_time() {
    let mut q = WorkQueue::new();
    q.enqueue(qkey("a"), 0, 40);
    q.enqueue(qkey("b"), 0, 15);
    q.enqueue(qkey("c"), 0, 90);
    assert_eq!(q.next_due(), Some(15));
    assert!(q.dequeue(20).unwrap().same(&qkey("b")));
    assert_eq!(q.next_due(), Some(40));
}

#[test]
fn next_due_ignores_keys_in_flight() {
    let mut q = WorkQueue::new();
    q.enqueue(qkey("a"), 0, 0);
    q.dequeue(0).unwrap();
    q.enqueue(qkey("a"), 0, 3);
    assert_eq!(q.next_due(), None);
    q.ack(&qkey("a"));
    assert_eq!(q.next_due(), Some(3));
}

#[test]
fn in_flight_count_follows_dequeue_and_ack() {
    let mut q = WorkQueue::new();
    q.enqueue(qkey("a"), 0, 0);
    q.enqueue(qkey("b"), 0, 0);
    q.enqueue(qkey("c"), 0, 0);
    assert_eq!(q.in_flight_count(), 0);
    q.dequeue(0).unwrap();
    q.dequeue(0).unwrap();
    assert_eq!(q.in_flight_count(), 2);
    q.ack(&qkey("a"));
    assert_eq!(q.in_flight_count(), 1);
    assert_eq!(q.len(), 2);
}

#[test]
fn same_name_in_two_namespaces_is_two_keys() {
    let mut q = WorkQueue::new();
    q.enqueue(ObjectKey::new("ns1", "foo"), 0, 10);
    q.enqueue(ObjectKey::new("ns2", "foo"), 0, 20);
    assert_eq!(q.len(), 2);
    assert_eq!(q.phase(&ObjectKey::new("ns1", "foo")), Some(Phase::Pending { not_before: 10 }));
    assert_eq!(q.phase(&ObjectKey::new("ns2", "foo")), Some(Phase::Pending { not_before: 20 }));
}
