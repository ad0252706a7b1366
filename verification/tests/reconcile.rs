use foo_controller::clock::Timestamp;
use foo_controller::error::Error;
use foo_controller::reconcile::{
    conclude, desired_status, error_policy, plan, status_patch, Outcome, ERROR_BACKOFF_MS,
    REQUEUE_AFTER_MS,
};
use foo_controller::resource::{Foo, FooSpec, FooStatus};

fn foo(info: &str) -> Foo {
    Foo {
        namespace: "ns".to_string(),
        name: "foo1".to_string(),
        resource_version: "41".to_string(),
        spec: FooSpec { name: "foo1".to_string(), info: info.to_string() },
        status: None,
    }
}

fn at(secs: i64) -> Timestamp {
    Timestamp { secs, nanos: 0 }
}

#[test]
fn bad_thing_is_bad() {
    let status = desired_status(&foo("bad thing").spec, at(7));
    assert_eq!(status, FooStatus { is_bad: true, last_updated: Some(at(7)) });
}

#[test]
fn good_thing_is_not_bad() {
    let status = desired_status(&foo("good thing").spec, at(7));
    assert_eq!(status, FooStatus { is_bad: false, last_updated: Some(at(7)) });
}

#[test]
fn bad_is_found_anywhere_in_the_text() {
    assert!(desired_status(&foo("not so bad").spec, at(0)).is_bad);
    assert!(desired_status(&foo("a badger").spec, at(0)).is_bad);
    assert!(desired_status(&foo("bad").spec, at(0)).is_bad);
    assert!(desired_status(&foo("babad").spec, at(0)).is_bad);
}

#[test]
fn near_misses_are_not_bad() {
    assert!(!desired_status(&foo("").spec, at(0)).is_bad);
    assert!(!desired_status(&foo("ba").spec, at(0)).is_bad);
    assert!(!desired_status(&foo("b a d").spec, at(0)).is_bad);
    assert!(!desired_status(&foo("BAD").spec, at(0)).is_bad);
    assert!(!desired_status(&foo("dab").spec, at(0)).is_bad);
}

#[test]
fn patch_names_object_kind_and_manager() {
    let patch = status_patch(&foo("bad thing"), Timestamp { secs: 1_700_000_000, nanos: 5 });
    assert_eq!(patch.namespace, "ns");
    assert_eq!(patch.name, "foo1");
    assert_eq!(patch.api_version, "clux.dev/v1");
    assert_eq!(patch.kind, "Foo");
    assert_eq!(patch.field_manager, "cntrlr");
    assert!(patch.force);
    assert_eq!(
        patch.status,
        FooStatus { is_bad: true, last_updated: Some(Timestamp { secs: 1_700_000_000, nanos: 5 }) }
    );
}

#[test]
fn reconciling_twice_gives_the_same_patch() {
    let object = foo("bad thing");
    let first = status_patch(&object, at(100));
    let second = status_patch(&object, at(100));
    assert_eq!(first, second);
}

#[test]
fn own_patch_does_not_change_the_next_patch() {
    let before = foo("bad thing");
    let first = status_patch(&before, at(100));
    let mut after = foo("bad thing");
    after.status = Some(first.status);
    after.resource_version = "42".to_string();
    let second = status_patch(&after, at(100));
    assert_eq!(first, second);
    let third = status_patch(&after, at(200));
    assert_eq!(third.status.is_bad, first.status.is_bad);
    assert_eq!(third.status.last_updated, Some(at(200)));
}

#[test]
fn plan_stamps_the_patch_with_the_clock() {
    let patch = plan(&foo("bad thing"));
    assert!(patch.status.is_bad);
    let stamp = patch.status.last_updated.unwrap();
    assert!(stamp.secs > 1_600_000_000);
    assert!(stamp.nanos < 2_000_000_000);
    assert_eq!(patch.kind, "Foo");
    let again = plan(&foo("bad thing"));
    assert!(again.status.last_updated.unwrap().secs >= stamp.secs);
}

#[test]
fn patch_that_went_through_requeues_in_thirty_minutes() {
    assert_eq!(conclude(Ok(())), Outcome::Success { requeue_after: Some(1_800_000) });
    assert_eq!(REQUEUE_AFTER_MS, 1_800 * 1_000);
}

#[test]
fn refused_patch_is_a_failure() {
    assert_eq!(conclude(Err(Error::Conflict)), Outcome::Failure { error: Error::Conflict });
    assert_eq!(conclude(Err(Error::Transport)), Outcome::Failure { error: Error::Transport });
    assert_eq!(conclude(Err(Error::NotFound)), Outcome::Failure { error: Error::NotFound });
    assert_eq!(
        conclude(Err(Error::ReconcileLogic)),
        Outcome::Failure { error: Error::ReconcileLogic }
    );
}

#[test]
fn error_policy_is_a_fixed_interval() {
    assert_eq!(error_policy(&Error::Conflict), 360_000);
    assert_eq!(error_policy(&Error::Transport), 360_000);
    assert_eq!(error_policy(&Error::NotFound), 360_000);
    assert_eq!(error_policy(&Error::ReconcileLogic), 360_000);
    assert_eq!(ERROR_BACKOFF_MS, 360 * 1_000);
}

#[test]
fn object_key_is_namespace_and_name() {
    let key = foo("x").key();
    assert_eq!(key.namespace, "ns");
    assert_eq!(key.name, "foo1");
}

#[test]
fn staleness_is_a_change_of_resource_version() {
    let seen = foo("x");
    let mut current = foo("x");
    assert!(!seen.is_stale_against(&current));
    current.resource_version = "42".to_string();
    assert!(seen.is_stale_against(&current));
    current.resource_version = "041".to_string();
    assert!(seen.is_stale_against(&current));
}
