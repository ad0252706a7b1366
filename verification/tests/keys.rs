use foo_controller::key::{ChangeEvent, ChangeKind, ObjectKey};

#[test]
fn keys_compare_by_namespace_and_name() {
    let a = ObjectKey::new("ns", "foo1");
    let b = ObjectKey::new("ns", "foo1");
    assert!(a.same(&b));
    assert!(!a.same(&ObjectKey::new("other", "foo1")));
    assert!(!a.same(&ObjectKey::new("ns", "foo2")));
}

#[test]
fn key_parts_are_not_run_together() {
    let a = ObjectKey::new("ab", "c");
    let b = ObjectKey::new("a", "bc");
    assert!(!a.same(&b));
}

#[test]
fn cloned_key_is_the_same_key() {
    let a = ObjectKey::new("ns", "foo1");
    let copy = a.clone();
    assert!(copy.same(&a));
    assert_eq!(copy.namespace, "ns");
    assert_eq!(copy.name, "foo1");
}

#[test]
fn event_carries_key_and_kind() {
    let e = ChangeEvent { key: ObjectKey::new("ns", "foo1"), kind: ChangeKind::Resynced };
    assert_eq!(e.kind, ChangeKind::Resynced);
    assert!(e.key.same(&ObjectKey::new("ns", "foo1")));
}
