//! Object identity and the change notifications that carry it.

use vstd::prelude::*;

verus! {

/// Identity of an object in the store: unique per object and stable over its
/// lifetime.
#[derive(Debug, PartialEq, Eq, Hash)]
pub struct ObjectKey {
    pub namespace: String,
    pub name: String,
}

/// Mathematical value of an [`ObjectKey`].
pub struct KeyView {
    pub namespace: Seq<char>,
    pub name: Seq<char>,
}

impl View for ObjectKey {
    type V = KeyView;

    open spec fn view(&self) -> KeyView {
        KeyView { namespace: self.namespace@, name: self.name@ }
    }
}

impl Clone for ObjectKey {
    fn clone(&self) -> (copy: ObjectKey)
        ensures
            copy@ == self@,
    {
        ObjectKey { namespace: self.namespace.clone(), name: self.name.clone() }
    }
}

impl ObjectKey {
    /// Builds the key of the object called `name` in `namespace`.
    pub fn new(namespace: &str, name: &str) -> (key: ObjectKey)
        ensures
            key@ == (KeyView { namespace: namespace@, name: name@ }),
    {
        ObjectKey { namespace: namespace.to_owned(), name: name.to_owned() }
    }

    /// Whether both keys name the same object.
    pub fn same(&self, other: &ObjectKey) -> (b: bool)
        ensures
            b == (self@ == other@),
    {
        self.namespace == other.namespace && self.name == other.name
    }
}

/// What happened to an object, as far as the watch could tell.
#[derive(Clone, Copy, Debug, PartialEq, Eq, Structural)]
pub enum ChangeKind {
    Added,
    Modified,
    Deleted,
    Resynced,
}

/// One notification from the watch: consumed once, never stored.
#[derive(Debug, PartialEq, Eq)]
pub struct ChangeEvent {
    pub key: ObjectKey,
    pub kind: ChangeKind,
}

/// Mathematical value of a [`ChangeEvent`].
pub struct EventView {
    pub key: KeyView,
    pub kind: ChangeKind,
}

impl View for ChangeEvent {
    type V = EventView;

    open spec fn view(&self) -> EventView {
        EventView { key: self.key@, kind: self.kind }
    }
}

/// The keys of a list, each by its value.
pub open spec fn key_views(keys: Seq<ObjectKey>) -> Seq<KeyView> {
    Seq::new(keys.len(), |i: int| keys[i]@)
}

/// The events of a list, each by its value.
pub open spec fn event_views(events: Seq<ChangeEvent>) -> Seq<EventView> {
    Seq::new(events.len(), |i: int| events[i]@)
}

} // verus!
