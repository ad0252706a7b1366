//! The `Foo` resource: what its owner asks for and what the controller
//! reports back.

use vstd::prelude::*;
use crate::clock::Timestamp;
use crate::key::{KeyView, ObjectKey};

verus! {

/// Desired state of a `Foo`. Its owner writes it; the controller only reads.
#[derive(Debug, PartialEq, Eq)]
pub struct FooSpec {
    pub name: String,
    pub info: String,
}

/// Observed state of a `Foo`. The controller owns it and changes it by patch
/// only.
#[derive(Clone, Copy, Debug, PartialEq, Eq)]
pub struct FooStatus {
    pub is_bad: bool,
    pub last_updated: Option<Timestamp>,
}

/// A `Foo` as read from the store.
#[derive(Debug, PartialEq, Eq)]
pub struct Foo {
    pub namespace: String,
    pub name: String,
    /// Opaque token that changes with every write; compared, never parsed.
    pub resource_version: String,
    pub spec: FooSpec,
    pub status: Option<FooStatus>,
}

/// Mathematical value of a [`FooSpec`].
pub struct FooSpecView {
    pub name: Seq<char>,
    pub info: Seq<char>,
}

/// Mathematical value of a [`Foo`].
pub struct FooView {
    pub namespace: Seq<char>,
    pub name: Seq<char>,
    pub resource_version: Seq<char>,
    pub spec: FooSpecView,
    pub status: Option<FooStatus>,
}

impl View for FooSpec {
    type V = FooSpecView;

    open spec fn view(&self) -> FooSpecView {
        FooSpecView { name: self.name@, info: self.info@ }
    }
}

impl View for Foo {
    type V = FooView;

    open spec fn view(&self) -> FooView {
        FooView {
            namespace: self.namespace@,
            name: self.name@,
            resource_version: self.resource_version@,
            spec: self.spec@,
            status: self.status,
        }
    }
}

/// The key under which an object is queued.
pub open spec fn key_of(foo: FooView) -> KeyView {
    KeyView { namespace: foo.namespace, name: foo.name }
}

/// Whether the store has replaced what was read as `seen` by the time it is
/// read as `current`: the tokens differ.
pub open spec fn superseded(seen: FooView, current: FooView) -> bool {
    seen.resource_version != current.resource_version
}

impl Foo {
    /// The key under which this object is queued.
    pub fn key(&self) -> (key: ObjectKey)
        ensures
            key@ == key_of(self@),
    {
        ObjectKey { namespace: self.namespace.clone(), name: self.name.clone() }
    }

    /// Whether `self`, read earlier, is stale against `current`.
    pub fn is_stale_against(&self, current: &Foo) -> (stale: bool)
        ensures
            stale == superseded(self@, current@),
    {
        self.resource_version != current.resource_version
    }
}

} // verus!
