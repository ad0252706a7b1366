//! Reconciling one `Foo`: the status it should have, the patch that says so,
//! and what the answer to that patch means for the next run.
//!
//! The rule for `is_bad` is an example of a domain rule, not a general one.

use vstd::prelude::*;
use crate::clock::{utc_now, Timestamp};
use crate::error::Error;
use crate::key::KeyView;
use crate::resource::{key_of, Foo, FooSpec, FooStatus, FooView};
use crate::text::{contains, is_substring};

verus! {

/// Delay before an object that reconciled well is looked at again, absent
/// any change: thirty minutes.
pub const REQUEUE_AFTER_MS: u64 = 1_800_000;

/// Delay before an object whose reconcile failed is tried again: six
/// minutes, whatever the failure.
pub const ERROR_BACKOFF_MS: u64 = 360_000;

/// How a reconcile ended.
#[derive(Clone, Copy, Debug, PartialEq, Eq)]
pub enum Outcome {
    /// It went through; look again after `requeue_after`, or after the
    /// dispatcher's default interval where none is given.
    Success { requeue_after: Option<u64> },
    /// It failed; the error policy says when to try again.
    Failure { error: Error },
}

/// The status patch that a reconcile sends: a server-side apply under the
/// controller's own field manager.
#[derive(Debug, PartialEq, Eq)]
pub struct StatusPatch {
    pub namespace: String,
    pub name: String,
    pub api_version: String,
    pub kind: String,
    pub status: FooStatus,
    pub field_manager: String,
    pub force: bool,
}

/// Mathematical value of a [`StatusPatch`].
pub struct PatchView {
    pub target: KeyView,
    pub api_version: Seq<char>,
    pub kind: Seq<char>,
    pub status: FooStatus,
    pub field_manager: Seq<char>,
    pub force: bool,
}

impl View for StatusPatch {
    type V = PatchView;

    open spec fn view(&self) -> PatchView {
        PatchView {
            target: KeyView { namespace: self.namespace@, name: self.name@ },
            api_version: self.api_version@,
            kind: self.kind@,
            status: self.status,
            field_manager: self.field_manager@,
            force: self.force,
        }
    }
}

/// The word that marks a `Foo` as bad.
pub open spec fn bad_word() -> Seq<char> {
    seq!['b', 'a', 'd']
}

/// The status that a `Foo` with this `info` should have when looked at at
/// `now`.
pub open spec fn status_for(info: Seq<char>, now: Timestamp) -> FooStatus {
    FooStatus { is_bad: is_substring(bad_word(), info), last_updated: Some(now) }
}

/// The patch that brings `foo` to the status it should have at `now`.
pub open spec fn patch_for(foo: FooView, now: Timestamp) -> PatchView {
    PatchView {
        target: key_of(foo),
        api_version: "clux.dev/v1"@,
        kind: "Foo"@,
        status: status_for(foo.spec.info, now),
        field_manager: "cntrlr"@,
        force: true,
    }
}

/// The status that `spec` calls for at `now`: bad exactly where `info`
/// mentions "bad", and updated now.
pub fn desired_status(spec: &FooSpec, now: Timestamp) -> (status: FooStatus)
    ensures
        status == status_for(spec@.info, now),
{
    proof {
        reveal_strlit("bad");
        assert("bad"@ =~= bad_word());
    }
    FooStatus { is_bad: contains(spec.info.as_str(), "bad"), last_updated: Some(now) }
}

/// The patch to send for `foo` when the clock reads `now`. It depends on the
/// object's key and spec and on the clock, on nothing else: not on the
/// status the object has, nor on its resource version.
pub fn status_patch(foo: &Foo, now: Timestamp) -> (patch: StatusPatch)
    ensures
        patch@ == patch_for(foo@, now),
{
    StatusPatch {
        namespace: foo.namespace.clone(),
        name: foo.name.clone(),
        api_version: "clux.dev/v1".to_owned(),
        kind: "Foo".to_owned(),
        status: desired_status(&foo.spec, now),
        field_manager: "cntrlr".to_owned(),
        force: true,
    }
}

/// The patch to send for `foo` now: `status_patch` at the reading of the
/// system clock. It returns no error; it panics where the system clock stands
/// before 1970, as the reading of the clock does.
pub fn plan(foo: &Foo) -> (patch: StatusPatch)
    ensures
        patch.status.last_updated matches Some(now) && patch@ == patch_for(foo@, now),
{
    let now = utc_now();
    status_patch(foo, now)
}

/// The outcome that the store's answer to the patch stands for.
pub open spec fn outcome_of(answer: Result<(), Error>) -> Outcome {
    match answer {
        Ok(_) => Outcome::Success { requeue_after: Some(REQUEUE_AFTER_MS) },
        Err(error) => Outcome::Failure { error },
    }
}

/// Reads the store's answer to the patch: where the patch went through the
/// object is looked at again in thirty minutes; a refusal, a conflict with
/// another writer included, is a failure with the store's error.
pub fn conclude(answer: Result<(), Error>) -> (outcome: Outcome)
    ensures
        outcome == outcome_of(answer),
{
    match answer {
        Ok(_) => Outcome::Success { requeue_after: Some(REQUEUE_AFTER_MS) },
        Err(error) => Outcome::Failure { error },
    }
}

/// When to retry after `error`: after the same fixed interval for every
/// error.
pub fn error_policy(error: &Error) -> (backoff_ms: u64)
    ensures
        backoff_ms == ERROR_BACKOFF_MS,
{
    ERROR_BACKOFF_MS
}

/// Reconciling is idempotent. Two reconciles of one object state ask for the
/// same status: the patches agree in everything but the time of the update,
/// and are equal where the clock reads the same. The patch that was sent
/// changes nothing about the next one: an object that differs from `foo`
/// only in status and resource version gets the same patch.
pub proof fn lemma_reconcile_idempotent(
    foo: FooView,
    first: Timestamp,
    second: Timestamp,
    patched: FooView,
)
    requires
        patched == (FooView {
            status: Some(patch_for(foo, first).status),
            resource_version: patched.resource_version,
            ..foo
        }),
    ensures
        patch_for(patched, second) == patch_for(foo, second),
        patch_for(foo, second) == (PatchView {
            status: FooStatus { last_updated: Some(second), ..patch_for(foo, first).status },
            ..patch_for(foo, first)
        }),
        first == second ==> patch_for(patched, second) == patch_for(foo, first),
{
}

} // verus!
