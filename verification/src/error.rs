//! What can go wrong around one object, and what each failure means for the
//! pipeline.

use vstd::prelude::*;

verus! {

/// A failure met while fetching, reconciling or patching one object. None of
/// them stops the pipeline or touches another key.
#[derive(Clone, Copy, Debug, PartialEq, Eq, Structural)]
pub enum Error {
    /// The store could not be reached or answered out of turn.
    Transport,
    /// The store rejected a patch because another writer owns the field or
    /// the object has moved on.
    Conflict,
    /// The object is gone from the store.
    NotFound,
    /// The reconcile function itself reported a failure.
    ReconcileLogic,
}

/// Status with which the store reports an object that does not exist.
pub const STATUS_NOT_FOUND: u16 = 404;

/// Status with which the store rejects a conflicting write.
pub const STATUS_CONFLICT: u16 = 409;

/// The failure that a status code of the store stands for.
pub open spec fn failure_of_status(code: u16) -> Error {
    if code == STATUS_NOT_FOUND {
        Error::NotFound
    } else if code == STATUS_CONFLICT {
        Error::Conflict
    } else {
        Error::Transport
    }
}

impl Error {
    /// Reads the status code of a request that the store refused.
    pub fn from_status(code: u16) -> (error: Error)
        ensures
            error == failure_of_status(code),
    {
        if code == STATUS_NOT_FOUND {
            Error::NotFound
        } else if code == STATUS_CONFLICT {
            Error::Conflict
        } else {
            Error::Transport
        }
    }

    /// A short text for logs.
    pub fn describe(&self) -> (text: String)
        ensures
            text@ == match *self {
                Error::Transport => "store transport failure"@,
                Error::Conflict => "patch conflict"@,
                Error::NotFound => "object not found"@,
                Error::ReconcileLogic => "reconcile failed"@,
            },
    {
        match self {
            Error::Transport => "store transport failure".to_owned(),
            Error::Conflict => "patch conflict".to_owned(),
            Error::NotFound => "object not found".to_owned(),
            Error::ReconcileLogic => "reconcile failed".to_owned(),
        }
    }
}

} // verus!
