//! What the serving process decides for itself: where to listen, and what to
//! answer to a liveness probe.

use vstd::prelude::*;

verus! {

/// The liveness payload.
#[derive(Debug, PartialEq, Eq)]
pub struct Health {
    pub status: String,
}

/// The answer to a liveness probe: the process runs, so the status is "ok".
pub fn health() -> (payload: Health)
    ensures
        payload.status@ == "ok"@,
{
    Health { status: "ok".to_owned() }
}

/// The address to bind: the one given on the command line, or every
/// interface on port 8080 where none was given.
pub fn listen_addr(flag: Option<String>) -> (addr: String)
    ensures
        addr@ == match flag {
            Some(given) => given@,
            None => "0.0.0.0:8080"@,
        },
{
    match flag {
        Some(given) => given,
        None => "0.0.0.0:8080".to_owned(),
    }
}

} // verus!
