//! Reconciliation controller core: a deduplicating work queue, the dispatcher
//! that schedules reconciles from it, and the bookkeeping around both.

pub mod clock;
pub mod error;
pub mod key;
pub mod manager;
pub mod manager_laws;
pub mod metrics;
pub mod queue;
pub mod queue_laws;
pub mod reconcile;
pub mod resource;
pub mod schema;
pub mod server;
pub mod text;
pub mod watch;
