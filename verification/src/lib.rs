//! A verified core for a high-concurrency event-ingestion counter.
//!
//! The library holds the logic of the system: the aggregate store that
//! absorbs a stream of user-tagged numeric events into running totals, the
//! admission-controlled dispatcher that partitions a target request volume
//! into bounded-concurrency batches, and the reconciler that compares the
//! dispatcher's local outcome counters against the store's final snapshot.
//! The surrounding transport (HTTP listener, JSON codec, console reporting)
//! is an external collaborator and stays outside the library.
//!
//! Event values are carried as fixed-point integers (micro-units, see
//! [`aggregate::SCALE`]): a real value is scaled once at intake, and the
//! store then accumulates exactly, so the only rounding is the single
//! truncation per event at the boundary.

pub mod aggregate;
pub mod dispatcher;
pub mod ident;
pub mod reconcile;
