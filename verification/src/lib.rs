//! A verified poll engine: pure validation of poll requests, the expiry
//! policy for poll lifetimes, vote-eligibility checking, and an atomic
//! in-memory poll repository with a periodic expiry sweep.
//!
//! The surrounding process (HTTP handlers, a datastore binding, chart
//! rendering) is expected to call into this crate with plain values and
//! to render the results it gets back.

pub mod api;
pub mod expiry;
pub mod graph;
pub mod models;
pub mod store;
pub mod validate;
