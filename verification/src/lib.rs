//! A verified core for a local time-tracking entry store and its sync
//! reconciler.
//!
//! The library models entries as plain values, keeps them in an in-memory
//! store with a unique-id invariant, plans the additive schema migrations
//! that the durable table needs at startup, and applies the outcome of one
//! sync pass against a remote authority.  Durable storage and the network
//! transport are the host application's concern: the host reads rows and
//! sync responses, hands them to this library as plain values, and writes
//! back what the library returns.

pub mod migrate;
pub mod models;
pub mod store;
pub mod sync;
