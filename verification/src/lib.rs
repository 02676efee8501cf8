//! Verified core of a feed-reader's synchronization engine.
//!
//! The library mirrors a remote feed aggregator's state (categories, feeds,
//! entries) into a local store and keeps the two reconciled across full and
//! incremental sync runs.

pub mod accounts;
pub mod counters;
pub mod laws;
pub mod logfmt;
pub mod media;
pub mod miniflux;
pub mod platform;
pub mod query;
pub mod remote;
pub mod store;
pub mod sync;
pub mod table;
pub mod text;
pub mod types;

