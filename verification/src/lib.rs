//! Matching of market-price update events against user-defined trigger rules.
//!
//! An event carries the current listings of one item on one world. Stored
//! alerts are selected by world, item and schema version, their rules are
//! evaluated over the listings, and for every rule that fires a notification
//! is composed for the alert's endpoint.

pub mod listing;
pub mod rule;
pub mod engine;
pub mod codec;
pub mod decode;
pub mod matcher;
pub mod notify;
pub mod pipeline;
