//! A read-side service over an append-only greeting log: direction-aware
//! keyset pagination of log entries, single-entry and greeting lookups, and
//! the decision core of a fault-tolerant background generator that triggers
//! log materialization on a fixed interval, every store call tagged with the
//! trace context of the request or tick that issued it.

pub mod errors;
pub mod generator;
pub mod greetings;
pub mod log_table;
pub mod query;
pub mod trace;
