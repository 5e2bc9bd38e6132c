//! Verified state logic of a blockchain node.
//!
//! Each module holds one self-contained piece: deltas on shared counters, the
//! stages of an execution pipeline, the errors of a data client, the steps of
//! a database checkpoint and a data-flow analysis on copies of locals.
pub mod aggregator;
pub mod available_copies;
pub mod checkpoint;
pub mod data_client;
pub mod pipeline;
