//! Aggregators: bounded counters which transactions may change without
//! reading them.
pub mod data;
pub mod delta;
pub mod error;
pub mod history;
pub mod id;
pub mod instance;
pub mod laws;
pub mod model;
pub mod ordered;
