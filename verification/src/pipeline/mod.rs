//! A pipeline which partitions, executes and commits blocks of transactions,
//! each stage on a thread of its own.
pub mod commit;
pub mod execution;
pub mod layout;
