//! The "definitely available copies" analysis.
//!
//! A copy `a := b` is definitely available at a program point if it has reached
//! the point along all paths, and neither `a` nor `b` was overwritten on any of
//! them. Copy propagation builds on it.
pub mod analysis;
pub mod annotation;
pub mod chain;
pub mod copies;
