//! Arithmetic on unsigned values which have a limit.
use vstd::prelude::*;

use super::error::AggregatorError;

verus! {

/// Adds `value` to `base`. Fails if the sum exceeds `limit`.
pub fn addition(base: u128, value: u128, limit: u128) -> (result: Result<u128, AggregatorError>)
    ensures
        result == if base + value <= limit {
            Ok((base + value) as u128)
        } else {
            Err(AggregatorError::Overflow { base, value, limit })
        },
{
    if limit < base || value > limit - base {
        Err(AggregatorError::Overflow { base, value, limit })
    } else {
        Ok(base + value)
    }
}

/// Subtracts `value` from `base`. Fails if the difference drops below zero.
pub fn subtraction(base: u128, value: u128) -> (result: Result<u128, AggregatorError>)
    ensures
        result == if value <= base {
            Ok((base - value) as u128)
        } else {
            Err(AggregatorError::Underflow { base, value })
        },
{
    if value > base {
        Err(AggregatorError::Underflow { base, value })
    } else {
        Ok(base - value)
    }
}

} // verus!
