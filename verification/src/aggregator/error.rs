//! Failures of operations on aggregators.
use vstd::prelude::*;

verus! {

/// Why an operation on an aggregator failed.
#[derive(Debug, PartialEq, Eq)]
pub enum AggregatorError {
    /// `base + value` exceeds `limit`.
    Overflow { base: u128, value: u128, limit: u128 },
    /// `base - value` drops below zero.
    Underflow { base: u128, value: u128 },
    /// The surroundings of the aggregator failed, as the message says.
    Extension { message: String },
}

/// The mathematical value of an [`AggregatorError`].
pub enum AggregatorErrorView {
    Overflow { base: nat, value: nat, limit: nat },
    Underflow { base: nat, value: nat },
    Extension { message: Seq<char> },
}

impl View for AggregatorError {
    type V = AggregatorErrorView;

    open spec fn view(&self) -> AggregatorErrorView {
        match *self {
            AggregatorError::Overflow { base, value, limit } => AggregatorErrorView::Overflow {
                base: base as nat,
                value: value as nat,
                limit: limit as nat,
            },
            AggregatorError::Underflow { base, value } => AggregatorErrorView::Underflow {
                base: base as nat,
                value: value as nat,
            },
            AggregatorError::Extension { message } => AggregatorErrorView::Extension {
                message: message@,
            },
        }
    }
}

/// A result with its error taken by its mathematical value.
pub open spec fn outcome<T>(result: Result<T, AggregatorError>) -> Result<T, AggregatorErrorView> {
    match result {
        Ok(value) => Ok(value),
        Err(error) => Err(error@),
    }
}

/// Returns the error of an extension failure.
pub fn extension_error(message: &str) -> (error: AggregatorError)
    ensures
        error@ == (AggregatorErrorView::Extension { message: message@ }),
        error matches AggregatorError::Extension { message: text } && text@ == message@,
{
    AggregatorError::Extension { message: message.to_owned() }
}

} // verus!
