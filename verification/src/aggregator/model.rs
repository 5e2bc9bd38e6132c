//! What an aggregator is, and what each operation makes of it.
use vstd::prelude::*;

use super::error::AggregatorErrorView;
use super::history::HistoryView;

verus! {

/// The mathematical value of an aggregator.
pub enum AggregatorView {
    /// The aggregator knows its value.
    Known { value: nat, limit: nat },
    /// The aggregator knows by how much it differs from the value in storage,
    /// and what it has been through to get there.
    Delta { delta: int, limit: nat, history: HistoryView },
}

/// What is said of an aggregator whose value storage could not provide.
pub open spec fn not_found_message(reason: Seq<char>) -> Seq<char> {
    "Could not find the value of the aggregator: "@ + reason
}

impl AggregatorView {
    /// The largest value which the aggregator may have.
    pub open spec fn limit(self) -> nat {
        match self {
            AggregatorView::Known { limit, .. } => limit,
            AggregatorView::Delta { limit, .. } => limit,
        }
    }

    /// What holds of every aggregator:
    /// a known value is within the limit;
    /// a delta lies between the extremes of its history;
    /// no delta below `-limit` was ever reached;
    /// a delta above `limit` was reached only if it was recorded as an overflow;
    /// each recorded overflow or underflow is beyond the limit.
    pub open spec fn valid(self) -> bool {
        match self {
            AggregatorView::Known { value, limit } => value <= limit,
            AggregatorView::Delta { delta, limit, history } => {
                &&& -history.lowest <= delta <= history.highest
                &&& history.lowest <= limit
                &&& history.highest > limit ==> {
                    &&& history.overflow matches Some(overflow)
                    &&& overflow <= history.highest
                }
                &&& history.overflow matches Some(overflow) ==> overflow > limit
                &&& history.underflow matches Some(underflow) ==> underflow > limit
            },
        }
    }

    /// The result of adding `value`, and the aggregator afterwards.
    ///
    /// A known value, or a delta which is not below zero, cannot be made to
    /// exceed the limit. A delta below zero can: the overflow is recorded, and
    /// it is for storage to refuse the delta.
    pub open spec fn add(self, value: nat) -> (Result<(), AggregatorErrorView>, AggregatorView) {
        match self {
            AggregatorView::Known { value: known, limit } => if known + value <= limit {
                (Ok(()), AggregatorView::Known { value: known + value, limit })
            } else {
                (Err(AggregatorErrorView::Overflow { base: known, value, limit }), self)
            },
            AggregatorView::Delta { delta, limit, history } => {
                let next = delta + value;
                if next <= limit {
                    (
                        Ok(()),
                        AggregatorView::Delta { delta: next, limit, history: history.reached(next) },
                    )
                } else if delta >= 0 {
                    (
                        Err(AggregatorErrorView::Overflow { base: delta as nat, value, limit }),
                        AggregatorView::Delta {
                            delta,
                            limit,
                            history: history.overflowed(next as nat),
                        },
                    )
                } else {
                    (
                        Ok(()),
                        AggregatorView::Delta {
                            delta: next,
                            limit,
                            history: history.overflowed(next as nat).reached(next),
                        },
                    )
                }
            },
        }
    }

    /// The result of subtracting `value`, and the aggregator afterwards.
    ///
    /// A known value cannot be made to drop below zero. A delta below zero
    /// cannot be made to drop below `-limit`. From a delta which is not below
    /// zero no more can be taken than itself or the limit, whichever is more.
    pub open spec fn sub(self, value: nat) -> (Result<(), AggregatorErrorView>, AggregatorView) {
        match self {
            AggregatorView::Known { value: known, limit } => if value <= known {
                (Ok(()), AggregatorView::Known { value: (known - value) as nat, limit })
            } else {
                (Err(AggregatorErrorView::Underflow { base: known, value }), self)
            },
            AggregatorView::Delta { delta, limit, history } => {
                let next = delta - value;
                if delta < 0 && -next > limit {
                    (
                        Err(AggregatorErrorView::Overflow { base: (-delta) as nat, value, limit }),
                        AggregatorView::Delta {
                            delta,
                            limit,
                            history: history.underflowed((-next) as nat),
                        },
                    )
                } else if delta >= 0 && next < 0 && value > limit {
                    (
                        Err(AggregatorErrorView::Underflow { base: limit, value }),
                        AggregatorView::Delta { delta, limit, history: history.underflowed(value) },
                    )
                } else {
                    (
                        Ok(()),
                        AggregatorView::Delta { delta: next, limit, history: history.reached(next) },
                    )
                }
            },
        }
    }

    /// Whether a history of deltas fits the value `base`, or how it does not.
    pub open spec fn validated(
        history: HistoryView,
        limit: nat,
        base: nat,
    ) -> Result<(), AggregatorErrorView> {
        if base + history.highest > limit {
            Err(AggregatorErrorView::Overflow { base, value: history.highest, limit })
        } else if history.lowest > base {
            Err(AggregatorErrorView::Underflow { base, value: history.lowest })
        } else {
            Ok(())
        }
    }

    /// The result of reading the aggregator if storage has answered `reply`,
    /// and the aggregator afterwards. A known value needs no answer.
    pub open spec fn read(self, reply: Result<nat, Seq<char>>) -> (
        Result<nat, AggregatorErrorView>,
        AggregatorView,
    ) {
        match self {
            AggregatorView::Known { value, .. } => (Ok(value), self),
            AggregatorView::Delta { delta, limit, history } => match reply {
                Err(reason) => (
                    Err(AggregatorErrorView::Extension { message: not_found_message(reason) }),
                    self,
                ),
                Ok(base) => match AggregatorView::validated(history, limit, base) {
                    Err(error) => (Err(error), self),
                    Ok(_) => {
                        let value = (base + delta) as nat;
                        (Ok(value), AggregatorView::Known { value, limit })
                    },
                },
            },
        }
    }
}

} // verus!
