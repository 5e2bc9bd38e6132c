//! What an aggregator has been through while it only knew its delta.
use vstd::prelude::*;

verus! {

/// Tracks the deltas which an aggregator has seen.
///
/// Whether the deltas fit a stored value is decided by the extremes alone: if
/// neither the largest nor the smallest delta leaves the allowed range, none
/// of those between them does. Deltas below zero are kept by their magnitude.
#[derive(Debug)]
pub struct History {
    pub max_achieved_positive: u128,
    pub min_achieved_negative: u128,
    /// The smallest delta which was found to be above the limit. It is `None`
    /// if there was none, or if each of them exceeded `u128::MAX`.
    pub min_overflow_positive: Option<u128>,
    /// The magnitude of the largest delta which was found to be out of reach
    /// below zero. It is `None` if there was none, or if each of them dropped
    /// below `-u128::MAX`.
    pub max_underflow_negative: Option<u128>,
}

/// The mathematical value of a [`History`].
pub struct HistoryView {
    /// The largest delta achieved, or zero.
    pub highest: nat,
    /// The magnitude of the smallest delta achieved, or zero.
    pub lowest: nat,
    /// The smallest of the recorded overflows.
    pub overflow: Option<nat>,
    /// The smallest of the recorded magnitudes of underflows.
    pub underflow: Option<nat>,
}

/// The larger of two numbers.
pub open spec fn larger(a: nat, b: nat) -> nat {
    if a >= b {
        a
    } else {
        b
    }
}

/// The smaller of a number and one which may be absent.
pub open spec fn least(known: Option<nat>, value: nat) -> Option<nat> {
    match known {
        Some(old_value) if old_value <= value => Some(old_value),
        _ => Some(value),
    }
}

/// The number in an option, as a natural number.
pub open spec fn opt_nat(value: Option<u128>) -> Option<nat> {
    match value {
        Some(v) => Some(v as nat),
        None => None,
    }
}

impl HistoryView {
    /// The history of an aggregator which has seen nothing but delta zero.
    pub open spec fn fresh() -> HistoryView {
        HistoryView { highest: 0, lowest: 0, overflow: None, underflow: None }
    }

    /// The history once `delta` has been reached.
    pub open spec fn reached(self, delta: int) -> HistoryView {
        if delta >= 0 {
            HistoryView { highest: larger(self.highest, delta as nat), ..self }
        } else {
            HistoryView { lowest: larger(self.lowest, (-delta) as nat), ..self }
        }
    }

    /// The history once a delta of `value` was found to be above the limit.
    /// What exceeds `u128::MAX` leaves no trace.
    pub open spec fn overflowed(self, value: nat) -> HistoryView {
        if value <= u128::MAX {
            HistoryView { overflow: least(self.overflow, value), ..self }
        } else {
            self
        }
    }

    /// The history once a delta of `-value` was found to be out of reach.
    /// What drops below `-u128::MAX` leaves no trace.
    pub open spec fn underflowed(self, value: nat) -> HistoryView {
        if value <= u128::MAX {
            HistoryView { underflow: least(self.underflow, value), ..self }
        } else {
            self
        }
    }
}

impl View for History {
    type V = HistoryView;

    open spec fn view(&self) -> HistoryView {
        HistoryView {
            highest: self.max_achieved_positive as nat,
            lowest: self.min_achieved_negative as nat,
            overflow: opt_nat(self.min_overflow_positive),
            underflow: opt_nat(self.max_underflow_negative),
        }
    }
}

impl History {
    /// Returns a history which has seen nothing but delta zero.
    pub fn new() -> (history: History)
        ensures
            history@ == HistoryView::fresh(),
            history.max_achieved_positive == 0,
            history.min_achieved_negative == 0,
            history.min_overflow_positive is None,
            history.max_underflow_negative is None,
    {
        History {
            max_achieved_positive: 0,
            min_achieved_negative: 0,
            min_overflow_positive: None,
            max_underflow_negative: None,
        }
    }

    /// Records that delta `+value` was reached.
    pub fn record_success_positive(&mut self, value: u128)
        ensures
            final(self)@ == (HistoryView {
                highest: larger(old(self)@.highest, value as nat),
                ..old(self)@
            }),
            final(self).max_achieved_positive >= value,
            final(self).max_achieved_positive >= old(self).max_achieved_positive,
            final(self).max_achieved_positive == value || final(self).max_achieved_positive == old(self).max_achieved_positive,
            final(self).min_achieved_negative == old(self).min_achieved_negative,
            final(self).min_overflow_positive == old(self).min_overflow_positive,
            final(self).max_underflow_negative == old(self).max_underflow_negative,
    {
        if value > self.max_achieved_positive {
            self.max_achieved_positive = value;
        }
    }

    /// Records that delta `-value` was reached.
    pub fn record_success_negative(&mut self, value: u128)
        ensures
            final(self)@ == (HistoryView {
                lowest: larger(old(self)@.lowest, value as nat),
                ..old(self)@
            }),
            final(self).min_achieved_negative >= value,
            final(self).min_achieved_negative >= old(self).min_achieved_negative,
            final(self).min_achieved_negative == value || final(self).min_achieved_negative == old(self).min_achieved_negative,
            final(self).max_achieved_positive == old(self).max_achieved_positive,
            final(self).min_overflow_positive == old(self).min_overflow_positive,
            final(self).max_underflow_negative == old(self).max_underflow_negative,
    {
        if value > self.min_achieved_negative {
            self.min_achieved_negative = value;
        }
    }

    /// Records that delta `+value` was found to be above the limit.
    pub fn record_overflow_positive(&mut self, value: u128)
        ensures
            final(self)@ == old(self)@.overflowed(value as nat),
            final(self).min_overflow_positive matches Some(kept) && kept <= value && (old(self).min_overflow_positive matches Some(
                before,
            ) ==> kept <= before) && (kept == value || old(self).min_overflow_positive == Some(kept)),
            final(self).max_achieved_positive == old(self).max_achieved_positive,
            final(self).min_achieved_negative == old(self).min_achieved_negative,
            final(self).max_underflow_negative == old(self).max_underflow_negative,
    {
        self.min_overflow_positive = match self.min_overflow_positive {
            Some(min) => if min <= value {
                Some(min)
            } else {
                Some(value)
            },
            None => Some(value),
        };
    }

    /// Records that delta `-value` was found to be out of reach.
    pub fn record_underflow_negative(&mut self, value: u128)
        ensures
            final(self)@ == old(self)@.underflowed(value as nat),
            final(self).max_underflow_negative matches Some(kept) && kept <= value && (old(self).max_underflow_negative matches Some(
                before,
            ) ==> kept <= before) && (kept == value || old(self).max_underflow_negative == Some(kept)),
            final(self).max_achieved_positive == old(self).max_achieved_positive,
            final(self).min_achieved_negative == old(self).min_achieved_negative,
            final(self).min_overflow_positive == old(self).min_overflow_positive,
    {
        self.max_underflow_negative = match self.max_underflow_negative {
            Some(min) => if min <= value {
                Some(min)
            } else {
                Some(value)
            },
            None => Some(value),
        };
    }
}

} // verus!
