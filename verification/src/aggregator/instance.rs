//! A single aggregator, as a transaction sees it.
use vstd::prelude::*;

use super::delta::{addition, subtraction};
use super::error::{extension_error, outcome, AggregatorError, AggregatorErrorView};
use super::history::{History, HistoryView};
use super::id::AggregatorID;
use super::laws::{
    law_addition_is_recorded, law_addition_succeeds_within_the_limit, law_subtraction_is_recorded,
    law_subtraction_succeeds_within_reach,
};
use super::model::AggregatorView;

verus! {

/// Describes the state of each aggregator instance.
#[derive(Clone, Copy, Debug, PartialEq, Eq, Structural)]
pub enum AggregatorState {
    /// The aggregator stores a known value.
    Data,
    /// The aggregator stores a non-negative delta.
    PositiveDelta,
    /// The aggregator stores a negative delta.
    NegativeDelta,
}

/// Provides the values of aggregators from storage.
pub trait AggregatorResolver {
    /// Whether the value of the aggregator may be asked for. Unless an
    /// implementation says otherwise, it always may.
    open spec fn may_be_asked(&self, id: AggregatorID) -> bool {
        true
    }

    /// Returns the value which is stored for the aggregator, or says why there
    /// is none.
    fn resolve_aggregator_value(&self, id: &AggregatorID) -> (reply: Result<u128, String>)
        requires
            self.may_be_asked(*id),
    ;
}

/// An answer of storage, by its mathematical value.
pub open spec fn reply_view(reply: Result<u128, String>) -> Result<nat, Seq<char>> {
    match reply {
        Ok(value) => Ok(value as nat),
        Err(reason) => Err(reason@),
    }
}

/// The result of reading an aggregator, by its mathematical value.
pub open spec fn value_outcome(result: Result<u128, AggregatorError>) -> Result<
    nat,
    AggregatorErrorView,
> {
    match result {
        Ok(value) => Ok(value as nat),
        Err(error) => Err(error@),
    }
}

/// An aggregator: a counter between zero and a limit.
#[derive(Debug)]
pub struct Aggregator {
    /// The value, or the magnitude of the delta.
    value: u128,
    /// What `value` stands for.
    state: AggregatorState,
    /// The upper bound of the aggregator.
    limit: u128,
    /// The deltas seen so far. An aggregator which knows its value has no use
    /// for it.
    history: Option<History>,
}

impl View for Aggregator {
    type V = AggregatorView;

    closed spec fn view(&self) -> AggregatorView {
        match self.history {
            None => AggregatorView::Known { value: self.value as nat, limit: self.limit as nat },
            Some(history) => AggregatorView::Delta {
                delta: if self.state == AggregatorState::NegativeDelta {
                    -self.value
                } else {
                    self.value as int
                },
                limit: self.limit as nat,
                history: history@,
            },
        }
    }
}

impl Aggregator {
    /// The history is kept exactly while the value is not known, and a
    /// negative delta is never zero.
    spec fn repr_ok(self) -> bool {
        &&& self.state == AggregatorState::Data <==> self.history is None
        &&& self.state == AggregatorState::NegativeDelta ==> self.value > 0
    }

    /// Whether the aggregator is one which its operations can lead to.
    pub closed spec fn wf(self) -> bool {
        self.repr_ok() && self@.valid()
    }

    /// What holds of the mathematical value of every aggregator.
    pub proof fn lemma_wf_is_valid(self)
        requires
            self.wf(),
        ensures
            self@.valid(),
    {
    }

    /// The state which the mathematical value determines.
    pub open spec fn spec_state(self) -> AggregatorState {
        match self@ {
            AggregatorView::Known { .. } => AggregatorState::Data,
            AggregatorView::Delta { delta, .. } => if delta >= 0 {
                AggregatorState::PositiveDelta
            } else {
                AggregatorState::NegativeDelta
            },
        }
    }

    /// The value, or the magnitude of the delta.
    pub open spec fn spec_value(self) -> nat {
        match self@ {
            AggregatorView::Known { value, .. } => value,
            AggregatorView::Delta { delta, .. } => if delta >= 0 {
                delta as nat
            } else {
                (-delta) as nat
            },
        }
    }

    /// Returns an aggregator which knows its value: zero.
    pub fn new_known(limit: u128) -> (aggregator: Aggregator)
        ensures
            aggregator.wf(),
            aggregator@ == (AggregatorView::Known { value: 0, limit: limit as nat }),
    {
        Aggregator { value: 0, state: AggregatorState::Data, limit, history: None }
    }

    /// Returns an aggregator which does not differ from the value in storage.
    pub fn new_delta(limit: u128) -> (aggregator: Aggregator)
        ensures
            aggregator.wf(),
            aggregator@ == (AggregatorView::Delta {
                delta: 0,
                limit: limit as nat,
                history: HistoryView::fresh(),
            }),
            aggregator@ == (AggregatorView::Delta {
                delta: 0,
                limit: limit as nat,
                history: HistoryView { highest: 0, lowest: 0, overflow: None, underflow: None },
            }),
    {
        Aggregator {
            value: 0,
            state: AggregatorState::PositiveDelta,
            limit,
            history: Some(History::new()),
        }
    }

    /// Returns the value, or the magnitude of the delta.
    pub fn value(&self) -> (value: u128)
        requires
            self.wf(),
        ensures
            value == self.spec_value(),
            match self@ {
                AggregatorView::Known { value: known, .. } => value == known,
                AggregatorView::Delta { delta, .. } => value == delta || value == -delta,
            },
    {
        self.value
    }

    /// Returns the state of the aggregator.
    pub fn state(&self) -> (state: AggregatorState)
        requires
            self.wf(),
        ensures
            state == self.spec_state(),
            state == AggregatorState::Data <==> self@ is Known,
            self@ matches AggregatorView::Delta { delta, .. } ==> (state
                == AggregatorState::NegativeDelta <==> delta < 0),
    {
        self.state
    }

    /// Returns the deltas seen so far, unless the value is known.
    pub fn history(&self) -> (history: Option<&History>)
        ensures
            match history {
                Some(seen) => self@ matches AggregatorView::Delta { history: h, .. } && h == seen@
                    && h.highest == seen.max_achieved_positive && h.lowest
                    == seen.min_achieved_negative && (match seen.min_overflow_positive {
                    Some(overflow) => h.overflow == Some(overflow as nat),
                    None => h.overflow is None,
                }) && (match seen.max_underflow_negative {
                    Some(underflow) => h.underflow == Some(underflow as nat),
                    None => h.underflow is None,
                }),
                None => self@ is Known,
            },
    {
        self.history.as_ref()
    }

    /// Records the current delta in the history. To be called after an
    /// operation which succeeded.
    fn record_success(&mut self)
        requires
            old(self).repr_ok(),
        ensures
            final(self).value == old(self).value,
            final(self).state == old(self).state,
            final(self).limit == old(self).limit,
            final(self).repr_ok(),
            final(self)@ == match old(self)@ {
                AggregatorView::Known { .. } => old(self)@,
                AggregatorView::Delta { delta, limit, history } => AggregatorView::Delta {
                    delta,
                    limit,
                    history: history.reached(delta),
                },
            },
    {
        let state = self.state;
        let value = self.value;
        if let Some(history) = self.history.as_mut() {
            match state {
                AggregatorState::NegativeDelta => history.record_success_negative(value),
                _ => history.record_success_positive(value),
            }
        }
    }

    /// Records in the history that a delta of `value` is above the limit. To
    /// be called after an addition which did not succeed.
    fn record_overflow(&mut self, value: u128)
        requires
            old(self).repr_ok(),
        ensures
            final(self).value == old(self).value,
            final(self).state == old(self).state,
            final(self).limit == old(self).limit,
            final(self).repr_ok(),
            final(self)@ == match old(self)@ {
                AggregatorView::Known { .. } => old(self)@,
                AggregatorView::Delta { delta, limit, history } => AggregatorView::Delta {
                    delta,
                    limit,
                    history: history.overflowed(value as nat),
                },
            },
    {
        if let Some(history) = self.history.as_mut() {
            history.record_overflow_positive(value);
        }
    }

    /// Records in the history that a delta of `-value` is out of reach. To be
    /// called after a subtraction which did not succeed.
    fn record_underflow(&mut self, value: u128)
        requires
            old(self).repr_ok(),
        ensures
            final(self).value == old(self).value,
            final(self).state == old(self).state,
            final(self).limit == old(self).limit,
            final(self).repr_ok(),
            final(self)@ == match old(self)@ {
                AggregatorView::Known { .. } => old(self)@,
                AggregatorView::Delta { delta, limit, history } => AggregatorView::Delta {
                    delta,
                    limit,
                    history: history.underflowed(value as nat),
                },
            },
    {
        if let Some(history) = self.history.as_mut() {
            history.record_underflow_negative(value);
        }
    }

    /// Checks whether the history is correct when applied to `base_value`.
    ///
    /// If a delta of 100 was seen and the limit is 150, then the value 60 does
    /// not pass, since 60 + 100 > 150; the value 30 does.
    pub fn validate_history(&self, base_value: u128) -> (result: Result<(), AggregatorError>)
        requires
            self@ is Delta,
        ensures
            self@ matches AggregatorView::Delta { limit, history, .. } && outcome(result)
                == AggregatorView::validated(history, limit, base_value as nat),
            self@ matches AggregatorView::Delta { limit, history, .. } && {
                &&& result is Ok <==> base_value + history.highest <= limit && history.lowest
                    <= base_value
                &&& base_value + history.highest > limit ==> (result matches Err(
                    AggregatorError::Overflow { base: b, value: v, limit: l },
                ) && b == base_value && v == history.highest && l == limit)
                &&& base_value + history.highest <= limit && history.lowest > base_value ==> (
                result matches Err(AggregatorError::Underflow { base: b, value: v }) && b
                    == base_value && v == history.lowest)
            },
    {
        let history = self.history.as_ref().expect("History should be set for validation");
        // That there was no overflow and no underflow is found out by adding
        // and subtracting the extremes.
        addition(base_value, history.max_achieved_positive, self.limit)?;
        subtraction(base_value, history.min_achieved_negative)?;
        Ok(())
    }

    /// Adds to the aggregator.
    pub fn try_add(&mut self, value: u128) -> (result: Result<(), AggregatorError>)
        requires
            old(self).wf(),
        ensures
            final(self).wf(),
            (outcome(result), final(self)@) == old(self)@.add(value as nat),
            match old(self)@ {
                AggregatorView::Known { value: known, limit } => {
                    &&& result is Ok <==> known + value <= limit
                    &&& result is Ok ==> (final(self)@ matches AggregatorView::Known {
                        value: known2,
                        limit: limit2,
                    } && known2 == known + value && limit2 == limit)
                    &&& result matches Err(error) ==> final(self)@ == old(self)@ && (error matches
                        AggregatorError::Overflow { base: b, value: v, limit: l } && b == known && v
                        == value && l == limit)
                },
                AggregatorView::Delta { delta, limit, history } => {
                    &&& final(self)@ matches AggregatorView::Delta {
                        delta: delta2,
                        limit: limit2,
                        history: history2,
                    }
                    &&& limit2 == limit
                    &&& result is Ok <==> delta < 0 || delta + value <= limit
                    &&& result is Ok ==> delta2 == delta + value
                    &&& result matches Err(error) ==> delta2 == delta && (error matches
                        AggregatorError::Overflow { base: b, value: v, limit: l } && b == delta && v
                        == value && l == limit)
                    &&& history2.lowest == history.lowest
                    &&& history2.underflow == history.underflow
                    &&& history2.highest == if result is Ok && delta + value > history.highest {
                        delta + value
                    } else {
                        history.highest as int
                    }
                    &&& history2.overflow == if limit < delta + value <= u128::MAX && !(
                    history.overflow matches Some(smallest) && smallest <= delta + value) {
                        Some((delta + value) as nat)
                    } else {
                        history.overflow
                    }
                },
            },
    {
        proof {
            self.lemma_wf_is_valid();
            law_addition_succeeds_within_the_limit(self@, value as nat);
            law_addition_is_recorded(self@, value as nat);
        }
        match self.state {
            AggregatorState::Data => {
                // The value is known: add, and keep the state.
                self.value = addition(self.value, value, self.limit)?;
                return Ok(());
            },
            AggregatorState::PositiveDelta => {
                match addition(self.value, value, self.limit) {
                    Ok(sum) => self.value = sum,
                    Err(error) => {
                        if self.value <= u128::MAX - value {
                            self.record_overflow(self.value + value);
                        }
                        return Err(error);
                    },
                }
            },
            AggregatorState::NegativeDelta => {
                // The state changes if `value` makes up for the delta:
                //   -X + Y is +(Y - X) if X <= Y, and -(X - Y) otherwise.
                if self.value <= value {
                    self.value = subtraction(value, self.value)?;
                    self.state = AggregatorState::PositiveDelta;
                    if self.value > self.limit {
                        self.record_overflow(self.value);
                    }
                } else {
                    self.value = subtraction(self.value, value)?;
                }
            },
        }
        self.record_success();
        Ok(())
    }

    /// Subtracts from the aggregator.
    pub fn try_sub(&mut self, value: u128) -> (result: Result<(), AggregatorError>)
        requires
            old(self).wf(),
        ensures
            final(self).wf(),
            (outcome(result), final(self)@) == old(self)@.sub(value as nat),
            match old(self)@ {
                AggregatorView::Known { value: known, limit } => {
                    &&& result is Ok <==> value <= known
                    &&& result is Ok ==> (final(self)@ matches AggregatorView::Known {
                        value: known2,
                        limit: limit2,
                    } && known2 == known - value && limit2 == limit)
                    &&& result matches Err(error) ==> final(self)@ == old(self)@ && (error matches
                        AggregatorError::Underflow { base: b, value: v } && b == known && v == value)
                },
                AggregatorView::Delta { delta, limit, history } => {
                    let lost = if delta < 0 {
                        value - delta
                    } else {
                        value as int
                    };
                    &&& final(self)@ matches AggregatorView::Delta {
                        delta: delta2,
                        limit: limit2,
                        history: history2,
                    }
                    &&& limit2 == limit
                    &&& result is Ok <==> lost <= limit || 0 <= value <= delta
                    &&& result is Ok ==> delta2 == delta - value
                    &&& result matches Err(error) ==> delta2 == delta && if delta < 0 {
                        error matches AggregatorError::Overflow { base: b, value: v, limit: l } && b
                            == -delta && v == value && l == limit
                    } else {
                        error matches AggregatorError::Underflow { base: b, value: v } && b == limit
                            && v == value
                    }
                    &&& history2.highest == history.highest
                    &&& history2.overflow == history.overflow
                    &&& history2.lowest == if result is Ok && value - delta > history.lowest {
                        value - delta
                    } else {
                        history.lowest as int
                    }
                    &&& history2.underflow == if result is Err && lost <= u128::MAX && !(
                    history.underflow matches Some(smallest) && smallest <= lost) {
                        Some(lost as nat)
                    } else {
                        history.underflow
                    }
                },
            },
    {
        proof {
            self.lemma_wf_is_valid();
            law_subtraction_succeeds_within_reach(self@, value as nat);
            law_subtraction_is_recorded(self@, value as nat);
        }
        match self.state {
            AggregatorState::Data => {
                // The value is known: subtract, and keep the state.
                self.value = subtraction(self.value, value)?;
                return Ok(());
            },
            AggregatorState::PositiveDelta => {
                // The state changes if `value` is more than the delta:
                //   +X - Y is +(X - Y) if X >= Y, and -(Y - X) otherwise.
                if self.value >= value {
                    self.value = subtraction(self.value, value)?;
                } else {
                    // No value within the limit survives the loss of more
                    // than the limit.
                    if let Err(error) = subtraction(self.limit, value) {
                        self.record_underflow(value);
                        return Err(error);
                    }
                    self.value = subtraction(value, self.value)?;
                    self.state = AggregatorState::NegativeDelta;
                }
            },
            AggregatorState::NegativeDelta => {
                // The magnitude grows. Nothing can lose more than the limit.
                match addition(self.value, value, self.limit) {
                    Ok(sum) => self.value = sum,
                    Err(error) => {
                        if self.value <= u128::MAX - value {
                            self.record_underflow(self.value + value);
                        }
                        return Err(error);
                    },
                }
            },
        }
        self.record_success();
        Ok(())
    }

    /// Applies the delta to the value which storage has answered. As a result
    /// the aggregator knows its value. One which knows it already ignores the
    /// answer.
    pub fn materialize(&mut self, reply: Result<u128, String>) -> (result: Result<
        u128,
        AggregatorError,
    >)
        requires
            old(self).wf(),
        ensures
            final(self).wf(),
            (value_outcome(result), final(self)@) == old(self)@.read(reply_view(reply)),
            old(self)@ matches AggregatorView::Known { value: known, .. } ==> final(self)@ == old(
                self,
            )@ && (result matches Ok(value) && value == known),
            old(self)@ matches AggregatorView::Delta { delta, limit, history } ==> match reply {
                    Ok(base) => {
                        &&& result is Ok <==> base + history.highest <= limit && history.lowest
                            <= base
                        &&& result matches Ok(value) ==> value == base + delta && (final(self)@ matches AggregatorView::Known { value: known, limit: limit2 } && known
                            == base + delta && limit2 == limit)
                        &&& result is Err ==> final(self)@ == old(self)@
                        &&& base + history.highest > limit ==> (result matches Err(
                            AggregatorError::Overflow { base: b, value: v, limit: l },
                        ) && b == base && v == history.highest && l == limit)
                        &&& base + history.highest <= limit && history.lowest > base ==> (
                        result matches Err(AggregatorError::Underflow { base: b, value: v }) && b
                            == base && v == history.lowest)
                    },
                    Err(reason) => final(self)@ == old(self)@ && (result matches Err(
                        AggregatorError::Extension { message },
                    ) && message@ == "Could not find the value of the aggregator: "@ + reason@),
                },
    {
        if self.state == AggregatorState::Data {
            return Ok(self.value);
        }
        let base_value = match reply {
            Ok(base_value) => base_value,
            Err(reason) => {
                let mut message = String::from_str("Could not find the value of the aggregator: ");
                message.append(reason.as_str());
                return Err(extension_error(message.as_str()));
            },
        };
        self.validate_history(base_value)?;
        self.value = if self.state == AggregatorState::NegativeDelta {
            subtraction(base_value, self.value)?
        } else {
            addition(base_value, self.value, self.limit)?
        };
        self.state = AggregatorState::Data;
        self.history = None;
        Ok(self.value)
    }

    /// Reads the aggregator. As a result it knows its value.
    ///
    /// Storage is asked only if the value is not known yet, so only then need
    /// it be possible to ask; what is made of its answer is what
    /// [`Aggregator::materialize`] makes of it.
    pub fn read_and_materialize<R: AggregatorResolver + ?Sized>(
        &mut self,
        resolver: &R,
        id: &AggregatorID,
    ) -> (result: Result<u128, AggregatorError>)
        requires
            old(self).wf(),
            old(self)@ is Delta ==> resolver.may_be_asked(*id),
        ensures
            final(self).wf(),
            old(self)@ matches AggregatorView::Known { value, .. } ==> result matches Ok(read)
                && read == value && final(self)@ == old(self)@,
            old(self)@ is Delta ==> exists|reply: Result<u128, String>|
                {
                    &&& #[trigger] call_ensures(
                        R::resolve_aggregator_value,
                        (resolver, id),
                        reply,
                    )
                    &&& (value_outcome(result), final(self)@) == old(self)@.read(reply_view(reply))
                    &&& old(self)@ matches AggregatorView::Delta { delta, limit, history } ==> match reply {
                            Ok(base) => {
                                &&& result is Ok <==> base + history.highest <= limit && history.lowest
                                    <= base
                                &&& result matches Ok(value) ==> value == base + delta && (final(self)@ matches AggregatorView::Known { value: known, limit: limit2 } && known
                                    == base + delta && limit2 == limit)
                                &&& result is Err ==> final(self)@ == old(self)@
                                &&& base + history.highest > limit ==> (result matches Err(
                                    AggregatorError::Overflow { base: b, value: v, limit: l },
                                ) && b == base && v == history.highest && l == limit)
                                &&& base + history.highest <= limit && history.lowest > base ==> (
                                result matches Err(AggregatorError::Underflow { base: b, value: v }) && b
                                    == base && v == history.lowest)
                            },
                            Err(reason) => final(self)@ == old(self)@ && (result matches Err(
                                AggregatorError::Extension { message },
                            ) && message@ == "Could not find the value of the aggregator: "@ + reason@),
                        }
                },
    {
        if self.state == AggregatorState::Data {
            return Ok(self.value);
        }
        let reply = resolver.resolve_aggregator_value(id);
        self.materialize(reply)
    }

    /// Unpacks the aggregator into its fields: the value or the magnitude of
    /// the delta, the state, the limit and the history.
    pub fn into(self) -> (fields: (u128, AggregatorState, u128, Option<History>))
        requires
            self.wf(),
        ensures
            fields.0 == self.spec_value(),
            fields.1 == self.spec_state(),
            fields.2 == self@.limit(),
            match self@ {
                AggregatorView::Known { value, limit } => fields.0 == value && fields.1
                    == AggregatorState::Data && fields.2 == limit,
                AggregatorView::Delta { delta, limit, .. } => fields.2 == limit && if delta >= 0 {
                    fields.0 == delta && fields.1 == AggregatorState::PositiveDelta
                } else {
                    fields.0 == -delta && fields.1 == AggregatorState::NegativeDelta
                },
            },
            match fields.3 {
                Some(seen) => self@ matches AggregatorView::Delta { history, .. } && history
                    == seen@ && history.highest == seen.max_achieved_positive && history.lowest
                    == seen.min_achieved_negative && (match seen.min_overflow_positive {
                    Some(overflow) => history.overflow == Some(overflow as nat),
                    None => history.overflow is None,
                }) && (match seen.max_underflow_negative {
                    Some(underflow) => history.underflow == Some(underflow as nat),
                    None => history.underflow is None,
                }),
                None => self@ is Known,
            },
    {
        (self.value, self.state, self.limit, self.history)
    }
}

} // verus!
