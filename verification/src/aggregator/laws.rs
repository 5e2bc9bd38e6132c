//! Laws of aggregators, over runs of several operations.
use vstd::prelude::*;
use vstd::seq_lib::lemma_fold_left_permutation;

use super::error::AggregatorErrorView;
use super::history::HistoryView;
use super::model::AggregatorView;

verus! {

/// An operation on an aggregator.
pub enum Operation {
    Add(u128),
    Sub(u128),
}

impl Operation {
    /// By how much the operation changes an aggregator.
    pub open spec fn signed(self) -> int {
        match self {
            Operation::Add(value) => value as int,
            Operation::Sub(value) => -value,
        }
    }
}

/// The sum of what the operations change.
pub open spec fn total(ops: Seq<Operation>) -> int {
    ops.fold_left(0int, |sum: int, op: Operation| sum + op.signed())
}

/// An aggregator which does not differ from the value in storage, and has seen
/// nothing yet.
pub open spec fn untouched(limit: nat) -> AggregatorView {
    AggregatorView::Delta { delta: 0, limit, history: HistoryView::fresh() }
}

impl AggregatorView {
    /// The result of an operation, and the aggregator afterwards.
    pub open spec fn apply(self, op: Operation) -> (
        Result<(), AggregatorErrorView>,
        AggregatorView,
    ) {
        match op {
            Operation::Add(value) => self.add(value as nat),
            Operation::Sub(value) => self.sub(value as nat),
        }
    }

    /// The aggregator after a run of operations, whether they succeed or not.
    pub open spec fn run(self, ops: Seq<Operation>) -> AggregatorView
        decreases ops.len(),
    {
        if ops.len() == 0 {
            self
        } else {
            self.run(ops.drop_last()).apply(ops.last()).1
        }
    }

    /// Which operations of a run succeed.
    pub open spec fn successes(self, ops: Seq<Operation>) -> Seq<bool>
        decreases ops.len(),
    {
        if ops.len() == 0 {
            Seq::empty()
        } else {
            self.successes(ops.drop_last()).push(
                self.run(ops.drop_last()).apply(ops.last()).0 is Ok,
            )
        }
    }

    /// Whether every operation of a run succeeds.
    pub open spec fn all_succeed(self, ops: Seq<Operation>) -> bool {
        forall|i: int| 0 <= i < self.successes(ops).len() ==> #[trigger] self.successes(ops)[i]
    }

    /// The known value, or the delta.
    pub open spec fn amount(self) -> int {
        match self {
            AggregatorView::Known { value, .. } => value as int,
            AggregatorView::Delta { delta, .. } => delta,
        }
    }

    /// The delta above the limit to which the operation would lead, if so.
    pub open spec fn overflow_of(self, op: Operation) -> Option<nat> {
        match (self, op) {
            (
                AggregatorView::Delta { delta, limit, .. },
                Operation::Add(value),
            ) if delta + value > limit => Some((delta + value) as nat),
            _ => None,
        }
    }

    /// The loss for which the operation is refused, if it is: the delta to
    /// which it would lead from one below zero, and otherwise the amount which
    /// it would take at once.
    pub open spec fn underflow_of(self, op: Operation) -> Option<nat> {
        match (self, op) {
            (
                AggregatorView::Delta { delta, limit, .. },
                Operation::Sub(value),
            ) => if delta < 0 && value - delta > limit {
                Some((value - delta) as nat)
            } else if delta >= 0 && delta - value < 0 && value > limit {
                Some(value as nat)
            } else {
                None
            },
            _ => None,
        }
    }

    /// What [`AggregatorView::overflow_of`] says of an operation of a run.
    pub open spec fn overflow_at(self, ops: Seq<Operation>, i: int) -> Option<nat> {
        self.run(ops.take(i)).overflow_of(ops[i])
    }

    /// What [`AggregatorView::underflow_of`] says of an operation of a run.
    pub open spec fn underflow_at(self, ops: Seq<Operation>, i: int) -> Option<nat> {
        self.run(ops.take(i)).underflow_of(ops[i])
    }
}

/// What holds of every aggregator: a known value is within the limit, and a
/// delta is between the extremes of the history.
pub proof fn law_valid_aggregators_are_within_bounds(view: AggregatorView)
    requires
        view.valid(),
    ensures
        match view {
            AggregatorView::Known { value, limit } => value <= limit,
            AggregatorView::Delta { delta, limit, history } => -limit <= -history.lowest <= delta
                <= history.highest,
        },
{
}

/// What holds of every aggregator is kept by every operation.
pub proof fn law_operations_keep_validity(view: AggregatorView, op: Operation)
    requires
        view.valid(),
    ensures
        view.apply(op).1.valid(),
        view.apply(op).1.limit() == view.limit(),
{
}

/// What holds of every aggregator is kept by reading it.
pub proof fn law_reading_keeps_validity(view: AggregatorView, reply: Result<nat, Seq<char>>)
    requires
        view.valid(),
    ensures
        view.read(reply).1.valid(),
        view.read(reply).1.limit() == view.limit(),
{
}

/// An operation which fails changes neither the value or delta nor the
/// extremes which the history has seen.
pub proof fn law_failure_changes_nothing_but_records(view: AggregatorView, op: Operation)
    requires
        view.apply(op).0 is Err,
    ensures
        match view {
            AggregatorView::Known { .. } => view.apply(op).1 == view,
            AggregatorView::Delta { delta, limit, history } => view.apply(op).1 matches
                AggregatorView::Delta { delta: delta2, limit: limit2, history: history2 }
                && delta2 == delta && limit2 == limit && history2.highest == history.highest
                && history2.lowest == history.lowest,
        },
{
}

/// An operation which succeeds changes the value or delta by its own amount.
pub proof fn law_success_changes_by_the_amount(view: AggregatorView, op: Operation)
    requires
        view.apply(op).0 is Ok,
    ensures
        view.apply(op).1.amount() == view.amount() + op.signed(),
        view.apply(op).1 is Known <==> view is Known,
{
}

/// An addition succeeds exactly if it may. A known value may become at most the
/// limit. A delta may become at most the limit as well, unless it was below
/// zero: then any addition succeeds. Where it succeeds, the amount is larger by
/// `value`; where it does not, it is as before, and the error names the amount,
/// `value` and the limit.
pub proof fn law_addition_succeeds_within_the_limit(view: AggregatorView, value: nat)
    ensures
        match view {
            AggregatorView::Known { value: known, limit } => {
                &&& view.add(value).0 is Ok <==> known + value <= limit
                &&& view.add(value).1 matches AggregatorView::Known { value: known2, limit: limit2 }
                    && limit2 == limit && known2 == if known + value <= limit {
                    known + value
                } else {
                    known
                }
                &&& view.add(value).0 matches Err(error) ==> (error matches
                    AggregatorErrorView::Overflow { base: b, value: v, limit: l } && b == known && v
                    == value && l == limit)
            },
            AggregatorView::Delta { delta, limit, .. } => {
                &&& view.add(value).0 is Ok <==> delta < 0 || delta + value <= limit
                &&& view.add(value).1 matches AggregatorView::Delta {
                    delta: delta2,
                    limit: limit2,
                    ..
                } && limit2 == limit && delta2 == if delta < 0 || delta + value <= limit {
                    delta + value
                } else {
                    delta
                }
                &&& view.add(value).0 matches Err(error) ==> (error matches
                    AggregatorErrorView::Overflow { base: b, value: v, limit: l } && b == delta && v
                    == value && l == limit)
            },
        },
{
}

/// A subtraction succeeds exactly if it may. No more can be taken from a known
/// value than it is. A delta below zero may drop to `-limit`. From another
/// delta at once no more can be taken than the delta or the limit, whichever is
/// more. Where it succeeds, the amount is smaller by `value`; where it does
/// not, it is as before, and the error names what was exceeded.
pub proof fn law_subtraction_succeeds_within_reach(view: AggregatorView, value: nat)
    ensures
        match view {
            AggregatorView::Known { value: known, limit } => {
                &&& view.sub(value).0 is Ok <==> value <= known
                &&& view.sub(value).1 matches AggregatorView::Known { value: known2, limit: limit2 }
                    && limit2 == limit && known2 == if value <= known {
                    known - value
                } else {
                    known as int
                }
                &&& view.sub(value).0 matches Err(error) ==> (error matches
                    AggregatorErrorView::Underflow { base: b, value: v } && b == known && v == value)
            },
            AggregatorView::Delta { delta, limit, .. } => {
                &&& delta < 0 ==> (view.sub(value).0 is Ok <==> value - delta <= limit)
                &&& delta >= 0 ==> (view.sub(value).0 is Ok <==> value <= delta || value <= limit)
                &&& view.sub(value).1 matches AggregatorView::Delta {
                    delta: delta2,
                    limit: limit2,
                    ..
                } && limit2 == limit && delta2 == if view.sub(value).0 is Ok {
                    delta - value
                } else {
                    delta
                }
                &&& view.sub(value).0 matches Err(error) ==> if delta < 0 {
                    error matches AggregatorErrorView::Overflow { base: b, value: v, limit: l } && b
                        == -delta && v == value && l == limit
                } else {
                    error matches AggregatorErrorView::Underflow { base: b, value: v } && b == limit
                        && v == value
                }
            },
        },
{
}

/// What an addition leaves in the history: the largest delta is the new one, if
/// it was reached and there was no larger; the smallest recorded overflow is
/// the delta above the limit, if there was no smaller and it does not exceed
/// `u128::MAX`. All else is as before.
pub proof fn law_addition_is_recorded(view: AggregatorView, value: nat)
    requires
        view matches AggregatorView::Delta { delta, history, .. } ==> -history.lowest <= delta
            <= history.highest,
    ensures
        view matches AggregatorView::Delta { delta, limit, history } ==> {
            &&& view.add(value).1 matches AggregatorView::Delta { history: after, .. }
            &&& after.lowest == history.lowest
            &&& after.underflow == history.underflow
            &&& after.highest == if view.add(value).0 is Ok && delta + value > history.highest {
                delta + value
            } else {
                history.highest as int
            }
            &&& delta + value <= limit || delta + value > u128::MAX ==> after.overflow
                == history.overflow
            &&& limit < delta + value <= u128::MAX ==> {
                &&& after.overflow matches Some(kept)
                &&& kept <= delta + value
                &&& history.overflow matches Some(before) ==> kept <= before
                &&& kept == delta + value || history.overflow == Some(kept)
            }
        },
{
}

/// What a subtraction leaves in the history: the smallest delta is the new one,
/// if it was reached and there was no smaller; if it was refused, the smallest
/// recorded underflow is the magnitude below zero which a delta below zero
/// would have had, or what was to be taken from another, if there was no
/// smaller and it does not exceed `u128::MAX`. All else is as before.
pub proof fn law_subtraction_is_recorded(view: AggregatorView, value: nat)
    requires
        view matches AggregatorView::Delta { delta, history, .. } ==> -history.lowest <= delta
            <= history.highest,
    ensures
        view matches AggregatorView::Delta { delta, limit, history } ==> {
            let lost = if delta < 0 {
                value - delta
            } else {
                value as int
            };
            &&& view.sub(value).1 matches AggregatorView::Delta { history: after, .. }
            &&& after.highest == history.highest
            &&& after.overflow == history.overflow
            &&& after.lowest == if view.sub(value).0 is Ok && value - delta > history.lowest {
                value - delta
            } else {
                history.lowest as int
            }
            &&& view.sub(value).0 is Ok || lost > u128::MAX ==> after.underflow == history.underflow
            &&& view.sub(value).0 is Err && lost <= u128::MAX ==> {
                &&& after.underflow matches Some(kept)
                &&& kept <= lost
                &&& history.underflow matches Some(before) ==> kept <= before
                &&& kept == lost || history.underflow == Some(kept)
            }
        },
{
}

/// What succeeds with an amount succeeds with every smaller one.
pub proof fn law_smaller_amounts_succeed_too(view: AggregatorView, value: nat, smaller: nat)
    requires
        smaller <= value,
    ensures
        view.add(value).0 is Ok ==> view.add(smaller).0 is Ok,
        view.sub(value).0 is Ok ==> view.sub(smaller).0 is Ok,
        view.add(0).0 is Err ==> view.amount() > view.limit(),
{
}

/// On a known value, subtracting undoes an addition which has succeeded, and
/// adding undoes a subtraction which has.
pub proof fn law_known_value_can_be_restored(view: AggregatorView, value: nat)
    requires
        view matches AggregatorView::Known { value: known, limit } && known <= limit,
    ensures
        view.add(value).0 is Ok ==> view.add(value).1.sub(value) == (
            Ok::<(), AggregatorErrorView>(()),
            view,
        ),
        view.sub(value).0 is Ok ==> view.sub(value).1.add(value) == (
            Ok::<(), AggregatorErrorView>(()),
            view,
        ),
{
}

/// A read of an aggregator which has only a delta succeeds exactly if storage
/// has a value to which the largest delta seen can be added within the limit,
/// and which is not below the magnitude of the smallest. What it returns is the
/// sum of the stored value and the delta, and that is what the aggregator knows
/// from then on.
pub proof fn law_read_returns_the_sum(
    delta: int,
    limit: nat,
    history: HistoryView,
    base: nat,
)
    requires
        -history.lowest <= delta <= history.highest,
    ensures
        ({
            let (result, after) = (AggregatorView::Delta { delta, limit, history }).read(Ok(base));
            &&& result is Ok <==> base + history.highest <= limit && history.lowest <= base
            &&& result matches Ok(value) ==> {
                &&& value == base + delta
                &&& after matches AggregatorView::Known { value: known, limit: limit2 }
                &&& known == base + delta
                &&& limit2 == limit
            }
            &&& result matches Err(error) ==> {
                &&& after == (AggregatorView::Delta { delta, limit, history })
                &&& base + history.highest > limit ==> (error matches
                    AggregatorErrorView::Overflow { base: b, value: v, limit: l } && b == base && v
                    == history.highest && l == limit)
                &&& base + history.highest <= limit ==> (error matches
                    AggregatorErrorView::Underflow { base: b, value: v } && b == base && v
                    == history.lowest)
            }
        }),
{
}

/// A known value is read as it is. What storage has no value for cannot be
/// read: the error says so and gives the reason, and nothing changes.
pub proof fn law_read_needs_a_value(view: AggregatorView, reason: Seq<char>)
    ensures
        match view {
            AggregatorView::Known { value, .. } => view.read(Err(reason)).1 == view && (view.read(
                Err(reason),
            ).0 matches Ok(read) && read == value),
            AggregatorView::Delta { .. } => view.read(Err(reason)).1 == view && (view.read(
                Err(reason),
            ).0 matches Err(error) && (error matches AggregatorErrorView::Extension { message }
                && message == "Could not find the value of the aggregator: "@ + reason)),
        },
{
}

/// Whatever storage answers, a known value is read as it is and kept.
pub proof fn law_known_value_is_read_as_it_is(
    value: nat,
    limit: nat,
    reply: Result<nat, Seq<char>>,
)
    ensures
        ({
            let (result, after) = (AggregatorView::Known { value, limit }).read(reply);
            &&& result matches Ok(read) && read == value
            &&& after matches AggregatorView::Known { value: known, limit: limit2 } && known == value
                && limit2 == limit
        }),
{
}

/// Once read, an aggregator gives the same value again, whatever storage says.
pub proof fn law_reading_is_idempotent(
    view: AggregatorView,
    reply: Result<nat, Seq<char>>,
    reply2: Result<nat, Seq<char>>,
)
    requires
        view.read(reply).0 is Ok,
    ensures
        view.read(reply).1.read(reply2) == view.read(reply),
{
}

proof fn lemma_run_is_valid(view: AggregatorView, ops: Seq<Operation>)
    requires
        view.valid(),
    ensures
        view.run(ops).valid(),
        view.run(ops).limit() == view.limit(),
        view.run(ops) is Known <==> view is Known,
        view.successes(ops).len() == ops.len(),
    decreases ops.len(),
{
    if ops.len() > 0 {
        lemma_run_is_valid(view, ops.drop_last());
        law_operations_keep_validity(view.run(ops.drop_last()), ops.last());
    }
}

/// Collecting a delta and applying it to the stored value is the same as
/// working on the stored value.
///
/// Let operations run on an aggregator which knows only its delta, and let the
/// delta then be applied to `base`. That succeeds if and only if each of the
/// operations has the outcome which it has on an aggregator that knows its
/// value to be `base` from the start. The value is then the same, too.
pub proof fn law_delta_run_agrees_with_direct_run(limit: nat, base: nat, ops: Seq<Operation>)
    requires
        base <= limit,
    ensures
        ({
            let direct = AggregatorView::Known { value: base, limit };
            let (result, after) = untouched(limit).run(ops).read(Ok(base));
            &&& result is Ok <==> untouched(limit).successes(ops) == direct.successes(ops)
            &&& result is Ok ==> after == direct.run(ops)
        }),
    decreases ops.len(),
{
    let start = untouched(limit);
    let direct = AggregatorView::Known { value: base, limit };
    lemma_run_is_valid(start, ops);
    lemma_run_is_valid(direct, ops);
    if ops.len() > 0 {
        let before = ops.drop_last();
        law_delta_run_agrees_with_direct_run(limit, base, before);
        lemma_run_is_valid(start, before);
        lemma_run_is_valid(direct, before);
        let s1 = start.successes(ops);
        let s2 = direct.successes(ops);
        assert(s1.drop_last() =~= start.successes(before));
        assert(s2.drop_last() =~= direct.successes(before));
        if start.successes(before) == direct.successes(before) && s1.last() == s2.last() {
            assert(s1 =~= s2);
        }
    }
}

/// Whether a history fits a stored value is decided by its extremes: it does
/// if and only if each delta which the run went through, when applied to the
/// value, leads to one between zero and the limit.
pub proof fn law_extremes_decide(limit: nat, base: nat, ops: Seq<Operation>)
    ensures
        untouched(limit).run(ops) matches AggregatorView::Delta { history, .. } && (
        AggregatorView::validated(history, limit, base) is Ok <==> forall|i: int|
            0 <= i <= ops.len() ==> 0 <= base + (#[trigger] untouched(limit).run(
                ops.take(i),
            )).amount() <= limit),
    decreases ops.len(),
{
    let start = untouched(limit);
    assert(ops.take(ops.len() as int) =~= ops);
    lemma_run_is_valid(start, ops);
    if ops.len() > 0 {
        let before = ops.drop_last();
        law_extremes_decide(limit, base, before);
        lemma_run_is_valid(start, before);
        assert forall|i: int| 0 <= i < ops.len() implies #[trigger] ops.take(i) == before.take(
            i,
        ) by {
            assert(ops.take(i) =~= before.take(i));
        }
        let earlier = start.run(before)->history;
        let history = start.run(ops)->history;
        assert(AggregatorView::validated(history, limit, base) is Ok <==> (
        AggregatorView::validated(earlier, limit, base) is Ok && 0 <= base + start.run(
            ops,
        ).amount() <= limit));
        if forall|i: int|
            0 <= i <= ops.len() ==> 0 <= base + (#[trigger] start.run(ops.take(i))).amount()
                <= limit {
            assert forall|i: int| 0 <= i <= before.len() implies 0 <= base + (
            #[trigger] start.run(before.take(i))).amount() <= limit by {
                assert(ops.take(i) == before.take(i));
            }
        }
    }
}

proof fn lemma_successful_run_adds_up(view: AggregatorView, ops: Seq<Operation>)
    requires
        view.all_succeed(ops),
    ensures
        view.run(ops).amount() == view.amount() + total(ops),
        view.run(ops) is Known <==> view is Known,
        view.run(ops).limit() == view.limit(),
    decreases ops.len(),
{
    let f = |sum: int, op: Operation| sum + op.signed();
    if ops.len() > 0 {
        let before = ops.drop_last();
        assert forall|i: int| 0 <= i < view.successes(before).len() implies #[trigger] view.successes(
            before,
        )[i] by {
            assert(view.successes(ops)[i] == view.successes(before)[i]);
        }
        lemma_successful_run_adds_up(view, before);
        assert(view.successes(ops)[view.successes(before).len() as int]);
        law_success_changes_by_the_amount(view.run(before), ops.last());
        reveal_with_fuel(Seq::fold_left, 2);
    }
}

/// Additions and subtractions commute: two runs of the same operations, each
/// in an order in which all of them succeed, lead to the same value or delta,
/// with the same limit.
pub proof fn law_order_of_operations_is_irrelevant(
    view: AggregatorView,
    ops1: Seq<Operation>,
    ops2: Seq<Operation>,
)
    requires
        ops1.to_multiset() == ops2.to_multiset(),
        view.all_succeed(ops1),
        view.all_succeed(ops2),
    ensures
        view.run(ops1).amount() == view.run(ops2).amount(),
        view.run(ops1) is Known <==> view.run(ops2) is Known,
        view.run(ops1).limit() == view.run(ops2).limit(),
        view.run(ops1).amount() == view.amount() + total(ops1),
{
    lemma_successful_run_adds_up(view, ops1);
    lemma_successful_run_adds_up(view, ops2);
    lemma_fold_left_permutation(
        ops1,
        ops2,
        |sum: int, op: Operation| sum + op.signed(),
        0int,
    );
}

/// The recorded overflow is the smallest of the deltas above the limit to
/// which operations of the run have led or would have led, apart from those
/// which exceed `u128::MAX`. There is no record exactly if there is no such
/// delta.
pub proof fn law_recorded_overflow_is_the_smallest(limit: nat, ops: Seq<Operation>)
    ensures
        untouched(limit).run(ops) matches AggregatorView::Delta { history, .. } && {
            &&& forall|i: int|
                0 <= i < ops.len() ==> (#[trigger] untouched(limit).overflow_at(ops, i) matches Some(
                    value,
                ) ==> value <= u128::MAX ==> (history.overflow matches Some(smallest) && smallest
                    <= value))
            &&& history.overflow matches Some(smallest) ==> smallest <= u128::MAX && exists|i: int|
                0 <= i < ops.len() && #[trigger] untouched(limit).overflow_at(ops, i) == Some(
                    smallest,
                )
        },
    decreases ops.len(),
{
    let start = untouched(limit);
    if ops.len() > 0 {
        let before = ops.drop_last();
        let last = ops.len() - 1;
        law_recorded_overflow_is_the_smallest(limit, before);
        assert(ops.take(last) =~= before);
        let history = start.run(ops)->history;
        let earlier = start.run(before)->history;
        let new = start.overflow_at(ops, last);
        assert(history.overflow == match new {
            Some(value) => earlier.overflowed(value).overflow,
            None => earlier.overflow,
        });
        assert forall|i: int| 0 <= i < last implies start.overflow_at(ops, i)
            == #[trigger] start.overflow_at(before, i) by {
            assert(before.take(i) =~= ops.take(i));
        }
        assert forall|i: int| 0 <= i < ops.len() implies (#[trigger] start.overflow_at(ops, i) matches Some(
            value,
        ) ==> value <= u128::MAX ==> (history.overflow matches Some(smallest) && smallest
            <= value)) by {
            if i < last {
                assert(start.overflow_at(before, i) == start.overflow_at(ops, i));
            }
        }
        if history.overflow is Some && history.overflow == earlier.overflow {
            let i = choose|i: int|
                0 <= i < before.len() && #[trigger] start.overflow_at(before, i)
                    == earlier.overflow;
            assert(start.overflow_at(ops, i) == history.overflow);
        }
    }
}

/// The recorded underflow is the smallest of the losses for which operations
/// of the run were refused, apart from those which exceed `u128::MAX`. There
/// is no record exactly if there is no such loss.
pub proof fn law_recorded_underflow_is_the_smallest(limit: nat, ops: Seq<Operation>)
    ensures
        untouched(limit).run(ops) matches AggregatorView::Delta { history, .. } && {
            &&& forall|i: int|
                0 <= i < ops.len() ==> (#[trigger] untouched(limit).underflow_at(ops, i) matches Some(
                    value,
                ) ==> value <= u128::MAX ==> (history.underflow matches Some(smallest) && smallest
                    <= value))
            &&& history.underflow matches Some(smallest) ==> smallest <= u128::MAX && exists|i: int|
                0 <= i < ops.len() && #[trigger] untouched(limit).underflow_at(ops, i) == Some(
                    smallest,
                )
        },
    decreases ops.len(),
{
    let start = untouched(limit);
    if ops.len() > 0 {
        let before = ops.drop_last();
        let last = ops.len() - 1;
        law_recorded_underflow_is_the_smallest(limit, before);
        assert(ops.take(last) =~= before);
        let history = start.run(ops)->history;
        let earlier = start.run(before)->history;
        let new = start.underflow_at(ops, last);
        assert(history.underflow == match new {
            Some(value) => earlier.underflowed(value).underflow,
            None => earlier.underflow,
        });
        assert forall|i: int| 0 <= i < last implies start.underflow_at(ops, i)
            == #[trigger] start.underflow_at(before, i) by {
            assert(before.take(i) =~= ops.take(i));
        }
        assert forall|i: int| 0 <= i < ops.len() implies (#[trigger] start.underflow_at(ops, i) matches Some(
            value,
        ) ==> value <= u128::MAX ==> (history.underflow matches Some(smallest) && smallest
            <= value)) by {
            if i < last {
                assert(start.underflow_at(before, i) == start.underflow_at(ops, i));
            }
        }
        if history.underflow is Some && history.underflow == earlier.underflow {
            let i = choose|i: int|
                0 <= i < before.len() && #[trigger] start.underflow_at(before, i)
                    == earlier.underflow;
            assert(start.underflow_at(ops, i) == history.underflow);
        }
    }
}

/// The history keeps the extremes of the deltas which a run went through: the
/// largest, and the smallest by its magnitude. Delta zero, with which the run
/// starts, is one of them.
pub proof fn law_history_keeps_the_extremes(limit: nat, ops: Seq<Operation>)
    ensures
        untouched(limit).run(ops) matches AggregatorView::Delta { history, .. } && {
            &&& forall|i: int|
                0 <= i <= ops.len() ==> -history.lowest <= (#[trigger] untouched(limit).run(
                    ops.take(i),
                )).amount() <= history.highest
            &&& exists|i: int|
                0 <= i <= ops.len() && (#[trigger] untouched(limit).run(ops.take(i))).amount()
                    == history.highest
            &&& exists|i: int|
                0 <= i <= ops.len() && (#[trigger] untouched(limit).run(ops.take(i))).amount()
                    == -history.lowest
        },
    decreases ops.len(),
{
    let start = untouched(limit);
    lemma_run_is_valid(start, ops);
    assert(ops.take(ops.len() as int) =~= ops);
    let last = start.run(ops.take(ops.len() as int)).amount();
    if ops.len() > 0 {
        let before = ops.drop_last();
        law_history_keeps_the_extremes(limit, before);
        lemma_run_is_valid(start, before);
        let earlier = start.run(before)->history;
        let history = start.run(ops)->history;
        assert forall|i: int| 0 <= i <= before.len() implies #[trigger] start.run(ops.take(i))
            == start.run(before.take(i)) by {
            assert(ops.take(i) =~= before.take(i));
        }
        if history.highest == earlier.highest {
            let i = choose|i: int|
                0 <= i <= before.len() && (#[trigger] start.run(before.take(i))).amount()
                    == earlier.highest;
            assert(start.run(ops.take(i)).amount() == history.highest);
        }
        if history.lowest == earlier.lowest {
            let i = choose|i: int|
                0 <= i <= before.len() && (#[trigger] start.run(before.take(i))).amount()
                    == -earlier.lowest;
            assert(start.run(ops.take(i)).amount() == -history.lowest);
        }
    }
}

} // verus!
