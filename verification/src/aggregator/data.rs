//! The aggregators of a transaction.
use vstd::prelude::*;

use super::error::AggregatorError;
use super::id::AggregatorID;
use super::instance::Aggregator;
use super::laws::untouched;
use super::model::AggregatorView;
use super::ordered::{
    entries_map, ids_ordered, lemma_entry_is_mapped, ordered, OrderedMap,
};

verus! {

/// Stores all information about the aggregators of a single transaction: which
/// have been created, which have been destroyed, and what their states are.
#[derive(Debug)]
pub struct AggregatorData {
    /// Those which the transaction has created. Serves to leave out those
    /// which it has created and destroyed.
    new_aggregators: OrderedMap<()>,
    /// Those which the transaction has destroyed.
    destroyed_aggregators: OrderedMap<()>,
    /// All aggregators which exist in the transaction.
    aggregators: OrderedMap<Aggregator>,
    /// The identifier which was generated last.
    pub id_counter: u64,
}

/// The mathematical value of [`AggregatorData`].
pub struct AggregatorDataView {
    pub created: Set<AggregatorID>,
    pub destroyed: Set<AggregatorID>,
    pub aggregators: Map<AggregatorID, AggregatorView>,
    pub id_counter: nat,
}

impl AggregatorDataView {
    /// The data of a transaction which has done nothing.
    pub open spec fn empty(id_counter: nat) -> AggregatorDataView {
        AggregatorDataView {
            created: Set::empty(),
            destroyed: Set::empty(),
            aggregators: Map::empty(),
            id_counter,
        }
    }

    /// The aggregator which a transaction gets to see: the one which exists,
    /// or else one which does not differ from storage.
    pub open spec fn seen(self, id: AggregatorID, limit: nat) -> AggregatorView {
        if self.aggregators.contains_key(id) {
            self.aggregators[id]
        } else {
            untouched(limit)
        }
    }

    /// The data once an aggregator has been given another value.
    pub open spec fn with(self, id: AggregatorID, aggregator: AggregatorView) -> AggregatorDataView {
        AggregatorDataView { aggregators: self.aggregators.insert(id, aggregator), ..self }
    }

    /// The data once an aggregator has been created.
    pub open spec fn create(self, id: AggregatorID, limit: nat) -> AggregatorDataView {
        AggregatorDataView {
            created: self.created.insert(id),
            aggregators: self.aggregators.insert(id, AggregatorView::Known { value: 0, limit }),
            ..self
        }
    }

    /// The data once an aggregator has been removed.
    pub open spec fn remove(self, id: AggregatorID) -> AggregatorDataView {
        AggregatorDataView {
            created: self.created.remove(id),
            destroyed: if self.created.contains(id) {
                self.destroyed
            } else {
                self.destroyed.insert(id)
            },
            aggregators: self.aggregators.remove(id),
            ..self
        }
    }

    /// The next identifier, and the data once it has been generated.
    pub open spec fn generate(self) -> (nat, AggregatorDataView) {
        let id = self.id_counter + 1;
        (id, AggregatorDataView { id_counter: id, ..self })
    }

    /// The data once `count` identifiers have been generated.
    pub open spec fn generate_many(self, count: nat) -> AggregatorDataView
        decreases count,
    {
        if count == 0 {
            self
        } else {
            self.generate_many((count - 1) as nat).generate().1
        }
    }

    /// What holds of every transaction: the aggregators are valid, and those
    /// which were created exist.
    pub open spec fn valid(self) -> bool {
        &&& forall|id: AggregatorID| #[trigger]
            self.aggregators.contains_key(id) ==> self.aggregators[id].valid()
        &&& self.created.subset_of(self.aggregators.dom())
    }
}

impl View for AggregatorData {
    type V = AggregatorDataView;

    closed spec fn view(&self) -> AggregatorDataView {
        AggregatorDataView {
            created: self.new_aggregators@.dom(),
            destroyed: self.destroyed_aggregators@.dom(),
            aggregators: self.aggregators@.map_values(|aggregator: Aggregator| aggregator@),
            id_counter: self.id_counter as nat,
        }
    }
}

impl Default for AggregatorData {
    /// Returns the data of a transaction which has done nothing.
    fn default() -> (data: AggregatorData)
        ensures
            data.wf(),
            data@ == AggregatorDataView::empty(0),
            data@.created == Set::<AggregatorID>::empty(),
            data@.destroyed == Set::<AggregatorID>::empty(),
            data@.aggregators == Map::<AggregatorID, AggregatorView>::empty(),
            data@.id_counter == 0,
    {
        AggregatorData::new(0)
    }
}

impl AggregatorData {
    /// Whether the data are such as the operations can lead to.
    pub closed spec fn wf(self) -> bool {
        &&& self.new_aggregators.wf()
        &&& self.destroyed_aggregators.wf()
        &&& self.aggregators.wf()
        &&& forall|id: AggregatorID| #[trigger]
            self.aggregators@.contains_key(id) ==> self.aggregators@[id].wf()
        &&& self@.valid()
    }

    /// What holds of the mathematical value of the data.
    pub proof fn lemma_wf_is_valid(self)
        requires
            self.wf(),
        ensures
            self@.valid(),
    {
    }

    /// Returns the data of a transaction which has done nothing.
    pub fn new(id_counter: u64) -> (data: AggregatorData)
        ensures
            data.wf(),
            data@ == AggregatorDataView::empty(id_counter as nat),
            data@.created == Set::<AggregatorID>::empty(),
            data@.destroyed == Set::<AggregatorID>::empty(),
            data@.aggregators == Map::<AggregatorID, AggregatorView>::empty(),
            data@.id_counter == id_counter,
    {
        let data = AggregatorData {
            new_aggregators: OrderedMap::new(),
            destroyed_aggregators: OrderedMap::new(),
            aggregators: OrderedMap::new(),
            id_counter,
        };
        assert(data@.created =~= Set::empty());
        assert(data@.destroyed =~= Set::empty());
        assert(data@.aggregators =~= Map::empty());
        data
    }

    /// Returns the aggregator with the identifier. If the transaction has not
    /// used it yet, it becomes one which does not differ from storage, with
    /// the given limit.
    pub fn get_aggregator(&mut self, id: AggregatorID, limit: u128) -> (result: Result<
        &mut Aggregator,
        AggregatorError,
    >)
        requires
            old(self).wf(),
        ensures
            result is Ok,
            result matches Ok(aggregator) ==> {
                &&& aggregator.wf()
                &&& aggregator@ == old(self)@.seen(id, limit as nat)
                &&& final(aggregator).wf() ==> final(self).wf()
                &&& final(self)@ == old(self)@.with(id, final(aggregator)@)
                &&& old(self)@.aggregators.contains_key(id) ==> aggregator@ == old(
                    self,
                )@.aggregators[id]
                &&& !old(self)@.aggregators.contains_key(id) ==> (aggregator@ matches
                    AggregatorView::Delta { delta, limit: l, history } && delta == 0 && l == limit
                    && history.highest == 0 && history.lowest == 0 && history.overflow is None
                    && history.underflow is None)
                &&& final(self)@.created == old(self)@.created
                &&& final(self)@.destroyed == old(self)@.destroyed
                &&& final(self)@.aggregators == old(self)@.aggregators.insert(
                    id,
                    final(aggregator)@,
                )
                &&& final(self)@.id_counter == old(self)@.id_counter
            },
    {
        proof {
            assert forall|after: Aggregator|
                #![trigger self.aggregators@.insert(id, after)]
                self.aggregators@.insert(id, after).map_values(
                    |aggregator: Aggregator| aggregator@,
                ) == self@.aggregators.insert(id, after@) by {
                assert(self.aggregators@.insert(id, after).map_values(
                    |aggregator: Aggregator| aggregator@,
                ) =~= self@.aggregators.insert(id, after@));
            }
            assert forall|after: Aggregator| #[trigger] after.wf() implies after@.valid() by {
                after.lemma_wf_is_valid();
            }
        }
        let aggregator = self.aggregators.get_or_insert(id, Aggregator::new_delta(limit));
        Ok(aggregator)
    }

    /// Returns the number of aggregators which the transaction uses.
    pub fn num_aggregators(&self) -> (number: u128)
        requires
            self.wf(),
        ensures
            self@.aggregators.dom().finite(),
            number == self@.aggregators.dom().len(),
    {
        assert(self@.aggregators.dom() =~= self.aggregators@.dom());
        self.aggregators.len() as u128
    }

    /// Creates an aggregator. Its value is known to be zero.
    pub fn create_new_aggregator(&mut self, id: AggregatorID, limit: u128)
        requires
            old(self).wf(),
        ensures
            final(self).wf(),
            final(self)@ == old(self)@.create(id, limit as nat),
            final(self)@.created == old(self)@.created.insert(id),
            final(self)@.destroyed == old(self)@.destroyed,
            final(self)@.aggregators == old(self)@.aggregators.insert(
                id,
                (AggregatorView::Known { value: 0, limit: limit as nat }),
            ),
            final(self)@.id_counter == old(self)@.id_counter,
    {
        self.aggregators.insert(id, Aggregator::new_known(limit));
        self.new_aggregators.insert(id, ());
        assert(self@.aggregators =~= old(self)@.create(id, limit as nat).aggregators);
        assert(self@.created =~= old(self)@.create(id, limit as nat).created);
    }

    /// Removes an aggregator. Unless the transaction has created it, it is
    /// marked as destroyed.
    pub fn remove_aggregator(&mut self, id: AggregatorID)
        requires
            old(self).wf(),
        ensures
            final(self).wf(),
            final(self)@ == old(self)@.remove(id),
            final(self)@.created == old(self)@.created.remove(id),
            old(self)@.created.contains(id) ==> final(self)@.destroyed == old(self)@.destroyed,
            !old(self)@.created.contains(id) ==> final(self)@.destroyed == old(
                self,
            )@.destroyed.insert(id),
            final(self)@.aggregators == old(self)@.aggregators.remove(id),
            final(self)@.id_counter == old(self)@.id_counter,
    {
        // The transaction does not use it any longer.
        self.aggregators.remove(&id);
        if self.new_aggregators.contains(&id) {
            // Created by the same transaction: nothing is left of it.
            self.new_aggregators.remove(&id);
        } else {
            // Created somewhere else.
            self.destroyed_aggregators.insert(id, ());
        }
        assert(self@.aggregators =~= old(self)@.remove(id).aggregators);
        assert(self@.created =~= old(self)@.remove(id).created);
        assert(self@.destroyed =~= old(self)@.remove(id).destroyed);
    }

    /// Returns the next identifier.
    pub fn generate_id(&mut self) -> (id: u64)
        requires
            old(self)@.id_counter < u64::MAX,
        ensures
            (id as nat, final(self)@) == old(self)@.generate(),
            id == old(self)@.id_counter + 1,
            final(self)@.id_counter == id,
            final(self)@.created == old(self)@.created,
            final(self)@.destroyed == old(self)@.destroyed,
            final(self)@.aggregators == old(self)@.aggregators,
            old(self).wf() ==> final(self).wf(),
    {
        self.id_counter = self.id_counter + 1;
        self.id_counter
    }

    /// Unpacks the data: the aggregators which were created, those which were
    /// destroyed, and those which exist, each in the order of identifiers. What
    /// was created exists.
    pub fn into(self) -> (parts: (
        Vec<AggregatorID>,
        Vec<AggregatorID>,
        Vec<(AggregatorID, Aggregator)>,
    ))
        requires
            self.wf(),
        ensures
            ids_ordered(parts.0@),
            parts.0@.to_set() == self@.created,
            ids_ordered(parts.1@),
            parts.1@.to_set() == self@.destroyed,
            ordered(parts.2@),
            entries_map(parts.2@).map_values(|aggregator: Aggregator| aggregator@)
                == self@.aggregators,
            parts.0@.to_set().subset_of(entries_map(parts.2@).dom()),
            forall|i: int, j: int|
                0 <= i < j < parts.0@.len() ==> (#[trigger] parts.0@[i]).before(
                    #[trigger] parts.0@[j],
                ),
            forall|id: AggregatorID| #[trigger]
                parts.0@.contains(id) <==> self@.created.contains(id),
            forall|i: int, j: int|
                0 <= i < j < parts.1@.len() ==> (#[trigger] parts.1@[i]).before(
                    #[trigger] parts.1@[j],
                ),
            forall|id: AggregatorID| #[trigger]
                parts.1@.contains(id) <==> self@.destroyed.contains(id),
            forall|i: int, j: int|
                0 <= i < j < parts.2@.len() ==> (#[trigger] parts.2@[i]).0.before(
                    (#[trigger] parts.2@[j]).0,
                ),
            forall|i: int|
                0 <= i < parts.2@.len() ==> self@.aggregators.contains_key(
                    (#[trigger] parts.2@[i]).0,
                ) && self@.aggregators[parts.2@[i].0] == parts.2@[i].1@,
            forall|id: AggregatorID| #[trigger]
                self@.aggregators.contains_key(id) ==> exists|i: int|
                    0 <= i < parts.2@.len() && (#[trigger] parts.2@[i]).0 == id,
            forall|i: int| 0 <= i < parts.2@.len() ==> (#[trigger] parts.2@[i]).1.wf(),
    {
        let entries = self.aggregators.into_entries();
        assert forall|i: int| 0 <= i < entries@.len() implies (#[trigger] entries@[i]).1.wf() by {
            lemma_entry_is_mapped(entries@, i);
        }
        (self.new_aggregators.into_ids(), self.destroyed_aggregators.into_ids(), entries)
    }
}

/// Creating, changing and removing aggregators keeps what holds of every
/// transaction.
pub proof fn law_transaction_stays_valid(
    data: AggregatorDataView,
    id: AggregatorID,
    limit: nat,
    aggregator: AggregatorView,
)
    requires
        data.valid(),
        aggregator.valid(),
    ensures
        data.create(id, limit).valid(),
        data.remove(id).valid(),
        data.with(id, aggregator).valid(),
        data.seen(id, limit).valid(),
        data.generate().1.valid(),
{
}

/// What a transaction makes of an aggregator is what it gets to see of it,
/// whatever limit it names; the other aggregators are as before.
pub proof fn law_changes_are_seen(
    data: AggregatorDataView,
    id: AggregatorID,
    aggregator: AggregatorView,
    other: AggregatorID,
    limit: nat,
)
    ensures
        data.with(id, aggregator).seen(id, limit) == aggregator,
        data.create(id, limit).seen(id, limit) == (AggregatorView::Known { value: 0, limit }),
        data.remove(id).seen(id, limit) == untouched(limit),
        other != id ==> {
            &&& data.with(id, aggregator).seen(other, limit) == data.seen(other, limit)
            &&& data.create(id, limit).seen(other, limit) == data.seen(other, limit)
            &&& data.remove(id).seen(other, limit) == data.seen(other, limit)
        },
{
}

/// An aggregator which a transaction creates and removes leaves no trace: it
/// is neither among those created nor, unless it was there before, among
/// those destroyed.
pub proof fn law_created_and_removed_leaves_no_trace(
    data: AggregatorDataView,
    id: AggregatorID,
    limit: nat,
)
    requires
        !data.created.contains(id),
    ensures
        data.create(id, limit).remove(id) == (AggregatorDataView {
            aggregators: data.aggregators.remove(id),
            ..data
        }),
{
    let after = data.create(id, limit).remove(id);
    assert(after.created =~= data.created);
    assert(after.aggregators =~= data.aggregators.remove(id));
}

/// Removing an aggregator which the transaction has created leaves those which
/// are marked as destroyed as they were, whatever was made of it in between.
pub proof fn law_removal_of_created_is_not_recorded(data: AggregatorDataView, id: AggregatorID)
    requires
        data.created.contains(id),
    ensures
        data.remove(id).destroyed == data.destroyed,
        data.remove(id).created == data.created.remove(id),
        data.remove(id).aggregators == data.aggregators.remove(id),
        data.remove(id).id_counter == data.id_counter,
{
}

/// Between its creation and its removal an aggregator may be changed any number
/// of times: nothing is left of it.
pub proof fn law_changes_of_created_leave_no_trace(
    data: AggregatorDataView,
    id: AggregatorID,
    limit: nat,
    aggregator: AggregatorView,
)
    requires
        !data.created.contains(id),
        !data.aggregators.contains_key(id),
    ensures
        data.create(id, limit).with(id, aggregator).remove(id) == data,
{
    let after = data.create(id, limit).with(id, aggregator).remove(id);
    assert(after.created =~= data.created);
    assert(after.aggregators =~= data.aggregators);
}

/// A created aggregator is known to be zero, with the limit it was given. It is
/// counted among those created; nothing else changes.
pub proof fn law_creation_changes_one_aggregator(
    data: AggregatorDataView,
    id: AggregatorID,
    limit: nat,
    other: AggregatorID,
)
    ensures
        data.create(id, limit).aggregators.contains_key(id),
        data.create(id, limit).aggregators[id] matches AggregatorView::Known { value, limit: l }
            && value == 0 && l == limit,
        data.create(id, limit).created.contains(id),
        data.create(id, limit).destroyed == data.destroyed,
        data.create(id, limit).id_counter == data.id_counter,
        other != id ==> {
            &&& data.create(id, limit).created.contains(other) == data.created.contains(other)
            &&& data.create(id, limit).aggregators.contains_key(other)
                == data.aggregators.contains_key(other)
            &&& data.create(id, limit).aggregators[other] == data.aggregators[other]
        },
{
}

/// An aggregator which the transaction has used is seen as it is; any other as
/// one which does not differ from storage and has seen nothing, with the limit
/// that is asked for.
pub proof fn law_unused_aggregator_is_seen_as_untouched(
    data: AggregatorDataView,
    id: AggregatorID,
    limit: nat,
)
    ensures
        data.aggregators.contains_key(id) ==> data.seen(id, limit) == data.aggregators[id],
        !data.aggregators.contains_key(id) ==> (data.seen(id, limit) matches
            AggregatorView::Delta { delta, limit: l, history } && delta == 0 && l == limit
            && history.highest == 0 && history.lowest == 0 && history.overflow is None
            && history.underflow is None),
{
}

/// Changing an aggregator changes no other, nor what is created, destroyed or
/// generated.
pub proof fn law_change_is_local(
    data: AggregatorDataView,
    id: AggregatorID,
    aggregator: AggregatorView,
)
    ensures
        data.with(id, aggregator).aggregators == data.aggregators.insert(id, aggregator),
        data.with(id, aggregator).created == data.created,
        data.with(id, aggregator).destroyed == data.destroyed,
        data.with(id, aggregator).id_counter == data.id_counter,
{
}

/// A generated identifier is the number after the last one, and generating it
/// changes nothing else.
pub proof fn law_generation_counts_up(data: AggregatorDataView)
    ensures
        data.generate().0 == data.id_counter + 1,
        data.generate().1.id_counter == data.id_counter + 1,
        data.generate().1.created == data.created,
        data.generate().1.destroyed == data.destroyed,
        data.generate().1.aggregators == data.aggregators,
{
}

/// An aggregator which the transaction has not created is marked as destroyed
/// when it is removed, and removing it again changes nothing.
pub proof fn law_removal_of_others_is_recorded(data: AggregatorDataView, id: AggregatorID)
    requires
        !data.created.contains(id),
    ensures
        data.remove(id).destroyed == data.destroyed.insert(id),
        data.remove(id).created == data.created,
        data.remove(id).remove(id) == data.remove(id),
{
    let once = data.remove(id);
    let twice = once.remove(id);
    assert(once.created =~= data.created);
    assert(twice.created =~= once.created);
    assert(twice.destroyed =~= once.destroyed);
    assert(twice.aggregators =~= once.aggregators);
}

proof fn lemma_generate_many(data: AggregatorDataView, count: nat)
    ensures
        data.generate_many(count).id_counter == data.id_counter + count,
    decreases count,
{
    if count > 0 {
        lemma_generate_many(data, (count - 1) as nat);
    }
}

/// No identifier is generated twice: each is larger than all before it.
pub proof fn law_generated_ids_are_distinct(data: AggregatorDataView, earlier: nat, later: nat)
    requires
        earlier < later,
    ensures
        data.generate_many(earlier).generate().0 < data.generate_many(later).generate().0,
{
    lemma_generate_many(data, earlier);
    lemma_generate_many(data, later);
}

} // verus!
