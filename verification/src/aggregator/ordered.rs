//! A map from aggregator identifiers, kept in their order.
use vstd::prelude::*;

use super::id::{law_id_order_total, law_id_order_transitive, AggregatorID, Relation};

verus! {

/// A map whose entries are kept in the order of their identifiers.
#[derive(Debug)]
pub struct OrderedMap<V> {
    entries: Vec<(AggregatorID, V)>,
}

/// Whether the entry at place `i` has the identifier `id`.
pub open spec fn has_at<V>(entries: Seq<(AggregatorID, V)>, id: AggregatorID, i: int) -> bool {
    0 <= i < entries.len() && entries[i].0 == id
}

/// Whether each identifier comes before all that follow it.
pub open spec fn ordered<V>(entries: Seq<(AggregatorID, V)>) -> bool {
    forall|i: int, j: int|
        0 <= i < j < entries.len() ==> (#[trigger] entries[i]).0.before((#[trigger] entries[j]).0)
}

/// The map which the entries stand for.
pub open spec fn entries_map<V>(entries: Seq<(AggregatorID, V)>) -> Map<AggregatorID, V> {
    Map::new(
        |id: AggregatorID| exists|i: int| has_at(entries, id, i),
        |id: AggregatorID| entries[choose|i: int| has_at(entries, id, i)].1,
    )
}

/// An entry is found in the map which the entries stand for.
pub proof fn lemma_entry_is_mapped<V>(entries: Seq<(AggregatorID, V)>, i: int)
    requires
        ordered(entries),
        0 <= i < entries.len(),
    ensures
        entries_map(entries).contains_key(entries[i].0),
        entries_map(entries)[entries[i].0] == entries[i].1,
{
    let id = entries[i].0;
    assert(has_at(entries, id, i));
    let j = choose|j: int| has_at(entries, id, j);
    law_id_order_total(id, id);
    if i < j {
        assert(entries[i].0.before(entries[j].0));
    } else if j < i {
        assert(entries[j].0.before(entries[i].0));
    }
}

/// An identifier which is in the map is that of an entry.
pub proof fn lemma_mapped_has_entry<V>(entries: Seq<(AggregatorID, V)>, id: AggregatorID) -> (i: int)
    requires
        ordered(entries),
        entries_map(entries).contains_key(id),
    ensures
        has_at(entries, id, i),
        entries_map(entries)[id] == entries[i].1,
{
    choose|i: int| has_at(entries, id, i)
}

/// There are as many identifiers in the map as there are entries.
proof fn lemma_map_len<V>(entries: Seq<(AggregatorID, V)>)
    requires
        ordered(entries),
    ensures
        entries_map(entries).dom().finite(),
        entries_map(entries).dom().len() == entries.len(),
{
    let ids = entries.map_values(|entry: (AggregatorID, V)| entry.0);
    assert(ids.no_duplicates()) by {
        assert forall|i: int, j: int|
            0 <= i < ids.len() && 0 <= j < ids.len() && i != j implies ids[i] != ids[j] by {
            law_id_order_total(ids[i], ids[i]);
            if i < j {
                assert(entries[i].0.before(entries[j].0));
            } else {
                assert(entries[j].0.before(entries[i].0));
            }
        }
    }
    ids.unique_seq_to_set();
    assert forall|id: AggregatorID| entries_map(entries).dom().contains(id)
        == #[trigger] ids.to_set().contains(id) by {
        if entries_map(entries).contains_key(id) {
            let i = lemma_mapped_has_entry(entries, id);
            assert(ids[i] == id);
        }
        if ids.contains(id) {
            let i = choose|i: int| 0 <= i < ids.len() && ids[i] == id;
            assert(has_at(entries, id, i));
        }
    }
    assert(entries_map(entries).dom() =~= ids.to_set());
}

/// Putting an entry between those which come before it and those which come
/// after it keeps the order and adds the entry to the map.
proof fn lemma_insert<V>(entries: Seq<(AggregatorID, V)>, at: int, id: AggregatorID, value: V)
    requires
        ordered(entries),
        0 <= at <= entries.len(),
        forall|j: int| 0 <= j < at ==> (#[trigger] entries[j]).0.before(id),
        forall|j: int| at <= j < entries.len() ==> id.before((#[trigger] entries[j]).0),
    ensures
        ordered(entries.insert(at, (id, value))),
        entries_map(entries.insert(at, (id, value))) == entries_map(entries).insert(id, value),
        !entries_map(entries).contains_key(id),
{
    let after = entries.insert(at, (id, value));
    assert(ordered(after));
    law_id_order_total(id, id);
    if entries_map(entries).contains_key(id) {
        let i = lemma_mapped_has_entry(entries, id);
        assert(entries[i].0 == id);
    }
    assert forall|k: AggregatorID|
        #![trigger entries_map(after).contains_key(k)]
        entries_map(after).contains_key(k) == entries_map(entries).insert(id, value).contains_key(k)
            && (entries_map(after).contains_key(k) ==> entries_map(after)[k]
            == entries_map(entries).insert(id, value)[k]) by {
        if k == id {
            lemma_entry_is_mapped(after, at);
        } else if entries_map(entries).contains_key(k) {
            let i = lemma_mapped_has_entry(entries, k);
            let i2 = if i < at {
                i
            } else {
                i + 1
            };
            assert(after[i2] == entries[i]);
            lemma_entry_is_mapped(after, i2);
        } else if entries_map(after).contains_key(k) {
            let i2 = lemma_mapped_has_entry(after, k);
            let i = if i2 < at {
                i2
            } else {
                i2 - 1
            };
            assert(entries[i] == after[i2]);
            lemma_entry_is_mapped(entries, i);
        }
    }
    assert(entries_map(after) =~= entries_map(entries).insert(id, value));
}

/// Giving an entry another value does so in the map.
proof fn lemma_update<V>(entries: Seq<(AggregatorID, V)>, at: int, value: V)
    requires
        ordered(entries),
        0 <= at < entries.len(),
    ensures
        ordered(entries.update(at, (entries[at].0, value))),
        entries_map(entries.update(at, (entries[at].0, value))) == entries_map(entries).insert(
            entries[at].0,
            value,
        ),
{
    let id = entries[at].0;
    let after = entries.update(at, (id, value));
    assert(ordered(after));
    lemma_entry_is_mapped(entries, at);
    lemma_entry_is_mapped(after, at);
    assert forall|k: AggregatorID|
        #![trigger entries_map(after).contains_key(k)]
        entries_map(after).contains_key(k) == entries_map(entries).insert(id, value).contains_key(k)
            && (entries_map(after).contains_key(k) ==> entries_map(after)[k]
            == entries_map(entries).insert(id, value)[k]) by {
        if k != id {
            if entries_map(entries).contains_key(k) {
                let i = lemma_mapped_has_entry(entries, k);
                assert(after[i] == entries[i]);
                lemma_entry_is_mapped(after, i);
            } else if entries_map(after).contains_key(k) {
                let i = lemma_mapped_has_entry(after, k);
                assert(after[i] == entries[i]);
                lemma_entry_is_mapped(entries, i);
            }
        }
    }
    assert(entries_map(after) =~= entries_map(entries).insert(id, value));
}

/// Taking out an entry takes it out of the map.
proof fn lemma_remove<V>(entries: Seq<(AggregatorID, V)>, at: int)
    requires
        ordered(entries),
        0 <= at < entries.len(),
    ensures
        ordered(entries.remove(at)),
        entries_map(entries.remove(at)) == entries_map(entries).remove(entries[at].0),
{
    let id = entries[at].0;
    let after = entries.remove(at);
    assert(ordered(after));
    law_id_order_total(id, id);
    lemma_entry_is_mapped(entries, at);
    assert forall|k: AggregatorID|
        #![trigger entries_map(after).contains_key(k)]
        entries_map(after).contains_key(k) == entries_map(entries).remove(id).contains_key(k) && (
        entries_map(after).contains_key(k) ==> entries_map(after)[k] == entries_map(entries).remove(
            id,
        )[k]) by {
        if entries_map(after).contains_key(k) {
            let i2 = lemma_mapped_has_entry(after, k);
            let i = if i2 < at {
                i2
            } else {
                i2 + 1
            };
            assert(entries[i] == after[i2]);
            lemma_entry_is_mapped(entries, i);
            if k == id {
                if i < at {
                    assert(entries[i].0.before(entries[at].0));
                } else {
                    assert(entries[at].0.before(entries[i].0));
                }
            }
        } else if entries_map(entries).contains_key(k) && k != id {
            let i = lemma_mapped_has_entry(entries, k);
            let i2 = if i < at {
                i
            } else {
                i - 1
            };
            assert(after[i2] == entries[i]);
            lemma_entry_is_mapped(after, i2);
        }
    }
    assert(entries_map(after) =~= entries_map(entries).remove(id));
}

impl<V> View for OrderedMap<V> {
    type V = Map<AggregatorID, V>;

    closed spec fn view(&self) -> Map<AggregatorID, V> {
        entries_map(self.entries@)
    }
}

impl<V> OrderedMap<V> {
    /// Whether the entries are in order.
    pub closed spec fn wf(self) -> bool {
        ordered(self.entries@)
    }

    /// Returns a map without entries.
    pub fn new() -> (map: OrderedMap<V>)
        ensures
            map.wf(),
            map@ == Map::<AggregatorID, V>::empty(),
    {
        let map = OrderedMap { entries: Vec::new() };
        assert(map@ =~= Map::<AggregatorID, V>::empty());
        map
    }

    /// Returns the place of the entry with the identifier, or the place where
    /// it would have to be put.
    fn find(&self, id: &AggregatorID) -> (place: Result<usize, usize>)
        requires
            self.wf(),
        ensures
            match place {
                Ok(at) => self@.contains_key(*id) && has_at(self.entries@, *id, at as int),
                Err(at) => {
                    &&& !self@.contains_key(*id)
                    &&& at <= self.entries@.len()
                    &&& forall|j: int|
                        0 <= j < at ==> (#[trigger] self.entries@[j]).0.before(*id)
                    &&& forall|j: int|
                        at <= j < self.entries@.len() ==> id.before((#[trigger] self.entries@[j]).0)
                },
            },
    {
        let mut low: usize = 0;
        let mut high: usize = self.entries.len();
        while low < high
            invariant
                self.wf(),
                low <= high <= self.entries@.len(),
                forall|j: int| 0 <= j < low ==> (#[trigger] self.entries@[j]).0.before(*id),
                forall|j: int|
                    high <= j < self.entries@.len() ==> id.before((#[trigger] self.entries@[j]).0),
            decreases high - low,
        {
            let middle: usize = low + (high - low) / 2;
            match self.entries[middle].0.relate(id) {
                Relation::Same => {
                    proof {
                        lemma_entry_is_mapped(self.entries@, middle as int);
                    }
                    return Ok(middle);
                },
                Relation::Before => {
                    proof {
                        assert forall|j: int| 0 <= j < middle + 1 implies (
                        #[trigger] self.entries@[j]).0.before(*id) by {
                            if j < middle {
                                law_id_order_transitive(
                                    self.entries@[j].0,
                                    self.entries@[middle as int].0,
                                    *id,
                                );
                            }
                        }
                    }
                    low = middle + 1;
                },
                Relation::After => {
                    proof {
                        assert forall|j: int| middle <= j < self.entries@.len() implies id.before(
                            (#[trigger] self.entries@[j]).0,
                        ) by {
                            if middle < j {
                                law_id_order_transitive(
                                    *id,
                                    self.entries@[middle as int].0,
                                    self.entries@[j].0,
                                );
                            }
                        }
                    }
                    high = middle;
                },
            }
        }
        proof {
            if self@.contains_key(*id) {
                let i = lemma_mapped_has_entry(self.entries@, *id);
                law_id_order_total(*id, *id);
                assert(self.entries@[i].0 == *id);
            }
        }
        Err(low)
    }

    /// Returns the number of entries.
    pub fn len(&self) -> (len: usize)
        requires
            self.wf(),
        ensures
            self@.dom().finite(),
            len == self@.dom().len(),
    {
        proof {
            lemma_map_len(self.entries@);
        }
        self.entries.len()
    }

    /// Returns whether there is an entry with the identifier.
    pub fn contains(&self, id: &AggregatorID) -> (found: bool)
        requires
            self.wf(),
        ensures
            found == self@.contains_key(*id),
    {
        self.find(id).is_ok()
    }

    /// Makes `value` that of the identifier, whether or not it had one.
    pub fn insert(&mut self, id: AggregatorID, value: V)
        requires
            old(self).wf(),
        ensures
            final(self).wf(),
            final(self)@ == old(self)@.insert(id, value),
    {
        match self.find(&id) {
            Ok(at) => {
                proof {
                    lemma_update(self.entries@, at as int, value);
                }
                self.entries[at] = (id, value);
            },
            Err(at) => {
                proof {
                    lemma_insert(self.entries@, at as int, id, value);
                }
                self.entries.insert(at, (id, value));
            },
        }
    }

    /// Removes the entry with the identifier, if there is one.
    pub fn remove(&mut self, id: &AggregatorID)
        requires
            old(self).wf(),
        ensures
            final(self).wf(),
            final(self)@ == old(self)@.remove(*id),
    {
        match self.find(id) {
            Ok(at) => {
                proof {
                    lemma_remove(self.entries@, at as int);
                }
                self.entries.remove(at);
            },
            Err(_) => {
                assert(self@ =~= self@.remove(*id));
            },
        }
    }

    /// Returns the value of the identifier, which becomes `default` if it had
    /// none.
    pub fn get_or_insert(&mut self, id: AggregatorID, default: V) -> (value: &mut V)
        requires
            old(self).wf(),
        ensures
            *value == if old(self)@.contains_key(id) {
                old(self)@[id]
            } else {
                default
            },
            final(self).wf(),
            final(self)@ == old(self)@.insert(id, *final(value)),
    {
        let at = match self.find(&id) {
            Ok(at) => at,
            Err(at) => {
                proof {
                    lemma_insert(self.entries@, at as int, id, default);
                }
                self.entries.insert(at, (id, default));
                at
            },
        };
        proof {
            lemma_entry_is_mapped(self.entries@, at as int);
            assert forall|value: V| ordered(#[trigger] self.entries@.update(at as int, (id, value)))
                && entries_map(self.entries@.update(at as int, (id, value))) == old(
                self,
            )@.insert(id, value) by {
                lemma_update(self.entries@, at as int, value);
                assert(old(self)@.insert(id, default).insert(id, value) =~= old(self)@.insert(
                    id,
                    value,
                ));
            }
        }
        &mut self.entries[at].1
    }

    /// Returns the entries in the order of their identifiers.
    pub fn into_entries(self) -> (entries: Vec<(AggregatorID, V)>)
        requires
            self.wf(),
        ensures
            ordered(entries@),
            entries_map(entries@) == self@,
            forall|i: int, j: int|
                0 <= i < j < entries@.len() ==> (#[trigger] entries@[i]).0.before(
                    (#[trigger] entries@[j]).0,
                ),
            forall|i: int|
                0 <= i < entries@.len() ==> self@.contains_key((#[trigger] entries@[i]).0)
                    && self@[entries@[i].0] == entries@[i].1,
            forall|id: AggregatorID| #[trigger]
                self@.contains_key(id) ==> exists|i: int|
                    0 <= i < entries@.len() && (#[trigger] entries@[i]).0 == id,
    {
        proof {
            assert forall|i: int| 0 <= i < self.entries@.len() implies self@.contains_key(
                (#[trigger] self.entries@[i]).0,
            ) && self@[self.entries@[i].0] == self.entries@[i].1 by {
                lemma_entry_is_mapped(self.entries@, i);
            }
            assert forall|id: AggregatorID| #[trigger] self@.contains_key(id) implies exists|i: int|
                0 <= i < self.entries@.len() && (#[trigger] self.entries@[i]).0 == id by {
                let i = lemma_mapped_has_entry(self.entries@, id);
                assert(self.entries@[i].0 == id);
            }
        }
        self.entries
    }
}

/// Whether each identifier comes before all that follow it.
pub open spec fn ids_ordered(ids: Seq<AggregatorID>) -> bool {
    forall|i: int, j: int| 0 <= i < j < ids.len() ==> (#[trigger] ids[i]).before(#[trigger] ids[j])
}

impl OrderedMap<()> {
    /// Returns the identifiers in their order.
    pub fn into_ids(self) -> (ids: Vec<AggregatorID>)
        requires
            self.wf(),
        ensures
            ids_ordered(ids@),
            ids@.to_set() == self@.dom(),
            forall|i: int, j: int|
                0 <= i < j < ids@.len() ==> (#[trigger] ids@[i]).before(#[trigger] ids@[j]),
            forall|id: AggregatorID| #[trigger] ids@.contains(id) <==> self@.contains_key(id),
    {
        let mut ids: Vec<AggregatorID> = Vec::new();
        let mut i: usize = 0;
        while i < self.entries.len()
            invariant
                i <= self.entries@.len(),
                ids@.len() == i,
                forall|j: int| 0 <= j < i ==> #[trigger] ids@[j] == self.entries@[j].0,
            decreases self.entries@.len() - i,
        {
            ids.push(self.entries[i].0);
            i += 1;
        }
        proof {
            assert forall|j: int, k: int| 0 <= j < k < ids@.len() implies (
            #[trigger] ids@[j]).before(#[trigger] ids@[k]) by {
                assert(self.entries@[j].0.before(self.entries@[k].0));
            }
            assert forall|id: AggregatorID| #[trigger] ids@.to_set().contains(id)
                == self@.dom().contains(id) by {
                if ids@.contains(id) {
                    let j = choose|j: int| 0 <= j < ids@.len() && ids@[j] == id;
                    lemma_entry_is_mapped(self.entries@, j);
                }
                if self@.contains_key(id) {
                    let j = lemma_mapped_has_entry(self.entries@, id);
                    assert(ids@[j] == id);
                }
            }
            assert(ids@.to_set() =~= self@.dom());
            assert forall|id: AggregatorID| #[trigger] ids@.contains(id) <==> self@.contains_key(id) by {
                assert(ids@.to_set().contains(id) == self@.dom().contains(id));
            }
        }
        ids
    }
}

} // verus!
