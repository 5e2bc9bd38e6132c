//! Collections of available copies.
use std::collections::{BTreeMap, BTreeSet};

use vstd::laws_cmp::obeys_cmp;
use vstd::prelude::*;
use vstd::std_specs::btree::increasing_seq;
use vstd::std_specs::cmp::OrdSpec;
use vstd::std_specs::iter::IteratorSpec;

use super::chain::{follow, is_head, law_chain_has_one_head, TempIndex};

verus! {

/// Collection of definitely available copies.
#[derive(Debug, PartialEq, Eq)]
pub struct AvailCopies {
    /// The source of the copy, for each destination.
    copies: BTreeMap<TempIndex, TempIndex>,
}

/// Whether joining has changed a collection.
#[derive(Clone, Copy, Debug, PartialEq, Eq, Structural)]
pub enum JoinResult {
    Unchanged,
    Changed,
}

/// The copies without those which have `tmp` as destination or source.
pub open spec fn without(copies: Map<TempIndex, TempIndex>, tmp: TempIndex) -> Map<
    TempIndex,
    TempIndex,
> {
    Map::new(
        |dst: TempIndex| copies.contains_key(dst) && dst != tmp && copies[dst] != tmp,
        |dst: TempIndex| copies[dst],
    )
}

/// The copies which are left once `tmp` was overwritten. Those of borrowed
/// locals are never available, so nothing is to be taken away for one.
pub open spec fn killed(
    copies: Map<TempIndex, TempIndex>,
    tmp: TempIndex,
    borrowed: Set<TempIndex>,
) -> Map<TempIndex, TempIndex> {
    if borrowed.contains(tmp) {
        copies
    } else {
        without(copies, tmp)
    }
}

/// The copies once `dst := src` is one of them. It is not if either is
/// borrowed.
pub open spec fn made_available(
    copies: Map<TempIndex, TempIndex>,
    dst: TempIndex,
    src: TempIndex,
    borrowed: Set<TempIndex>,
) -> Map<TempIndex, TempIndex> {
    if borrowed.contains(dst) || borrowed.contains(src) {
        copies
    } else {
        copies.insert(dst, src)
    }
}

/// The copies which are in both collections.
pub open spec fn common(
    a: Map<TempIndex, TempIndex>,
    b: Map<TempIndex, TempIndex>,
) -> Map<TempIndex, TempIndex> {
    Map::new(
        |dst: TempIndex| a.contains_key(dst) && b.contains_key(dst) && a[dst] == b[dst],
        |dst: TempIndex| a[dst],
    )
}

/// Whether the list holds each copy once, by ascending destinations.
pub open spec fn is_listing(
    list: Seq<(TempIndex, TempIndex)>,
    copies: Map<TempIndex, TempIndex>,
) -> bool {
    &&& forall|i: int, j: int|
        0 <= i < j < list.len() ==> (#[trigger] list[i]).0 < (#[trigger] list[j]).0
    &&& forall|i: int|
        0 <= i < list.len() ==> copies.contains_key((#[trigger] list[i]).0) && copies[list[i].0]
            == list[i].1
    &&& forall|dst: TempIndex| #[trigger]
        copies.contains_key(dst) ==> exists|i: int|
            0 <= i < list.len() && (#[trigger] list[i]).0 == dst
}

/// The list of the copies, by ascending destinations.
pub open spec fn listing(copies: Map<TempIndex, TempIndex>) -> Seq<(TempIndex, TempIndex)> {
    choose|list: Seq<(TempIndex, TempIndex)>| is_listing(list, copies)
}

proof fn lemma_listings_agree(
    list1: Seq<(TempIndex, TempIndex)>,
    list2: Seq<(TempIndex, TempIndex)>,
    copies: Map<TempIndex, TempIndex>,
    count: nat,
)
    requires
        is_listing(list1, copies),
        is_listing(list2, copies),
        count <= list1.len(),
    ensures
        count <= list2.len(),
        forall|i: int| 0 <= i < count ==> #[trigger] list1[i] == list2[i],
    decreases count,
{
    if count > 0 {
        let last = count - 1;
        lemma_listings_agree(list1, list2, copies, last as nat);
        assert(copies.contains_key(list1[last].0));
        let j = choose|j: int| 0 <= j < list2.len() && (#[trigger] list2[j]).0 == list1[last].0;
        if j < last {
            assert(list1[j] == list2[j]);
            assert(list1[j].0 < list1[last].0);
        }
        assert(copies.contains_key(list2[last].0));
        let k = choose|k: int| 0 <= k < list1.len() && (#[trigger] list1[k]).0 == list2[last].0;
        if k < last {
            assert(list1[k] == list2[k]);
            assert(list2[k].0 < list2[last].0);
        }
        assert(list1[last].0 <= list1[k].0);
        assert(list2[last].0 <= list2[j].0);
    }
}

/// There is only one list of the copies.
pub proof fn lemma_listing_is_unique(
    list1: Seq<(TempIndex, TempIndex)>,
    list2: Seq<(TempIndex, TempIndex)>,
    copies: Map<TempIndex, TempIndex>,
)
    requires
        is_listing(list1, copies),
        is_listing(list2, copies),
    ensures
        list1 == list2,
{
    lemma_listings_agree(list1, list2, copies, list1.len());
    lemma_listings_agree(list2, list1, copies, list2.len());
    assert(list1 =~= list2);
}

impl View for AvailCopies {
    type V = Map<TempIndex, TempIndex>;

    closed spec fn view(&self) -> Map<TempIndex, TempIndex> {
        self.copies@
    }
}

impl Clone for AvailCopies {
    fn clone(&self) -> (copies: AvailCopies)
        ensures
            copies@ == self@,
    {
        AvailCopies { copies: self.copies.clone() }
    }
}

impl Default for AvailCopies {
    /// Returns an empty collection.
    fn default() -> (copies: AvailCopies)
        ensures
            copies@ == Map::<TempIndex, TempIndex>::empty(),
    {
        AvailCopies::new()
    }
}

impl AvailCopies {
    /// Returns an empty collection.
    pub fn new() -> (copies: AvailCopies)
        ensures
            copies@ == Map::<TempIndex, TempIndex>::empty(),
    {
        AvailCopies { copies: BTreeMap::new() }
    }

    /// Returns the number of copies.
    pub fn len(&self) -> (len: usize)
        ensures
            self@.dom().finite(),
            len == self@.dom().len(),
    {
        self.copies.len()
    }

    /// Returns the copies, each with its destination and its source, by
    /// ascending destinations.
    pub fn to_vec(&self) -> (list: Vec<(TempIndex, TempIndex)>)
        ensures
            is_listing(list@, self@),
            list@ == listing(self@),
            forall|i: int, j: int|
                0 <= i < j < list@.len() ==> (#[trigger] list@[i]).0 < (#[trigger] list@[j]).0,
            forall|i: int|
                0 <= i < list@.len() ==> self@.contains_key((#[trigger] list@[i]).0)
                    && self@[list@[i].0] == list@[i].1,
            forall|dst: TempIndex| #[trigger]
                self@.contains_key(dst) ==> exists|i: int|
                    0 <= i < list@.len() && (#[trigger] list@[i]).0 == dst,
    {
        let mut list: Vec<(TempIndex, TempIndex)> = Vec::new();
        let iter = self.copies.iter();
        let ghost items = iter.remaining();
        let ghost dsts = items.map_values(|item: (&TempIndex, &TempIndex)| *item.0);
        assert(obeys_cmp::<TempIndex>());
        assert(increasing_seq(dsts));
        assert forall|i: int, j: int| 0 <= i < j < items.len() implies *(#[trigger] items[i]).0
            < *(#[trigger] items[j]).0 by {
            assert(dsts[i] == *items[i].0 && dsts[j] == *items[j].0);
            assert(dsts[i].cmp_spec(&dsts[j]) is Less);
        }
        for copy in it: iter
            invariant
                it.seq() == items,
                list@.len() == it.index(),
                forall|i: int|
                    0 <= i < it.index() ==> #[trigger] list@[i] == (*it.seq()[i].0, *it.seq()[i].1),
        {
            let (dst, src) = copy;
            list.push((*dst, *src));
        }
        proof {
            assert forall|i: int| 0 <= i < list@.len() implies self@.contains_key(
                (#[trigger] list@[i]).0,
            ) && self@[list@[i].0] == list@[i].1 by {
                assert(self@.contains_key(*items[i].0));
            }
            assert forall|dst: TempIndex| #[trigger] self@.contains_key(dst) implies exists|i: int|
                0 <= i < list@.len() && (#[trigger] list@[i]).0 == dst by {
                assert(items.contains((&dst, &self@[dst])));
                let i = choose|i: int| 0 <= i < items.len() && items[i] == (&dst, &self@[dst]);
                assert(list@[i].0 == dst);
            }
            lemma_listing_is_unique(list@, listing(self@), self@);
        }
        list
    }

    /// Makes the copy `dst := src` available, unless either is borrowed. No
    /// other copy to `dst` may be available.
    pub fn make_copy_available(
        &mut self,
        dst: TempIndex,
        src: TempIndex,
        borrowed_locals: &BTreeSet<TempIndex>,
    )
        requires
            borrowed_locals@.contains(dst) || borrowed_locals@.contains(src) || !old(
                self,
            )@.contains_key(dst),
        ensures
            final(self)@ == made_available(old(self)@, dst, src, borrowed_locals@),
            borrowed_locals@.contains(dst) || borrowed_locals@.contains(src) ==> final(self)@
                == old(self)@,
            !borrowed_locals@.contains(dst) && !borrowed_locals@.contains(src) ==> final(self)@
                == old(self)@.insert(dst, src),
    {
        if !borrowed_locals.contains(&dst) && !borrowed_locals.contains(&src) {
            self.copies.insert(dst, src);
        }
    }

    /// Kills all available copies of which `tmp` is the destination or the
    /// source, unless it is borrowed.
    pub fn kill_copies_with(&mut self, tmp: TempIndex, borrowed_locals: &BTreeSet<TempIndex>)
        ensures
            final(self)@ == killed(old(self)@, tmp, borrowed_locals@),
            borrowed_locals@.contains(tmp) ==> final(self)@ == old(self)@,
            !borrowed_locals@.contains(tmp) ==> forall|dst: TempIndex| #[trigger]
                final(self)@.contains_key(dst) <==> old(self)@.contains_key(dst) && dst != tmp
                    && old(self)@[dst] != tmp,
            forall|dst: TempIndex| #[trigger]
                final(self)@.contains_key(dst) ==> final(self)@[dst] == old(self)@[dst],
    {
        if !borrowed_locals.contains(&tmp) {
            let mut left: BTreeMap<TempIndex, TempIndex> = BTreeMap::new();
            for copy in it: self.copies.iter()
                invariant
                    forall|dst: TempIndex| #[trigger]
                        left@.contains_key(dst) ==> self.copies@.contains_key(dst) && left@[dst]
                            == self.copies@[dst] && dst != tmp && left@[dst] != tmp,
                    forall|i: int|
                        0 <= i < it.index() && *(#[trigger] it.seq()[i]).0 != tmp && *it.seq()[i].1
                            != tmp ==> left@.contains_key(*it.seq()[i].0),
            {
                let (dst, src) = copy;
                if *dst != tmp && *src != tmp {
                    left.insert(*dst, *src);
                }
            }
            assert(left@ =~= without(self.copies@, tmp));
            self.copies = left;
        }
    }

    /// Returns the head of the chain of copies which `tmp` belongs to: of
    /// `tmp_1 := tmp_0, tmp_2 := tmp_1, ..` it is `tmp_0` for each of them. The
    /// chain must not be a cycle.
    pub fn get_head_of_copy_chain(&self, tmp: TempIndex) -> (head: TempIndex)
        requires
            exists|end: TempIndex| is_head(self@, tmp, end),
        ensures
            is_head(self@, tmp, head),
            !self@.contains_key(head),
            !self@.contains_key(tmp) ==> head == tmp,
            self@.contains_key(tmp) ==> is_head(self@, self@[tmp], head),
    {
        let ghost end = choose|end: TempIndex| is_head(self@, tmp, end);
        let ghost length = choose|count: nat| #[trigger] follow(self@, tmp, count) == Some(end);
        let ghost mut count: nat = 0;
        let mut current: TempIndex = tmp;
        loop
            invariant
                !self@.contains_key(end),
                follow(self@, tmp, length) == Some(end),
                follow(self@, tmp, count) == Some(current),
                count <= length,
            decreases length - count,
        {
            let src: TempIndex = match self.copies.get(&current) {
                Some(src) => *src,
                None => {
                    proof {
                        law_chain_has_one_head(self@, tmp, current);
                    }
                    return current;
                },
            };
            proof {
                assert(follow(self@, tmp, count + 1) == Some(src));
                count = count + 1;
            }
            current = src;
        }
    }

    /// Keeps only those copies which are available in `other`, too. Reports
    /// whether that has changed the collection.
    pub fn join(&mut self, other: &AvailCopies) -> (result: JoinResult)
        ensures
            final(self)@ == common(old(self)@, other@),
            result == JoinResult::Unchanged <==> final(self)@ == old(self)@,
            forall|dst: TempIndex| #[trigger]
                final(self)@.contains_key(dst) <==> old(self)@.contains_key(dst)
                    && other@.contains_key(dst) && old(self)@[dst] == other@[dst],
            forall|dst: TempIndex| #[trigger]
                final(self)@.contains_key(dst) ==> final(self)@[dst] == old(self)@[dst],
    {
        let mut result = JoinResult::Unchanged;
        let mut kept: BTreeMap<TempIndex, TempIndex> = BTreeMap::new();
        for copy in it: other.copies.iter()
            invariant
                forall|dst: TempIndex| #[trigger]
                    kept@.contains_key(dst) ==> self@.contains_key(dst) && other@.contains_key(dst)
                        && self@[dst] == other@[dst] && kept@[dst] == self@[dst],
                forall|i: int|
                    0 <= i < it.index() && self@.contains_key(*(#[trigger] it.seq()[i]).0)
                        && self@[*it.seq()[i].0] == *it.seq()[i].1 ==> kept@.contains_key(
                        *it.seq()[i].0,
                    ),
                result == JoinResult::Changed ==> exists|dst: TempIndex| #[trigger]
                    self@.contains_key(dst) && other@.contains_key(dst) && self@[dst] != other@[dst],
        {
            let (dst, src) = copy;
            if let Some(own) = self.copies.get(dst) {
                if *own != *src {
                    // The copy is not available in both.
                    assert(other@[*dst] == *src);
                    assert(self@.contains_key(*dst));
                    result = JoinResult::Changed;
                } else {
                    kept.insert(*dst, *src);
                }
            }
        }
        assert(kept@ =~= common(self@, other@));
        if self.copies.len() != kept.len() {
            result = JoinResult::Changed;
        }
        proof {
            assert(kept@.dom().subset_of(self@.dom()));
            if kept@.dom().len() == self@.dom().len() {
                vstd::set_lib::lemma_subset_equality(kept@.dom(), self@.dom());
                assert(kept@ =~= self@);
            }
        }
        self.copies = kept;
        result
    }
}

} // verus!
