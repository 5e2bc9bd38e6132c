//! Chains of copies.
use vstd::prelude::*;

verus! {

/// The index of a local or temporary.
pub type TempIndex = usize;

/// Where `count` copies lead back to from `tmp`, unless the chain ends before.
pub open spec fn follow(
    copies: Map<TempIndex, TempIndex>,
    tmp: TempIndex,
    count: nat,
) -> Option<TempIndex>
    decreases count,
{
    if count == 0 {
        Some(tmp)
    } else {
        match follow(copies, tmp, (count - 1) as nat) {
            Some(reached) if copies.contains_key(reached) => Some(copies[reached]),
            _ => None,
        }
    }
}

/// Whether no chain of copies leads back to where it started.
pub open spec fn acyclic(copies: Map<TempIndex, TempIndex>) -> bool {
    forall|tmp: TempIndex, count: nat|
        count > 0 ==> #[trigger] follow(copies, tmp, count) != Some(tmp)
}

/// Whether the chain of copies which ends in `tmp` starts with `head`.
pub open spec fn is_head(
    copies: Map<TempIndex, TempIndex>,
    tmp: TempIndex,
    head: TempIndex,
) -> bool {
    !copies.contains_key(head) && exists|count: nat| #[trigger]
        follow(copies, tmp, count) == Some(head)
}

/// Following one copy and then `count` more is following `count + 1`.
pub proof fn lemma_follow_from_source(
    copies: Map<TempIndex, TempIndex>,
    tmp: TempIndex,
    count: nat,
)
    requires
        copies.contains_key(tmp),
    ensures
        follow(copies, copies[tmp], count) == follow(copies, tmp, count + 1),
    decreases count,
{
    if count > 0 {
        lemma_follow_from_source(copies, tmp, (count - 1) as nat);
    } else {
        assert(follow(copies, tmp, 0) == Some(tmp));
    }
}

/// A chain which has ended stays so.
proof fn lemma_follow_ends(
    copies: Map<TempIndex, TempIndex>,
    tmp: TempIndex,
    count: nat,
    more: nat,
)
    requires
        follow(copies, tmp, count) matches Some(reached) && !copies.contains_key(reached),
        more > count,
    ensures
        follow(copies, tmp, more) is None,
    decreases more,
{
    if more > count + 1 {
        lemma_follow_ends(copies, tmp, count, (more - 1) as nat);
    }
}

/// A chain of copies has one head only.
pub proof fn law_head_is_unique(
    copies: Map<TempIndex, TempIndex>,
    tmp: TempIndex,
    head1: TempIndex,
    head2: TempIndex,
)
    requires
        is_head(copies, tmp, head1),
        is_head(copies, tmp, head2),
    ensures
        head1 == head2,
{
    let n1 = choose|count: nat| #[trigger] follow(copies, tmp, count) == Some(head1);
    let n2 = choose|count: nat| #[trigger] follow(copies, tmp, count) == Some(head2);
    if n1 < n2 {
        lemma_follow_ends(copies, tmp, n1, n2);
    } else if n2 < n1 {
        lemma_follow_ends(copies, tmp, n2, n1);
    }
}

/// All of a chain have the same head: that of a copy is that of its source,
/// and what is no copy is its own.
pub proof fn law_chain_has_one_head(
    copies: Map<TempIndex, TempIndex>,
    tmp: TempIndex,
    head: TempIndex,
)
    ensures
        copies.contains_key(tmp) ==> (is_head(copies, tmp, head) <==> is_head(
            copies,
            copies[tmp],
            head,
        )),
        !copies.contains_key(tmp) ==> (is_head(copies, tmp, head) <==> head == tmp),
{
    if copies.contains_key(tmp) {
        if is_head(copies, tmp, head) {
            let n = choose|count: nat| #[trigger] follow(copies, tmp, count) == Some(head);
            assert(n > 0);
            lemma_follow_from_source(copies, tmp, (n - 1) as nat);
            assert(follow(copies, copies[tmp], (n - 1) as nat) == Some(head));
        }
        if is_head(copies, copies[tmp], head) {
            let n = choose|count: nat| #[trigger] follow(copies, copies[tmp], count) == Some(head);
            lemma_follow_from_source(copies, tmp, n);
            assert(follow(copies, tmp, n + 1) == Some(head));
        }
    } else {
        assert(follow(copies, tmp, 0) == Some(tmp));
        if is_head(copies, tmp, head) {
            law_head_is_unique(copies, tmp, head, tmp);
        }
    }
}

/// The head of a chain is reached by copies alone: it is in every set which has
/// `tmp` and, of each copy whose destination it has, the source. It is itself
/// the destination of none.
pub proof fn law_head_is_reached_by_copies(
    copies: Map<TempIndex, TempIndex>,
    tmp: TempIndex,
    head: TempIndex,
    closed_set: Set<TempIndex>,
)
    requires
        is_head(copies, tmp, head),
        closed_set.contains(tmp),
        forall|dst: TempIndex| #[trigger]
            copies.contains_key(dst) && closed_set.contains(dst) ==> closed_set.contains(
                copies[dst],
            ),
    ensures
        closed_set.contains(head),
        !copies.contains_key(head),
{
    let count = choose|count: nat| #[trigger] follow(copies, tmp, count) == Some(head);
    lemma_follow_stays(copies, tmp, count, closed_set);
}

proof fn lemma_follow_stays(
    copies: Map<TempIndex, TempIndex>,
    tmp: TempIndex,
    count: nat,
    closed_set: Set<TempIndex>,
)
    requires
        follow(copies, tmp, count) is Some,
        closed_set.contains(tmp),
        forall|dst: TempIndex| #[trigger]
            copies.contains_key(dst) && closed_set.contains(dst) ==> closed_set.contains(
                copies[dst],
            ),
    ensures
        closed_set.contains(follow(copies, tmp, count)->0),
    decreases count,
{
    if count > 0 {
        lemma_follow_stays(copies, tmp, (count - 1) as nat, closed_set);
    }
}

/// If `passed` are temporaries from which copies lead back to `tmp`, the chain
/// goes on from `tmp` to a head without coming back to any of them.
proof fn lemma_chain_ends(
    copies: Map<TempIndex, TempIndex>,
    tmp: TempIndex,
    passed: Set<TempIndex>,
) -> (head: TempIndex)
    requires
        copies.dom().finite(),
        acyclic(copies),
        passed.subset_of(copies.dom()),
        forall|other: TempIndex| #[trigger]
            passed.contains(other) ==> exists|n: nat|
                n > 0 && #[trigger] follow(copies, other, n) == Some(tmp),
    ensures
        is_head(copies, tmp, head),
    decreases copies.dom().len() - passed.len(),
{
    assert(follow(copies, tmp, 0) == Some(tmp));
    if !copies.contains_key(tmp) {
        tmp
    } else {
        let src = copies[tmp];
        let more = passed.insert(tmp);
        assert(!passed.contains(tmp));
        vstd::set_lib::lemma_len_subset(passed, copies.dom());
        vstd::set_lib::lemma_len_subset(more, copies.dom());
        assert forall|other: TempIndex| #[trigger] more.contains(other) implies exists|n: nat|
            n > 0 && #[trigger] follow(copies, other, n) == Some(src) by {
            if other == tmp {
                assert(follow(copies, tmp, 1) == Some(src));
            } else {
                let n = choose|n: nat| n > 0 && #[trigger] follow(copies, other, n) == Some(tmp);
                assert(follow(copies, other, n + 1) == Some(src));
            }
        }
        let head = lemma_chain_ends(copies, src, more);
        law_chain_has_one_head(copies, tmp, head);
        head
    }
}

/// Where there is no cycle, every chain of copies has a head.
pub proof fn law_acyclic_chains_have_heads(copies: Map<TempIndex, TempIndex>, tmp: TempIndex)
    requires
        copies.dom().finite(),
        acyclic(copies),
    ensures
        exists|head: TempIndex| is_head(copies, tmp, head),
{
    let head = lemma_chain_ends(copies, tmp, Set::empty());
}

/// Whether each copy of `part` is one of `whole`.
pub open spec fn part_of(
    part: Map<TempIndex, TempIndex>,
    whole: Map<TempIndex, TempIndex>,
) -> bool {
    forall|dst: TempIndex| #[trigger]
        part.contains_key(dst) ==> whole.contains_key(dst) && whole[dst] == part[dst]
}

proof fn lemma_follow_in_whole(
    part: Map<TempIndex, TempIndex>,
    whole: Map<TempIndex, TempIndex>,
    tmp: TempIndex,
    count: nat,
)
    requires
        part_of(part, whole),
        follow(part, tmp, count) is Some,
    ensures
        follow(whole, tmp, count) == follow(part, tmp, count),
    decreases count,
{
    if count > 0 {
        lemma_follow_in_whole(part, whole, tmp, (count - 1) as nat);
    }
}

/// Taking away copies closes no cycle.
pub proof fn law_fewer_copies_stay_acyclic(
    part: Map<TempIndex, TempIndex>,
    whole: Map<TempIndex, TempIndex>,
)
    requires
        part_of(part, whole),
        acyclic(whole),
    ensures
        acyclic(part),
{
    assert forall|tmp: TempIndex, count: nat| count > 0 implies #[trigger] follow(part, tmp, count)
        != Some(tmp) by {
        if follow(part, tmp, count) == Some(tmp) {
            lemma_follow_in_whole(part, whole, tmp, count);
        }
    }
}

proof fn lemma_follow_without_new(
    copies: Map<TempIndex, TempIndex>,
    dst: TempIndex,
    src: TempIndex,
    tmp: TempIndex,
    count: nat,
)
    requires
        dst != src,
        forall|other: TempIndex| #[trigger] copies.contains_key(other) ==> copies[other] != dst,
        !copies.contains_key(dst),
        follow(copies.insert(dst, src), tmp, count) is Some,
    ensures
        count > 0 ==> follow(copies.insert(dst, src), tmp, count) != Some(dst),
        tmp != dst ==> follow(copies, tmp, count) == follow(copies.insert(dst, src), tmp, count),
    decreases count,
{
    if count > 0 {
        lemma_follow_without_new(copies, dst, src, tmp, (count - 1) as nat);
    }
}

/// A new copy closes no cycle if nothing is a copy of its destination.
pub proof fn law_new_copy_stays_acyclic(
    copies: Map<TempIndex, TempIndex>,
    dst: TempIndex,
    src: TempIndex,
)
    requires
        acyclic(copies),
        dst != src,
        forall|other: TempIndex| #[trigger] copies.contains_key(other) ==> copies[other] != dst,
        !copies.contains_key(dst),
    ensures
        acyclic(copies.insert(dst, src)),
{
    let after = copies.insert(dst, src);
    assert forall|tmp: TempIndex, count: nat| count > 0 implies #[trigger] follow(after, tmp, count)
        != Some(tmp) by {
        if follow(after, tmp, count) == Some(tmp) {
            lemma_follow_without_new(copies, dst, src, tmp, count);
        }
    }
}

} // verus!
