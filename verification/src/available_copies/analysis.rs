//! What instructions do to available copies.
use std::collections::BTreeSet;

use vstd::prelude::*;

use super::chain::{
    acyclic, follow, is_head, law_fewer_copies_stay_acyclic, law_new_copy_stays_acyclic, part_of,
    TempIndex,
};
use super::copies::{common, killed, made_available, AvailCopies};

verus! {

/// An operation which is called.
#[derive(Clone, Copy, Debug, PartialEq, Eq, Structural)]
pub enum Operation {
    /// Borrows a local: the first argument.
    BorrowLoc,
    /// Any other operation.
    Other,
}

/// An instruction, as far as the analysis depends on it.
#[derive(Debug)]
pub enum Bytecode {
    /// Assigns `src` to `dst`.
    Assign { dst: TempIndex, src: TempIndex },
    /// Loads a constant into `dst`.
    Load { dst: TempIndex },
    /// Calls an operation, which writes `dsts`, or `abort_dst` if it aborts.
    Call {
        dsts: Vec<TempIndex>,
        operation: Operation,
        srcs: Vec<TempIndex>,
        abort_dst: Option<TempIndex>,
    },
    /// Any instruction which writes no local.
    Other,
}

impl Bytecode {
    /// The local which the instruction borrows, if it borrows one.
    pub open spec fn borrows(self) -> Option<TempIndex> {
        match self {
            Bytecode::Call { operation: Operation::BorrowLoc, srcs, .. } if srcs@.len() > 0 => Some(
                srcs@[0],
            ),
            _ => None,
        }
    }

    /// Whether the instruction may write the local.
    pub open spec fn writes(self, tmp: TempIndex) -> bool {
        match self {
            Bytecode::Assign { dst, .. } => dst == tmp,
            Bytecode::Load { dst } => dst == tmp,
            Bytecode::Call { dsts, abort_dst, .. } => dsts@.contains(tmp) || abort_dst == Some(tmp),
            Bytecode::Other => false,
        }
    }
}

/// The locals which the code borrows.
pub open spec fn borrowed_by(code: Seq<Bytecode>) -> Set<TempIndex> {
    Set::new(
        |tmp: TempIndex|
            exists|i: int| 0 <= i < code.len() && #[trigger] code[i].borrows() == Some(tmp),
    )
}

/// The copies which are left once all of `tmps` were overwritten.
pub open spec fn killed_all(
    copies: Map<TempIndex, TempIndex>,
    tmps: Seq<TempIndex>,
    borrowed: Set<TempIndex>,
) -> Map<TempIndex, TempIndex>
    decreases tmps.len(),
{
    if tmps.len() == 0 {
        copies
    } else {
        killed(killed_all(copies, tmps.drop_last(), borrowed), tmps.last(), borrowed)
    }
}

/// The copies which are available after an instruction, if `copies` are
/// before it.
pub open spec fn transferred(
    copies: Map<TempIndex, TempIndex>,
    instr: Bytecode,
    borrowed: Set<TempIndex>,
) -> Map<TempIndex, TempIndex> {
    match instr {
        Bytecode::Assign { dst, src } => made_available(
            killed(copies, dst, borrowed),
            dst,
            src,
            borrowed,
        ),
        Bytecode::Load { dst } => killed(copies, dst, borrowed),
        Bytecode::Call { dsts, abort_dst, .. } => {
            let left = killed_all(copies, dsts@, borrowed);
            match abort_dst {
                Some(dst) => killed(left, dst, borrowed),
                None => left,
            }
        },
        Bytecode::Other => copies,
    }
}

/// The definitely available copies analysis for a function.
#[derive(Debug)]
pub struct AvailCopiesAnalysis {
    /// The locals which the function borrows.
    borrowed_locals: BTreeSet<TempIndex>,
}

impl View for AvailCopiesAnalysis {
    type V = Set<TempIndex>;

    closed spec fn view(&self) -> Set<TempIndex> {
        self.borrowed_locals@
    }
}

impl AvailCopiesAnalysis {
    /// Returns the analysis for a function with the given code.
    pub fn new(code: &[Bytecode]) -> (analysis: AvailCopiesAnalysis)
        ensures
            analysis@ == borrowed_by(code@),
            forall|tmp: TempIndex| #[trigger]
                analysis@.contains(tmp) <==> exists|i: int|
                    0 <= i < code@.len() && (#[trigger] code@[i] matches Bytecode::Call {
                        operation: Operation::BorrowLoc,
                        srcs,
                        ..
                    } && srcs@.len() >= 1 && srcs@[0] == tmp),
    {
        proof {
            law_borrowed_are_the_sources_of_borrows(code@);
        }
        AvailCopiesAnalysis { borrowed_locals: AvailCopiesAnalysis::get_borrowed_locals(code) }
    }

    /// Returns the locals which the code borrows.
    pub fn get_borrowed_locals(code: &[Bytecode]) -> (borrowed: BTreeSet<TempIndex>)
        ensures
            borrowed@ == borrowed_by(code@),
            forall|tmp: TempIndex| #[trigger]
                borrowed@.contains(tmp) <==> exists|i: int|
                    0 <= i < code@.len() && (#[trigger] code@[i] matches Bytecode::Call {
                        operation: Operation::BorrowLoc,
                        srcs,
                        ..
                    } && srcs@.len() >= 1 && srcs@[0] == tmp),
    {
        proof {
            law_borrowed_are_the_sources_of_borrows(code@);
        }
        let mut borrowed: BTreeSet<TempIndex> = BTreeSet::new();
        let mut i: usize = 0;
        while i < code.len()
            invariant
                i <= code@.len(),
                forall|tmp: TempIndex| #[trigger]
                    borrowed@.contains(tmp) <==> exists|j: int|
                        0 <= j < i && #[trigger] code@[j].borrows() == Some(tmp),
            decreases code@.len() - i,
        {
            let ghost before = borrowed@;
            let ghost found = code@[i as int].borrows();
            if let Bytecode::Call { operation: Operation::BorrowLoc, srcs, .. } = &code[i] {
                if srcs.len() > 0 {
                    borrowed.insert(srcs[0]);
                }
            }
            assert(borrowed@ == match found {
                Some(tmp) => before.insert(tmp),
                None => before,
            });
            i += 1;
        }
        assert(borrowed@ =~= borrowed_by(code@));
        borrowed
    }

    /// Makes of the copies which are available before an instruction those
    /// which are after it.
    pub fn execute(&self, state: &mut AvailCopies, instr: &Bytecode)
        ensures
            final(state)@ == transferred(old(state)@, *instr, self@),
            match *instr {
                Bytecode::Assign { dst, src } => {
                    &&& self@.contains(dst) ==> final(state)@ == old(state)@
                    &&& !self@.contains(dst) ==> {
                        &&& final(state)@.contains_key(dst) <==> !self@.contains(src)
                        &&& final(state)@.contains_key(dst) ==> final(state)@[dst] == src
                        &&& forall|d: TempIndex|
                            d != dst ==> (#[trigger] final(state)@.contains_key(d) <==> old(state)@.contains_key(d)
                                && old(state)@[d] != dst)
                        &&& forall|d: TempIndex|
                            d != dst && #[trigger] final(state)@.contains_key(d) ==> final(state)@[d] == old(state)@[d]
                    }
                },
                Bytecode::Load { dst } => {
                    &&& self@.contains(dst) ==> final(state)@ == old(state)@
                    &&& !self@.contains(dst) ==> forall|d: TempIndex| #[trigger]
                        final(state)@.contains_key(d) <==> old(state)@.contains_key(d) && d != dst && old(state)@[d] != dst
                    &&& forall|d: TempIndex| #[trigger]
                        final(state)@.contains_key(d) ==> final(state)@[d] == old(state)@[d]
                },
                Bytecode::Call { dsts, abort_dst, .. } => {
                    &&& forall|d: TempIndex| #[trigger]
                        final(state)@.contains_key(d) <==> {
                            &&& old(state)@.contains_key(d)
                            &&& dsts@.contains(d) || abort_dst == Some(d) ==> self@.contains(d)
                            &&& dsts@.contains(old(state)@[d]) || abort_dst == Some(old(state)@[d])
                                ==> self@.contains(old(state)@[d])
                        }
                    &&& forall|d: TempIndex| #[trigger]
                        final(state)@.contains_key(d) ==> final(state)@[d] == old(state)@[d]
                },
                Bytecode::Other => final(state)@ == old(state)@,
            },
    {
        proof {
            law_transfer_is_exact(state@, *instr, self@);
        }
        match instr {
            Bytecode::Assign { dst, src } => {
                state.kill_copies_with(*dst, &self.borrowed_locals);
                state.make_copy_available(*dst, *src, &self.borrowed_locals);
            },
            Bytecode::Load { dst } => {
                state.kill_copies_with(*dst, &self.borrowed_locals);
            },
            Bytecode::Call { dsts, abort_dst, .. } => {
                let mut i: usize = 0;
                while i < dsts.len()
                    invariant
                        i <= dsts@.len(),
                        state@ == killed_all(old(state)@, dsts@.take(i as int), self@),
                    decreases dsts@.len() - i,
                {
                    state.kill_copies_with(dsts[i], &self.borrowed_locals);
                    assert(dsts@.take(i + 1).drop_last() =~= dsts@.take(i as int));
                    i += 1;
                }
                assert(dsts@.take(i as int) =~= dsts@);
                if let Some(dst) = abort_dst {
                    state.kill_copies_with(*dst, &self.borrowed_locals);
                }
            },
            Bytecode::Other => {},
        }
    }
}

/// Whether no copy has a borrowed local as destination or source.
pub open spec fn avoids(copies: Map<TempIndex, TempIndex>, borrowed: Set<TempIndex>) -> bool {
    forall|dst: TempIndex| #[trigger]
        copies.contains_key(dst) ==> !borrowed.contains(dst) && !borrowed.contains(copies[dst])
}

/// Whether the values of the locals are such as the copies promise: the
/// destination of each has the value of its source.
pub open spec fn holds<V>(
    copies: Map<TempIndex, TempIndex>,
    values: spec_fn(TempIndex) -> V,
) -> bool {
    forall|dst: TempIndex| #[trigger]
        copies.contains_key(dst) ==> values(dst) == values(copies[dst])
}

/// Whether an instruction can make `after` of the values `before`: an
/// assignment copies; apart from what it writes, an instruction can change
/// only what is borrowed.
pub open spec fn can_lead_to<V>(
    instr: Bytecode,
    borrowed: Set<TempIndex>,
    before: spec_fn(TempIndex) -> V,
    after: spec_fn(TempIndex) -> V,
) -> bool {
    &&& forall|tmp: TempIndex|
        !instr.writes(tmp) && !borrowed.contains(tmp) ==> #[trigger] after(tmp) == before(tmp)
    &&& instr matches Bytecode::Assign { dst, src } ==> after(dst) == before(src)
}

proof fn lemma_killed_all(
    copies: Map<TempIndex, TempIndex>,
    tmps: Seq<TempIndex>,
    borrowed: Set<TempIndex>,
)
    ensures
        part_of(killed_all(copies, tmps, borrowed), copies),
        forall|dst: TempIndex| #[trigger]
            killed_all(copies, tmps, borrowed).contains_key(dst) <==> {
                &&& copies.contains_key(dst)
                &&& tmps.contains(dst) ==> borrowed.contains(dst)
                &&& tmps.contains(copies[dst]) ==> borrowed.contains(copies[dst])
            },
    decreases tmps.len(),
{
    if tmps.len() > 0 {
        let before = tmps.drop_last();
        let left = killed_all(copies, before, borrowed);
        lemma_killed_all(copies, before, borrowed);
        assert forall|tmp: TempIndex| #[trigger] tmps.contains(tmp) <==> before.contains(tmp) || tmp
            == tmps.last() by {
            if tmps.contains(tmp) && tmp != tmps.last() {
                let i = choose|i: int| 0 <= i < tmps.len() && tmps[i] == tmp;
                assert(before[i] == tmp);
            }
            if before.contains(tmp) {
                let i = choose|i: int| 0 <= i < before.len() && before[i] == tmp;
                assert(tmps[i] == tmp);
            }
            if tmp == tmps.last() {
                assert(tmps[tmps.len() - 1] == tmp);
            }
        }
        assert forall|dst: TempIndex| #[trigger]
            killed_all(copies, tmps, borrowed).contains_key(dst) <==> {
                &&& copies.contains_key(dst)
                &&& tmps.contains(dst) ==> borrowed.contains(dst)
                &&& tmps.contains(copies[dst]) ==> borrowed.contains(copies[dst])
            } by {
            assert(left.contains_key(dst) ==> left[dst] == copies[dst]);
        }
    }
}

/// What is left of the copies after an instruction, apart from the copy which
/// it makes itself, was available before it, and the instruction has written
/// neither its destination nor its source.
proof fn lemma_transferred_part(
    copies: Map<TempIndex, TempIndex>,
    instr: Bytecode,
    borrowed: Set<TempIndex>,
    dst: TempIndex,
)
    requires
        avoids(copies, borrowed),
        transferred(copies, instr, borrowed).contains_key(dst),
        !(instr matches Bytecode::Assign { dst: assigned, .. } && assigned == dst),
    ensures
        copies.contains_key(dst),
        transferred(copies, instr, borrowed)[dst] == copies[dst],
        !instr.writes(dst),
        !instr.writes(copies[dst]),
{
    match instr {
        Bytecode::Call { dsts, abort_dst, .. } => {
            lemma_killed_all(copies, dsts@, borrowed);
            let left = killed_all(copies, dsts@, borrowed);
            assert(left.contains_key(dst));
        },
        _ => {},
    }
}

/// The locals which code borrows are the first sources of its borrows: of each
/// call that borrows and has a source, and of nothing else.
pub proof fn law_borrowed_are_the_sources_of_borrows(code: Seq<Bytecode>)
    ensures
        forall|tmp: TempIndex| #[trigger]
            borrowed_by(code).contains(tmp) <==> exists|i: int|
                0 <= i < code.len() && (#[trigger] code[i] matches Bytecode::Call {
                    operation: Operation::BorrowLoc,
                    srcs,
                    ..
                } && srcs@.len() >= 1 && srcs@[0] == tmp),
{
    assert forall|tmp: TempIndex| #[trigger] borrowed_by(code).contains(tmp) implies exists|i: int|
        0 <= i < code.len() && (#[trigger] code[i] matches Bytecode::Call {
            operation: Operation::BorrowLoc,
            srcs,
            ..
        } && srcs@.len() >= 1 && srcs@[0] == tmp) by {
        let i = choose|i: int| 0 <= i < code.len() && #[trigger] code[i].borrows() == Some(tmp);
        assert(code[i] is Call);
    }
    assert forall|tmp: TempIndex|
        (exists|i: int|
            0 <= i < code.len() && (#[trigger] code[i] matches Bytecode::Call {
                operation: Operation::BorrowLoc,
                srcs,
                ..
            } && srcs@.len() >= 1 && srcs@[0] == tmp)) implies #[trigger] borrowed_by(
        code,
    ).contains(tmp) by {
        let i = choose|i: int|
            0 <= i < code.len() && (#[trigger] code[i] matches Bytecode::Call {
                operation: Operation::BorrowLoc,
                srcs,
                ..
            } && srcs@.len() >= 1 && srcs@[0] == tmp);
        assert(code[i].borrows() == Some(tmp));
    }
}

/// Which copies are available after an instruction. An assignment makes its
/// copy available, unless either local is borrowed. Apart from that, what was
/// available stays so exactly if the instruction writes neither the destination
/// nor the source, borrowed locals aside.
pub proof fn law_transfer_is_exact(
    copies: Map<TempIndex, TempIndex>,
    instr: Bytecode,
    borrowed: Set<TempIndex>,
)
    ensures
        ({
            let after = transferred(copies, instr, borrowed);
            match instr {
                Bytecode::Assign { dst, src } => {
                    &&& borrowed.contains(dst) ==> after == copies
                    &&& !borrowed.contains(dst) ==> {
                        &&& after.contains_key(dst) <==> !borrowed.contains(src)
                        &&& after.contains_key(dst) ==> after[dst] == src
                        &&& forall|d: TempIndex|
                            d != dst ==> (#[trigger] after.contains_key(d) <==> copies.contains_key(d)
                                && copies[d] != dst)
                        &&& forall|d: TempIndex|
                            d != dst && #[trigger] after.contains_key(d) ==> after[d] == copies[d]
                    }
                },
                Bytecode::Load { dst } => {
                    &&& borrowed.contains(dst) ==> after == copies
                    &&& !borrowed.contains(dst) ==> forall|d: TempIndex| #[trigger]
                        after.contains_key(d) <==> copies.contains_key(d) && d != dst && copies[d] != dst
                    &&& forall|d: TempIndex| #[trigger]
                        after.contains_key(d) ==> after[d] == copies[d]
                },
                Bytecode::Call { dsts, abort_dst, .. } => {
                    &&& forall|d: TempIndex| #[trigger]
                        after.contains_key(d) <==> {
                            &&& copies.contains_key(d)
                            &&& dsts@.contains(d) || abort_dst == Some(d) ==> borrowed.contains(d)
                            &&& dsts@.contains(copies[d]) || abort_dst == Some(copies[d])
                                ==> borrowed.contains(copies[d])
                        }
                    &&& forall|d: TempIndex| #[trigger]
                        after.contains_key(d) ==> after[d] == copies[d]
                },
                Bytecode::Other => after == copies,
            }
        }),
{
    match instr {
        Bytecode::Call { dsts, abort_dst, .. } => {
            lemma_killed_all(copies, dsts@, borrowed);
            let left = killed_all(copies, dsts@, borrowed);
            let after = transferred(copies, instr, borrowed);
            assert forall|d: TempIndex| #[trigger] after.contains_key(d) <==> {
                &&& copies.contains_key(d)
                &&& dsts@.contains(d) || abort_dst == Some(d) ==> borrowed.contains(d)
                &&& dsts@.contains(copies[d]) || abort_dst == Some(copies[d]) ==> borrowed.contains(
                    copies[d],
                )
            } by {
                assert(left.contains_key(d) ==> left[d] == copies[d]);
            }
            assert forall|d: TempIndex| #[trigger] after.contains_key(d) implies after[d]
                == copies[d] by {
                assert(left.contains_key(d));
            }
        },
        _ => {},
    }
}

/// No available copy is ever one of a borrowed local.
pub proof fn law_copies_avoid_borrowed(
    copies: Map<TempIndex, TempIndex>,
    other: Map<TempIndex, TempIndex>,
    instr: Bytecode,
    borrowed: Set<TempIndex>,
)
    requires
        avoids(copies, borrowed),
    ensures
        avoids(transferred(copies, instr, borrowed), borrowed),
        avoids(common(copies, other), borrowed),
{
    let after = transferred(copies, instr, borrowed);
    assert forall|dst: TempIndex| #[trigger] after.contains_key(dst) implies !borrowed.contains(dst)
        && !borrowed.contains(after[dst]) by {
        if !(instr matches Bytecode::Assign { dst: assigned, .. } && assigned == dst) {
            lemma_transferred_part(copies, instr, borrowed, dst);
        }
    }
}

/// Available copies are what they are said to be: if the values of the locals
/// are such as the copies promise, they are so after any instruction for the
/// copies which are available then.
pub proof fn law_transfer_is_sound<V>(
    copies: Map<TempIndex, TempIndex>,
    instr: Bytecode,
    borrowed: Set<TempIndex>,
    before: spec_fn(TempIndex) -> V,
    after: spec_fn(TempIndex) -> V,
)
    requires
        avoids(copies, borrowed),
        holds(copies, before),
        can_lead_to(instr, borrowed, before, after),
    ensures
        holds(transferred(copies, instr, borrowed), after),
{
    let left = transferred(copies, instr, borrowed);
    assert forall|dst: TempIndex| #[trigger] left.contains_key(dst) implies after(dst) == after(
        left[dst],
    ) by {
        if instr matches Bytecode::Assign { dst: assigned, .. } && assigned == dst {
            let src = instr->src;
            assert(left[dst] == src);
            if src != dst {
                assert(after(src) == before(src));
            }
        } else {
            lemma_transferred_part(copies, instr, borrowed, dst);
            assert(after(dst) == before(dst));
            assert(after(copies[dst]) == before(copies[dst]));
        }
    }
}

/// On every path through a function, the copies which are said to be available
/// hold at each point.
///
/// `states[i]` are the copies which are available before the instruction
/// `path[i]`: none at the entry, and later no more than what the instruction
/// before leaves. `values[i]` are the values which the locals have there.
pub proof fn law_analysis_is_sound_on_paths<V>(
    path: Seq<Bytecode>,
    states: Seq<Map<TempIndex, TempIndex>>,
    borrowed: Set<TempIndex>,
    values: Seq<spec_fn(TempIndex) -> V>,
    i: int,
)
    requires
        states.len() == path.len() + 1,
        values.len() == path.len() + 1,
        states[0] == Map::<TempIndex, TempIndex>::empty(),
        forall|j: int|
            0 <= j < path.len() ==> part_of(
                states[j + 1],
                transferred(states[j], #[trigger] path[j], borrowed),
            ),
        forall|j: int|
            0 <= j < path.len() ==> can_lead_to(
                #[trigger] path[j],
                borrowed,
                values[j],
                values[j + 1],
            ),
        0 <= i <= path.len(),
    ensures
        avoids(states[i], borrowed),
        holds(states[i], values[i]),
    decreases i,
{
    if i > 0 {
        let j = i - 1;
        law_analysis_is_sound_on_paths(path, states, borrowed, values, j);
        let left = transferred(states[j], path[j], borrowed);
        assert(part_of(states[i], left));
        assert(can_lead_to(path[j], borrowed, values[j], values[i]));
        law_transfer_is_sound(states[j], path[j], borrowed, values[j], values[i]);
        law_copies_avoid_borrowed(states[j], states[j], path[j], borrowed);
        assert forall|dst: TempIndex| #[trigger] states[i].contains_key(dst) implies left.contains_key(
            dst,
        ) && left[dst] == states[i][dst] by {}
    }
}

/// A copy is available at the end of a path exactly if it was made on the way,
/// neither local is borrowed, and neither was written since.
pub proof fn law_available_copies_are_unmodified(
    path: Seq<Bytecode>,
    states: Seq<Map<TempIndex, TempIndex>>,
    borrowed: Set<TempIndex>,
    dst: TempIndex,
    src: TempIndex,
    i: int,
)
    requires
        states.len() == path.len() + 1,
        states[0] == Map::<TempIndex, TempIndex>::empty(),
        forall|j: int|
            0 <= j < path.len() ==> states[j + 1] == transferred(
                states[j],
                #[trigger] path[j],
                borrowed,
            ),
        0 <= i <= path.len(),
    ensures
        states[i].contains_key(dst) && states[i][dst] == src <==> {
            &&& !borrowed.contains(dst)
            &&& !borrowed.contains(src)
            &&& exists|j: int| #[trigger] made_and_kept(path, dst, src, j, i)
        },
    decreases i,
{
    if i > 0 {
        let last = i - 1;
        let instr = path[last];
        law_available_copies_are_unmodified(path, states, borrowed, dst, src, last);
        law_available_copies_avoid_borrowed_on_path(path, states, borrowed, last);
        law_transfer_is_exact(states[last], instr, borrowed);
        assert(states[i] == transferred(states[last], instr, borrowed));
        if states[i].contains_key(dst) && states[i][dst] == src {
            if instr matches Bytecode::Assign { dst: assigned, .. } && assigned == dst {
                if borrowed.contains(dst) {
                    assert(states[last].contains_key(dst));
                }
                assert(made_and_kept(path, dst, src, last, i));
            } else {
                lemma_transferred_part(states[last], instr, borrowed, dst);
                let j = choose|j: int| #[trigger] made_and_kept(path, dst, src, j, last);
                assert(made_and_kept(path, dst, src, j, i));
            }
        }
        if !borrowed.contains(dst) && !borrowed.contains(src) && exists|j: int| #[trigger]
            made_and_kept(path, dst, src, j, i) {
            let j = choose|j: int| #[trigger] made_and_kept(path, dst, src, j, i);
            if j < last {
                assert(made_and_kept(path, dst, src, j, last));
                assert(!path[last].writes(dst) && !path[last].writes(src));
                assert(states[last].contains_key(dst) && states[last][dst] == src);
                assert(states[i].contains_key(dst));
            } else {
                assert(states[i].contains_key(dst));
            }
            assert(states[i][dst] == src);
        }
    } else {
        assert(forall|j: int| !made_and_kept(path, dst, src, j, 0));
    }
}

/// Whether the instruction at `j` of a path assigns `src` to `dst`, and none
/// after it and before `i` writes either.
pub open spec fn made_and_kept(
    path: Seq<Bytecode>,
    dst: TempIndex,
    src: TempIndex,
    j: int,
    i: int,
) -> bool {
    &&& 0 <= j < i
    &&& path[j] matches Bytecode::Assign { dst: to, src: from } && to == dst && from == src
    &&& forall|k: int| j < k < i ==> !(#[trigger] path[k]).writes(dst) && !path[k].writes(src)
}

/// What an instruction writes: an assignment or a load its destination, a call
/// its destinations and that of an abort, and any other nothing.
pub proof fn law_writes_are_the_destinations(instr: Bytecode, tmp: TempIndex)
    ensures
        instr.writes(tmp) <==> match instr {
            Bytecode::Assign { dst, .. } => tmp == dst,
            Bytecode::Load { dst } => tmp == dst,
            Bytecode::Call { dsts, abort_dst, .. } => abort_dst == Some(tmp) || dsts@.contains(tmp),
            Bytecode::Other => false,
        },
{
}

/// On every path, no available copy is one of a borrowed local.
pub proof fn law_available_copies_avoid_borrowed_on_path(
    path: Seq<Bytecode>,
    states: Seq<Map<TempIndex, TempIndex>>,
    borrowed: Set<TempIndex>,
    i: int,
)
    requires
        states.len() == path.len() + 1,
        states[0] == Map::<TempIndex, TempIndex>::empty(),
        forall|j: int|
            0 <= j < path.len() ==> states[j + 1] == transferred(
                states[j],
                #[trigger] path[j],
                borrowed,
            ),
        0 <= i <= path.len(),
    ensures
        avoids(states[i], borrowed),
        forall|dst: TempIndex| #[trigger]
            states[i].contains_key(dst) ==> !borrowed.contains(dst) && !borrowed.contains(
                states[i][dst],
            ),
    decreases i,
{
    if i > 0 {
        law_available_copies_avoid_borrowed_on_path(path, states, borrowed, i - 1);
        law_copies_avoid_borrowed(states[i - 1], states[i - 1], path[i - 1], borrowed);
        assert(states[i] == transferred(states[i - 1], path[i - 1], borrowed));
    }
}

/// The analysis of code is sound with the borrowed locals which are computed
/// from that code, though a borrow lets every later instruction change the
/// local.
///
/// `path` are the places of the instructions which are executed. `values[k]`
/// are the values of the locals before the one at `path[k]`: it changes no
/// local but those which it writes and those which it or an instruction before
/// it has borrowed, and an assignment copies. `states[k]` are the copies which
/// are said to be available there: none at the entry, and later no more than
/// what the instruction before leaves. Then the destination of each has the
/// value of its source.
pub proof fn law_analysis_of_code_is_sound<V>(
    code: Seq<Bytecode>,
    path: Seq<int>,
    states: Seq<Map<TempIndex, TempIndex>>,
    values: Seq<spec_fn(TempIndex) -> V>,
    i: int,
)
    requires
        forall|k: int| 0 <= k < path.len() ==> 0 <= #[trigger] path[k] < code.len(),
        states.len() == path.len() + 1,
        values.len() == path.len() + 1,
        states[0] == Map::<TempIndex, TempIndex>::empty(),
        forall|k: int, dst: TempIndex|
            0 <= k < path.len() && #[trigger] states[k + 1].contains_key(dst) ==> {
                let left = transferred(states[k], code[path[k]], borrowed_by(code));
                left.contains_key(dst) && left[dst] == states[k + 1][dst]
            },
        forall|k: int, tmp: TempIndex|
            #![trigger values[k](tmp)]
            0 <= k < path.len() ==> {
                ||| values[k + 1](tmp) == values[k](tmp)
                ||| match code[path[k]] {
                    Bytecode::Assign { dst, .. } => tmp == dst,
                    Bytecode::Load { dst } => tmp == dst,
                    Bytecode::Call { dsts, abort_dst, .. } => abort_dst == Some(tmp)
                        || dsts@.contains(tmp),
                    Bytecode::Other => false,
                }
                ||| exists|m: int|
                    0 <= m <= k && (code[#[trigger] path[m]] matches Bytecode::Call {
                        operation: Operation::BorrowLoc,
                        srcs,
                        ..
                    } && srcs@.len() >= 1 && srcs@[0] == tmp)
            },
        forall|k: int|
            0 <= k < path.len() ==> (code[#[trigger] path[k]] matches Bytecode::Assign { dst, src }
                ==> values[k + 1](dst) == values[k](src)),
        0 <= i <= path.len(),
    ensures
        forall|dst: TempIndex| #[trigger]
            states[i].contains_key(dst) ==> values[i](dst) == values[i](states[i][dst]),
{
    let borrowed = borrowed_by(code);
    let trace = Seq::new(path.len(), |k: int| code[path[k]]);
    law_borrowed_are_the_sources_of_borrows(code);
    assert forall|k: int| 0 <= k < trace.len() implies part_of(
        states[k + 1],
        transferred(states[k], #[trigger] trace[k], borrowed),
    ) by {}
    assert forall|k: int| 0 <= k < trace.len() implies can_lead_to(
        #[trigger] trace[k],
        borrowed,
        values[k],
        values[k + 1],
    ) by {
        assert(trace[k] == code[path[k]]);
        assert forall|tmp: TempIndex| !trace[k].writes(tmp) && !borrowed.contains(tmp) implies
            #[trigger] values[k + 1](tmp) == values[k](tmp) by {
            if values[k + 1](tmp) != values[k](tmp) {
                let m = choose|m: int|
                    0 <= m <= k && (code[#[trigger] path[m]] matches Bytecode::Call {
                        operation: Operation::BorrowLoc,
                        srcs,
                        ..
                    } && srcs@.len() >= 1 && srcs@[0] == tmp);
                let place = path[m];
                assert(code[place] is Call);
                assert(borrowed.contains(tmp));
            }
        }
    }
    law_analysis_is_sound_on_paths(trace, states, borrowed, values, i);
}

/// Where two paths meet, the copies which are available on both hold on
/// whichever was taken.
pub proof fn law_join_is_sound<V>(
    a: Map<TempIndex, TempIndex>,
    b: Map<TempIndex, TempIndex>,
    values: spec_fn(TempIndex) -> V,
)
    requires
        holds(a, values) || holds(b, values),
    ensures
        holds(common(a, b), values),
{
}

/// Joining keeps as much as it can: whatever is part of both collections is
/// part of the outcome, which is part of both. The order of the two does not
/// matter, and joining again changes nothing.
pub proof fn law_join_is_the_largest_common_part(
    a: Map<TempIndex, TempIndex>,
    b: Map<TempIndex, TempIndex>,
    part: Map<TempIndex, TempIndex>,
)
    ensures
        part_of(common(a, b), a),
        part_of(common(a, b), b),
        part_of(part, a) && part_of(part, b) <==> part_of(part, common(a, b)),
        common(a, b) == common(b, a),
        common(a, a) == a,
        common(common(a, b), b) == common(a, b),
{
    assert(common(a, b) =~= common(b, a));
    assert(common(a, a) =~= a);
    assert(common(common(a, b), b) =~= common(a, b));
    if part_of(part, common(a, b)) {
        assert(forall|dst: TempIndex| #[trigger]
            part.contains_key(dst) ==> common(a, b).contains_key(dst));
    }
}

/// Chains of copies stay free of cycles, as long as no local is assigned to
/// itself.
pub proof fn law_copies_stay_acyclic(
    copies: Map<TempIndex, TempIndex>,
    other: Map<TempIndex, TempIndex>,
    instr: Bytecode,
    borrowed: Set<TempIndex>,
)
    requires
        acyclic(copies),
        instr matches Bytecode::Assign { dst, src } ==> dst != src,
    ensures
        acyclic(transferred(copies, instr, borrowed)),
        acyclic(common(copies, other)),
{
    law_fewer_copies_stay_acyclic(common(copies, other), copies);
    match instr {
        Bytecode::Assign { dst, src } => {
            let left = killed(copies, dst, borrowed);
            law_fewer_copies_stay_acyclic(left, copies);
            if !borrowed.contains(dst) && !borrowed.contains(src) {
                law_new_copy_stays_acyclic(left, dst, src);
            }
        },
        Bytecode::Call { dsts, abort_dst, .. } => {
            lemma_killed_all(copies, dsts@, borrowed);
            law_fewer_copies_stay_acyclic(transferred(copies, instr, borrowed), copies);
        },
        _ => {
            law_fewer_copies_stay_acyclic(transferred(copies, instr, borrowed), copies);
        },
    }
}

proof fn lemma_chain_has_one_value<V>(
    copies: Map<TempIndex, TempIndex>,
    values: spec_fn(TempIndex) -> V,
    tmp: TempIndex,
    count: nat,
)
    requires
        holds(copies, values),
        follow(copies, tmp, count) is Some,
    ensures
        values(follow(copies, tmp, count)->0) == values(tmp),
    decreases count,
{
    if count > 0 {
        lemma_chain_has_one_value(copies, values, tmp, (count - 1) as nat);
    }
}

/// A local may be replaced by the head of its chain: they have one value.
pub proof fn law_head_has_the_value<V>(
    copies: Map<TempIndex, TempIndex>,
    values: spec_fn(TempIndex) -> V,
    tmp: TempIndex,
    head: TempIndex,
)
    requires
        holds(copies, values),
        is_head(copies, tmp, head),
    ensures
        values(head) == values(tmp),
{
    let count = choose|count: nat| #[trigger] follow(copies, tmp, count) == Some(head);
    lemma_chain_has_one_value(copies, values, tmp, count);
}

} // verus!
