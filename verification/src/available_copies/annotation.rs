//! The outcome of the analysis, and its text.
use std::collections::BTreeMap;

use vstd::prelude::*;

use super::chain::TempIndex;
use super::copies::{is_listing, lemma_listing_is_unique, listing, AvailCopies};

verus! {

/// The place of an instruction in the code of a function.
pub type CodeOffset = u16;

/// The copies which are available before and after an instruction.
#[derive(Debug)]
pub struct AvailCopiesState {
    pub before: AvailCopies,
    pub after: AvailCopies,
}

/// The mathematical value of an [`AvailCopiesState`].
pub struct AvailCopiesStateView {
    pub before: Map<TempIndex, TempIndex>,
    pub after: Map<TempIndex, TempIndex>,
}

impl View for AvailCopiesState {
    type V = AvailCopiesStateView;

    open spec fn view(&self) -> AvailCopiesStateView {
        AvailCopiesStateView { before: self.before@, after: self.after@ }
    }
}

impl Clone for AvailCopiesState {
    fn clone(&self) -> (state: AvailCopiesState)
        ensures
            state@ == self@,
    {
        AvailCopiesState { before: self.before.clone(), after: self.after.clone() }
    }
}

/// The copies which are available before and after the instructions of a
/// function.
#[derive(Debug)]
pub struct AvailCopiesAnnotation {
    states: BTreeMap<CodeOffset, AvailCopiesState>,
}

impl View for AvailCopiesAnnotation {
    type V = Map<CodeOffset, AvailCopiesStateView>;

    closed spec fn view(&self) -> Map<CodeOffset, AvailCopiesStateView> {
        self.states@.map_values(|state: AvailCopiesState| state@)
    }
}

impl Clone for AvailCopiesAnnotation {
    fn clone(&self) -> (annotation: AvailCopiesAnnotation)
        ensures
            annotation@ == self@,
    {
        AvailCopiesAnnotation { states: self.states.clone() }
    }
}

impl AvailCopiesAnnotation {
    /// Returns an annotation which knows of no instruction.
    pub fn new() -> (annotation: AvailCopiesAnnotation)
        ensures
            annotation@ == Map::<CodeOffset, AvailCopiesStateView>::empty(),
    {
        let annotation = AvailCopiesAnnotation { states: BTreeMap::new() };
        assert(annotation@ =~= Map::empty());
        annotation
    }

    /// Makes `before` and `after` the copies which are available before and
    /// after the instruction.
    pub fn record(&mut self, code_offset: CodeOffset, before: &AvailCopies, after: &AvailCopies)
        ensures
            final(self)@ == old(self)@.insert(
                code_offset,
                (AvailCopiesStateView { before: before@, after: after@ }),
            ),
    {
        self.states.insert(
            code_offset,
            AvailCopiesState { before: before.clone(), after: after.clone() },
        );
        assert(self@ =~= old(self)@.insert(
            code_offset,
            AvailCopiesStateView { before: before@, after: after@ },
        ));
    }

    /// Returns the copies which are available before the instruction.
    pub fn before(&self, code_offset: &CodeOffset) -> (copies: Option<&AvailCopies>)
        ensures
            match copies {
                Some(found) => self@.contains_key(*code_offset) && self@[*code_offset].before
                    == found@,
                None => !self@.contains_key(*code_offset),
            },
    {
        if let Some(state) = self.states.get(code_offset) {
            Some(&state.before)
        } else {
            None
        }
    }

    /// Returns the copies which are available after the instruction.
    pub fn after(&self, code_offset: &CodeOffset) -> (copies: Option<&AvailCopies>)
        ensures
            match copies {
                Some(found) => self@.contains_key(*code_offset) && self@[*code_offset].after
                    == found@,
                None => !self@.contains_key(*code_offset),
            },
    {
        if let Some(state) = self.states.get(code_offset) {
            Some(&state.after)
        } else {
            None
        }
    }
}

/// Whether each local of the copies has a name.
pub open spec fn all_named(names: Seq<String>, copies: Map<TempIndex, TempIndex>) -> bool {
    forall|dst: TempIndex| #[trigger]
        copies.contains_key(dst) ==> dst < names.len() && copies[dst] < names.len()
}

/// The text of a copy.
pub open spec fn copy_text(names: Seq<String>, copy: (TempIndex, TempIndex)) -> Seq<char> {
    names[copy.0 as int]@ + " := "@ + names[copy.1 as int]@
}

/// The texts of copies, with commas between them.
pub open spec fn list_text(names: Seq<String>, list: Seq<(TempIndex, TempIndex)>) -> Seq<char>
    decreases list.len(),
{
    if list.len() == 0 {
        Seq::empty()
    } else if list.len() == 1 {
        copy_text(names, list[0])
    } else {
        list_text(names, list.drop_last()) + ", "@ + copy_text(names, list.last())
    }
}

/// The text of a collection of copies: they are in braces, by ascending
/// destinations.
pub open spec fn copies_text(names: Seq<String>, copies: Map<TempIndex, TempIndex>) -> Seq<char> {
    "{"@ + list_text(names, listing(copies)) + "}"@
}

/// The text of what is available before and after an instruction.
pub open spec fn state_text(names: Seq<String>, state: AvailCopiesStateView) -> Seq<char> {
    "before: "@ + copies_text(names, state.before) + ", after: "@ + copies_text(names, state.after)
}

/// Returns the text of a collection of copies. The names of the locals are
/// found at their indices.
pub fn format_avail_copies(state: &AvailCopies, names: &Vec<String>) -> (text: String)
    requires
        all_named(names@, state@),
    ensures
        text@ == copies_text(names@, state@),
        exists|list: Seq<(TempIndex, TempIndex)>|
            {
                &&& text@ == "{"@ + #[trigger] list_text(names@, list) + "}"@
                &&& forall|i: int, j: int|
                    0 <= i < j < list.len() ==> (#[trigger] list[i]).0 < (#[trigger] list[j]).0
                &&& forall|i: int|
                    0 <= i < list.len() ==> state@.contains_key((#[trigger] list[i]).0)
                        && state@[list[i].0] == list[i].1
                &&& forall|dst: TempIndex| #[trigger]
                    state@.contains_key(dst) ==> exists|i: int|
                        0 <= i < list.len() && (#[trigger] list[i]).0 == dst
            },
{
    let list = state.to_vec();
    let mut text: String = "{".to_owned();
    let mut i: usize = 0;
    assert(list@.take(0) =~= Seq::empty());
    while i < list.len()
        invariant
            i <= list@.len(),
            forall|j: int|
                0 <= j < list@.len() ==> (#[trigger] list@[j]).0 < names@.len() && list@[j].1
                    < names@.len(),
            text@ == "{"@ + list_text(names@, list@.take(i as int)),
        decreases list@.len() - i,
    {
        if i > 0 {
            text.append(", ");
        }
        let (dst, src) = list[i];
        text.append(names[dst].as_str());
        text.append(" := ");
        text.append(names[src].as_str());
        proof {
            let done = list@.take(i + 1);
            assert(done.drop_last() =~= list@.take(i as int));
            assert(done.last() == list@[i as int]);
            assert(text@ =~= "{"@ + list_text(names@, done));
        }
        i += 1;
    }
    assert(list@.take(i as int) =~= list@);
    text.append("}");
    assert(text@ == "{"@ + list_text(names@, list@) + "}"@);
    text
}

/// Returns the text of what is available before and after an instruction, if
/// the annotation knows of it.
pub fn format_avail_copies_annotation(
    annotation: &AvailCopiesAnnotation,
    code_offset: CodeOffset,
    names: &Vec<String>,
) -> (text: Option<String>)
    requires
        annotation@.contains_key(code_offset) ==> all_named(
            names@,
            annotation@[code_offset].before,
        ) && all_named(names@, annotation@[code_offset].after),
    ensures
        match text {
            Some(found) => annotation@.contains_key(code_offset) && found@ == state_text(
                names@,
                annotation@[code_offset],
            ),
            None => !annotation@.contains_key(code_offset),
        },
        text matches Some(found) ==> found@ == "before: "@ + copies_text(
            names@,
            annotation@[code_offset].before,
        ) + ", after: "@ + copies_text(names@, annotation@[code_offset].after),
{
    match annotation.states.get(&code_offset) {
        Some(state) => {
            let mut text: String = "before: ".to_owned();
            text.append(format_avail_copies(&state.before, names).as_str());
            text.append(", after: ");
            text.append(format_avail_copies(&state.after, names).as_str());
            Some(text)
        },
        None => None,
    }
}

/// The text of a list of copies says each of them, destination first, with
/// commas between them and nothing else: one more copy adds its text and, unless
/// it is the first, a comma before it.
pub proof fn law_text_says_every_copy(
    names: Seq<String>,
    list: Seq<(TempIndex, TempIndex)>,
    copy: (TempIndex, TempIndex),
)
    ensures
        list_text(names, Seq::empty()) == Seq::<char>::empty(),
        list_text(names, seq![copy]) == names[copy.0 as int]@ + " := "@ + names[copy.1 as int]@,
        list.len() > 0 ==> list_text(names, list.push(copy)) == list_text(names, list) + ", "@ + (
        names[copy.0 as int]@ + " := "@ + names[copy.1 as int]@),
{
    assert(list.push(copy).drop_last() =~= list);
}

/// The text of a collection of copies is that of the list of its copies by
/// ascending destinations, in braces; it can be made if each local has a name.
pub proof fn law_text_is_that_of_the_listing(
    names: Seq<String>,
    copies: Map<TempIndex, TempIndex>,
    list: Seq<(TempIndex, TempIndex)>,
)
    requires
        forall|i: int, j: int|
            0 <= i < j < list.len() ==> (#[trigger] list[i]).0 < (#[trigger] list[j]).0,
        forall|i: int|
            0 <= i < list.len() ==> copies.contains_key((#[trigger] list[i]).0)
                && copies[list[i].0] == list[i].1,
        forall|dst: TempIndex| #[trigger]
            copies.contains_key(dst) ==> exists|i: int|
                0 <= i < list.len() && (#[trigger] list[i]).0 == dst,
    ensures
        listing(copies) == list,
        copies_text(names, copies) == "{"@ + list_text(names, list) + "}"@,
        all_named(names, copies) <==> forall|i: int|
            0 <= i < list.len() ==> (#[trigger] list[i]).0 < names.len() && list[i].1 < names.len(),
{
    assert(is_listing(list, copies));
    lemma_listing_is_unique(list, listing(copies), copies);
    if forall|i: int|
        0 <= i < list.len() ==> (#[trigger] list[i]).0 < names.len() && list[i].1 < names.len() {
        assert forall|dst: TempIndex| #[trigger] copies.contains_key(dst) implies dst < names.len()
            && copies[dst] < names.len() by {
            let i = choose|i: int| 0 <= i < list.len() && (#[trigger] list[i]).0 == dst;
            assert(copies[list[i].0] == list[i].1);
        }
    }
}

/// The text of an annotation says what is available before the instruction, and
/// then what is after it.
pub proof fn law_text_says_before_and_after(names: Seq<String>, state: AvailCopiesStateView)
    ensures
        state_text(names, state) == "before: "@ + copies_text(names, state.before) + ", after: "@
            + copies_text(names, state.after),
{
}

} // verus!
