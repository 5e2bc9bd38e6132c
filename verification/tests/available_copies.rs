use std::collections::BTreeSet;

use aptos_core::available_copies::analysis::{AvailCopiesAnalysis, Bytecode, Operation};
use aptos_core::available_copies::annotation::{
    format_avail_copies, format_avail_copies_annotation, AvailCopiesAnnotation,
};
use aptos_core::available_copies::copies::{AvailCopies, JoinResult};

fn call(operation: Operation, dsts: Vec<usize>, srcs: Vec<usize>, abort: Option<usize>) -> Bytecode {
    Bytecode::Call { dsts, operation, srcs, abort_dst: abort }
}

#[test]
fn test_avail_copies_join() {
    let mut a = AvailCopies::new();
    let mut b = AvailCopies::new();
    let borrowed_locals: BTreeSet<usize> = BTreeSet::new();
    a.make_copy_available(1, 2, &borrowed_locals);
    b.make_copy_available(3, 4, &borrowed_locals);
    // a = (1, 2), b = (3, 4)
    assert_eq!(a.join(&b), JoinResult::Changed);
    assert_eq!(a.len(), 0);
    a.make_copy_available(3, 4, &borrowed_locals);
    // a = (3, 4), b = (3, 4)
    assert_eq!(a.join(&b), JoinResult::Unchanged);
    assert_eq!(a, b);
    a.make_copy_available(1, 2, &borrowed_locals);
    // a = (1, 2), (3, 4), b = (3, 4)
    assert_eq!(a.join(&b), JoinResult::Changed);
    assert_eq!(a, b);
    b.make_copy_available(1, 2, &borrowed_locals);
    // a = (3, 4), b = (1, 2), (3, 4)
    assert_eq!(a.join(&b), JoinResult::Unchanged);
    assert_eq!(a.len(), 1);
}

#[test]
fn test_get_head_of_copy_chain() {
    let mut copies = AvailCopies::new();
    let borrowed_locals: BTreeSet<usize> = BTreeSet::new();
    copies.make_copy_available(1, 0, &borrowed_locals);
    copies.make_copy_available(2, 1, &borrowed_locals);
    copies.make_copy_available(3, 2, &borrowed_locals);
    copies.make_copy_available(4, 3, &borrowed_locals);
    copies.make_copy_available(44, 14, &borrowed_locals);
    // copies = (1, 0), (2, 1), (3, 2), (4, 3), (44, 14)
    for i in 0..=4 {
        assert_eq!(copies.get_head_of_copy_chain(i), 0);
    }
    assert_eq!(copies.get_head_of_copy_chain(44), 14);
    assert_eq!(copies.get_head_of_copy_chain(14), 14);
}

#[test]
fn head_is_found_beside_a_cycle() {
    let borrowed_locals: BTreeSet<usize> = BTreeSet::new();
    let mut copies = AvailCopies::new();
    copies.make_copy_available(7, 7, &borrowed_locals);
    copies.make_copy_available(2, 1, &borrowed_locals);
    assert_eq!(copies.get_head_of_copy_chain(2), 1);
    assert_eq!(copies.get_head_of_copy_chain(1), 1);
    assert_eq!(copies.get_head_of_copy_chain(3), 3);
}

#[test]
fn join_drops_copies_from_other_sources() {
    let none: BTreeSet<usize> = BTreeSet::new();
    let mut a = AvailCopies::default();
    let mut b = AvailCopies::default();
    a.make_copy_available(1, 2, &none);
    a.make_copy_available(3, 4, &none);
    b.make_copy_available(1, 5, &none);
    b.make_copy_available(3, 4, &none);
    assert_eq!(a.join(&b), JoinResult::Changed);
    assert_eq!(a.to_vec(), vec![(3, 4)]);
}

#[test]
fn borrowed_locals_have_no_copies() {
    let borrowed: BTreeSet<usize> = [1, 4].into_iter().collect();
    let mut copies = AvailCopies::new();
    copies.make_copy_available(1, 2, &borrowed);
    copies.make_copy_available(3, 4, &borrowed);
    assert_eq!(copies.len(), 0);
    copies.make_copy_available(5, 6, &borrowed);
    copies.kill_copies_with(1, &borrowed);
    assert_eq!(copies.to_vec(), vec![(5, 6)]);
}

#[test]
fn overwriting_kills_copies() {
    let none: BTreeSet<usize> = BTreeSet::new();
    let mut copies = AvailCopies::new();
    copies.make_copy_available(9, 1, &none);
    copies.make_copy_available(1, 2, &none);
    copies.make_copy_available(3, 4, &none);
    copies.kill_copies_with(1, &none);
    assert_eq!(copies.to_vec(), vec![(3, 4)]);
    copies.kill_copies_with(7, &none);
    assert_eq!(copies.to_vec(), vec![(3, 4)]);
}

#[test]
fn instructions_transfer_copies() {
    let code = [
        Bytecode::Assign { dst: 1, src: 0 },
        Bytecode::Assign { dst: 2, src: 1 },
        call(Operation::BorrowLoc, vec![5], vec![3, 8], None),
        Bytecode::Assign { dst: 4, src: 3 },
        Bytecode::Assign { dst: 6, src: 2 },
        call(Operation::Other, vec![7, 0], vec![8], Some(6)),
        Bytecode::Load { dst: 1 },
        Bytecode::Other,
        call(Operation::BorrowLoc, vec![], vec![], None),
    ];
    let analysis = AvailCopiesAnalysis::new(&code);
    let borrowed = AvailCopiesAnalysis::get_borrowed_locals(&code);
    assert_eq!(borrowed.into_iter().collect::<Vec<usize>>(), vec![3]);
    let expected = [
        vec![(1, 0)],
        vec![(1, 0), (2, 1)],
        vec![(1, 0), (2, 1)],
        vec![(1, 0), (2, 1)],
        vec![(1, 0), (2, 1), (6, 2)],
        vec![(2, 1)],
        vec![],
        vec![],
        vec![],
    ];
    let mut state = AvailCopies::new();
    for (instr, copies) in code.iter().zip(expected) {
        analysis.execute(&mut state, instr);
        assert_eq!(state.to_vec(), copies);
    }
}

#[test]
fn assignment_replaces_a_copy() {
    let code = [Bytecode::Assign { dst: 1, src: 0 }, Bytecode::Assign { dst: 1, src: 2 }];
    let analysis = AvailCopiesAnalysis::new(&code);
    let mut state = AvailCopies::new();
    for instr in &code {
        analysis.execute(&mut state, instr);
    }
    assert_eq!(state.to_vec(), vec![(1, 2)]);
}

#[test]
fn annotation_is_formatted() {
    let none: BTreeSet<usize> = BTreeSet::new();
    let names: Vec<String> = ["a", "b", "c"].iter().map(|name| name.to_string()).collect();
    let before = AvailCopies::new();
    let mut after = AvailCopies::new();
    after.make_copy_available(2, 0, &none);
    after.make_copy_available(1, 0, &none);
    assert_eq!(format_avail_copies(&before, &names), "{}");
    assert_eq!(format_avail_copies(&after, &names), "{b := a, c := a}");
    let mut annotation = AvailCopiesAnnotation::new();
    annotation.record(7, &before, &after);
    assert_eq!(
        format_avail_copies_annotation(&annotation, 7, &names),
        Some("before: {}, after: {b := a, c := a}".to_string())
    );
    assert_eq!(format_avail_copies_annotation(&annotation, 8, &names), None);
    assert_eq!(annotation.before(&7), Some(&before));
    assert!(annotation.clone().before(&8).is_none());
}
