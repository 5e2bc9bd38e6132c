use aptos_core::aggregator::data::AggregatorData;
use aptos_core::aggregator::delta::{addition, subtraction};
use aptos_core::aggregator::error::{extension_error, AggregatorError};
use aptos_core::aggregator::history::History;
use aptos_core::aggregator::id::{
    AccountAddress, AggregatorHandle, AggregatorID, Relation, TableHandle,
};
use aptos_core::aggregator::instance::{Aggregator, AggregatorResolver, AggregatorState};

/// A store which holds the values of some aggregators.
struct AggregatorStore(Vec<(AggregatorID, u128)>);

impl AggregatorResolver for AggregatorStore {
    fn resolve_aggregator_value(&self, id: &AggregatorID) -> Result<u128, String> {
        match self.0.iter().find(|entry| entry.0 == *id) {
            Some(entry) => Ok(entry.1),
            None => Err("not in storage".to_string()),
        }
    }
}

/// A store which must not be asked.
struct NoStore;

impl AggregatorResolver for NoStore {
    fn resolve_aggregator_value(&self, _id: &AggregatorID) -> Result<u128, String> {
        panic!("storage was asked")
    }
}

fn address(bytes: [u8; 16]) -> AccountAddress {
    let mut all = [0u8; 32];
    all[..16].copy_from_slice(&bytes);
    all[16..].copy_from_slice(&bytes);
    AccountAddress(all)
}

fn aggregator_id_for_test(key: u128) -> AggregatorID {
    AggregatorID::legacy(
        TableHandle(AccountAddress([0; 32])),
        AggregatorHandle(address(key.to_le_bytes())),
    )
}

fn store() -> AggregatorStore {
    AggregatorStore(vec![(aggregator_id_for_test(600), 300)])
}

fn history(aggregator: &Aggregator) -> &History {
    aggregator.history().unwrap()
}

#[test]
fn test_materialize_not_in_storage() {
    let mut aggregator_data = AggregatorData::default();

    let aggregator = aggregator_data
        .get_aggregator(aggregator_id_for_test(300), 700)
        .expect("Get aggregator failed");
    let result = aggregator.read_and_materialize(&store(), &aggregator_id_for_test(700));
    assert!(result.is_err());
    assert_eq!(
        result,
        Err(AggregatorError::Extension {
            message: "Could not find the value of the aggregator: not in storage".to_string()
        })
    );
    assert_eq!(aggregator.state(), AggregatorState::PositiveDelta);
}

#[test]
fn test_materialize_known() {
    let mut aggregator_data = AggregatorData::default();
    aggregator_data.create_new_aggregator(aggregator_id_for_test(200), 200);

    let aggregator = aggregator_data
        .get_aggregator(aggregator_id_for_test(200), 200)
        .expect("Get aggregator failed");
    assert!(aggregator.try_add(100).is_ok());
    assert!(aggregator.read_and_materialize(&NoStore, &aggregator_id_for_test(200)).is_ok());
    assert_eq!(aggregator.value(), 100);
}

#[test]
fn test_materialize_overflow() {
    let mut aggregator_data = AggregatorData::default();

    // +0 to +400 satisfies <= 600 and is ok, but materialization fails
    // with 300 + 400 > 600!
    let aggregator = aggregator_data
        .get_aggregator(aggregator_id_for_test(600), 600)
        .expect("Get aggregator failed");
    assert!(aggregator.try_add(400).is_ok());
    assert_eq!(history(aggregator).max_achieved_positive, 400);
    assert_eq!(history(aggregator).min_overflow_positive, None);
    let result = aggregator.read_and_materialize(&store(), &aggregator_id_for_test(600));
    assert!(result.is_err());
    assert_eq!(
        result,
        Err(AggregatorError::Overflow { base: 300, value: 400, limit: 600 })
    );
}

#[test]
fn test_materialize_underflow() {
    let mut aggregator_data = AggregatorData::default();

    // +0 to -400 is ok, but materialization fails with 300 - 400 < 0!
    let aggregator = aggregator_data
        .get_aggregator(aggregator_id_for_test(600), 600)
        .expect("Get aggregator failed");
    assert!(aggregator.try_sub(400).is_ok());
    assert_eq!(history(aggregator).min_achieved_negative, 400);
    assert_eq!(history(aggregator).max_underflow_negative, None);
    let result = aggregator.read_and_materialize(&store(), &aggregator_id_for_test(600));
    assert!(result.is_err());
    assert_eq!(result, Err(AggregatorError::Underflow { base: 300, value: 400 }));
}

#[test]
fn test_materialize_non_monotonic_1() {
    let mut aggregator_data = AggregatorData::default();

    // +0 to +400 to +0 is ok, but materialization fails since we had 300 + 400 > 600!
    let aggregator = aggregator_data
        .get_aggregator(aggregator_id_for_test(600), 600)
        .expect("Get aggregator failed");
    assert!(aggregator.try_add(400).is_ok());
    assert!(aggregator.try_sub(300).is_ok());
    assert_eq!(aggregator.value(), 100);
    assert_eq!(aggregator.state(), AggregatorState::PositiveDelta);
    assert!(aggregator
        .read_and_materialize(&store(), &aggregator_id_for_test(600))
        .is_err());
}

#[test]
fn test_materialize_non_monotonic_2() {
    let mut aggregator_data = AggregatorData::default();

    // +0 to -301 to -300 is ok, but materialization fails since we had 300 - 301 < 0!
    let aggregator = aggregator_data
        .get_aggregator(aggregator_id_for_test(600), 600)
        .expect("Get aggregator failed");
    assert!(aggregator.try_sub(301).is_ok());
    assert!(aggregator.try_add(1).is_ok());
    assert_eq!(aggregator.value(), 300);
    assert_eq!(aggregator.state(), AggregatorState::NegativeDelta);
    assert!(aggregator
        .read_and_materialize(&store(), &aggregator_id_for_test(600))
        .is_err());
}

#[test]
fn test_add_overflow() {
    let mut aggregator_data = AggregatorData::default();

    let aggregator = aggregator_data
        .get_aggregator(aggregator_id_for_test(600), 600)
        .expect("Get aggregator failed");

    // +0 to +800 > 600!
    assert!(aggregator.try_add(800).is_err());
    assert_eq!(history(aggregator).max_achieved_positive, 0);
    assert_eq!(history(aggregator).min_overflow_positive, Some(800));

    // +0 + 300 < 600
    assert!(aggregator.try_add(300).is_ok());
    assert_eq!(history(aggregator).max_achieved_positive, 300);
    assert_eq!(history(aggregator).min_overflow_positive, Some(800));

    // +300 + 400 > 600!
    assert!(aggregator.try_add(400).is_err());
    assert_eq!(history(aggregator).max_achieved_positive, 300);
    assert_eq!(history(aggregator).min_overflow_positive, Some(700));

    let aggregator = aggregator_data
        .get_aggregator(aggregator_id_for_test(200), 200)
        .expect("Get aggregator failed");

    // 0 + 100 < 200
    assert!(aggregator.try_add(100).is_ok());
    assert_eq!(history(aggregator).max_achieved_positive, 100);
    assert_eq!(history(aggregator).min_overflow_positive, None);

    // 100 + 200 > 200!
    assert!(aggregator.try_add(200).is_err());
    assert_eq!(history(aggregator).max_achieved_positive, 100);
    assert_eq!(history(aggregator).min_overflow_positive, Some(300));

    // 100 + 150 > 200!
    assert!(aggregator.try_add(150).is_err());
    assert_eq!(history(aggregator).max_achieved_positive, 100);
    assert_eq!(history(aggregator).min_overflow_positive, Some(250));

    // 100 + u128::MAX > 200!
    assert!(aggregator.try_add(u128::MAX).is_err());
    assert_eq!(history(aggregator).max_achieved_positive, 100);
    assert_eq!(history(aggregator).min_overflow_positive, Some(250));

    let aggregator = aggregator_data
        .get_aggregator(aggregator_id_for_test(300), 300)
        .expect("Get aggregator failed");

    // 0 + 100 < 300!
    assert!(aggregator.try_add(100).is_ok());
    assert_eq!(history(aggregator).max_achieved_positive, 100);
    assert_eq!(history(aggregator).min_overflow_positive, None);

    // 100 + u128::MAX > 300!
    assert!(aggregator.try_add(u128::MAX).is_err());
    assert_eq!(history(aggregator).max_achieved_positive, 100);
    assert_eq!(history(aggregator).min_overflow_positive, None);

    // 100 + 250 > 300!
    assert!(aggregator.try_add(250).is_err());
    assert_eq!(history(aggregator).max_achieved_positive, 100);
    assert_eq!(history(aggregator).min_overflow_positive, Some(350));
}

#[test]
fn test_sub_underflow() {
    let mut aggregator_data = AggregatorData::default();
    aggregator_data.create_new_aggregator(aggregator_id_for_test(200), 200);

    // +0 to -601 is impossible!
    let aggregator = aggregator_data
        .get_aggregator(aggregator_id_for_test(600), 600)
        .expect("Get aggregator failed");
    assert!(aggregator.try_sub(700).is_err());
    assert_eq!(history(aggregator).min_achieved_negative, 0);
    assert_eq!(history(aggregator).max_underflow_negative, Some(700));

    assert!(aggregator.try_add(200).is_ok());

    assert!(aggregator.try_sub(300).is_ok());
    assert_eq!(history(aggregator).min_achieved_negative, 100);
    assert_eq!(history(aggregator).max_underflow_negative, Some(700));

    assert!(aggregator.try_sub(550).is_err());
    assert_eq!(history(aggregator).min_achieved_negative, 100);
    assert_eq!(history(aggregator).max_underflow_negative, Some(650));

    assert!(aggregator.try_sub(800).is_err());
    assert_eq!(history(aggregator).min_achieved_negative, 100);
    assert_eq!(history(aggregator).max_underflow_negative, Some(650));

    // Similarly, we cannot subtract anything from 0...
    let aggregator = aggregator_data
        .get_aggregator(aggregator_id_for_test(200), 200)
        .expect("Get aggregator failed");

    assert!(aggregator.try_sub(2).is_err());

    // Similarly, we cannot subtract anything from 0...
    let aggregator = aggregator_data
        .get_aggregator(aggregator_id_for_test(300), 300)
        .expect("Get aggregator failed");

    assert!(aggregator.try_sub(100).is_ok());
    assert_eq!(history(aggregator).min_achieved_negative, 100);

    assert!(aggregator.try_sub(u128::MAX).is_err());
    assert_eq!(history(aggregator).min_achieved_negative, 100);
    assert_eq!(history(aggregator).max_underflow_negative, None);

    assert!(aggregator.try_sub(100).is_ok());
    assert_eq!(history(aggregator).min_achieved_negative, 200);
    assert_eq!(history(aggregator).max_underflow_negative, None);

    assert!(aggregator.try_sub(101).is_err());
    assert_eq!(history(aggregator).min_achieved_negative, 200);
    assert_eq!(history(aggregator).max_underflow_negative, Some(301));
}

#[test]
fn test_commutative() {
    let mut aggregator_data = AggregatorData::default();

    // +200 -300 +50 +300 -25 +375 -600.
    let aggregator = aggregator_data
        .get_aggregator(aggregator_id_for_test(600), 600)
        .expect("Get aggregator failed");
    assert!(aggregator.try_add(200).is_ok());
    assert!(aggregator.try_sub(300).is_ok());

    assert_eq!(aggregator.value(), 100);
    assert_eq!(history(aggregator).max_achieved_positive, 200);
    assert_eq!(history(aggregator).min_achieved_negative, 100);
    assert_eq!(aggregator.state(), AggregatorState::NegativeDelta);

    assert!(aggregator.try_add(50).is_ok());
    assert!(aggregator.try_add(300).is_ok());
    assert!(aggregator.try_sub(25).is_ok());

    assert_eq!(aggregator.value(), 225);
    assert_eq!(history(aggregator).max_achieved_positive, 250);
    assert_eq!(history(aggregator).min_achieved_negative, 100);
    assert_eq!(aggregator.state(), AggregatorState::PositiveDelta);

    assert!(aggregator.try_add(375).is_ok());
    assert!(aggregator.try_sub(600).is_ok());

    assert_eq!(aggregator.value(), 0);
    assert_eq!(history(aggregator).max_achieved_positive, 600);
    assert_eq!(history(aggregator).min_achieved_negative, 100);
    assert_eq!(aggregator.state(), AggregatorState::PositiveDelta);
}

#[test]
#[should_panic]
fn test_history_validation_in_data_state() {
    let mut aggregator_data = AggregatorData::default();

    // Validation panics if history is not set. This is an invariant
    // violation and should never happen.
    aggregator_data.create_new_aggregator(aggregator_id_for_test(200), 200);
    let aggregator = aggregator_data
        .get_aggregator(aggregator_id_for_test(200), 200)
        .expect("Getting an aggregator should succeed");
    aggregator
        .validate_history(0)
        .expect("Should not be called because validation panics");
}

#[test]
fn test_history_validation_in_delta_state() {
    let mut aggregator_data = AggregatorData::default();

    // Some aggregator with a limit of 100 in a delta state.
    let id = aggregator_id_for_test(100);
    let aggregator = aggregator_data
        .get_aggregator(id, 100)
        .expect("Getting an aggregator should succeed");

    // Aggregator of +0 with minimum of -50 and maximum of +50.
    aggregator.try_add(50).unwrap();
    aggregator.try_sub(100).unwrap();
    aggregator.try_add(50).unwrap();

    // Valid history: 50+50-100+50.
    assert!(aggregator.validate_history(50).is_ok());

    // Underflow and overflow are unvalidated.
    assert!(aggregator.validate_history(49).is_err());
    assert!(aggregator.validate_history(51).is_err());
}

#[test]
fn materialize_applies_the_delta() {
    let mut aggregator = Aggregator::new_delta(600);
    aggregator.try_add(200).unwrap();
    aggregator.try_sub(350).unwrap();
    let result = aggregator.read_and_materialize(&store(), &aggregator_id_for_test(600));
    assert_eq!(result, Ok(150));
    assert_eq!(aggregator.state(), AggregatorState::Data);
    assert!(aggregator.history().is_none());
    // Once read, storage is not asked again.
    let again = aggregator.read_and_materialize(&NoStore, &aggregator_id_for_test(600));
    assert_eq!(again, Ok(150));
    let (value, state, limit, history) = aggregator.into();
    assert_eq!((value, state, limit), (150, AggregatorState::Data, 600));
    assert!(history.is_none());
}

#[test]
fn materialize_takes_the_answer_of_storage() {
    let mut aggregator = Aggregator::new_delta(150);
    aggregator.try_add(100).unwrap();
    assert_eq!(
        aggregator.materialize(Ok(60)),
        Err(AggregatorError::Overflow { base: 60, value: 100, limit: 150 })
    );
    assert_eq!(
        aggregator.materialize(Err("gone".to_string())),
        Err(AggregatorError::Extension {
            message: "Could not find the value of the aggregator: gone".to_string()
        })
    );
    assert_eq!(aggregator.value(), 100);
    assert_eq!(aggregator.materialize(Ok(30)), Ok(130));
    assert_eq!(aggregator.materialize(Err("gone".to_string())), Ok(130));
}

#[test]
fn delta_run_agrees_with_direct_run() {
    // For each value in storage, either all operations have the same outcome
    // on the value as on the delta, or the delta does not fit the value.
    let limit: u128 = 12;
    let amounts: [i64; 7] = [3, -5, 9, -20, -4, 7, -2];
    for base in 0..=limit {
        let mut delta = Aggregator::new_delta(limit);
        let mut direct = Aggregator::new_known(limit);
        direct.try_add(base).unwrap();
        let mut same = true;
        for amount in amounts {
            let size = amount.unsigned_abs() as u128;
            let (a, b) = if amount >= 0 {
                (delta.try_add(size), direct.try_add(size))
            } else {
                (delta.try_sub(size), direct.try_sub(size))
            };
            same = same && a.is_ok() == b.is_ok();
        }
        match delta.materialize(Ok(base)) {
            Ok(value) => {
                assert!(same);
                assert_eq!(value, direct.value());
            },
            Err(_) => assert!(!same),
        }
    }
}

#[test]
fn overflow_up_to_the_largest_number_is_recorded() {
    // The delta would be exactly u128::MAX.
    let mut aggregator = Aggregator::new_delta(600);
    aggregator.try_add(100).unwrap();
    assert!(aggregator.try_add(u128::MAX - 100).is_err());
    assert_eq!(history(&aggregator).min_overflow_positive, Some(u128::MAX));

    // One more, and there is no record.
    let mut aggregator = Aggregator::new_delta(600);
    aggregator.try_add(100).unwrap();
    assert!(aggregator.try_add(u128::MAX - 99).is_err());
    assert_eq!(history(&aggregator).min_overflow_positive, None);
}

#[test]
fn underflow_down_to_the_smallest_number_is_recorded() {
    let mut aggregator = Aggregator::new_delta(600);
    aggregator.try_sub(100).unwrap();
    assert!(aggregator.try_sub(u128::MAX - 100).is_err());
    assert_eq!(history(&aggregator).max_underflow_negative, Some(u128::MAX));

    let mut aggregator = Aggregator::new_delta(600);
    aggregator.try_sub(100).unwrap();
    assert!(aggregator.try_sub(u128::MAX - 99).is_err());
    assert_eq!(history(&aggregator).max_underflow_negative, None);
}

#[test]
fn negative_delta_may_rise_above_the_limit() {
    let mut aggregator = Aggregator::new_delta(10);
    aggregator.try_sub(1).unwrap();
    assert!(aggregator.try_add(100).is_ok());
    assert_eq!(aggregator.value(), 99);
    assert_eq!(aggregator.state(), AggregatorState::PositiveDelta);
    assert_eq!(history(&aggregator).min_overflow_positive, Some(99));
    assert_eq!(history(&aggregator).max_achieved_positive, 99);
    // No stored value fits it.
    for base in 0..=10 {
        assert!(aggregator.validate_history(base).is_err());
    }
}

#[test]
fn no_more_than_the_limit_can_be_taken_at_once() {
    let mut aggregator = Aggregator::new_delta(10);
    aggregator.try_add(5).unwrap();
    assert_eq!(
        aggregator.try_sub(12),
        Err(AggregatorError::Underflow { base: 10, value: 12 })
    );
    assert_eq!(aggregator.value(), 5);
    assert_eq!(history(&aggregator).max_underflow_negative, Some(12));
    assert!(aggregator.try_sub(10).is_ok());
    assert_eq!(aggregator.value(), 5);
    assert_eq!(aggregator.state(), AggregatorState::NegativeDelta);
    assert_eq!(
        aggregator.try_sub(6),
        Err(AggregatorError::Overflow { base: 5, value: 6, limit: 10 })
    );
}

#[test]
fn known_value_stays_within_bounds() {
    let mut aggregator = Aggregator::new_known(10);
    assert_eq!(aggregator.try_add(10), Ok(()));
    assert_eq!(
        aggregator.try_add(1),
        Err(AggregatorError::Overflow { base: 10, value: 1, limit: 10 })
    );
    assert_eq!(aggregator.try_sub(4), Ok(()));
    assert_eq!(
        aggregator.try_sub(7),
        Err(AggregatorError::Underflow { base: 6, value: 7 })
    );
    assert_eq!(aggregator.value(), 6);
}

#[test]
fn extremes_of_the_history_decide() {
    let mut aggregator = Aggregator::new_delta(600);
    let mut deltas = vec![0i64];
    for change in [200i64, -300, 50, 300, -25] {
        if change >= 0 {
            aggregator.try_add(change as u128).unwrap();
        } else {
            aggregator.try_sub(-change as u128).unwrap();
        }
        deltas.push(deltas[deltas.len() - 1] + change);
    }
    assert_eq!(deltas, vec![0, 200, -100, -50, 250, 225]);
    assert_eq!(history(&aggregator).max_achieved_positive, 250);
    assert_eq!(history(&aggregator).min_achieved_negative, 100);
    for base in 0..=600i64 {
        let fits = deltas.iter().all(|delta| (0..=600).contains(&(base + delta)));
        assert_eq!(fits, (100..=350).contains(&base));
        assert_eq!(aggregator.validate_history(base as u128).is_ok(), fits);
    }
}

#[test]
fn order_of_operations_is_irrelevant() {
    let mut first = Aggregator::new_delta(100);
    first.try_add(30).unwrap();
    first.try_sub(50).unwrap();
    first.try_add(5).unwrap();
    let mut second = Aggregator::new_delta(100);
    second.try_sub(50).unwrap();
    second.try_add(5).unwrap();
    second.try_add(30).unwrap();
    assert_eq!(first.value(), 15);
    assert_eq!(second.value(), 15);
    assert_eq!(first.state(), second.state());
    assert_eq!(first.materialize(Ok(70)), Ok(55));
    assert_eq!(second.materialize(Ok(70)), Ok(55));
}

#[test]
fn arithmetic_with_limits() {
    assert_eq!(addition(3, 4, 7), Ok(7));
    assert_eq!(
        addition(3, 5, 7),
        Err(AggregatorError::Overflow { base: 3, value: 5, limit: 7 })
    );
    assert_eq!(
        addition(8, 0, 7),
        Err(AggregatorError::Overflow { base: 8, value: 0, limit: 7 })
    );
    assert_eq!(addition(u128::MAX, 0, u128::MAX), Ok(u128::MAX));
    assert!(addition(u128::MAX, 1, u128::MAX).is_err());
    assert_eq!(subtraction(4, 3), Ok(1));
    assert_eq!(
        subtraction(3, 4),
        Err(AggregatorError::Underflow { base: 3, value: 4 })
    );
}

#[test]
fn extension_error_carries_the_message() {
    assert_eq!(
        extension_error("broken"),
        AggregatorError::Extension { message: "broken".to_string() }
    );
}

#[test]
fn history_keeps_extremes() {
    let mut seen = History::new();
    seen.record_success_positive(4);
    seen.record_success_positive(2);
    seen.record_success_negative(3);
    seen.record_success_negative(1);
    seen.record_overflow_positive(9);
    seen.record_overflow_positive(11);
    seen.record_underflow_negative(8);
    seen.record_underflow_negative(7);
    assert_eq!(seen.max_achieved_positive, 4);
    assert_eq!(seen.min_achieved_negative, 3);
    assert_eq!(seen.min_overflow_positive, Some(9));
    assert_eq!(seen.max_underflow_negative, Some(7));
}

#[test]
fn aggregator_in_data_keeps_its_limit() {
    let id = AggregatorID::ephemeral(1);
    let mut data = AggregatorData::new(0);
    data.create_new_aggregator(id, 10);
    let aggregator = data.get_aggregator(id, 99).unwrap();
    assert!(aggregator.try_add(11).is_err());
    assert!(aggregator.try_add(10).is_ok());
    assert_eq!(data.get_aggregator(id, 5).unwrap().value(), 10);
    assert_eq!(data.num_aggregators(), 1);
}

#[test]
fn created_and_removed_leaves_no_trace() {
    let mut data = AggregatorData::default();
    data.create_new_aggregator(AggregatorID::ephemeral(1), 10);
    data.remove_aggregator(AggregatorID::ephemeral(1));
    data.create_new_aggregator(AggregatorID::ephemeral(2), 10);
    data.get_aggregator(AggregatorID::ephemeral(3), 10).unwrap();
    data.get_aggregator(aggregator_id_for_test(4), 10).unwrap();
    data.remove_aggregator(AggregatorID::ephemeral(3));
    data.remove_aggregator(AggregatorID::ephemeral(3));
    data.remove_aggregator(AggregatorID::ephemeral(0));
    assert_eq!(data.num_aggregators(), 2);
    let (created, destroyed, aggregators) = data.into();
    assert_eq!(created, vec![AggregatorID::ephemeral(2)]);
    assert_eq!(destroyed, vec![AggregatorID::ephemeral(0), AggregatorID::ephemeral(3)]);
    // Those of tables come first.
    let ids: Vec<AggregatorID> = aggregators.iter().map(|entry| entry.0).collect();
    assert_eq!(ids, vec![aggregator_id_for_test(4), AggregatorID::ephemeral(2)]);
}

#[test]
fn generated_ids_are_distinct() {
    let mut data = AggregatorData::new(5);
    assert_eq!(data.generate_id(), 6);
    assert_eq!(data.generate_id(), 7);
    assert_eq!(data.id_counter, 7);
}

#[test]
fn unpacked_data_are_ordered() {
    let mut data = AggregatorData::default();
    for key in [9u64, 3, 7, 1, 8, 2, 6, 0, 5, 4] {
        data.create_new_aggregator(AggregatorID::ephemeral(key), key as u128);
    }
    for key in [3u64, 8] {
        data.remove_aggregator(AggregatorID::ephemeral(key));
    }
    let (created, destroyed, aggregators) = data.into();
    let keys: Vec<AggregatorID> =
        [0u64, 1, 2, 4, 5, 6, 7, 9].iter().map(|key| AggregatorID::ephemeral(*key)).collect();
    assert_eq!(created, keys);
    assert!(destroyed.is_empty());
    assert_eq!(aggregators.len(), 8);
    assert!(created.iter().all(|id| aggregators.iter().any(|entry| entry.0 == *id)));
    for (i, (id, aggregator)) in aggregators.into_iter().enumerate() {
        assert_eq!(id, keys[i]);
        let (value, state, limit, _) = aggregator.into();
        assert_eq!((value, state), (0, AggregatorState::Data));
        assert_eq!(AggregatorID::ephemeral(limit as u64), id);
    }
}

#[test]
fn state_key_is_that_of_the_table_item() {
    let key = address(7u128.to_le_bytes());
    let table = TableHandle(address(9u128.to_le_bytes()));
    let id = AggregatorID::legacy(table, AggregatorHandle(key));
    let state_key = id.as_state_key().unwrap();
    assert_eq!(state_key.handle, table);
    assert_eq!(state_key.key, key.0.to_vec());
    assert!(AggregatorID::ephemeral(7).as_state_key().is_none());
}

#[test]
fn order_of_ids_is_the_derived_one() {
    let mut ids = vec![AggregatorID::ephemeral(0), AggregatorID::ephemeral(3)];
    for table in [0u128, 1, 256, u128::MAX] {
        for key in [0u128, 2, 511] {
            ids.push(AggregatorID::legacy(
                TableHandle(address(table.to_le_bytes())),
                AggregatorHandle(address(key.to_le_bytes())),
            ));
        }
    }
    for a in &ids {
        for b in &ids {
            let expected = if a < b {
                Relation::Before
            } else if a == b {
                Relation::Same
            } else {
                Relation::After
            };
            assert_eq!(a.relate(b), expected);
        }
    }
}
