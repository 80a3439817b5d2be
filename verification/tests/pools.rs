//! The pools: best-per-counter tracking, progress-weighted composition,
//! single-best storage, and the shared plain types.

use fuzzcheck::sensors_and_pools::and_sensor_and_pool::{AndPool, SameObservations};
use fuzzcheck::sensors_and_pools::maximise_observation_pool::MaximiseObservationPool;
use fuzzcheck::sensors_and_pools::maximize_pool::CounterMaximizingPool;
use fuzzcheck::sensors_and_pools::unit_pool::UnitPool;
use fuzzcheck::traits::{
    CSVField, CompatibleWithObservations, CorpusDelta, FuzzerEvent, Pool, PoolStorageIndex,
    WEIGHT_SCALE,
};

#[test]
fn test_counter_pool_tie_break() {
    // two counters; a tying observation at lower complexity evicts
    let mut pool = CounterMaximizingPool::new("a", 2);
    let d1 = pool.process_observations(PoolStorageIndex::mock(0), &vec![(0usize, 5u64)], 3);
    assert_eq!(d1.len(), 1);
    assert!(d1[0].add);
    assert_eq!(d1[0].remove.len(), 0);
    // the second input ties the counter at lower complexity
    let d2 = pool.process_observations(PoolStorageIndex::mock(1), &vec![(0usize, 5u64)], 2);
    assert_eq!(d2.len(), 1);
    assert!(d2[0].add);
    assert_eq!(d2[0].remove, vec![PoolStorageIndex::mock(0)]);
    // the first input lost its only counter and was evicted
    assert!(pool.inputs[0].is_none());
    assert_eq!(pool.best_input_for_counter[0], Some(1));
    assert_eq!(pool.highest_counts[0], 5);
    assert_eq!(pool.complexities[0], 2);
    // a higher count always displaces
    let d3 = pool.process_observations(PoolStorageIndex::mock(2), &vec![(0usize, 9u64)], 7);
    assert_eq!(d3[0].remove, vec![PoolStorageIndex::mock(1)]);
    // a lower count is rejected outright
    let d4 = pool.process_observations(PoolStorageIndex::mock(3), &vec![(0usize, 4u64)], 1);
    assert!(d4.is_empty());
}

#[test]
fn test_counter_pool_multiple_counters() {
    let mut pool = CounterMaximizingPool::new("b", 5);
    let _ = pool.process_observations(PoolStorageIndex::mock(0), &vec![(1usize, 4u64)], 10);
    let _ = pool.process_observations(PoolStorageIndex::mock(1), &vec![(2usize, 2u64)], 10);
    // the third input takes over both counters; both prior inputs go
    let d = pool.process_observations(
        PoolStorageIndex::mock(2),
        &vec![(1usize, 7u64), (2usize, 7u64)],
        5,
    );
    assert_eq!(d.len(), 1);
    assert_eq!(d[0].remove.len(), 2);
    let idx = pool.get_random_index();
    assert_eq!(idx, Some(PoolStorageIndex::mock(2)));
}

#[test]
fn test_counter_pool_dead_end() {
    let mut pool = CounterMaximizingPool::new("c", 2);
    let _ = pool.process_observations(PoolStorageIndex::mock(0), &vec![(0usize, 5u64)], 3);
    pool.mark_test_case_as_dead_end(PoolStorageIndex::mock(0));
    // the input keeps its counter but is never sampled again
    assert_eq!(pool.best_input_for_counter[0], Some(0));
    assert_eq!(pool.get_random_index(), None);
}

#[test]
fn test_and_pool_decay() {
    // both pools at configured weight one; sampling without progress
    // decays the effective weights
    let p1 = UnitPool::new(PoolStorageIndex::mock(7));
    let p2 = UnitPool::new(PoolStorageIndex::mock(8));
    let mut and_pool: AndPool<UnitPool, UnitPool, SameObservations> =
        AndPool::new(p1, p2, WEIGHT_SCALE, WEIGHT_SCALE);
    for _ in 0..256 {
        let idx = and_pool.get_random_index();
        assert!(idx.is_some());
    }
    let k1 = and_pool.p1_number_times_chosen_since_last_progress;
    let k2 = and_pool.p2_number_times_chosen_since_last_progress;
    assert_eq!(k1 + k2, 256 + 2);
    assert_eq!(and_pool.p1_effective(), WEIGHT_SCALE / k1);
    assert_eq!(and_pool.p2_effective(), WEIGHT_SCALE / k2);
}

#[test]
fn test_and_pool_progress_resets_weight() {
    // after a pool reports a non-empty delta its weight is restored
    let p1 = MaximiseObservationPool::new("m");
    let p2 = UnitPool::new(PoolStorageIndex::mock(9));
    let mut and_pool: AndPool<MaximiseObservationPool, UnitPool, SameObservations> =
        AndPool::new(p1, p2, WEIGHT_SCALE, WEIGHT_SCALE);
    for _ in 0..64 {
        let _ = and_pool.get_random_index();
    }
    assert!(
        and_pool.p1_number_times_chosen_since_last_progress > 1
            || and_pool.p2_number_times_chosen_since_last_progress > 1
    );
    // a synthetic progress event on the first pool
    let deltas = and_pool.process(PoolStorageIndex::mock(3), &17u64, 4);
    assert!(!deltas.is_empty());
    assert_eq!(and_pool.p1_number_times_chosen_since_last_progress, 1);
    assert_eq!(and_pool.p1_effective(), WEIGHT_SCALE);
}

#[test]
fn test_maximise_observation_pool() {
    let mut pool = MaximiseObservationPool::new("best");
    assert_eq!(pool.get_random_index(), None);
    let d1 = pool.process(PoolStorageIndex::mock(0), &10u64, 5);
    assert_eq!(d1.len(), 1);
    assert!(d1[0].remove.is_empty());
    // an equal value at higher complexity is rejected
    let d2 = pool.process(PoolStorageIndex::mock(1), &10u64, 9);
    assert!(d2.is_empty());
    // an equal value at lower complexity displaces
    let d3 = pool.process(PoolStorageIndex::mock(2), &10u64, 2);
    assert_eq!(d3[0].remove, vec![PoolStorageIndex::mock(0)]);
    // a higher value displaces
    let d4 = pool.process(PoolStorageIndex::mock(3), &11u64, 9);
    assert_eq!(d4[0].remove, vec![PoolStorageIndex::mock(2)]);
    assert_eq!(pool.get_random_index(), Some(PoolStorageIndex::mock(3)));
}

#[test]
fn test_unit_pool() {
    let mut pool = UnitPool::new(PoolStorageIndex::mock(4));
    assert_eq!(pool.get_random_index(), Some(PoolStorageIndex::mock(4)));
    let deltas = pool.process(PoolStorageIndex::mock(5), &1u64, 1);
    assert!(deltas.is_empty());
}

#[test]
fn test_csv_record_bytes() {
    let fields = vec![CSVField::Integer(12), CSVField::String(String::from("ab"))];
    let bytes = CSVField::to_bytes(&fields);
    assert_eq!(bytes, b"12,\"ab\",\n".to_vec());
    let negative = vec![CSVField::Integer(-3)];
    assert_eq!(CSVField::to_bytes(&negative), b"-3,\n".to_vec());
}

#[test]
fn test_fuzzer_event_from_deltas() {
    let empty: Vec<CorpusDelta> = vec![];
    assert_eq!(CorpusDelta::fuzzer_event(&empty), FuzzerEvent::NoChange);
    let deltas = vec![CorpusDelta {
        path: String::from("p"),
        add: true,
        remove: vec![PoolStorageIndex::mock(0), PoolStorageIndex::mock(1)],
    }];
    assert_eq!(CorpusDelta::fuzzer_event(&deltas), FuzzerEvent::Replace(1, 2));
}
