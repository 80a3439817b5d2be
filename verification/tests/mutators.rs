//! Mutator round trips: values, caches and complexities are restored
//! exactly by unmutate.

use fuzzcheck::mutators::duration::{duration_from_u64, new_duration_mutator, u64_from_duration, Duration};
use fuzzcheck::mutators::fixed_len_vector::FixedLenVecMutator;
use fuzzcheck::mutators::integer::{U64Mutator, U8Mutator};
use fuzzcheck::mutators::integer_within_range::U32WithinRangeMutator;
use fuzzcheck::mutators::alternation::{AltToken, AlternationMutator};
use fuzzcheck::mutators::vector::{UnmutateVecToken, VecMutator};
use fuzzcheck::mutators::fixed_len_vector::UnmutateVecToken as FixedUnmutateVecToken;
use fuzzcheck::traits::Mutator;

#[test]
fn test_u8_round_trip() {
    let m = U8Mutator::new();
    let mut value: u8 = 42;
    let mut cache = m.validate_value(&value).unwrap();
    let before = value;
    let (token, cplx) = m.random_mutate(&mut value, &mut cache, 100);
    assert_eq!(cplx, 8);
    assert_ne!(value, before);
    m.unmutate(&mut value, &mut cache, token);
    assert_eq!(value, before);
}

#[test]
fn test_u8_complexity_bounds() {
    let m = U8Mutator::new();
    let value: u8 = 7;
    let cache = m.validate_value(&value).unwrap();
    let c = m.complexity(&value, &cache);
    assert!(m.min_complexity() <= c && c <= m.max_complexity());
    assert_eq!(c, 8);
}

#[test]
fn test_vector_element_mutation_round_trip() {
    // a vector of bytes with length bound 0..=10, starting at [1, 2, 3]
    let m = VecMutator::new(U8Mutator::new(), 0, 10);
    let mut value: Vec<u8> = vec![1, 2, 3];
    let mut cache = m.validate_value(&value).unwrap();
    let original_sum = cache.sum_cplx;
    assert_eq!(original_sum, 1 + 3 * 8);
    // force the element-mutation path on index 1
    let mut step: usize = 1;
    let (token, _cplx) = m
        .ordered_mutate(&mut value, &mut cache, &mut step, 1000)
        .unwrap();
    match &token {
        UnmutateVecToken::Element(idx, _) => assert_eq!(*idx, 1),
        _ => panic!("expected an element mutation"),
    }
    assert_eq!(value[0], 1);
    assert_eq!(value[2], 3);
    assert_ne!(value[1], 2);
    m.unmutate(&mut value, &mut cache, token);
    assert_eq!(value, vec![1, 2, 3]);
    assert_eq!(cache.sum_cplx, original_sum);
}

#[test]
fn test_vector_insert_remove_round_trip() {
    let m = VecMutator::new(U8Mutator::new(), 0, 10);
    for _ in 0..200 {
        let mut value: Vec<u8> = vec![5, 6];
        let mut cache = m.validate_value(&value).unwrap();
        let (token, cplx) = m.random_mutate(&mut value, &mut cache, 1000);
        let recheck = m.validate_value(&value).unwrap();
        assert_eq!(recheck.sum_cplx, cplx);
        m.unmutate(&mut value, &mut cache, token);
        assert_eq!(value, vec![5, 6]);
        assert_eq!(cache.sum_cplx, 1 + 2 * 8);
    }
}

#[test]
fn test_fixed_len_vector_round_trip() {
    let m = FixedLenVecMutator::new(vec![U8Mutator::new(), U8Mutator::new(), U8Mutator::new()]);
    let mut value: Vec<u8> = vec![9, 8, 7];
    let mut cache = m.validate_value(&value).unwrap();
    assert_eq!(cache.sum_cplx, 24);
    let (token, _cplx) = m.random_mutate(&mut value, &mut cache, 1000);
    assert_eq!(value.len(), 3);
    m.unmutate(&mut value, &mut cache, token);
    assert_eq!(value, vec![9, 8, 7]);
    assert_eq!(cache.sum_cplx, 24);
}

#[test]
fn test_fixed_len_vector_rejects_wrong_length() {
    let m = FixedLenVecMutator::new(vec![U8Mutator::new(), U8Mutator::new()]);
    assert!(m.validate_value(&vec![1, 2, 3]).is_none());
    assert!(m.validate_value(&vec![1, 2]).is_some());
}

#[test]
fn test_duration_map_round_trip() {
    // start at ten seconds; the underlying integer is mutated and the
    // outer duration mirrors it
    let m = new_duration_mutator();
    let mut value = Duration::from_secs(10);
    let mut cache = m.validate_value(&value).unwrap();
    assert_eq!(cache.from_value, 10);
    let (token, _cplx) = m.random_mutate(&mut value, &mut cache, 1000);
    assert_ne!(value.as_secs(), 10);
    assert_eq!(value.nanos, 0);
    m.unmutate(&mut value, &mut cache, token);
    assert_eq!(value, Duration::from_secs(10));
    assert_eq!(cache.from_value, 10);
}

#[test]
fn test_duration_conversions() {
    assert_eq!(u64_from_duration(&Duration::from_secs(42)), Some(42));
    assert_eq!(duration_from_u64(&42).as_secs(), 42);
    let with_nanos = Duration { secs: 1, nanos: 5 };
    assert_eq!(u64_from_duration(&with_nanos), None);
}

#[test]
fn test_alternation_replace_round_trip() {
    // an alternation of two disjoint single-value ranges; a substitution
    // carries the previous value in its token
    let m = AlternationMutator::new(vec![
        U32WithinRangeMutator::new(97, 97),
        U32WithinRangeMutator::new(98, 98),
    ]);
    let mut saw_replace = false;
    for _ in 0..10_000 {
        let mut value: u32 = 97;
        let mut cache = m.validate_value(&value).unwrap();
        assert_eq!(cache.idx, 0);
        let (token, _cplx) = m.random_mutate(&mut value, &mut cache, 1000);
        if let AltToken::Replace(old, _) = &token {
            assert_eq!(*old, 97);
            saw_replace = true;
            m.unmutate(&mut value, &mut cache, token);
            assert_eq!(value, 97);
            assert_eq!(cache.idx, 0);
            break;
        }
        m.unmutate(&mut value, &mut cache, token);
        assert_eq!(value, 97);
    }
    assert!(saw_replace);
}

#[test]
fn test_u64_mutator_budget() {
    let m = U64Mutator::new();
    assert_eq!(m.min_complexity(), 64);
    let mut step: u64 = 0;
    assert!(m.ordered_arbitrary(&mut step, 10).is_none());
    assert!(m.ordered_arbitrary(&mut step, 64).is_some());
}

#[test]
fn test_vector_batch_mutation_round_trip() {
    // a batch of element mutations is undone front to back
    let m = VecMutator::new(U8Mutator::new(), 0, 10);
    let mut value: Vec<u8> = vec![1, 2, 3, 4];
    let mut cache = m.validate_value(&value).unwrap();
    let idcs: Vec<usize> = vec![0, 2, 0];
    let (token, cplx) = m.mutate_elements(&mut value, &mut cache, &idcs, 1000);
    assert_eq!(value.len(), 4);
    let recheck = m.validate_value(&value).unwrap();
    assert_eq!(recheck.sum_cplx, cplx);
    match &token {
        UnmutateVecToken::Elements(ts) => assert_eq!(ts.len(), 3),
        _ => panic!("expected a batch token"),
    }
    m.unmutate(&mut value, &mut cache, token);
    assert_eq!(value, vec![1, 2, 3, 4]);
    assert_eq!(cache.sum_cplx, 1 + 4 * 8);
}

#[test]
fn test_fixed_len_batch_mutation_round_trip() {
    let m = FixedLenVecMutator::new(vec![U8Mutator::new(), U8Mutator::new(), U8Mutator::new()]);
    let mut value: Vec<u8> = vec![7, 8, 9];
    let mut cache = m.validate_value(&value).unwrap();
    let idcs: Vec<usize> = vec![2, 1];
    let (token, _cplx) = m.mutate_elements(&mut value, &mut cache, &idcs, 1000);
    match &token {
        FixedUnmutateVecToken::Elements(ts) => assert_eq!(ts.len(), 2),
        _ => panic!("expected a batch token"),
    }
    m.unmutate(&mut value, &mut cache, token);
    assert_eq!(value, vec![7, 8, 9]);
    assert_eq!(cache.sum_cplx, 24);
}
