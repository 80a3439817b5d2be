//! Exercises carried over from the pools and the fixed-length and address
//! mutators, driven end to end.

use fuzzcheck::mutators::fixed_len_vector::FixedLenVecMutator;
use fuzzcheck::mutators::integer::U8Mutator;
use fuzzcheck::mutators::net::{new_ip_addr_mutator, new_socket_addr_mutator, ipv4_from_u32, SockAddress, DEFAULT_PORT};
use fuzzcheck::sensors_and_pools::maximize_pool::CounterMaximizingPool;
use fuzzcheck::traits::{Mutator, Pool, PoolStorageIndex};

#[test]
fn test_constrained_length_mutator() {
    let m = FixedLenVecMutator::<u8, U8Mutator>::new_with_repeated_mutator(U8Mutator::default(), 3);
    for _ in 0..100 {
        let (x, _) = m.ordered_arbitrary(&mut (), 800).unwrap();
        println!("{:?}", x);
        assert_eq!(x.len(), 3);
    }
}

#[test]
fn test_ipaddr_mutator() {
    let m = new_ip_addr_mutator(100);
    for _ in 0..99 {
        let mut value = ipv4_from_u32(50);
        let mut cache = m.validate_value(&value).unwrap();
        let (token, _cplx) = m.random_mutate(&mut value, &mut cache, 99);
        m.unmutate(&mut value, &mut cache, token);
        assert_eq!(value, ipv4_from_u32(50));
    }
}

#[test]
fn test_socketaddr_mutator() {
    let m = new_socket_addr_mutator(100);
    for _ in 0..99 {
        let mut value = SockAddress { ip: ipv4_from_u32(50), port: DEFAULT_PORT };
        let mut cache = m.validate_value(&value).unwrap();
        let (token, _cplx) = m.random_mutate(&mut value, &mut cache, 99);
        m.unmutate(&mut value, &mut cache, token);
        assert_eq!(value.ip, ipv4_from_u32(50));
    }
}

#[test]
fn test_basic_pool_1() {
    // complexities in hundredths of a unit
    let mut pool = CounterMaximizingPool::new("a", 5);
    let index = pool.get_random_index();
    println!("{:?}", index);

    let event = pool.process_observations(PoolStorageIndex::mock(0), &vec![(1usize, 2u64)], 121);
    println!("event: {:?}", event);
    let index = pool.get_random_index();
    println!("{:?}", index);

    // replace: same count at lower complexity
    let event = pool.process_observations(PoolStorageIndex::mock(0), &vec![(1usize, 2u64)], 111);
    println!("event: {:?}", event);
    let index = pool.get_random_index();
    println!("{:?}", index);
}

#[test]
fn test_basic_pool_2() {
    let mut pool = CounterMaximizingPool::new("b", 5);

    let _ = pool.process_observations(PoolStorageIndex::mock(0), &vec![(1usize, 4u64)], 121);
    let _ = pool.process_observations(PoolStorageIndex::mock(1), &vec![(2usize, 2u64)], 221);
    let event = pool.process_observations(PoolStorageIndex::mock(2), &vec![(3usize, 2u64)], 321);
    println!("event: {:?}", event);
    let index = pool.get_random_index();
    println!("{:?}", index);

    // replace
    let event = pool.process_observations(
        PoolStorageIndex::mock(3),
        &vec![(2usize, 3u64), (3usize, 3u64)],
        111,
    );
    println!("event: {:?}", event);

    let mut counts = [0usize; 10];
    for _ in 0..100 {
        let index = pool.get_random_index().unwrap();
        counts[index.0] += 1;
    }
    println!("{:?}", counts);

    // replace
    let event = pool.process_observations(
        PoolStorageIndex::mock(5),
        &vec![(0usize, 3u64), (3usize, 4u64), (4usize, 1u64)],
        441,
    );
    println!("event: {:?}", event);

    let mut counts = [0usize; 10];
    for _ in 0..10000 {
        let index = pool.get_random_index().unwrap();
        counts[index.0] += 1;
    }
    println!("{:?}", counts);

    // replace
    let event = pool.process_observations(
        PoolStorageIndex::mock(6),
        &vec![(0usize, 3u64), (3usize, 4u64), (4usize, 1u64), (1usize, 7u64), (2usize, 8u64)],
        11,
    );
    println!("event: {:?}", event);

    let mut counts = [0usize; 10];
    for _ in 0..10000 {
        let index = pool.get_random_index().unwrap();
        counts[index.0] += 1;
    }
    println!("{:?}", counts);

    // replace
    let event = pool.process_observations(PoolStorageIndex::mock(7), &vec![(0usize, 10u64)], 151);
    println!("event: {:?}", event);

    let mut counts = [0usize; 10];
    for _ in 0..10000 {
        let index = pool.get_random_index().unwrap();
        counts[index.0] += 1;
    }
    println!("{:?}", counts);
}
