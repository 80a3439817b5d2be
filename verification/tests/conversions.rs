//! The converters: network addresses, chain names, the ordered map and
//! set representations, and the project-reader decisions.

use fuzzcheck::mutators::btreemap::{avec_from_btreemap, btreemap_from_avec};
use fuzzcheck::mutators::btreeset::{avec_from_btreeset, btreeset_from_avec};
use fuzzcheck::mutators::net::{
    ipv4_from_u32, ipv4_to_u32, new_ip_addr_mutator, IpAddress, SockAddress, DEFAULT_PORT,
};
use fuzzcheck::mutators::string::{ChainName, ChainNameStringMutator, ChainNameToStringConverter};
use fuzzcheck::project::{collect_fuzz_targets, FuzzTargetError, FuzzTargetsError, TargetOutcome};
use fuzzcheck::traits::{Mutator, MutatorValueConverter};

#[test]
fn test_ipv4_round_trip() {
    let ip = ipv4_from_u32(0x01020304);
    assert_eq!(ip, IpAddress::V4(1, 2, 3, 4));
    assert_eq!(ipv4_to_u32(&ip), 0x01020304);
    assert_eq!(ipv4_to_u32(&ipv4_from_u32(99)), 99);
}

#[test]
fn test_ipaddr_mutator_domain() {
    let m = new_ip_addr_mutator(100);
    let mut value = ipv4_from_u32(55);
    let mut cache = m.validate_value(&value).unwrap();
    let (token, _cplx) = m.random_mutate(&mut value, &mut cache, 1000);
    match value {
        IpAddress::V4(_, _, _, _) => {},
        IpAddress::V6 => panic!("mutation left the modeled domain"),
    }
    m.unmutate(&mut value, &mut cache, token);
    assert_eq!(value, ipv4_from_u32(55));
    // out-of-domain values are rejected
    assert!(m.validate_value(&IpAddress::V6).is_none());
    assert!(m.validate_value(&ipv4_from_u32(1000)).is_none());
}

#[test]
fn test_socket_addr_values() {
    let s = SockAddress { ip: ipv4_from_u32(7), port: DEFAULT_PORT };
    assert_eq!(s.port, 12345);
}

#[test]
fn test_chain_name_converter() {
    let conv = ChainNameToStringConverter::new();
    let s = conv.from_inner_value_ref(&ChainName::Mainnet);
    assert_eq!(s, "TEZOS_MAINNET");
    assert_eq!(conv.try_to_inner(&s), Some(ChainName::Mainnet));
    assert_eq!(conv.try_to_inner(&String::from("other")), None);
}

#[test]
fn test_chain_name_string_mutator() {
    let m = ChainNameStringMutator::new();
    let value = String::from("TEZOS_MAINNET");
    let cache = m.wrapped_mutator().validate_value(&value).unwrap();
    assert_eq!(m.wrapped_mutator().complexity(&value, &cache), 0);
    assert!(m.wrapped_mutator().validate_value(&String::from("nope")).is_none());
}

#[test]
fn test_btreemap_conversions() {
    // a later entry with the same key replaces an earlier one
    let m = btreemap_from_avec(vec![(3u64, 'c'), (1u64, 'a'), (3u64, 'z')]);
    let entries = avec_from_btreemap(m).unwrap();
    assert_eq!(entries.len(), 2);
    assert_eq!(entries[0].0, 1);
    assert_eq!(entries[1].0, 3);
    assert_eq!(entries[1].1, 'z');
}

#[test]
fn test_btreeset_conversions() {
    let s = btreeset_from_avec(vec![5, 1, 5, 9, 1]);
    let elements = avec_from_btreeset(s).unwrap();
    assert_eq!(elements, vec![1, 5, 9]);
}

#[test]
fn test_collect_fuzz_targets() {
    // per-file errors accumulate; the load fails only when nothing loads
    let all_failed = vec![
        TargetOutcome::Failed(FuzzTargetError::ExtensionError(String::from("a.txt"))),
        TargetOutcome::Failed(FuzzTargetError::IoError(String::from("b.rs"))),
    ];
    match collect_fuzz_targets(all_failed) {
        Err(FuzzTargetsError::NoFuzzTargets(errors)) => assert_eq!(errors.len(), 2),
        _ => panic!("expected the whole load to fail"),
    }
    let one_ok = vec![
        TargetOutcome::Failed(FuzzTargetError::ExtensionError(String::from("a.txt"))),
        TargetOutcome::Loaded(String::from("t.rs"), vec![1, 2]),
    ];
    match collect_fuzz_targets(one_ok) {
        Ok(targets) => {
            assert_eq!(targets.len(), 1);
            assert_eq!(targets[0].0, "t.rs");
        },
        Err(_) => panic!("one readable target is enough"),
    }
}
