use lit_happ::address::{Address, AgentKey};
use lit_happ::cell::Cell;
use lit_happ::payload::{Payload, PayloadKind};
use lit_happ::signal_protocol::ExampleSignalProtocol;
use lit_happ::store::{ContentStore, StoreError};

fn agent(b: u8) -> AgentKey {
    AgentKey { bytes: vec![b; 39] }
}

fn absent_address() -> Address {
    Address { bytes: vec![0xab; 32] }
}

#[test]
fn example_scenario_two_integers() {
    let mut cell = Cell::new();
    let a = agent(1);
    let h1 = cell.create_integer(&a, 42).unwrap();
    let h2 = cell.create_integer(&a, 7).unwrap();
    assert_ne!(h1.bytes, h2.bytes);
    let all = cell.get_my_values(&a).unwrap();
    let values: Vec<u32> = all.iter().map(|p| p.1).collect();
    assert_eq!(values, vec![42, 7]);
    assert_eq!(all[0].0.bytes, h1.bytes);
    assert_eq!(all[1].0.bytes, h2.bytes);
    let fresh = cell.get_my_values_incremental(&a, &vec![h1.clone()]).unwrap();
    assert_eq!(fresh.len(), 1);
    assert_eq!(fresh[0].0.bytes, h2.bytes);
    assert_eq!(fresh[0].1, 7);
}

#[test]
fn address_is_digest_of_serialized_bytes() {
    let bytes = Payload::Integer(42).encode().unwrap();
    assert_eq!(bytes, vec![0x2a]);
    let mut store = ContentStore::new();
    let a = store.create(Payload::Integer(42)).unwrap();
    assert_eq!(a.bytes.len(), 32);
    assert_ne!(a.bytes, bytes);
    assert_eq!(a.bytes, hdk::prelude::holo_hash::encode::blake2b_256(&bytes));
}

#[test]
fn label_serializes_as_msgpack_string() {
    let bytes = Payload::Label("ab".to_string()).encode().unwrap();
    assert_eq!(bytes, vec![0xa2, b'a', b'b']);
}

#[test]
fn creating_twice_gives_one_address() {
    let mut cell = Cell::new();
    let a = agent(1);
    let first = cell.create_integer(&a, 5).unwrap();
    let second = cell.create_integer(&a, 5).unwrap();
    assert_eq!(first.bytes, second.bytes);
    assert_eq!(cell.get_integer(&first), Ok(5));
    // Each create appends a link, so the value is listed twice.
    assert_eq!(cell.get_my_dummies(&a), Ok(vec![5, 5]));
}

#[test]
fn round_trip_integer_and_label() {
    let mut cell = Cell::new();
    let a = agent(2);
    let h = cell.create_integer(&a, 123456).unwrap();
    assert_eq!(cell.get_integer(&h), Ok(123456));
    let l = cell.create_label(&a, "hello".to_string()).unwrap();
    assert_eq!(cell.get_label(&l), Ok("hello".to_string()));
    match cell.get(&l, PayloadKind::Label) {
        Ok(Payload::Label(s)) => assert_eq!(s, "hello"),
        other => panic!("unexpected {:?}", other),
    }
}

#[test]
fn index_lists_in_creation_order() {
    let mut cell = Cell::new();
    let a = agent(3);
    for v in [9u32, 1, 300, 70000, 2] {
        cell.create_dummy(&a, v).unwrap();
    }
    assert_eq!(cell.get_my_dummies(&a), Ok(vec![9, 1, 300, 70000, 2]));
    let mine = cell.list_mine(&a, 0, PayloadKind::Integer).unwrap();
    assert_eq!(mine.len(), 5);
}

#[test]
fn labels_list_in_creation_order() {
    let mut cell = Cell::new();
    let a = agent(3);
    cell.create_label(&a, "x".to_string()).unwrap();
    cell.create_label(&a, "y".to_string()).unwrap();
    assert_eq!(cell.get_my_labels(&a), Ok(vec!["x".to_string(), "y".to_string()]));
}

#[test]
fn empty_index_lists_nothing() {
    let cell = Cell::new();
    assert_eq!(cell.get_my_values(&agent(4)), Ok(vec![]));
    assert_eq!(cell.get_my_labels(&agent(4)), Ok(vec![]));
}

#[test]
fn other_owner_sees_nothing() {
    let mut cell = Cell::new();
    cell.create_integer(&agent(1), 10).unwrap();
    assert_eq!(cell.get_my_values(&agent(2)).unwrap().len(), 0);
    assert_eq!(cell.get_my_values(&agent(1)).unwrap().len(), 1);
}

#[test]
fn other_tag_sees_nothing() {
    let mut cell = Cell::new();
    let a = agent(1);
    cell.create(&a, Payload::Integer(10), 1).unwrap();
    assert_eq!(cell.get_my_values(&a).unwrap().len(), 0);
    assert_eq!(cell.list_mine(&a, 1, PayloadKind::Integer).unwrap().len(), 1);
}

#[test]
fn incremental_is_complement_of_known() {
    let mut cell = Cell::new();
    let a = agent(5);
    let h: Vec<Address> = [1u32, 2, 3, 4].iter().map(|v| cell.create_integer(&a, *v).unwrap()).collect();
    let fresh = cell.get_my_values_incremental(&a, &vec![h[2].clone(), h[0].clone()]).unwrap();
    let values: Vec<u32> = fresh.iter().map(|p| p.1).collect();
    assert_eq!(values, vec![2, 4]);
    let none = cell.get_my_values_incremental(&a, &h).unwrap();
    assert!(none.is_empty());
    let all = cell.get_my_values_incremental(&a, &vec![]).unwrap();
    assert_eq!(all.len(), 4);
}

#[test]
fn unknown_known_addresses_are_ignored() {
    let mut cell = Cell::new();
    let a = agent(6);
    let h1 = cell.create_integer(&a, 1).unwrap();
    cell.create_integer(&a, 2).unwrap();
    let with_foreign = cell.get_my_values_incremental(&a, &vec![absent_address(), h1.clone()]).unwrap();
    let without = cell.get_my_values_incremental(&a, &vec![h1]).unwrap();
    assert_eq!(with_foreign.len(), 1);
    assert_eq!(with_foreign[0].1, without[0].1);
    assert_eq!(with_foreign[0].0.bytes, without[0].0.bytes);
}

#[test]
fn missing_address_is_not_found() {
    let cell = Cell::new();
    assert_eq!(cell.get_integer(&absent_address()), Err(StoreError::NotFound));
    assert_eq!(cell.get_label(&absent_address()), Err(StoreError::NotFound));
    assert!(matches!(cell.get(&absent_address(), PayloadKind::Integer), Err(StoreError::NotFound)));
}

#[test]
fn wrong_kind_is_type_mismatch() {
    let mut cell = Cell::new();
    let a = agent(7);
    let l = cell.create_label(&a, "seven".to_string()).unwrap();
    assert_eq!(cell.get_integer(&l), Err(StoreError::TypeMismatch));
    let i = cell.create_integer(&a, 7).unwrap();
    assert_eq!(cell.get_label(&i), Err(StoreError::TypeMismatch));
}

#[test]
fn dangling_link_fails_whole_listing() {
    let mut cell = Cell::new();
    let a = agent(8);
    let h = cell.create_integer(&a, 1).unwrap();
    cell.index.add_edge(&a, &absent_address(), 0);
    assert_eq!(cell.get_my_values(&a), Err(StoreError::ResolutionFailure));
    assert_eq!(cell.get_my_values_incremental(&a, &vec![h.clone()]), Err(StoreError::ResolutionFailure));
    let skipped = cell.get_my_values_incremental(&a, &vec![absent_address()]).unwrap();
    assert_eq!(skipped.len(), 1);
    assert_eq!(skipped[0].0.bytes, h.bytes);
}

#[test]
fn listing_wrong_kind_is_resolution_failure() {
    let mut cell = Cell::new();
    let a = agent(9);
    cell.create_label(&a, "l".to_string()).unwrap();
    assert_eq!(cell.get_my_values(&a), Err(StoreError::ResolutionFailure));
}

#[test]
fn create_notifies_observers() {
    let mut cell = Cell::new();
    let a = agent(10);
    cell.create_integer(&a, 3).unwrap();
    cell.create_label(&a, "n".to_string()).unwrap();
    cell.create_dummy(&a, 4).unwrap();
    let signals = cell.bus.take_all();
    assert_eq!(signals.len(), 2);
    assert_eq!(signals[0].from.bytes, a.bytes);
    assert!(matches!(&signals[0].pulses[..], [ExampleSignalProtocol::Custom(s)] if s == "I like integers"));
    assert!(matches!(&signals[1].pulses[..], [ExampleSignalProtocol::Custom(s)] if s == "I like labels"));
    assert!(cell.bus.take_all().is_empty());
}

#[test]
fn same_bytes_compares_contents() {
    assert!(lit_happ::address::same_bytes(&vec![1, 2], &vec![1, 2]));
    assert!(!lit_happ::address::same_bytes(&vec![1, 2], &vec![1, 3]));
    assert!(!lit_happ::address::same_bytes(&vec![1], &vec![1, 3]));
}
