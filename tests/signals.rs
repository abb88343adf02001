use lit_happ::address::AgentKey;
use lit_happ::callbacks::{CommittedAction, EntryType, post_commit};
use lit_happ::entries::{DummyLinkType, IntegerEntry, Integer, IntegerLinkType, LabelLink, RealLink};
use lit_happ::payload::Payload;
use lit_happ::signal_protocol::{
    EventBus, ExampleSignalProtocol, SystemSignalProtocol, emit_self_signal, emit_system_signal,
};

fn agent() -> AgentKey {
    AgentKey { bytes: vec![7; 39] }
}

fn app(name: &str) -> CommittedAction {
    CommittedAction { entry_type: Some(EntryType::App(name.to_string())) }
}

#[test]
fn commit_of_app_record_emits_start_then_end() {
    let mut bus = EventBus::new();
    post_commit(&mut bus, &agent(), &vec![app("Integer")]);
    let signals = bus.take_all();
    assert_eq!(signals.len(), 2);
    assert!(matches!(
        &signals[0].pulses[..],
        [ExampleSignalProtocol::System(SystemSignalProtocol::PostCommitNewStart { app_entry_type })]
            if app_entry_type == "Integer"
    ));
    assert!(matches!(
        &signals[1].pulses[..],
        [ExampleSignalProtocol::System(SystemSignalProtocol::PostCommitNewEnd { app_entry_type, succeeded: true })]
            if app_entry_type == "Integer"
    ));
    assert_eq!(signals[1].from.bytes, agent().bytes);
}

#[test]
fn commit_of_structural_entries_emits_nothing() {
    let mut bus = EventBus::new();
    let batch = vec![
        CommittedAction { entry_type: Some(EntryType::AgentPubKey) },
        CommittedAction { entry_type: Some(EntryType::CapGrant) },
        CommittedAction { entry_type: Some(EntryType::CapClaim) },
        CommittedAction { entry_type: None },
    ];
    post_commit(&mut bus, &agent(), &batch);
    assert!(bus.take_all().is_empty());
}

#[test]
fn empty_batch_emits_nothing() {
    let mut bus = EventBus::new();
    post_commit(&mut bus, &agent(), &vec![]);
    assert!(bus.take_all().is_empty());
}

#[test]
fn mixed_batch_emits_pairs_in_order() {
    let mut bus = EventBus::new();
    let batch = vec![
        app("Integer"),
        CommittedAction { entry_type: Some(EntryType::CapGrant) },
        app("Label"),
    ];
    post_commit(&mut bus, &agent(), &batch);
    let signals = bus.take_all();
    assert_eq!(signals.len(), 4);
    let kinds: Vec<(String, bool)> = signals
        .iter()
        .map(|s| match &s.pulses[0] {
            ExampleSignalProtocol::System(SystemSignalProtocol::PostCommitNewStart { app_entry_type }) => {
                (app_entry_type.clone(), false)
            }
            ExampleSignalProtocol::System(SystemSignalProtocol::PostCommitNewEnd { app_entry_type, .. }) => {
                (app_entry_type.clone(), true)
            }
            other => panic!("unexpected {:?}", other),
        })
        .collect();
    assert_eq!(
        kinds,
        vec![
            ("Integer".to_string(), false),
            ("Integer".to_string(), true),
            ("Label".to_string(), false),
            ("Label".to_string(), true),
        ]
    );
}

#[test]
fn self_signal_carries_one_custom_pulse() {
    let mut bus = EventBus::new();
    emit_self_signal(&mut bus, &agent(), ExampleSignalProtocol::Custom("hi".to_string()));
    let signals = bus.take_all();
    assert_eq!(signals.len(), 1);
    assert_eq!(signals[0].from.bytes, agent().bytes);
    assert!(matches!(&signals[0].pulses[..], [ExampleSignalProtocol::Custom(s)] if s == "hi"));
}

#[test]
fn system_signal_wraps_its_pulse() {
    let mut bus = EventBus::new();
    emit_system_signal(
        &mut bus,
        &agent(),
        SystemSignalProtocol::SelfCallStart { zome_name: "z".to_string(), fn_name: "f".to_string() },
    );
    emit_system_signal(
        &mut bus,
        &agent(),
        SystemSignalProtocol::SelfCallEnd { zome_name: "z".to_string(), fn_name: "f".to_string(), succeeded: false },
    );
    let signals = bus.take_all();
    assert_eq!(signals.len(), 2);
    assert!(matches!(
        &signals[0].pulses[..],
        [ExampleSignalProtocol::System(SystemSignalProtocol::SelfCallStart { zome_name, fn_name })]
            if zome_name == "z" && fn_name == "f"
    ));
    assert!(matches!(
        &signals[1].pulses[..],
        [ExampleSignalProtocol::System(SystemSignalProtocol::SelfCallEnd { succeeded: false, .. })]
    ));
}

#[test]
fn link_types_map_to_tags() {
    assert_eq!(IntegerLinkType::Default.tag(), 0);
    assert_eq!(IntegerLinkType::ToValues.tag(), 1);
    assert_eq!(DummyLinkType::Default.tag(), 0);
    assert_eq!(DummyLinkType::ToDummies.tag(), 1);
    assert_eq!(LabelLink::Default.tag(), 0);
    assert_eq!(RealLink::Default.tag(), 0);
}

#[test]
fn entry_becomes_payload() {
    match IntegerEntry::Integer(Integer { value: 11 }).into_payload() {
        Payload::Integer(v) => assert_eq!(v, 11),
        other => panic!("unexpected {:?}", other),
    }
}
