use vstd::prelude::*;
use crate::address::AgentKey;
use crate::signal_protocol::{
    EventBus, ExampleSignalView, SignalView, SystemSignalProtocol, SystemSignalView,
    emit_system_signal, single_pulse,
};

verus! {

/// The type of the entry a committed action wrote.
#[derive(Clone, Debug)]
pub enum EntryType {
    /// An agent's key registration.
    AgentPubKey,
    /// A claimed capability.
    CapClaim,
    /// A granted capability.
    CapGrant,
    /// A record of the application, with the name of its kind.
    App(String),
}

/// A committed action, with the type of the entry it wrote, if it wrote one.
#[derive(Clone, Debug)]
pub struct CommittedAction {
    pub entry_type: Option<EntryType>,
}

/// The kind name of an application record that an action wrote, if any.
pub open spec fn app_kind(a: CommittedAction) -> Option<Seq<char>> {
    match a.entry_type {
        Some(EntryType::App(name)) => Some(name@),
        _ => None,
    }
}

/// The start and end notifications for one committed record of `kind`.
pub open spec fn commit_pair(from: Seq<u8>, kind: Seq<char>) -> Seq<SignalView> {
    seq![
        single_pulse(from, ExampleSignalView::System(SystemSignalView::PostCommitNewStart { app_entry_type: kind })),
        single_pulse(
            from,
            ExampleSignalView::System(SystemSignalView::PostCommitNewEnd { app_entry_type: kind, succeeded: true }),
        ),
    ]
}

/// The signals a batch of committed actions gives, in order: a pair for each
/// application record, nothing for anything else.
pub open spec fn commit_signals(from: Seq<u8>, actions: Seq<CommittedAction>) -> Seq<SignalView>
    decreases actions.len(),
{
    if actions.len() == 0 {
        Seq::empty()
    } else {
        let rest = commit_signals(from, actions.drop_last());
        match app_kind(actions.last()) {
            Some(kind) => rest + commit_pair(from, kind),
            None => rest,
        }
    }
}

/// Observes a batch of committed actions and emits, for each that wrote an
/// application record, a start and then a successful end notification.
/// Structural entries and actions without an entry are skipped.
pub fn post_commit(bus: &mut EventBus, from: &AgentKey, actions: &Vec<CommittedAction>)
    ensures
        final(bus)@ == old(bus)@ + commit_signals(from@, actions@),
{
    let mut i: usize = 0;
    assert(actions@.take(0) =~= Seq::<CommittedAction>::empty());
    assert(old(bus)@ + commit_signals(from@, actions@.take(0)) =~= old(bus)@);
    while i < actions.len()
        invariant
            i <= actions@.len(),
            bus@ == old(bus)@ + commit_signals(from@, actions@.take(i as int)),
        decreases actions@.len() - i,
    {
        assert(actions@.take(i + 1).drop_last() =~= actions@.take(i as int));
        assert(actions@.take(i + 1).last() == actions@[i as int]);
        let ghost before = bus@;
        match &actions[i].entry_type {
            Some(EntryType::App(name)) => {
                emit_system_signal(
                    bus,
                    from,
                    SystemSignalProtocol::PostCommitNewStart { app_entry_type: name.clone() },
                );
                emit_system_signal(
                    bus,
                    from,
                    SystemSignalProtocol::PostCommitNewEnd { app_entry_type: name.clone(), succeeded: true },
                );
                assert(bus@ =~= before + commit_pair(from@, name@));
            },
            _ => {},
        }
        assert(bus@ =~= old(bus)@ + commit_signals(from@, actions@.take(i + 1)));
        i = i + 1;
    }
    assert(actions@.take(i as int) =~= actions@);
}

} // verus!
