use vstd::prelude::*;
use crate::address::AgentKey;

verus! {

/// Lifecycle notifications about the system's own work.
#[derive(Clone, Debug)]
pub enum SystemSignalProtocol {
    PostCommitNewStart { app_entry_type: String },
    PostCommitNewEnd { app_entry_type: String, succeeded: bool },
    PostCommitDeleteStart { app_entry_type: String },
    PostCommitDeleteEnd { app_entry_type: String, succeeded: bool },
    SelfCallStart { zome_name: String, fn_name: String },
    SelfCallEnd { zome_name: String, fn_name: String, succeeded: bool },
}

pub enum SystemSignalView {
    PostCommitNewStart { app_entry_type: Seq<char> },
    PostCommitNewEnd { app_entry_type: Seq<char>, succeeded: bool },
    PostCommitDeleteStart { app_entry_type: Seq<char> },
    PostCommitDeleteEnd { app_entry_type: Seq<char>, succeeded: bool },
    SelfCallStart { zome_name: Seq<char>, fn_name: Seq<char> },
    SelfCallEnd { zome_name: Seq<char>, fn_name: Seq<char>, succeeded: bool },
}

impl View for SystemSignalProtocol {
    type V = SystemSignalView;

    open spec fn view(&self) -> SystemSignalView {
        match self {
            SystemSignalProtocol::PostCommitNewStart { app_entry_type } => SystemSignalView::PostCommitNewStart {
                app_entry_type: app_entry_type@,
            },
            SystemSignalProtocol::PostCommitNewEnd { app_entry_type, succeeded } => SystemSignalView::PostCommitNewEnd {
                app_entry_type: app_entry_type@,
                succeeded: *succeeded,
            },
            SystemSignalProtocol::PostCommitDeleteStart { app_entry_type } => SystemSignalView::PostCommitDeleteStart {
                app_entry_type: app_entry_type@,
            },
            SystemSignalProtocol::PostCommitDeleteEnd { app_entry_type, succeeded } => SystemSignalView::PostCommitDeleteEnd {
                app_entry_type: app_entry_type@,
                succeeded: *succeeded,
            },
            SystemSignalProtocol::SelfCallStart { zome_name, fn_name } => SystemSignalView::SelfCallStart {
                zome_name: zome_name@,
                fn_name: fn_name@,
            },
            SystemSignalProtocol::SelfCallEnd { zome_name, fn_name, succeeded } => SystemSignalView::SelfCallEnd {
                zome_name: zome_name@,
                fn_name: fn_name@,
                succeeded: *succeeded,
            },
        }
    }
}

/// A pulse of a signal: a system notification or a free-form message.
#[derive(Clone, Debug)]
pub enum ExampleSignalProtocol {
    System(SystemSignalProtocol),
    Custom(String),
}

pub enum ExampleSignalView {
    System(SystemSignalView),
    Custom(Seq<char>),
}

impl View for ExampleSignalProtocol {
    type V = ExampleSignalView;

    open spec fn view(&self) -> ExampleSignalView {
        match self {
            ExampleSignalProtocol::System(s) => ExampleSignalView::System(s@),
            ExampleSignalProtocol::Custom(s) => ExampleSignalView::Custom(s@),
        }
    }
}

/// A system notification wrapped under its tag.
#[allow(non_snake_case)]
#[derive(Clone, Debug)]
pub struct SystemSignal {
    pub System: SystemSignalProtocol,
}

/// A signal as an observer receives it: who sent it and its pulses.
#[derive(Clone, Debug)]
pub struct LitHappSignal {
    pub from: AgentKey,
    pub pulses: Vec<ExampleSignalProtocol>,
}

pub struct SignalView {
    pub from: Seq<u8>,
    pub pulses: Seq<ExampleSignalView>,
}

impl View for LitHappSignal {
    type V = SignalView;

    open spec fn view(&self) -> SignalView {
        SignalView { from: self.from@, pulses: self.pulses@.map_values(|p: ExampleSignalProtocol| p@) }
    }
}

/// The signal that carries one pulse from `from`.
pub open spec fn single_pulse(from: Seq<u8>, pulse: ExampleSignalView) -> SignalView {
    SignalView { from, pulses: seq![pulse] }
}

pub open spec fn signals_view(v: Seq<LitHappSignal>) -> Seq<SignalView> {
    v.map_values(|s: LitHappSignal| s@)
}

/// The outbound queue of signals, in the order they were emitted. Emitting
/// never fails; whoever delivers the queue may drop what it cannot send.
pub struct EventBus {
    queue: Vec<LitHappSignal>,
}

impl View for EventBus {
    type V = Seq<SignalView>;

    closed spec fn view(&self) -> Seq<SignalView> {
        signals_view(self.queue@)
    }
}

impl EventBus {
    pub fn new() -> (r: EventBus)
        ensures
            r@ == Seq::<SignalView>::empty(),
    {
        let r = EventBus { queue: Vec::new() };
        assert(r@ =~= Seq::<SignalView>::empty());
        r
    }

    /// Takes every queued signal out, oldest first.
    pub fn take_all(&mut self) -> (r: Vec<LitHappSignal>)
        ensures
            signals_view(r@) == old(self)@,
            final(self)@ == Seq::<SignalView>::empty(),
    {
        let mut r: Vec<LitHappSignal> = Vec::new();
        std::mem::swap(&mut r, &mut self.queue);
        assert(self@ =~= Seq::<SignalView>::empty());
        r
    }

    fn push_single(&mut self, from: &AgentKey, pulse: ExampleSignalProtocol)
        ensures
            final(self)@ == old(self)@.push(single_pulse(from@, pulse@)),
    {
        let ghost pv = pulse@;
        let signal = LitHappSignal { from: from.duplicate(), pulses: vec![pulse] };
        assert(signal@.pulses =~= seq![pv]);
        self.queue.push(signal);
        assert(self@ =~= old(self)@.push(single_pulse(from@, pv)));
    }
}

/// Emits a signal from `from` that carries `signal` as its one pulse.
pub fn emit_self_signal(bus: &mut EventBus, from: &AgentKey, signal: ExampleSignalProtocol)
    ensures
        final(bus)@ == old(bus)@.push(single_pulse(from@, signal@)),
{
    bus.push_single(from, signal);
}

/// Emits a signal from `from` that carries the system notification `sys` as
/// its one pulse.
pub fn emit_system_signal(bus: &mut EventBus, from: &AgentKey, sys: SystemSignalProtocol)
    ensures
        final(bus)@ == old(bus)@.push(single_pulse(from@, ExampleSignalView::System(sys@))),
{
    bus.push_single(from, ExampleSignalProtocol::System(sys));
}

} // verus!
