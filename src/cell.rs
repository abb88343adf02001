use vstd::prelude::*;
use crate::address::{Address, AgentKey};
use crate::entries::{IntegerLinkType, LabelLink, DummyLinkType};
use crate::index::{EdgeView, OwnerIndex, targets_of};
use crate::payload::{Payload, PayloadKind, PayloadView};
use crate::signal_protocol::{EventBus, ExampleSignalProtocol, ExampleSignalView, emit_self_signal, single_pulse};
use crate::store::{ContentStore, StoreError, address_of, get_result, payload_result_view, stored_after_create};
use crate::sync::{
    RecordView, known_set, list_all, list_all_result, list_incremental, list_incremental_result,
    records_result_view,
};

verus! {

/// One agent-facing instance of the store: content, index and outbound signals.
pub struct Cell {
    pub store: ContentStore,
    pub index: OwnerIndex,
    pub bus: EventBus,
}

/// The integer a payload holds, where it holds one.
pub open spec fn integer_of(p: PayloadView) -> u32 {
    match p {
        PayloadView::Integer(v) => v,
        _ => 0,
    }
}

/// The text a payload holds, where it holds one.
pub open spec fn text_of(p: PayloadView) -> Seq<char> {
    match p {
        PayloadView::Label(s) => s,
        _ => Seq::empty(),
    }
}

pub open spec fn integer_result(r: Result<PayloadView, StoreError>) -> Result<u32, StoreError> {
    match r {
        Ok(p) => Ok(integer_of(p)),
        Err(e) => Err(e),
    }
}

pub open spec fn text_result(r: Result<PayloadView, StoreError>) -> Result<Seq<char>, StoreError> {
    match r {
        Ok(p) => Ok(text_of(p)),
        Err(e) => Err(e),
    }
}

/// Records as address and integer pairs.
pub open spec fn integer_records(rs: Seq<RecordView>) -> Seq<(Seq<u8>, u32)> {
    rs.map_values(|r: RecordView| (r.0, integer_of(r.1)))
}

pub open spec fn integer_records_result(r: Result<Seq<RecordView>, StoreError>) -> Result<Seq<(Seq<u8>, u32)>, StoreError> {
    match r {
        Ok(rs) => Ok(integer_records(rs)),
        Err(e) => Err(e),
    }
}

pub open spec fn integer_pairs_view(v: Seq<(Address, u32)>) -> Seq<(Seq<u8>, u32)> {
    v.map_values(|x: (Address, u32)| (x.0@, x.1))
}

pub open spec fn integer_pairs_result(r: Result<Vec<(Address, u32)>, StoreError>) -> Result<Seq<(Seq<u8>, u32)>, StoreError> {
    match r {
        Ok(v) => Ok(integer_pairs_view(v@)),
        Err(e) => Err(e),
    }
}

pub open spec fn integers_result(r: Result<Seq<RecordView>, StoreError>) -> Result<Seq<u32>, StoreError> {
    match r {
        Ok(rs) => Ok(rs.map_values(|x: RecordView| integer_of(x.1))),
        Err(e) => Err(e),
    }
}

pub open spec fn u32s_result(r: Result<Vec<u32>, StoreError>) -> Result<Seq<u32>, StoreError> {
    match r {
        Ok(v) => Ok(v@),
        Err(e) => Err(e),
    }
}

pub open spec fn string_result(r: Result<String, StoreError>) -> Result<Seq<char>, StoreError> {
    match r {
        Ok(s) => Ok(s@),
        Err(e) => Err(e),
    }
}

pub open spec fn texts_result(r: Result<Seq<RecordView>, StoreError>) -> Result<Seq<Seq<char>>, StoreError> {
    match r {
        Ok(rs) => Ok(rs.map_values(|x: RecordView| text_of(x.1))),
        Err(e) => Err(e),
    }
}

pub open spec fn strings_result(r: Result<Vec<String>, StoreError>) -> Result<Seq<Seq<char>>, StoreError> {
    match r {
        Ok(v) => Ok(v@.map_values(|s: String| s@)),
        Err(e) => Err(e),
    }
}

/// What a create leaves behind: the store and the index after it.
pub open spec fn created(
    m: Map<Seq<u8>, PayloadView>,
    edges: Seq<EdgeView>,
    owner: Seq<u8>,
    p: PayloadView,
    tag: u8,
) -> (Map<Seq<u8>, PayloadView>, Seq<EdgeView>) {
    match address_of(p) {
        Some(a) => (stored_after_create(m, a, p), edges.push((owner, a, tag))),
        None => (m, edges),
    }
}

/// The note a new integer record sends to observers.
pub open spec fn integer_note() -> Seq<char> {
    "I like integers"@
}

/// The note a new label record sends to observers.
pub open spec fn label_note() -> Seq<char> {
    "I like labels"@
}

/// Turns integer records into address and integer pairs.
fn to_integer_pairs(records: Vec<(Address, Payload)>) -> (r: Vec<(Address, u32)>)
    ensures
        integer_pairs_view(r@) == integer_records(crate::sync::records_view(records@)),
{
    let mut out: Vec<(Address, u32)> = Vec::new();
    let mut i: usize = 0;
    while i < records.len()
        invariant
            i <= records@.len(),
            integer_pairs_view(out@) == integer_records(crate::sync::records_view(records@.take(i as int))),
        decreases records@.len() - i,
    {
        let v: u32 = match &records[i].1 {
            Payload::Integer(v) => *v,
            Payload::Label(_) => 0,
        };
        let a = records[i].0.duplicate();
        let ghost before = out@;
        out.push((a, v));
        assert(integer_pairs_view(out@) =~= integer_pairs_view(before).push((records@[i as int].0@, v)));
        assert(records@.take(i + 1) =~= records@.take(i as int).push(records@[i as int]));
        assert(integer_pairs_view(out@) =~= integer_records(crate::sync::records_view(records@.take(i + 1))));
        i = i + 1;
    }
    assert(records@.take(i as int) =~= records@);
    out
}

/// The integers of integer records, in order.
fn to_integers(records: Vec<(Address, Payload)>) -> (r: Vec<u32>)
    ensures
        r@ == crate::sync::records_view(records@).map_values(|x: RecordView| integer_of(x.1)),
{
    let mut out: Vec<u32> = Vec::new();
    let mut i: usize = 0;
    while i < records.len()
        invariant
            i <= records@.len(),
            out@ == crate::sync::records_view(records@.take(i as int)).map_values(|x: RecordView| integer_of(x.1)),
        decreases records@.len() - i,
    {
        let v: u32 = match &records[i].1 {
            Payload::Integer(v) => *v,
            Payload::Label(_) => 0,
        };
        out.push(v);
        assert(records@.take(i + 1) =~= records@.take(i as int).push(records@[i as int]));
        assert(out@ =~= crate::sync::records_view(records@.take(i + 1)).map_values(|x: RecordView| integer_of(x.1)));
        i = i + 1;
    }
    assert(records@.take(i as int) =~= records@);
    out
}

/// The texts of label records, in order.
fn to_texts(records: Vec<(Address, Payload)>) -> (r: Vec<String>)
    ensures
        r@.map_values(|s: String| s@) == crate::sync::records_view(records@).map_values(|x: RecordView| text_of(x.1)),
{
    let mut out: Vec<String> = Vec::new();
    let mut i: usize = 0;
    while i < records.len()
        invariant
            i <= records@.len(),
            out@.map_values(|s: String| s@) == crate::sync::records_view(records@.take(i as int)).map_values(|x: RecordView| text_of(x.1)),
        decreases records@.len() - i,
    {
        let t: String = match &records[i].1 {
            Payload::Integer(_) => String::new(),
            Payload::Label(s) => s.clone(),
        };
        assert(t@ == text_of(records@[i as int].1@));
        let ghost before = out@;
        out.push(t);
        assert(out@.map_values(|s: String| s@) =~= before.map_values(|s: String| s@).push(t@));
        assert(records@.take(i + 1) =~= records@.take(i as int).push(records@[i as int]));
        assert(out@.map_values(|s: String| s@) =~= crate::sync::records_view(records@.take(i + 1)).map_values(|x: RecordView| text_of(x.1)));
        i = i + 1;
    }
    assert(records@.take(i as int) =~= records@);
    out
}

impl Cell {
    pub open spec fn wf(&self) -> bool {
        self.store.wf()
    }

    pub fn new() -> (r: Cell)
        ensures
            r.wf(),
            r.store@ == Map::<Seq<u8>, PayloadView>::empty(),
            r.index@ == Seq::<EdgeView>::empty(),
            r.bus@ == Seq::<crate::signal_protocol::SignalView>::empty(),
    {
        Cell { store: ContentStore::new(), index: OwnerIndex::new(), bus: EventBus::new() }
    }

    /// Stores `payload` under its content address and links it from `agent`
    /// under `tag`; a payload that cannot be serialized changes nothing.
    /// A link is appended on every call, also where the payload was already
    /// stored, so creating a payload twice lists it twice.
    pub fn create(&mut self, agent: &AgentKey, payload: Payload, tag: u8) -> (r: Result<Address, StoreError>)
        requires
            old(self).wf(),
        ensures
            final(self).wf(),
            final(self).bus@ == old(self).bus@,
            (final(self).store@, final(self).index@) == created(old(self).store@, old(self).index@, agent@, payload@, tag),
            match r {
                Ok(a) => address_of(payload@) == Some(a@),
                Err(e) => address_of(payload@) is None && e == StoreError::EncodingFailure,
            },
    {
        match self.store.create(payload) {
            Ok(a) => {
                self.index.add_edge(agent, &a, tag);
                Ok(a)
            },
            Err(e) => Err(e),
        }
    }

    /// Reads the payload at `address`, expecting a record of `kind`.
    pub fn get(&self, address: &Address, kind: PayloadKind) -> (r: Result<Payload, StoreError>)
        requires
            self.wf(),
        ensures
            payload_result_view(r) == get_result(self.store@, address@, kind),
    {
        self.store.get(address, kind)
    }

    /// Every record `agent` links to under `tag`, in link order.
    pub fn list_mine(&self, agent: &AgentKey, tag: u8, kind: PayloadKind) -> (r: Result<Vec<(Address, Payload)>, StoreError>)
        requires
            self.wf(),
        ensures
            records_result_view(r) == list_all_result(self.store@, self.index@, agent@, tag, kind),
    {
        list_all(&self.store, &self.index, agent, tag, kind)
    }

    /// The records `agent` links to under `tag` whose addresses are not in
    /// `known`, in link order.
    pub fn list_mine_incremental(
        &self,
        agent: &AgentKey,
        known: &Vec<Address>,
        tag: u8,
        kind: PayloadKind,
    ) -> (r: Result<Vec<(Address, Payload)>, StoreError>)
        requires
            self.wf(),
        ensures
            records_result_view(r) == list_incremental_result(
                self.store@,
                self.index@,
                agent@,
                tag,
                kind,
                known_set(known@),
            ),
    {
        list_incremental(&self.store, &self.index, agent, tag, kind, known)
    }

    /// Stores an integer record, links it from `agent` under the default
    /// link type and notifies observers.
    pub fn create_integer(&mut self, agent: &AgentKey, value: u32) -> (r: Result<Address, StoreError>)
        requires
            old(self).wf(),
        ensures
            final(self).wf(),
            (final(self).store@, final(self).index@) == created(
                old(self).store@,
                old(self).index@,
                agent@,
                PayloadView::Integer(value),
                0,
            ),
            match r {
                Ok(a) => address_of(PayloadView::Integer(value)) == Some(a@) && final(self).bus@ == old(
                    self,
                ).bus@.push(single_pulse(agent@, ExampleSignalView::Custom(integer_note()))),
                Err(e) => address_of(PayloadView::Integer(value)) is None && e
                    == StoreError::EncodingFailure && final(self).bus@ == old(self).bus@,
            },
    {
        let r = self.create(agent, Payload::Integer(value), IntegerLinkType::Default.tag());
        if r.is_ok() {
            let note = "I like integers".to_owned();
            emit_self_signal(&mut self.bus, agent, ExampleSignalProtocol::Custom(note));
        }
        r
    }

    /// Reads the integer record at `address`.
    pub fn get_integer(&self, address: &Address) -> (r: Result<u32, StoreError>)
        requires
            self.wf(),
        ensures
            r == integer_result(get_result(self.store@, address@, PayloadKind::Integer)),
    {
        match self.store.get(address, PayloadKind::Integer) {
            Ok(Payload::Integer(v)) => Ok(v),
            Ok(Payload::Label(_)) => Err(StoreError::TypeMismatch),
            Err(e) => Err(e),
        }
    }

    /// Every integer record `agent` links to under the default link type,
    /// with its address, in link order.
    pub fn get_my_values(&self, agent: &AgentKey) -> (r: Result<Vec<(Address, u32)>, StoreError>)
        requires
            self.wf(),
        ensures
            integer_pairs_result(r) == integer_records_result(
                list_all_result(self.store@, self.index@, agent@, 0, PayloadKind::Integer),
            ),
    {
        match list_all(&self.store, &self.index, agent, IntegerLinkType::Default.tag(), PayloadKind::Integer) {
            Ok(records) => Ok(to_integer_pairs(records)),
            Err(e) => Err(e),
        }
    }

    /// The integer records `agent` links to under the default link type whose
    /// addresses are not in `knowns`, with their addresses, in link order.
    pub fn get_my_values_incremental(&self, agent: &AgentKey, knowns: &Vec<Address>) -> (r: Result<Vec<(Address, u32)>, StoreError>)
        requires
            self.wf(),
        ensures
            integer_pairs_result(r) == integer_records_result(
                list_incremental_result(self.store@, self.index@, agent@, 0, PayloadKind::Integer, known_set(knowns@)),
            ),
    {
        match list_incremental(&self.store, &self.index, agent, IntegerLinkType::Default.tag(), PayloadKind::Integer, knowns) {
            Ok(records) => Ok(to_integer_pairs(records)),
            Err(e) => Err(e),
        }
    }

    /// Stores a label record, links it from `agent` under the default link
    /// type and notifies observers.
    pub fn create_label(&mut self, agent: &AgentKey, name: String) -> (r: Result<Address, StoreError>)
        requires
            old(self).wf(),
        ensures
            final(self).wf(),
            (final(self).store@, final(self).index@) == created(
                old(self).store@,
                old(self).index@,
                agent@,
                PayloadView::Label(name@),
                0,
            ),
            match r {
                Ok(a) => address_of(PayloadView::Label(name@)) == Some(a@) && final(self).bus@ == old(
                    self,
                ).bus@.push(single_pulse(agent@, ExampleSignalView::Custom(label_note()))),
                Err(e) => address_of(PayloadView::Label(name@)) is None && e
                    == StoreError::EncodingFailure && final(self).bus@ == old(self).bus@,
            },
    {
        let r = self.create(agent, Payload::Label(name), LabelLink::Default.tag());
        if r.is_ok() {
            let note = "I like labels".to_owned();
            emit_self_signal(&mut self.bus, agent, ExampleSignalProtocol::Custom(note));
        }
        r
    }

    /// Reads the label record at `address`.
    pub fn get_label(&self, address: &Address) -> (r: Result<String, StoreError>)
        requires
            self.wf(),
        ensures
            string_result(r) == text_result(get_result(self.store@, address@, PayloadKind::Label)),
    {
        match self.store.get(address, PayloadKind::Label) {
            Ok(Payload::Label(s)) => Ok(s),
            Ok(Payload::Integer(_)) => Err(StoreError::TypeMismatch),
            Err(e) => Err(e),
        }
    }

    /// The texts of every label record `agent` links to under the default
    /// link type, in link order.
    pub fn get_my_labels(&self, agent: &AgentKey) -> (r: Result<Vec<String>, StoreError>)
        requires
            self.wf(),
        ensures
            strings_result(r) == texts_result(
                list_all_result(self.store@, self.index@, agent@, 0, PayloadKind::Label),
            ),
    {
        match list_all(&self.store, &self.index, agent, LabelLink::Default.tag(), PayloadKind::Label) {
            Ok(records) => Ok(to_texts(records)),
            Err(e) => Err(e),
        }
    }

    /// Stores a placeholder integer record and links it from `agent` under
    /// the default link type.
    pub fn create_dummy(&mut self, agent: &AgentKey, value: u32) -> (r: Result<Address, StoreError>)
        requires
            old(self).wf(),
        ensures
            final(self).wf(),
            final(self).bus@ == old(self).bus@,
            (final(self).store@, final(self).index@) == created(
                old(self).store@,
                old(self).index@,
                agent@,
                PayloadView::Integer(value),
                0,
            ),
            match r {
                Ok(a) => address_of(PayloadView::Integer(value)) == Some(a@),
                Err(e) => address_of(PayloadView::Integer(value)) is None && e == StoreError::EncodingFailure,
            },
    {
        self.create(agent, Payload::Integer(value), DummyLinkType::Default.tag())
    }

    /// Reads the placeholder integer record at `address`.
    pub fn get_dummy(&self, address: &Address) -> (r: Result<u32, StoreError>)
        requires
            self.wf(),
        ensures
            r == integer_result(get_result(self.store@, address@, PayloadKind::Integer)),
    {
        self.get_integer(address)
    }

    /// The values of every placeholder record `agent` links to under the
    /// default link type, in link order.
    pub fn get_my_dummies(&self, agent: &AgentKey) -> (r: Result<Vec<u32>, StoreError>)
        requires
            self.wf(),
        ensures
            u32s_result(r) == integers_result(
                list_all_result(self.store@, self.index@, agent@, 0, PayloadKind::Integer),
            ),
    {
        match list_all(&self.store, &self.index, agent, DummyLinkType::Default.tag(), PayloadKind::Integer) {
            Ok(records) => Ok(to_integers(records)),
            Err(e) => Err(e),
        }
    }
}

/// The store and index after creating each of `ps` in turn, from empty,
/// with every link from `owner` under `tag`.
pub open spec fn created_all(ps: Seq<PayloadView>, owner: Seq<u8>, tag: u8) -> (Map<Seq<u8>, PayloadView>, Seq<EdgeView>)
    decreases ps.len(),
{
    if ps.len() == 0 {
        (Map::empty(), Seq::empty())
    } else {
        let prev = created_all(ps.drop_last(), owner, tag);
        created(prev.0, prev.1, owner, ps.last(), tag)
    }
}

/// Each payload paired with its address.
pub open spec fn addressed(ps: Seq<PayloadView>) -> Seq<RecordView> {
    ps.map_values(|p: PayloadView| (address_of(p)->Some_0, p))
}

proof fn lemma_created_all_targets(ps: Seq<PayloadView>, owner: Seq<u8>, tag: u8)
    requires
        forall|i: int| 0 <= i < ps.len() ==> address_of(#[trigger] ps[i]) is Some,
    ensures
        targets_of(created_all(ps, owner, tag).1, owner, tag) == ps.map_values(|p: PayloadView| address_of(p)->Some_0),
    decreases ps.len(),
{
    if ps.len() > 0 {
        let rest = ps.drop_last();
        assert forall|i: int| 0 <= i < rest.len() implies address_of(#[trigger] rest[i]) is Some by {
            assert(rest[i] == ps[i]);
        }
        lemma_created_all_targets(rest, owner, tag);
        let prev = created_all(rest, owner, tag);
        assert(address_of(ps[ps.len() - 1]) is Some);
        let a = address_of(ps.last())->Some_0;
        assert(prev.1.push((owner, a, tag)).drop_last() =~= prev.1);
        assert(ps.map_values(|p: PayloadView| address_of(p)->Some_0) =~= rest.map_values(
            |p: PayloadView| address_of(p)->Some_0,
        ).push(a));
    }
}

proof fn lemma_created_all_contents(ps: Seq<PayloadView>, owner: Seq<u8>, tag: u8)
    requires
        forall|i: int| 0 <= i < ps.len() ==> address_of(#[trigger] ps[i]) is Some,
        forall|i: int, j: int|
            0 <= i < ps.len() && 0 <= j < ps.len() && address_of(#[trigger] ps[i]) == address_of(
                #[trigger] ps[j],
            ) ==> ps[i] == ps[j],
    ensures
        forall|i: int|
            0 <= i < ps.len() ==> created_all(ps, owner, tag).0.contains_key(address_of(#[trigger] ps[i])->Some_0)
                && created_all(ps, owner, tag).0[address_of(ps[i])->Some_0] == ps[i],
        forall|k: Seq<u8>|
            #[trigger] created_all(ps, owner, tag).0.contains_key(k) ==> exists|i: int|
                0 <= i < ps.len() && address_of(ps[i]) == Some(k),
    decreases ps.len(),
{
    if ps.len() > 0 {
        let n = ps.len() - 1;
        let rest = ps.drop_last();
        assert forall|i: int| 0 <= i < rest.len() implies address_of(#[trigger] rest[i]) is Some by {
            assert(rest[i] == ps[i]);
        }
        assert forall|i: int, j: int|
            0 <= i < rest.len() && 0 <= j < rest.len() && address_of(#[trigger] rest[i]) == address_of(
                #[trigger] rest[j],
            ) implies rest[i] == rest[j] by {
            assert(rest[i] == ps[i] && rest[j] == ps[j]);
        }
        lemma_created_all_contents(rest, owner, tag);
        let prev = created_all(rest, owner, tag).0;
        let m = created_all(ps, owner, tag).0;
        assert(address_of(ps[n]) is Some);
        let p = ps[n];
        let a = address_of(p)->Some_0;
        assert(ps.last() == p);
        if prev.contains_key(a) {
            let j = choose|j: int| 0 <= j < rest.len() && address_of(rest[j]) == Some(a);
            assert(rest[j] == ps[j]);
            assert(address_of(rest[j]) is Some);
            assert(prev[address_of(rest[j])->Some_0] == rest[j]);
            assert(ps[j] == ps[n]);
        }
        assert forall|i: int| 0 <= i < ps.len() implies m.contains_key(address_of(#[trigger] ps[i])->Some_0)
            && m[address_of(ps[i])->Some_0] == ps[i] by {
            if i < n {
                assert(rest[i] == ps[i]);
                assert(address_of(rest[i]) is Some);
            }
        }
        assert forall|k: Seq<u8>| #[trigger] m.contains_key(k) implies exists|i: int|
            0 <= i < ps.len() && address_of(ps[i]) == Some(k) by {
            if k == a {
                assert(address_of(ps[n]) == Some(k));
            } else {
                assert(prev.contains_key(k));
                let i = choose|i: int| 0 <= i < rest.len() && address_of(rest[i]) == Some(k);
                assert(rest[i] == ps[i]);
            }
        }
    }
}

/// Creating payloads one after another from an empty cell, under one owner
/// and link type, and then listing that owner's records under that link type
/// gives exactly those payloads, each with its address, in creation order.
/// Every payload must be serializable and of the listed kind, and no two
/// different payloads may share an address.
pub proof fn lemma_index_completeness(ps: Seq<PayloadView>, owner: Seq<u8>, tag: u8, kind: PayloadKind)
    requires
        forall|i: int| 0 <= i < ps.len() ==> address_of(#[trigger] ps[i]) is Some,
        forall|i: int| 0 <= i < ps.len() ==> (#[trigger] ps[i]).kind() == kind,
        forall|i: int, j: int|
            0 <= i < ps.len() && 0 <= j < ps.len() && address_of(#[trigger] ps[i]) == address_of(
                #[trigger] ps[j],
            ) ==> ps[i] == ps[j],
    ensures
        list_all_result(created_all(ps, owner, tag).0, created_all(ps, owner, tag).1, owner, tag, kind)
            == Ok::<Seq<RecordView>, StoreError>(addressed(ps)),
        addressed(ps).len() == ps.len(),
{
    lemma_created_all_targets(ps, owner, tag);
    lemma_created_all_contents(ps, owner, tag);
    let m = created_all(ps, owner, tag).0;
    let ts = targets_of(created_all(ps, owner, tag).1, owner, tag);
    assert forall|i: int| 0 <= i < ts.len() implies #[trigger] get_result(m, ts[i], kind) is Ok by {
        assert(ts[i] == address_of(ps[i])->Some_0);
        assert(address_of(ps[i]) is Some);
        assert(ps[i].kind() == kind);
    }
    assert forall|i: int| 0 <= i < ts.len() implies crate::sync::resolved(m, ts)[i] == addressed(ps)[i] by {
        assert(ts[i] == address_of(ps[i])->Some_0);
        assert(address_of(ps[i]) is Some);
    }
    assert(crate::sync::resolved(m, ts) =~= addressed(ps));
}

} // verus!
