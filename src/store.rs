use vstd::prelude::*;
use crate::address::{Address, blake2b_256_of};
use crate::payload::{Payload, PayloadKind, PayloadView};

verus! {

/// What can go wrong when storing or reading records.
#[derive(Clone, Copy, Debug, PartialEq, Eq, Structural)]
pub enum StoreError {
    /// No content is stored at the address.
    NotFound,
    /// The stored content is not of the kind the caller expects.
    TypeMismatch,
    /// An index link points at content that cannot be read.
    ResolutionFailure,
    /// The payload could not be serialized, so it has no address.
    EncodingFailure,
}

/// The address of a payload: the digest of its serialized bytes, where it
/// can be serialized.
pub open spec fn address_of(p: PayloadView) -> Option<Seq<u8>> {
    match p.encoding() {
        Some(b) => Some(blake2b_256_of(b)),
        None => None,
    }
}

/// The contents after storing `p` at `a`: content already at an address is
/// never replaced.
pub open spec fn stored_after_create(
    m: Map<Seq<u8>, PayloadView>,
    a: Seq<u8>,
    p: PayloadView,
) -> Map<Seq<u8>, PayloadView> {
    if m.contains_key(a) {
        m
    } else {
        m.insert(a, p)
    }
}

/// What a read of `a`, expecting a record of `kind`, gives.
pub open spec fn get_result(
    m: Map<Seq<u8>, PayloadView>,
    a: Seq<u8>,
    kind: PayloadKind,
) -> Result<PayloadView, StoreError> {
    if !m.contains_key(a) {
        Err(StoreError::NotFound)
    } else if m[a].kind() != kind {
        Err(StoreError::TypeMismatch)
    } else {
        Ok(m[a])
    }
}

pub open spec fn payload_result_view(r: Result<Payload, StoreError>) -> Result<PayloadView, StoreError> {
    match r {
        Ok(p) => Ok(p@),
        Err(e) => Err(e),
    }
}

/// Immutable payloads keyed by their content address.
pub struct ContentStore {
    entries: Vec<(Address, Payload)>,
    contents: Ghost<Map<Seq<u8>, PayloadView>>,
}

impl View for ContentStore {
    type V = Map<Seq<u8>, PayloadView>;

    closed spec fn view(&self) -> Map<Seq<u8>, PayloadView> {
        self.contents@
    }
}

impl ContentStore {
    /// Each address is stored once, and the contents are exactly the entries.
    pub closed spec fn wf(&self) -> bool {
        &&& forall|i: int, j: int|
            0 <= i < j < self.entries@.len() ==> self.entries@[i].0@ != self.entries@[j].0@
        &&& forall|i: int|
            0 <= i < self.entries@.len() ==> #[trigger] self.contents@.contains_key(
                self.entries@[i].0@,
            ) && self.contents@[self.entries@[i].0@] == self.entries@[i].1@
        &&& forall|a: Seq<u8>|
            #[trigger] self.contents@.contains_key(a) ==> exists|i: int|
                0 <= i < self.entries@.len() && self.entries@[i].0@ == a
    }

    pub fn new() -> (r: ContentStore)
        ensures
            r.wf(),
            r@ == Map::<Seq<u8>, PayloadView>::empty(),
    {
        ContentStore { entries: Vec::new(), contents: Ghost(Map::empty()) }
    }

    /// The position of the entry stored at `a`, if any.
    fn find(&self, a: &Address) -> (r: Option<usize>)
        requires
            self.wf(),
        ensures
            match r {
                Some(i) => i < self.entries@.len() && self.entries@[i as int].0@ == a@,
                None => !self@.contains_key(a@),
            },
    {
        let mut i: usize = 0;
        while i < self.entries.len()
            invariant
                i <= self.entries@.len(),
                forall|j: int| 0 <= j < i ==> self.entries@[j].0@ != a@,
            decreases self.entries@.len() - i,
        {
            if self.entries[i].0.same(a) {
                return Some(i);
            }
            i = i + 1;
        }
        None
    }

    /// Stores `payload` under its content address and returns the address.
    /// Storing a payload whose address is already taken writes nothing.
    pub fn create(&mut self, payload: Payload) -> (r: Result<Address, StoreError>)
        requires
            old(self).wf(),
        ensures
            final(self).wf(),
            match r {
                Ok(a) => address_of(payload@) == Some(a@) && final(self)@ == stored_after_create(
                    old(self)@,
                    a@,
                    payload@,
                ),
                Err(e) => address_of(payload@) is None && e == StoreError::EncodingFailure
                    && final(self)@ == old(self)@,
            },
    {
        let bytes = match payload.encode() {
            Some(b) => b,
            None => {
                return Err(StoreError::EncodingFailure);
            },
        };
        let address = Address::of_bytes(&bytes);
        match self.find(&address) {
            Some(_) => {},
            None => {
                let ghost pv = payload@;
                self.entries.push((address.duplicate(), payload));
                self.contents = Ghost(self.contents@.insert(address@, pv));
                proof {
                    let n = self.entries@.len() - 1;
                    assert(self.entries@[n].0@ == address@);
                    assert forall|a: Seq<u8>| #[trigger] self.contents@.contains_key(a) implies exists|i: int|
                        0 <= i < self.entries@.len() && self.entries@[i].0@ == a by {
                        if a != address@ {
                            let i = choose|i: int| 0 <= i < old(self).entries@.len() && old(self).entries@[i].0@ == a;
                            assert(self.entries@[i] == old(self).entries@[i]);
                        }
                    }
                }
            },
        }
        Ok(address)
    }

    /// Reads the payload at `address`, expecting a record of `kind`.
    pub fn get(&self, address: &Address, kind: PayloadKind) -> (r: Result<Payload, StoreError>)
        requires
            self.wf(),
        ensures
            payload_result_view(r) == get_result(self@, address@, kind),
    {
        match self.find(address) {
            None => Err(StoreError::NotFound),
            Some(i) => {
                let p = &self.entries[i].1;
                if p.kind() != kind {
                    Err(StoreError::TypeMismatch)
                } else {
                    Ok(p.duplicate())
                }
            },
        }
    }
}

/// A payload's address depends on its serialized bytes alone; storing a
/// payload a second time gives the same address and changes nothing.
pub proof fn lemma_idempotent_addressing(m: Map<Seq<u8>, PayloadView>, p: PayloadView, q: PayloadView)
    requires
        p.encoding() == q.encoding(),
    ensures
        address_of(p) == address_of(q),
        address_of(p) matches Some(a) ==> stored_after_create(stored_after_create(m, a, p), a, p)
            == stored_after_create(m, a, p),
{
}

/// Reading back the address a payload was stored at gives that payload,
/// unless a different payload already held the address.
pub proof fn lemma_round_trip(m: Map<Seq<u8>, PayloadView>, p: PayloadView)
    requires
        address_of(p) is Some,
        !m.contains_key(address_of(p)->Some_0) || m[address_of(p)->Some_0] == p,
    ensures
        get_result(stored_after_create(m, address_of(p)->Some_0, p), address_of(p)->Some_0, p.kind())
            == Ok::<PayloadView, StoreError>(p),
{
}

/// Reading an address that holds nothing fails with `NotFound`, whatever
/// kind is expected.
pub proof fn lemma_missing_data(m: Map<Seq<u8>, PayloadView>, a: Seq<u8>, kind: PayloadKind)
    requires
        !m.contains_key(a),
    ensures
        get_result(m, a, kind) == Err::<PayloadView, StoreError>(StoreError::NotFound),
{
}

} // verus!
