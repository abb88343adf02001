use vstd::prelude::*;

verus! {

/// The digest that `blake2b_256` gives for a byte string.
pub uninterp spec fn blake2b_256_of(data: Seq<u8>) -> Seq<u8>;

/// Relies on `holo_hash::encode::blake2b_256`: a 32-byte BLAKE2b digest that
/// depends on the bytes alone.
#[verifier::external_body]
fn blake2b_256(data: &Vec<u8>) -> (r: Vec<u8>)
    ensures
        r@ == blake2b_256_of(data@),
        r@.len() == 32,
{
    hdk::prelude::holo_hash::encode::blake2b_256(data.as_slice())
}

/// The content address of a record: the digest of its serialized bytes.
#[derive(Clone, Debug, PartialEq, Eq)]
pub struct Address {
    pub bytes: Vec<u8>,
}

impl View for Address {
    type V = Seq<u8>;

    open spec fn view(&self) -> Seq<u8> {
        self.bytes@
    }
}

/// The public key that identifies an agent, the owner of index links.
#[derive(Clone, Debug, PartialEq, Eq)]
pub struct AgentKey {
    pub bytes: Vec<u8>,
}

impl View for AgentKey {
    type V = Seq<u8>;

    open spec fn view(&self) -> Seq<u8> {
        self.bytes@
    }
}

/// Whether two byte strings are equal.
pub fn same_bytes(a: &Vec<u8>, b: &Vec<u8>) -> (r: bool)
    ensures
        r == (a@ == b@),
{
    if a.len() != b.len() {
        return false;
    }
    let mut i: usize = 0;
    while i < a.len()
        invariant
            a@.len() == b@.len(),
            i <= a@.len(),
            forall|j: int| 0 <= j < i ==> a@[j] == b@[j],
        decreases a@.len() - i,
    {
        if a[i] != b[i] {
            return false;
        }
        i = i + 1;
    }
    assert(a@ =~= b@);
    true
}

impl Address {
    /// The address of the given serialized content.
    pub fn of_bytes(content: &Vec<u8>) -> (r: Address)
        ensures
            r@ == blake2b_256_of(content@),
            r@.len() == 32,
    {
        Address { bytes: blake2b_256(content) }
    }

    pub fn same(&self, other: &Address) -> (r: bool)
        ensures
            r == (self@ == other@),
    {
        same_bytes(&self.bytes, &other.bytes)
    }

    pub fn duplicate(&self) -> (r: Address)
        ensures
            r@ == self@,
    {
        Address { bytes: self.bytes.clone() }
    }
}

impl AgentKey {
    pub fn same(&self, other: &AgentKey) -> (r: bool)
        ensures
            r == (self@ == other@),
    {
        same_bytes(&self.bytes, &other.bytes)
    }

    pub fn duplicate(&self) -> (r: AgentKey)
        ensures
            r@ == self@,
    {
        AgentKey { bytes: self.bytes.clone() }
    }
}

} // verus!
