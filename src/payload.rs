use vstd::prelude::*;

verus! {

/// The MessagePack form that `encode` gives for an unsigned integer, if any.
pub uninterp spec fn msgpack_of_u32(v: u32) -> Option<Seq<u8>>;

/// The MessagePack form that `encode` gives for a string, if any.
pub uninterp spec fn msgpack_of_str(s: Seq<char>) -> Option<Seq<u8>>;

/// The view of an optional byte vector.
pub open spec fn bytes_view(o: Option<Vec<u8>>) -> Option<Seq<u8>> {
    match o {
        Some(b) => Some(b@),
        None => None,
    }
}

/// Relies on `holochain_serialized_bytes::encode`: the MessagePack bytes of an
/// integer, or an error; the outcome depends on the value alone.
#[verifier::external_body]
fn encode_u32(v: u32) -> (r: Option<Vec<u8>>)
    ensures
        bytes_view(r) == msgpack_of_u32(v),
{
    hdk::prelude::encode(&v).ok()
}

/// Relies on `holochain_serialized_bytes::encode`: the MessagePack bytes of a
/// string, or an error; the outcome depends on the characters alone.
#[verifier::external_body]
fn encode_str(s: &String) -> (r: Option<Vec<u8>>)
    ensures
        bytes_view(r) == msgpack_of_str(s@),
{
    hdk::prelude::encode(s).ok()
}

/// The kind of record a payload is, used to check what a read expects.
#[derive(Clone, Copy, Debug, PartialEq, Eq, Structural)]
pub enum PayloadKind {
    Integer,
    Label,
}

/// The content of a record.
#[derive(Clone, Debug)]
pub enum Payload {
    Integer(u32),
    Label(String),
}

/// The mathematical value of a payload.
pub enum PayloadView {
    Integer(u32),
    Label(Seq<char>),
}

impl View for Payload {
    type V = PayloadView;

    open spec fn view(&self) -> PayloadView {
        match self {
            Payload::Integer(v) => PayloadView::Integer(*v),
            Payload::Label(s) => PayloadView::Label(s@),
        }
    }
}

impl PayloadView {
    pub open spec fn kind(self) -> PayloadKind {
        match self {
            PayloadView::Integer(_) => PayloadKind::Integer,
            PayloadView::Label(_) => PayloadKind::Label,
        }
    }

    /// The serialized bytes of the payload, where it has any.
    pub open spec fn encoding(self) -> Option<Seq<u8>> {
        match self {
            PayloadView::Integer(v) => msgpack_of_u32(v),
            PayloadView::Label(s) => msgpack_of_str(s),
        }
    }
}

impl Payload {
    pub fn kind(&self) -> (r: PayloadKind)
        ensures
            r == self@.kind(),
    {
        match self {
            Payload::Integer(_) => PayloadKind::Integer,
            Payload::Label(_) => PayloadKind::Label,
        }
    }

    /// The serialized bytes of the payload; `None` where serialization fails.
    pub fn encode(&self) -> (r: Option<Vec<u8>>)
        ensures
            bytes_view(r) == self@.encoding(),
    {
        match self {
            Payload::Integer(v) => encode_u32(*v),
            Payload::Label(s) => encode_str(s),
        }
    }

    pub fn duplicate(&self) -> (r: Payload)
        ensures
            r@ == self@,
    {
        match self {
            Payload::Integer(v) => Payload::Integer(*v),
            Payload::Label(s) => Payload::Label(s.clone()),
        }
    }
}

} // verus!
