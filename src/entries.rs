use vstd::prelude::*;
use crate::payload::Payload;

verus! {

/// An integer record.
#[derive(Clone, Debug, PartialEq, Eq, Structural)]
pub struct Integer {
    pub value: u32,
}

/// A text label record.
#[derive(Clone, Debug)]
pub struct Label {
    pub name: String,
}

/// A placeholder integer record.
#[derive(Clone, Debug, PartialEq, Eq, Structural)]
pub struct Dummy {
    pub value: u32,
}

/// A placeholder named record.
#[derive(Clone, Debug)]
pub struct Fake {
    pub name: String,
}

/// The entry types of the integer records.
#[derive(Clone, Debug)]
pub enum IntegerEntry {
    Integer(Integer),
}

/// The entry types of the label records.
#[derive(Clone, Debug)]
pub enum LabelEntry {
    Label(Label),
}

/// The entry types of the placeholder records.
#[derive(Clone, Debug)]
pub enum DummyEntry {
    Dummy(Dummy),
}

impl IntegerEntry {
    /// The payload that stores this entry.
    pub fn into_payload(self) -> (r: Payload)
        ensures
            r == (match self {
                IntegerEntry::Integer(i) => Payload::Integer(i.value),
            }),
    {
        match self {
            IntegerEntry::Integer(i) => Payload::Integer(i.value),
        }
    }
}

impl LabelEntry {
    /// The payload that stores this entry.
    pub fn into_payload(self) -> (r: Payload)
        ensures
            r == (match self {
                LabelEntry::Label(l) => Payload::Label(l.name),
            }),
    {
        match self {
            LabelEntry::Label(l) => Payload::Label(l.name),
        }
    }
}

impl DummyEntry {
    /// The payload that stores this entry.
    pub fn into_payload(self) -> (r: Payload)
        ensures
            r == (match self {
                DummyEntry::Dummy(d) => Payload::Integer(d.value),
            }),
    {
        match self {
            DummyEntry::Dummy(d) => Payload::Integer(d.value),
        }
    }
}

/// The link types of the integer records.
#[derive(Clone, Copy, Debug, PartialEq, Eq, Structural)]
pub enum IntegerLinkType {
    Default,
    ToValues,
}

/// The link types of the label records.
#[derive(Clone, Copy, Debug, PartialEq, Eq, Structural)]
pub enum LabelLink {
    Default,
}

/// The link types of the real-number records.
#[derive(Clone, Copy, Debug, PartialEq, Eq, Structural)]
pub enum RealLink {
    Default,
}

/// The link types of the placeholder records.
#[derive(Clone, Copy, Debug, PartialEq, Eq, Structural)]
pub enum DummyLinkType {
    Default,
    ToDummies,
}

impl IntegerLinkType {
    /// The index tag of the link type: its position in the declaration.
    pub fn tag(self) -> (r: u8)
        ensures
            r == (match self {
                IntegerLinkType::Default => 0u8,
                IntegerLinkType::ToValues => 1u8,
            }),
    {
        match self {
            IntegerLinkType::Default => 0,
            IntegerLinkType::ToValues => 1,
        }
    }
}

impl LabelLink {
    /// The index tag of the link type.
    pub fn tag(self) -> (r: u8)
        ensures
            r == 0,
    {
        0
    }
}

impl RealLink {
    /// The index tag of the link type.
    pub fn tag(self) -> (r: u8)
        ensures
            r == 0,
    {
        0
    }
}

impl DummyLinkType {
    /// The index tag of the link type: its position in the declaration.
    pub fn tag(self) -> (r: u8)
        ensures
            r == (match self {
                DummyLinkType::Default => 0u8,
                DummyLinkType::ToDummies => 1u8,
            }),
    {
        match self {
            DummyLinkType::Default => 0,
            DummyLinkType::ToDummies => 1,
        }
    }
}

} // verus!
