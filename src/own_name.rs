//! Handles for owned and watched bus names, and the well-known buses.

use vstd::prelude::*;

verus! {

/// An enumeration for well-known message buses.
#[derive(Clone, Copy, Debug, PartialEq, Eq, Structural)]
pub enum Type {
    /// An alias for the message bus that activated the process, if any.
    Starter,
    /// Not a message bus.
    NoBus,
    /// The system-wide message bus.
    System,
    /// The login session message bus.
    Session,
}

/// The bus-type code that the bus daemon's client library gives each
/// well-known bus.
pub open spec fn bus_type_code(t: Type) -> int {
    match t {
        Type::Starter => -1,
        Type::NoBus => 0,
        Type::System => 1,
        Type::Session => 2,
    }
}

impl Type {
    /// The bus-type code of this bus.
    pub fn to_glib(&self) -> (r: i32)
        ensures
            r == bus_type_code(*self),
    {
        match self {
            Type::Starter => -1,
            Type::NoBus => 0,
            Type::System => 1,
            Type::Session => 2,
        }
    }
}

/// An owned bus name, known by the id its owner request was given.
pub struct OwnName {
    id: u32,
}

impl OwnName {
    /// The handle of the owner request with id `id`.
    pub fn from_id(id: u32) -> (r: OwnName)
        ensures
            r.id() == id,
    {
        OwnName { id }
    }

    /// The id of the owner request.
    pub closed spec fn id(&self) -> u32 {
        self.id
    }

    /// The id of the owner request.
    pub fn get_id(&self) -> (r: u32)
        ensures
            r == self.id(),
    {
        self.id
    }
}

/// A watched bus name, known by the id its watch request was given.
pub struct Watch {
    id: u32,
}

impl Watch {
    /// The handle of the watch request with id `id`.
    pub fn from_id(id: u32) -> (r: Watch)
        ensures
            r.id() == id,
    {
        Watch { id }
    }

    /// The id of the watch request.
    pub closed spec fn id(&self) -> u32 {
        self.id
    }

    /// The id of the watch request.
    pub fn get_id(&self) -> (r: u32)
        ensures
            r == self.id(),
    {
        self.id
    }
}

} // verus!
