//! Terms: the predicates that queries and observers are made of.

use vstd::prelude::*;

verus! {

/// How a term uses the value of its id.
#[derive(Clone, Copy, Debug, PartialEq, Eq, Structural)]
pub enum Access {
    /// The value is read.
    Read,
    /// The value is read and written.
    Write,
    /// The id only constrains matching; no value is handed to the callback.
    Filter,
}

/// One predicate of a query or observer: the id to match, the entity to
/// match it on (0 for the entity of each row), and how the value is used.
#[derive(Clone, Copy, Debug, PartialEq, Eq, Structural)]
pub struct Term {
    pub id: u64,
    pub source: u64,
    pub access: Access,
}

impl Term {
    /// A term that reads `id` on the entity of each row.
    pub fn read(id: u64) -> (t: Term)
        ensures
            t == (Term { id, source: 0, access: Access::Read }),
    {
        Term { id, source: 0, access: Access::Read }
    }

    /// A term that reads and writes `id` on the entity of each row.
    pub fn write(id: u64) -> (t: Term)
        ensures
            t == (Term { id, source: 0, access: Access::Write }),
    {
        Term { id, source: 0, access: Access::Write }
    }

    /// A term that only constrains matching.
    pub fn with(id: u64) -> (t: Term)
        ensures
            t == (Term { id, source: 0, access: Access::Filter }),
    {
        Term { id, source: 0, access: Access::Filter }
    }

    /// Whether the term hands a value to the callback.
    pub open spec fn has_data(&self) -> bool {
        self.access != Access::Filter
    }

    /// Whether the term hands a value to the callback.
    pub fn carries_data(&self) -> (r: bool)
        ensures
            r == self.has_data(),
    {
        match self.access {
            Access::Filter => false,
            _ => true,
        }
    }
}

/// The shape of a callback: what its closure takes. The shape decides which
/// slot of a binding context holds the closure and which function runs it.
#[derive(Clone, Copy, Debug, PartialEq, Eq, Structural)]
pub enum CallbackShape {
    /// The values of one row.
    Each,
    /// The entity of one row, and its values.
    EachEntity,
    /// Nothing.
    Empty,
    /// The entity the event is about.
    EmptyEntity,
    /// The payload of the event.
    Payload,
    /// The entity the event is about, and the payload of the event.
    PayloadEntity,
}

} // verus!
