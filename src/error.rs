use vstd::prelude::*;

verus! {

/// A failure reported by the relational store while a statement runs.
#[derive(Clone, Copy, Debug, PartialEq, Eq, Structural)]
pub enum StoreError {
    /// A row would repeat the key `(event_id, attendee)` of its table.
    UniqueViolation,
    /// A row refers to an event that does not exist, or an event still has rows.
    ForeignKeyViolation,
    /// No further event id can be generated.
    IdExhausted,
}

/// The errors of the attendance engine.
#[derive(Clone, Copy, Debug, PartialEq, Eq, Structural)]
pub enum AttendanceError {
    /// The attendee identifier is empty, or starts with a digit and is not a number.
    InvalidIdentifier,
    /// A required field of the request body is absent.
    MissingField,
    /// A statement of a write sequence failed; nothing of the sequence persists.
    Store(StoreError),
}

} // verus!
