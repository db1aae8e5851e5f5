use vstd::prelude::*;

verus! {

/// A request that is refused locally, before anything crosses the boundary.
#[derive(Debug)]
pub enum ValidationError {
    /// The named column is not declared by the table.
    UnknownColumn(String),
    /// The value does not fit the named column's declared type.
    TypeMismatch(String),
    /// The declared field type has no column type.
    UnsupportedType(String),
    /// A row does not hold exactly one value per column.
    RowShape,
    /// More than one table-level operation was requested.
    ConflictingAttributes,
    /// A rename names an empty source.
    MalformedRename,
    /// No table of that name is registered.
    UnknownTable(String),
    /// The table is marked dropped and only its schema remains reachable.
    DroppedTable(String),
    /// A table of that name is already registered.
    DuplicateTable(String),
}

/// A failure at the boundary framing: no terminator, or no buffer at all.
#[derive(Debug, Clone, Copy, PartialEq, Eq, Structural)]
pub enum BoundaryError {
    NullBuffer,
    MissingTerminator,
    /// A payload holds a terminator byte of its own.
    EmbeddedTerminator,
}

/// Every way a statement can fail.
#[derive(Debug)]
pub enum Error {
    Validation(ValidationError),
    Serialization(String),
    Deserialization(String),
    Boundary(BoundaryError),
    /// The host's own failure, carried verbatim.
    Execution(String),
}

} // verus!
