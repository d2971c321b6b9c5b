//! The crate's error type: a kind from a fixed taxonomy plus a short
//! human-readable message.

use vstd::prelude::*;
use vstd::string::StringExecFns;

verus! {

/// What went wrong, by category.
#[derive(Debug, Clone, Copy, PartialEq, Eq, Structural)]
pub enum ErrorKind {
    /// Malformed on-disk data: bad magic, bad page size, unknown page type,
    /// unsupported serial type, invalid UTF-8 in a text field.
    Format,
    /// Failure against the underlying file.
    Io,
    /// A pointer or field slice exceeds the page or payload.
    Bounds,
    /// Unknown table, unknown column, wrong `CREATE TABLE` shape.
    Schema,
    /// Unexpected token, unterminated string, unsupported type name.
    Parse,
    /// A predicate not of the supported shape.
    Plan,
    /// Index pages, payload overflow, and other recognized-but-unsupported
    /// corners of the format.
    Unimplemented,
}

/// An error surfaced to the caller: a kind and a message.
#[derive(Debug, Clone)]
pub struct DbError {
    pub kind: ErrorKind,
    pub message: String,
}

impl DbError {
    /// Build an error of the given kind carrying the given message.
    pub fn new(kind: ErrorKind, message: &str) -> (e: DbError)
        ensures
            e.kind == kind,
            e.message@ == message@,
    {
        DbError { kind, message: String::from_str(message) }
    }
}

} // verus!
