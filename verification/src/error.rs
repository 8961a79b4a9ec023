//! The errors of the library.
use vstd::prelude::*;

verus! {

/// What can go wrong when encoding a value or translating a schema.
#[derive(Debug, Clone, Copy, PartialEq, Eq, Structural)]
pub enum Error {
    /// A string or a vector is too long for the length prefix of its TL form.
    TooLong,
    /// A constructor or method id in the schema is not a decimal `i32`; the
    /// kind of failure is the one std's `i32::from_str` reports.
    ParseInt(IntErrorKind),
}

/// Why a text is not an integer, as std's `IntErrorKind` tells it.
#[derive(Debug, Clone, Copy, PartialEq, Eq, Structural)]
pub enum IntErrorKind {
    /// The text is empty.
    Empty,
    /// The text holds a character that is not a digit (a lone sign too).
    InvalidDigit,
    /// The number is too large for the type.
    PosOverflow,
    /// The number is too small for the type.
    NegOverflow,
}

} // verus!
