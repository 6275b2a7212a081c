//! The failures that the library reports.

use vstd::prelude::*;

verus! {

/// Why an operation of the library did not take place.
#[derive(Clone, Copy, Debug, PartialEq, Eq, Structural)]
pub enum Error {
    /// The requested access is already held, or the access mode is unknown.
    AccessDenied,
    /// Every slot of a bounded store is occupied.
    Full,
    /// A bounded store holds nothing.
    Empty,
    /// The bytes at hand are not the UTF-8 encoding of a Unicode scalar value.
    InvalidEncoding,
    /// The byte source ended before a whole codepoint was read.
    SourceExhausted,
    /// Memory for a new registry entry could not be had.
    OutOfMemory,
    /// More devices were asked for than can be registered.
    Overflow,
}

} // verus!
