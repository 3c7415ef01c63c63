//! Error values reported by the library.

use vstd::prelude::*;

verus! {

/// Why a connection token could not be decoded.
#[derive(Debug, Clone, Copy, PartialEq, Eq, Structural)]
pub enum DecodeError {
    /// The token is not of the form letter, digits, colon, digits.
    FormatError,
    /// A numeric field of the token is not a number that fits its type.
    RangeError,
}

/// Why a change to the circuit graph was refused.
#[derive(Debug, Clone, Copy, PartialEq, Eq, Structural)]
pub enum GraphError {
    /// A template id, an instance id or a terminal that is referred to does not exist.
    DanglingReference,
    /// An id that has to be unique is already taken.
    DuplicateId,
}

} // verus!
