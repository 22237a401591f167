//! Errors of the codec.
use vstd::prelude::*;

verus! {

/// The ways in which reading, writing, encoding or decoding can fail.
#[derive(Clone, Copy, Debug, PartialEq, Eq, Structural)]
pub enum Error {
    /// A consume, seek or read asked for more bytes than are available.
    BufferExhausted,
    /// A value does not fit its field on the wire, or a discriminant byte
    /// names no known variant.
    OutOfRange,
}

} // verus!
