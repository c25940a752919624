//! Errors of the bubble codec.
use vstd::prelude::*;

verus! {

/// Why a decode step failed.
#[derive(Clone, Copy, Debug, PartialEq, Eq, Structural)]
pub enum BubError {
    /// The byte source ended inside a field.
    UnexpectedEof,
    /// An unknown tag, a malformed field or a segment that cannot be laid out.
    InvalidData,
    /// A CRC trailer did not match the bytes it closes.
    CrcMismatch,
}

} // verus!
