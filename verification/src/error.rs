//! The ways in which reading and seeking fail.

use vstd::prelude::*;

verus! {

/// Why a read or a seek did not succeed.
#[derive(Debug, Clone, Copy, PartialEq, Eq, Structural)]
pub enum ReadError {
    /// Fewer bytes remain than were asked for.
    UnexpectedEof,
    /// A relative seek would end before the first byte or past the largest
    /// position that can be held.
    InvalidSeek,
    /// A byte outside ASCII was found where text was asked for.
    InvalidData,
}

} // verus!
