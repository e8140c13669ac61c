//! The ways in which loading and querying a readout can fail.

use vstd::prelude::*;

verus! {

/// Why a readout could not be loaded, or a chunk not selected.
#[derive(Clone, Copy, Debug, PartialEq, Eq, Structural)]
pub enum ParseError {
    /// A token is not a hexadecimal number of at most 64 bits.
    MalformedWord,
    /// A line holds no token, so it has no frame word.
    EmptyLine,
    /// The input file could not be opened or read.
    FileUnreadable,
    /// A chunk was asked for that the loaded sequence does not hold.
    IndexOutOfRange,
}

} // verus!
