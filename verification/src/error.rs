//! What can go wrong, and how many more bytes a decoder asks for.

use vstd::prelude::*;

verus! {

/// The ways in which reading a capture ends or fails.
#[derive(Debug, Clone, Copy, PartialEq, Eq, Structural)]
pub enum PcapError {
    /// The source has ended and every byte of it has been decoded.
    Eof,
    /// The byte source reported a failure.
    ReadError,
    /// More bytes are needed before the next unit can be decoded. The
    /// number is a lower bound on how many; 0 stands for "not known".
    Incomplete(usize),
    /// The source ended in the middle of a unit.
    UnexpectedEof,
    /// The input begins with the header of neither dialect.
    HeaderNotRecognized,
    /// The next unit cannot fit into the staging buffer.
    BufferTooSmall,
    /// The total length declared by a block is too small for its kind or is
    /// not a multiple of four.
    InvalidBlockLength,
    /// The length that ends a block differs from the length that begins it.
    BlockLengthMismatch,
    /// A record's captured length exceeds its original length, the snapshot
    /// length in force, or the block that carries it.
    InvalidCapturedLength,
    /// A block of a kind that this reader does not know, under the policy
    /// that rejects such blocks.
    UnknownBlockType,
}

impl PcapError {
    /// Whether this is a fault in the structure of the input, as a decoder
    /// finds it.
    pub open spec fn is_structural(self) -> bool {
        self is HeaderNotRecognized || self is InvalidBlockLength || self is BlockLengthMismatch
            || self is InvalidCapturedLength || self is UnknownBlockType
    }
}

/// How many more bytes a decoder needs.
#[derive(Debug, Clone, Copy, PartialEq, Eq, Structural)]
pub enum Needed {
    /// More, but the decoder cannot say how many.
    Unknown,
    /// At least this many.
    Size(usize),
}

impl Needed {
    /// The hint that `PcapError::Incomplete` carries for this need.
    pub open spec fn hint_spec(self) -> usize {
        match self {
            Needed::Unknown => 0,
            Needed::Size(n) => n,
        }
    }

    /// The least number of bytes that can satisfy this need: a need is never
    /// met by no byte at all.
    pub open spec fn at_least_spec(self) -> nat {
        match self {
            Needed::Unknown => 1,
            Needed::Size(n) => if n == 0 { 1 } else { n as nat },
        }
    }

    /// The hint that `PcapError::Incomplete` carries for this need.
    pub fn hint(&self) -> (n: usize)
        ensures
            n == self.hint_spec(),
    {
        match self {
            Needed::Unknown => 0,
            Needed::Size(n) => *n,
        }
    }

    /// The least number of bytes that can satisfy this need.
    pub fn at_least(&self) -> (n: usize)
        ensures
            n == self.at_least_spec(),
    {
        match self {
            Needed::Unknown => 1,
            Needed::Size(n) => if *n == 0 { 1 } else { *n },
        }
    }
}

} // verus!
