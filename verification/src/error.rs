//! Error kinds shared by every layer of the parser.

use vstd::prelude::*;

verus! {

/// Everything that can go wrong while decoding an ABC buffer.
#[derive(Clone, Copy, Debug, PartialEq, Eq, Structural)]
pub enum AbcError {
    /// The fixed 60-byte header is truncated or its magic is wrong.
    MalformedHeader,
    /// A class tagged-value list holds an unknown tag.
    MalformedClassData,
    /// A field tagged-value list holds an unknown tag.
    MalformedFieldData,
    /// A method tagged-value list holds an unknown tag.
    MalformedMethodData,
    /// A read would run past the end of the buffer.
    OutOfBounds,
    /// A LEB128 sequence runs for ten bytes without a terminator.
    InvalidLeb128,
    /// The decoder hit a byte that is in neither opcode table.
    UnknownOpcode,
    /// A method lookup by qualified name failed.
    InvalidMethodReference,
}

impl AbcError {
    /// A short diagnostic name for the error, for callers that print it.
    pub fn text(&self) -> (r: &'static str)
        ensures
            r@.len() > 0,
    {
        proof {
            reveal_strlit("malformed header");
            reveal_strlit("malformed class data");
            reveal_strlit("malformed field data");
            reveal_strlit("malformed method data");
            reveal_strlit("out of bounds");
            reveal_strlit("invalid leb128");
            reveal_strlit("unknown opcode");
            reveal_strlit("invalid method reference");
        }
        match self {
            AbcError::MalformedHeader => "malformed header",
            AbcError::MalformedClassData => "malformed class data",
            AbcError::MalformedFieldData => "malformed field data",
            AbcError::MalformedMethodData => "malformed method data",
            AbcError::OutOfBounds => "out of bounds",
            AbcError::InvalidLeb128 => "invalid leb128",
            AbcError::UnknownOpcode => "unknown opcode",
            AbcError::InvalidMethodReference => "invalid method reference",
        }
    }
}

} // verus!
