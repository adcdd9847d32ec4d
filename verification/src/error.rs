//! The failure taxonomy of the decoder.
//!
//! Every way a decode can go wrong is a distinct variant; decoding never
//! panics. A failure aborts the whole decode: no partially built chunk is
//! ever returned.

use vstd::prelude::*;

verus! {

/// A format feature whose byte layout is not part of the supported format.
/// Meeting one is reported explicitly rather than skipped or guessed at.
#[derive(Clone, Copy, Debug, PartialEq, Eq, Structural)]
pub enum Feature {
    /// A closure constant (constant-pool tag for a prototype reference).
    ClosureConstant,
    /// The per-prototype debug-information block.
    DebugInfo,
}

/// Why a decode failed.
#[derive(Debug, PartialEq, Eq)]
pub enum DecodeError {
    /// A read ran past the end of the buffer.
    UnexpectedEof,
    /// A variable-length integer ran past its maximum byte count.
    MalformedVarint,
    /// The version byte was 1 or 2, which the format does not define.
    InvalidVersion,
    /// The version byte was 0: the buffer carries a compiler diagnostic,
    /// not bytecode. The payload is the raw message text.
    CompilerError(Vec<u8>),
    /// A prototype's vararg flag byte was none of 1, 2 or 4.
    InvalidVarargFlag,
    /// A constant-pool record carried a tag outside the defined set.
    UnknownConstantTag(u8),
    /// A string-table reference was 0 where a string is required, or past
    /// the end of the string table.
    InvalidStringIndex,
    /// A child-function or main-chunk reference lay outside the prototype
    /// table decoded so far.
    UnresolvedProtoIndex,
    /// An instruction word's low byte matched no opcode tag.
    InvalidOpcode(u8),
    /// The input uses a feature the decoder does not support.
    UnsupportedFeature(Feature),
}

/// The mathematical image of a [`DecodeError`]: the same taxonomy with the
/// compiler-diagnostic text abstracted to a byte sequence.
pub enum SpecError {
    UnexpectedEof,
    MalformedVarint,
    InvalidVersion,
    CompilerError(Seq<u8>),
    InvalidVarargFlag,
    UnknownConstantTag(u8),
    InvalidStringIndex,
    UnresolvedProtoIndex,
    InvalidOpcode(u8),
    UnsupportedFeature(Feature),
}

impl View for DecodeError {
    type V = SpecError;

    open spec fn view(&self) -> SpecError {
        match self {
            DecodeError::UnexpectedEof => SpecError::UnexpectedEof,
            DecodeError::MalformedVarint => SpecError::MalformedVarint,
            DecodeError::InvalidVersion => SpecError::InvalidVersion,
            DecodeError::CompilerError(m) => SpecError::CompilerError(m@),
            DecodeError::InvalidVarargFlag => SpecError::InvalidVarargFlag,
            DecodeError::UnknownConstantTag(t) => SpecError::UnknownConstantTag(*t),
            DecodeError::InvalidStringIndex => SpecError::InvalidStringIndex,
            DecodeError::UnresolvedProtoIndex => SpecError::UnresolvedProtoIndex,
            DecodeError::InvalidOpcode(b) => SpecError::InvalidOpcode(*b),
            DecodeError::UnsupportedFeature(f) => SpecError::UnsupportedFeature(*f),
        }
    }
}

} // verus!
