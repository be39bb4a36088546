//! The error taxonomy of the validator and the renamer's own failure kind.

use vstd::prelude::*;

verus! {

/// Why a parse attempt was rejected.  The payload of the structural variants
/// is a short human-readable reason; contracts speak of the [`ErrorKind`]
/// alone, which the reasons refine.
#[derive(Clone, Copy, Debug)]
pub enum DSError {
    /// A read would have crossed the end of the buffer.
    PacketTooSmall,
    /// The message is structurally inconsistent (wrong question cardinality,
    /// an RDATA length that contradicts a fixed-size record type, sections
    /// present without a matching question).
    InvalidPacket(&'static str),
    /// A name's encoding breaks a label length or pointer direction rule.
    InvalidName(&'static str),
    /// Validator bookkeeping reached a state that well-formed counts make
    /// impossible; not attributable to one malformed field.
    InternalError(&'static str),
}

/// The four kinds of parse failure, with the reasons stripped.  The
/// specification-level parser below works over these.
#[derive(Clone, Copy, Debug, PartialEq, Eq, Structural)]
pub enum ErrorKind {
    PacketTooSmall,
    InvalidPacket,
    InvalidName,
    InternalError,
}

impl DSError {
    /// The kind of this error, without its reason.
    pub open spec fn kind(self) -> ErrorKind {
        match self {
            DSError::PacketTooSmall => ErrorKind::PacketTooSmall,
            DSError::InvalidPacket(_) => ErrorKind::InvalidPacket,
            DSError::InvalidName(_) => ErrorKind::InvalidName,
            DSError::InternalError(_) => ErrorKind::InternalError,
        }
    }
}

/// Why a rename attempt was rejected.  Distinct from the parse taxonomy: a
/// packet that failed to rename is still a valid packet.
#[derive(Clone, Copy, Debug, PartialEq, Eq, Structural)]
pub enum RenameError {
    /// No name in the packet matched the name to replace, and the caller
    /// asked for a match to be found.
    NoMatch,
    /// One of the two raw names is not a well-formed uncompressed name, or
    /// the two do not share one label-length shape.
    InvalidRawName,
}

} // verus!
