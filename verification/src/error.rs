//! The closed error taxonomy shared by all patch decoders.

use vstd::prelude::*;

verus! {

/// The variant of a [`PatchError`], without its payload.
///
/// Specification-level interpreters classify failures with this type, and
/// the executable decoders promise to return an error of the matching
/// variant.
#[derive(Clone, Copy, Debug, PartialEq, Eq, Structural)]
pub enum ErrKind {
    InvalidMagic,
    InvalidFormat,
    UnexpectedEof,
    CorruptedData,
    OutOfBounds,
    ChecksumMismatch,
    VarintOverflow,
    ResourceLimit,
    NotSupported,
    Other,
}

/// A decode error.  Errors are returned, never recovered silently; a
/// partially mutated target buffer may be visible to the caller after an
/// error unless the function promises otherwise.
#[derive(Debug)]
pub enum PatchError {
    /// The first bytes do not match the expected magic for this codec.
    InvalidMagic { expected: Vec<u8>, actual: Vec<u8> },
    /// A structural rule was broken (wrong field value, illegal action).
    InvalidFormat(&'static str),
    /// The patch ended mid-record or mid-field.
    UnexpectedEof(&'static str),
    /// A fixed-size descriptor region was truncated (PPF).
    CorruptedData,
    /// A record would read or write outside the ROM or target region.
    OutOfBounds { offset: usize, rom_size: usize },
    /// A CRC, MD5 or Adler digest did not match.
    ChecksumMismatch { expected: Vec<u8>, actual: Vec<u8> },
    /// A variable-length integer exceeded the representable range.
    VarintOverflow,
    /// The declared target size exceeds the configured ceiling.
    ResourceLimit,
    /// The format does not carry the requested feature.
    NotSupported,
    /// Implementation-defined condition.
    Other(&'static str),
}

impl PatchError {
    /// The variant of this error, for use in contracts.
    pub open spec fn kind(&self) -> ErrKind {
        match self {
            PatchError::InvalidMagic { .. } => ErrKind::InvalidMagic,
            PatchError::InvalidFormat(..) => ErrKind::InvalidFormat,
            PatchError::UnexpectedEof(..) => ErrKind::UnexpectedEof,
            PatchError::CorruptedData => ErrKind::CorruptedData,
            PatchError::OutOfBounds { .. } => ErrKind::OutOfBounds,
            PatchError::ChecksumMismatch { .. } => ErrKind::ChecksumMismatch,
            PatchError::VarintOverflow => ErrKind::VarintOverflow,
            PatchError::ResourceLimit => ErrKind::ResourceLimit,
            PatchError::NotSupported => ErrKind::NotSupported,
            PatchError::Other(..) => ErrKind::Other,
        }
    }

    /// A short human-readable label for the error variant.
    pub fn label(&self) -> (r: &'static str)
    {
        match self {
            PatchError::InvalidMagic { .. } => "invalid magic",
            PatchError::InvalidFormat(..) => "invalid format",
            PatchError::UnexpectedEof(..) => "unexpected end of patch",
            PatchError::CorruptedData => "corrupted data",
            PatchError::OutOfBounds { .. } => "out of bounds",
            PatchError::ChecksumMismatch { .. } => "checksum mismatch",
            PatchError::VarintOverflow => "varint overflow",
            PatchError::ResourceLimit => "resource limit exceeded",
            PatchError::NotSupported => "not supported by this format",
            PatchError::Other(..) => "error",
        }
    }
}

} // verus!
