//! Errors of the encoder and the stable codes they cross a binding boundary with.

use vstd::prelude::*;
use crate::protocol::TransportError;

verus! {

pub const AIRGAP_UNKNOWN_ERR: i32 = -10;
pub const AIRGAP_ERR_INVALID_MAGIC: i32 = -11;
pub const AIRGAP_ERR_UNSUPPORTED_VERSION: i32 = -12;
pub const AIRGAP_ERR_CRC_MISMATCH: i32 = -13;
pub const AIRGAP_ERR_SESSION_MISMATCH: i32 = -14;
pub const AIRGAP_ERR_METADATA_MISMATCH: i32 = -15;
pub const AIRGAP_ERR_CHUNK_OUT_OF_BOUNDS: i32 = -16;
pub const AIRGAP_ERR_TOO_MANY_CHUNKS: i32 = -17;
pub const AIRGAP_ERR_CHUNK_SIZE_TOO_LARGE: i32 = -18;
pub const AIRGAP_ERR_CHUNK_SIZE_TOO_SMALL: i32 = -19;
pub const AIRGAP_ERR_MISSING_CHUNK: i32 = -20;
pub const AIRGAP_ERR_ENCODING: i32 = -21;
pub const AIRGAP_ERR_EMPTY_DATA: i32 = -22;

/// Errors of the encoder, and of the decoder once handed across a binding.
#[derive(Debug, Clone, PartialEq, Eq)]
pub enum AirgapError {
    UnknownError,
    EmptyData,
    InvalidMagic,
    UnsupportedVersion(u8),
    CrcMismatch,
    SessionMismatch,
    MetadataMismatch,
    ChunkOutOfBounds(u16),
    TooManyChunks(usize),
    ChunkSizeTooLarge(usize, usize),
    ChunkSizeTooSmall(usize, usize),
    MissingChunk(u16),
    EncodingError(String),
}

/// The stable code of each error kind.
pub open spec fn code_of(e: AirgapError) -> i32 {
    match e {
        AirgapError::UnknownError => AIRGAP_UNKNOWN_ERR,
        AirgapError::EmptyData => AIRGAP_ERR_EMPTY_DATA,
        AirgapError::InvalidMagic => AIRGAP_ERR_INVALID_MAGIC,
        AirgapError::UnsupportedVersion(_) => AIRGAP_ERR_UNSUPPORTED_VERSION,
        AirgapError::CrcMismatch => AIRGAP_ERR_CRC_MISMATCH,
        AirgapError::SessionMismatch => AIRGAP_ERR_SESSION_MISMATCH,
        AirgapError::MetadataMismatch => AIRGAP_ERR_METADATA_MISMATCH,
        AirgapError::ChunkOutOfBounds(_) => AIRGAP_ERR_CHUNK_OUT_OF_BOUNDS,
        AirgapError::TooManyChunks(_) => AIRGAP_ERR_TOO_MANY_CHUNKS,
        AirgapError::ChunkSizeTooLarge(_, _) => AIRGAP_ERR_CHUNK_SIZE_TOO_LARGE,
        AirgapError::ChunkSizeTooSmall(_, _) => AIRGAP_ERR_CHUNK_SIZE_TOO_SMALL,
        AirgapError::MissingChunk(_) => AIRGAP_ERR_MISSING_CHUNK,
        AirgapError::EncodingError(_) => AIRGAP_ERR_ENCODING,
    }
}

/// The same error kind, with the same details, in the encoder's taxonomy.
pub open spec fn airgap_of(e: TransportError) -> AirgapError {
    match e {
        TransportError::UnknownError => AirgapError::UnknownError,
        TransportError::InvalidMagic => AirgapError::InvalidMagic,
        TransportError::UnsupportedVersion(v) => AirgapError::UnsupportedVersion(v),
        TransportError::CrcMismatch => AirgapError::CrcMismatch,
        TransportError::SessionMismatch => AirgapError::SessionMismatch,
        TransportError::MetadataMismatch => AirgapError::MetadataMismatch,
        TransportError::ChunkOutOfBounds(i) => AirgapError::ChunkOutOfBounds(i),
        TransportError::TooManyChunks(n) => AirgapError::TooManyChunks(n),
        TransportError::ChunkSizeTooLarge(a, b) => AirgapError::ChunkSizeTooLarge(a, b),
        TransportError::ChunkSizeTooSmall(a, b) => AirgapError::ChunkSizeTooSmall(a, b),
        TransportError::MissingChunk(i) => AirgapError::MissingChunk(i),
        TransportError::EncodingError(s) => AirgapError::EncodingError(s),
    }
}

impl AirgapError {
    /// The stable code of this error.
    pub fn to_code(&self) -> (r: i32)
        ensures
            r == code_of(*self),
    {
        match self {
            AirgapError::UnknownError => AIRGAP_UNKNOWN_ERR,
            AirgapError::EmptyData => AIRGAP_ERR_EMPTY_DATA,
            AirgapError::InvalidMagic => AIRGAP_ERR_INVALID_MAGIC,
            AirgapError::UnsupportedVersion(_) => AIRGAP_ERR_UNSUPPORTED_VERSION,
            AirgapError::CrcMismatch => AIRGAP_ERR_CRC_MISMATCH,
            AirgapError::SessionMismatch => AIRGAP_ERR_SESSION_MISMATCH,
            AirgapError::MetadataMismatch => AIRGAP_ERR_METADATA_MISMATCH,
            AirgapError::ChunkOutOfBounds(_) => AIRGAP_ERR_CHUNK_OUT_OF_BOUNDS,
            AirgapError::TooManyChunks(_) => AIRGAP_ERR_TOO_MANY_CHUNKS,
            AirgapError::ChunkSizeTooLarge(_, _) => AIRGAP_ERR_CHUNK_SIZE_TOO_LARGE,
            AirgapError::ChunkSizeTooSmall(_, _) => AIRGAP_ERR_CHUNK_SIZE_TOO_SMALL,
            AirgapError::MissingChunk(_) => AIRGAP_ERR_MISSING_CHUNK,
            AirgapError::EncodingError(_) => AIRGAP_ERR_ENCODING,
        }
    }
}

impl From<TransportError> for AirgapError {
    fn from(e: TransportError) -> (r: AirgapError)
        ensures
            r == airgap_of(e),
    {
        match e {
            TransportError::UnknownError => AirgapError::UnknownError,
            TransportError::InvalidMagic => AirgapError::InvalidMagic,
            TransportError::UnsupportedVersion(v) => AirgapError::UnsupportedVersion(v),
            TransportError::CrcMismatch => AirgapError::CrcMismatch,
            TransportError::SessionMismatch => AirgapError::SessionMismatch,
            TransportError::MetadataMismatch => AirgapError::MetadataMismatch,
            TransportError::ChunkOutOfBounds(i) => AirgapError::ChunkOutOfBounds(i),
            TransportError::TooManyChunks(n) => AirgapError::TooManyChunks(n),
            TransportError::ChunkSizeTooLarge(a, b) => AirgapError::ChunkSizeTooLarge(a, b),
            TransportError::ChunkSizeTooSmall(a, b) => AirgapError::ChunkSizeTooSmall(a, b),
            TransportError::MissingChunk(i) => AirgapError::MissingChunk(i),
            TransportError::EncodingError(s) => AirgapError::EncodingError(s),
        }
    }
}

impl vstd::std_specs::convert::FromSpecImpl<TransportError> for AirgapError {
    open spec fn obeys_from_spec() -> bool {
        true
    }

    open spec fn from_spec(e: TransportError) -> AirgapError {
        airgap_of(e)
    }
}

} // verus!
