//! The wire format of one frame: a fixed header, the data and a checksum.

use vstd::prelude::*;

verus! {

/// Protocol signature carried in the first two bytes of every frame.
pub const MAGIC: u16 = 0x19F7;

/// The only protocol version this library reads and writes.
pub const VERSION: u8 = 1;

/// Length of the fixed header in bytes.
pub const HEADER_SIZE: usize = 16;

/// Length of the trailing checksum in bytes.
pub const CHECKSUM_SIZE: usize = 4;

/// Largest data length a single frame may carry.
pub const MAX_CHUNK_SIZE: usize = 1920;

/// Above this chunk size codes become dense enough to scan poorly.
pub const RECOMMENDED_MAX_CHUNK_SIZE: usize = 1100;

/// Smallest chunk size an encoder accepts.
pub const MIN_CHUNK_SIZE: usize = 16;

/// Errors of the frame codec and of the decoder.
#[derive(Debug, Clone, PartialEq, Eq)]
pub enum TransportError {
    UnknownError,
    InvalidMagic,
    UnsupportedVersion(u8),
    CrcMismatch,
    SessionMismatch,
    MetadataMismatch,
    ChunkOutOfBounds(u16),
    TooManyChunks(usize),
    ChunkSizeTooLarge(usize, usize),
    ChunkSizeTooSmall(usize, usize),
    MissingChunk(u16),
    EncodingError(String),
}

/// One slice of a payload together with its place in the session.
#[derive(Debug, Clone)]
pub struct Chunk {
    pub total_chunks: u16,
    pub chunk_index: u16,
    pub session_id: u32,
    pub data: Vec<u8>,
}

/// The mathematical content of a [`Chunk`].
pub struct ChunkView {
    pub total_chunks: u16,
    pub chunk_index: u16,
    pub session_id: u32,
    pub data: Seq<u8>,
}

impl View for Chunk {
    type V = ChunkView;

    open spec fn view(&self) -> ChunkView {
        ChunkView {
            total_chunks: self.total_chunks,
            chunk_index: self.chunk_index,
            session_id: self.session_id,
            data: self.data@,
        }
    }
}

impl ChunkView {
    /// A chunk as the data model allows it: non-empty data of at most
    /// `MAX_CHUNK_SIZE` bytes, and an index inside the session.
    pub open spec fn wf(self) -> bool {
        &&& 1 <= self.data.len() <= MAX_CHUNK_SIZE
        &&& self.chunk_index < self.total_chunks
    }
}

/// The checksum of a byte sequence, as computed by the CRC-32 routine.
pub uninterp spec fn crc32_of(bytes: Seq<u8>) -> u32;

/// Relies on `crc32fast::hash`: the CRC-32 of the whole slice, a function of
/// its bytes alone.
#[verifier::external_body]
fn crc32(bytes: &[u8]) -> (r: u32)
    ensures
        r == crc32_of(bytes@),
{
    crc32fast::hash(bytes)
}

/// Big-endian bytes of a 16-bit value.
pub open spec fn be16(x: u16) -> Seq<u8> {
    seq![(x / 256) as u8, (x % 256) as u8]
}

/// Big-endian bytes of a 32-bit value.
pub open spec fn be32(x: u32) -> Seq<u8> {
    seq![(x / 0x100_0000) as u8, ((x / 0x1_0000) % 256) as u8, ((x / 256) % 256) as u8, (x % 256) as u8]
}

/// The 16-bit big-endian value stored at position `i`.
pub open spec fn read_be16(b: Seq<u8>, i: int) -> u16 {
    (b[i] as int * 256 + b[i + 1] as int) as u16
}

/// The 32-bit big-endian value stored at position `i`.
pub open spec fn read_be32(b: Seq<u8>, i: int) -> u32 {
    (b[i] as int * 0x100_0000 + b[i + 1] as int * 0x1_0000 + b[i + 2] as int * 256 + b[i + 3] as int) as u32
}

/// The header written in front of a chunk's data.
pub open spec fn header_of(c: ChunkView) -> Seq<u8> {
    be16(MAGIC) + seq![VERSION] + be16(c.total_chunks) + be16(c.chunk_index) + be32(c.session_id)
        + be16(c.data.len() as u16) + seq![0u8, 0u8, 0u8]
}

/// The serialized frame of a chunk: header, data, then the checksum of both.
pub open spec fn frame_of(c: ChunkView) -> Seq<u8> {
    let body = header_of(c) + c.data;
    body + be32(crc32_of(body))
}

/// The declared total of a frame.
pub open spec fn frame_total(b: Seq<u8>) -> u16 {
    read_be16(b, 3)
}

/// The declared index of a frame.
pub open spec fn frame_index(b: Seq<u8>) -> u16 {
    read_be16(b, 5)
}

/// The declared session of a frame.
pub open spec fn frame_session(b: Seq<u8>) -> u32 {
    read_be32(b, 7)
}

/// The declared data length of a frame.
pub open spec fn frame_data_len(b: Seq<u8>) -> int {
    read_be16(b, 11) as int
}

/// Where a frame's data ends and its checksum begins.
pub open spec fn frame_end(b: Seq<u8>) -> int {
    HEADER_SIZE + frame_data_len(b)
}

/// The buffer holds a header and a checksum, with the signature and version.
pub open spec fn header_accepted(b: Seq<u8>) -> bool {
    &&& b.len() >= HEADER_SIZE + CHECKSUM_SIZE
    &&& read_be16(b, 0) == MAGIC
    &&& b[2] == VERSION
}

/// The header is accepted, its fields are consistent and the buffer holds the
/// declared data and the checksum.
pub open spec fn layout_accepted(b: Seq<u8>) -> bool {
    &&& header_accepted(b)
    &&& frame_index(b) < frame_total(b)
    &&& frame_data_len(b) <= MAX_CHUNK_SIZE
    &&& b.len() >= frame_end(b) + CHECKSUM_SIZE
}

/// The stored checksum equals the checksum of header and data.
pub open spec fn checksum_matches(b: Seq<u8>) -> bool {
    read_be32(b, frame_end(b)) == crc32_of(b.subrange(0, frame_end(b)))
}

/// The buffer is a valid frame: consistent layout, matching checksum, and
/// at least one data byte.
pub open spec fn frame_accepted(b: Seq<u8>) -> bool {
    layout_accepted(b) && checksum_matches(b) && frame_data_len(b) >= 1
}

/// The chunk that a valid frame carries.
pub open spec fn frame_chunk(b: Seq<u8>) -> ChunkView {
    ChunkView {
        total_chunks: frame_total(b),
        chunk_index: frame_index(b),
        session_id: frame_session(b),
        data: b.subrange(HEADER_SIZE as int, frame_end(b)),
    }
}

/// An encoding error with exactly the given message.
pub open spec fn encoding_error(e: TransportError, message: Seq<char>) -> bool {
    e is EncodingError && e->EncodingError_0@ == message
}

/// The error that the codec reports for a buffer that is not a valid frame:
/// the first check in the order length, signature, version, index, declared
/// data length, extent, checksum, non-empty data that the buffer fails.
pub open spec fn frame_rejection(b: Seq<u8>, e: TransportError) -> bool {
    if b.len() < HEADER_SIZE + CHECKSUM_SIZE {
        encoding_error(e, "Chunk too small"@)
    } else if read_be16(b, 0) != MAGIC {
        e == TransportError::InvalidMagic
    } else if b[2] != VERSION {
        e == TransportError::UnsupportedVersion(b[2])
    } else if frame_index(b) >= frame_total(b) {
        e == TransportError::ChunkOutOfBounds(frame_index(b))
    } else if frame_data_len(b) > MAX_CHUNK_SIZE {
        e == TransportError::ChunkSizeTooLarge(frame_data_len(b) as usize, MAX_CHUNK_SIZE)
    } else if b.len() < frame_end(b) + CHECKSUM_SIZE {
        encoding_error(e, "Chunk truncated"@)
    } else if !checksum_matches(b) {
        e == TransportError::CrcMismatch
    } else {
        frame_data_len(b) == 0 && e == TransportError::ChunkSizeTooSmall(0, 1)
    }
}

/// Appends the bytes of `src` to `out`.
pub(crate) fn append_bytes(out: &mut Vec<u8>, src: &[u8])
    ensures
        final(out)@ == old(out)@ + src@,
{
    let mut i: usize = 0;
    while i < src.len()
        invariant
            i <= src@.len(),
            out@ =~= old(out)@ + src@.subrange(0, i as int),
        decreases src@.len() - i,
    {
        out.push(src[i]);
        i = i + 1;
        assert(out@ =~= old(out)@ + src@.subrange(0, i as int));
    }
    assert(src@.subrange(0, i as int) =~= src@);
}

fn push_be16(out: &mut Vec<u8>, x: u16)
    ensures
        final(out)@ == old(out)@ + be16(x),
{
    out.push((x / 256) as u8);
    out.push((x % 256) as u8);
    assert(final(out)@ =~= old(out)@ + be16(x));
}

fn push_be32(out: &mut Vec<u8>, x: u32)
    ensures
        final(out)@ == old(out)@ + be32(x),
{
    out.push((x / 0x100_0000) as u8);
    out.push(((x / 0x1_0000) % 256) as u8);
    out.push(((x / 256) % 256) as u8);
    out.push((x % 256) as u8);
    assert(final(out)@ =~= old(out)@ + be32(x));
}

fn get_be16(b: &[u8], i: usize) -> (r: u16)
    requires
        i + 2 <= b@.len(),
    ensures
        r == read_be16(b@, i as int),
{
    b[i] as u16 * 256 + b[i + 1] as u16
}

fn get_be32(b: &[u8], i: usize) -> (r: u32)
    requires
        i + 4 <= b@.len(),
    ensures
        r == read_be32(b@, i as int),
{
    b[i] as u32 * 0x100_0000 + b[i + 1] as u32 * 0x1_0000 + b[i + 2] as u32 * 256 + b[i + 3] as u32
}

impl Chunk {
    /// Builds a chunk, rejecting data that is too long or empty, and an index
    /// outside the session.
    pub fn new(total_chunks: u16, chunk_index: u16, session_id: u32, data: Vec<u8>) -> (r: Result<
        Chunk,
        TransportError,
    >)
        ensures
            data@.len() > MAX_CHUNK_SIZE ==> r == Err::<Chunk, TransportError>(
                TransportError::ChunkSizeTooLarge(data@.len() as usize, MAX_CHUNK_SIZE),
            ),
            data@.len() == 0 ==> r == Err::<Chunk, TransportError>(
                TransportError::ChunkSizeTooSmall(0, 1),
            ),
            1 <= data@.len() <= MAX_CHUNK_SIZE && chunk_index >= total_chunks ==> r == Err::<
                Chunk,
                TransportError,
            >(TransportError::ChunkOutOfBounds(chunk_index)),
            r is Ok <==> (ChunkView { total_chunks, chunk_index, session_id, data: data@ }).wf(),
            r is Ok ==> r->Ok_0@ == (ChunkView { total_chunks, chunk_index, session_id, data: data@ }),
    {
        if data.len() > MAX_CHUNK_SIZE {
            return Err(TransportError::ChunkSizeTooLarge(data.len(), MAX_CHUNK_SIZE));
        }
        if data.len() == 0 {
            return Err(TransportError::ChunkSizeTooSmall(0, 1));
        }
        if chunk_index >= total_chunks {
            return Err(TransportError::ChunkOutOfBounds(chunk_index));
        }
        Ok(Chunk { total_chunks, chunk_index, session_id, data })
    }

    /// Serializes the chunk into one frame.
    pub fn to_bytes(&self) -> (r: Vec<u8>)
        ensures
            r@ == frame_of(self@),
    {
        let mut bytes: Vec<u8> = Vec::new();
        push_be16(&mut bytes, MAGIC);
        bytes.push(VERSION);
        push_be16(&mut bytes, self.total_chunks);
        push_be16(&mut bytes, self.chunk_index);
        push_be32(&mut bytes, self.session_id);
        push_be16(&mut bytes, self.data.len() as u16);
        bytes.push(0);
        bytes.push(0);
        bytes.push(0);
        assert(bytes@ =~= header_of(self@));
        append_bytes(&mut bytes, self.data.as_slice());
        let crc = crc32(bytes.as_slice());
        push_be32(&mut bytes, crc);
        bytes
    }

    /// Parses one frame, checking in turn its length, signature, version,
    /// index, declared data length, extent and checksum.
    pub fn from_bytes(bytes: &[u8]) -> (r: Result<Chunk, TransportError>)
        ensures
            r is Ok <==> frame_accepted(bytes@),
            r is Ok ==> r->Ok_0@ == frame_chunk(bytes@),
            r is Err ==> frame_rejection(bytes@, r->Err_0),
    {
        if bytes.len() < HEADER_SIZE + CHECKSUM_SIZE {
            return Err(TransportError::EncodingError("Chunk too small".to_owned()));
        }
        if get_be16(bytes, 0) != MAGIC {
            return Err(TransportError::InvalidMagic);
        }
        let version = bytes[2];
        if version != VERSION {
            return Err(TransportError::UnsupportedVersion(version));
        }
        let total_chunks = get_be16(bytes, 3);
        let chunk_index = get_be16(bytes, 5);
        let session_id = get_be32(bytes, 7);
        let data_len = get_be16(bytes, 11) as usize;
        if chunk_index >= total_chunks {
            return Err(TransportError::ChunkOutOfBounds(chunk_index));
        }
        if data_len > MAX_CHUNK_SIZE {
            return Err(TransportError::ChunkSizeTooLarge(data_len, MAX_CHUNK_SIZE));
        }
        let data_end = HEADER_SIZE + data_len;
        if bytes.len() < data_end + CHECKSUM_SIZE {
            return Err(TransportError::EncodingError("Chunk truncated".to_owned()));
        }
        let mut data: Vec<u8> = Vec::new();
        append_bytes(&mut data, &bytes[HEADER_SIZE..data_end]);
        let stored_crc = get_be32(bytes, data_end);
        let calculated_crc = crc32(&bytes[0..data_end]);
        if stored_crc != calculated_crc {
            return Err(TransportError::CrcMismatch);
        }
        if data_len == 0 {
            return Err(TransportError::ChunkSizeTooSmall(0, 1));
        }
        Ok(Chunk { total_chunks, chunk_index, session_id, data })
    }
}

} // verus!
