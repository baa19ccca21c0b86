//! The encoder: splits a payload into the chunks of one session and hands out
//! each chunk's frame, text and image.

use vstd::prelude::*;
use vstd::arithmetic::div_mod::lemma_fundamental_div_mod;
use crate::error::AirgapError;
use crate::protocol::{
    append_bytes, frame_of, Chunk, ChunkView, MAX_CHUNK_SIZE, MIN_CHUNK_SIZE,
    RECOMMENDED_MAX_CHUNK_SIZE,
};
use crate::render::{
    image_error_text, png_encoding, png_of, qr_code_for, qr_error_text, qr_symbol, raster_of,
    render_gray, EcLevel, MAX_QR_SIZE,
};
use crate::text::{base45_bytes, base45_encode, base45_text};

verus! {

/// The largest number of chunks one session can hold.
pub const MAX_CHUNKS: usize = 65535;

/// How rendered codes look: error-correction level and target size in pixels.
#[derive(Clone, Copy, Debug)]
pub struct QrConfig {
    pub ec_level: EcLevel,
    pub qr_size: u32,
}

impl QrConfig {
    /// Medium error correction at the given size.
    pub fn with_size(size: u32) -> (r: QrConfig)
        ensures
            r.ec_level == EcLevel::M,
            r.qr_size == size,
    {
        QrConfig { ec_level: EcLevel::M, qr_size: size }
    }
}

impl Default for QrConfig {
    /// Medium error correction at 400 pixels.
    fn default() -> (r: QrConfig)
        ensures
            r.ec_level == EcLevel::M,
            r.qr_size == 400,
    {
        QrConfig { ec_level: EcLevel::M, qr_size: 400 }
    }
}

/// Number of chunks of at most `size` bytes that `len` bytes need.
pub open spec fn chunk_count_for(len: nat, size: nat) -> nat
    recommends
        size > 0,
{
    len / size + if len % size == 0 {
        0nat
    } else {
        1nat
    }
}

/// The `i`-th slice of `data` when cut every `size` bytes.
pub open spec fn slice_of(data: Seq<u8>, size: nat, i: int) -> Seq<u8> {
    let start = i * size;
    let end = if start + size <= data.len() {
        start + size
    } else {
        data.len() as int
    };
    data.subrange(start, end)
}

/// The chunks of a session: contiguous slices of `size` bytes in ascending
/// index order (only the last may be shorter), all under one session.
pub open spec fn planned_chunks(data: Seq<u8>, size: nat, session_id: u32) -> Seq<ChunkView> {
    let n = chunk_count_for(data.len(), size);
    Seq::new(
        n,
        |i: int|
            ChunkView {
                total_chunks: n as u16,
                chunk_index: i as u16,
                session_id,
                data: slice_of(data, size, i),
            },
    )
}

/// A payload and chunk size that an encoder accepts.
pub open spec fn encodable(len: nat, size: nat) -> bool {
    &&& len > 0
    &&& MIN_CHUNK_SIZE <= size <= MAX_CHUNK_SIZE
    &&& chunk_count_for(len, size) <= MAX_CHUNKS
}

/// The error an encoder reports for a payload and chunk size it does not
/// accept, checked in the order: empty payload, size too small, size too
/// large, too many chunks.
pub open spec fn construction_error(len: nat, size: nat) -> AirgapError {
    if len == 0 {
        AirgapError::EmptyData
    } else if size < MIN_CHUNK_SIZE {
        AirgapError::ChunkSizeTooSmall(size as usize, MIN_CHUNK_SIZE)
    } else if size > MAX_CHUNK_SIZE {
        AirgapError::ChunkSizeTooLarge(size as usize, MAX_CHUNK_SIZE)
    } else {
        AirgapError::TooManyChunks(chunk_count_for(len, size) as usize)
    }
}

/// The `i`-th slice starts inside the payload and is at most `size` long.
pub(crate) proof fn lemma_slice_bounds(len: nat, size: nat, i: nat)
    requires
        size > 0,
        i < chunk_count_for(len, size),
    ensures
        i * size < len,
        (i + 1) * size == i * size + size,
{
    lemma_fundamental_div_mod(len as int, size as int);
    let q = len / size;
    let r = len % size;
    assert(len == size * q + r);
    if i < q {
        assert(i * size + size <= q * size) by (nonlinear_arith)
            requires
                i < q,
                size > 0,
        ;
    } else {
        assert(i == q && r > 0);
        assert(i * size == size * q) by (nonlinear_arith)
            requires
                i == q,
        ;
    }
    assert((i + 1) * size == i * size + size) by (nonlinear_arith);
}

/// The code image of a chunk: its text form rendered at the configured level
/// and size; `None` when the size is beyond `MAX_QR_SIZE` or the text fits no
/// code.
#[verifier::opaque]
pub open spec fn chunk_image(chunk: ChunkView, config: QrConfig) -> Option<image::DynamicImage> {
    if config.qr_size > MAX_QR_SIZE {
        None
    } else {
        match qr_symbol(base45_text(frame_of(chunk)), config.ec_level) {
            Some(code) => Some(raster_of(code, config.qr_size)),
            None => None,
        }
    }
}

/// The PNG bytes of a chunk's code image, `None` when either step fails.
pub open spec fn chunk_png(chunk: ChunkView, config: QrConfig) -> Option<Seq<u8>> {
    match chunk_image(chunk, config) {
        Some(image) => png_of(image),
        None => None,
    }
}

/// Relies on `rand::random`: a 32-bit value drawn afresh; nothing is known of it.
#[verifier::external_body]
fn random_session_id() -> u32 {
    rand::random::<u32>()
}

/// Whether building an encoder from a payload of `data_len` bytes at
/// `chunk_size` calls for the dense-code advisory: the payload and size pass
/// the emptiness and size checks, and the size lies above the size that scans
/// reliably. Construction still succeeds or fails as it would otherwise.
pub fn size_advisory(data_len: usize, chunk_size: usize) -> (r: bool)
    ensures
        r == (data_len > 0 && MIN_CHUNK_SIZE <= chunk_size <= MAX_CHUNK_SIZE && chunk_size
            > RECOMMENDED_MAX_CHUNK_SIZE),
{
    data_len > 0 && MIN_CHUNK_SIZE <= chunk_size && chunk_size <= MAX_CHUNK_SIZE && chunk_size
        > RECOMMENDED_MAX_CHUNK_SIZE
}

/// The payload of one session, cut into chunks, with its rendering options.
pub struct Encoder {
    chunks: Vec<Chunk>,
    session_id: u32,
    config: QrConfig,
}

impl Encoder {
    /// The chunks of the session, in index order.
    pub closed spec fn plan(&self) -> Seq<ChunkView> {
        self.chunks@.map_values(|c: Chunk| c@)
    }

    /// The session shared by all chunks.
    pub closed spec fn session(&self) -> u32 {
        self.session_id
    }

    /// The rendering options.
    pub closed spec fn qr_config(&self) -> QrConfig {
        self.config
    }

    /// An encoder with the default rendering options and a fresh session.
    pub fn new(data: &[u8], chunk_size: usize) -> (r: Result<Encoder, AirgapError>)
        ensures
            encodable(data@.len(), chunk_size as nat) ==> r is Ok && r->Ok_0.plan()
                == planned_chunks(data@, chunk_size as nat, r->Ok_0.session()),
            !encodable(data@.len(), chunk_size as nat) ==> r == Err::<Encoder, AirgapError>(
                construction_error(data@.len(), chunk_size as nat),
            ),
    {
        Self::with_config(data, chunk_size, QrConfig::default())
    }

    /// An encoder with the given rendering options and a fresh random session.
    pub fn with_config(data: &[u8], chunk_size: usize, config: QrConfig) -> (r: Result<
        Encoder,
        AirgapError,
    >)
        ensures
            encodable(data@.len(), chunk_size as nat) ==> r is Ok && r->Ok_0.plan()
                == planned_chunks(data@, chunk_size as nat, r->Ok_0.session())
                && r->Ok_0.qr_config() == config,
            !encodable(data@.len(), chunk_size as nat) ==> r == Err::<Encoder, AirgapError>(
                construction_error(data@.len(), chunk_size as nat),
            ),
    {
        let session_id = random_session_id();
        Self::with_session_id(data, chunk_size, config, session_id)
    }

    /// An encoder for the given session: checks the payload and chunk size,
    /// then cuts the payload into chunks.
    pub fn with_session_id(data: &[u8], chunk_size: usize, config: QrConfig, session_id: u32) -> (r:
        Result<Encoder, AirgapError>)
        ensures
            encodable(data@.len(), chunk_size as nat) ==> r is Ok && r->Ok_0.plan()
                == planned_chunks(data@, chunk_size as nat, session_id) && r->Ok_0.session()
                == session_id && r->Ok_0.qr_config() == config,
            !encodable(data@.len(), chunk_size as nat) ==> r == Err::<Encoder, AirgapError>(
                construction_error(data@.len(), chunk_size as nat),
            ),
    {
        if data.len() == 0 {
            return Err(AirgapError::EmptyData);
        }
        if chunk_size < MIN_CHUNK_SIZE {
            return Err(AirgapError::ChunkSizeTooSmall(chunk_size, MIN_CHUNK_SIZE));
        }
        if chunk_size > MAX_CHUNK_SIZE {
            return Err(AirgapError::ChunkSizeTooLarge(chunk_size, MAX_CHUNK_SIZE));
        }
        let len = data.len();
        proof {
            lemma_fundamental_div_mod(len as int, chunk_size as int);
            let q = len as int / chunk_size as int;
            assert(q < usize::MAX) by (nonlinear_arith)
                requires
                    len == chunk_size * q + len as int % chunk_size as int,
                    len as int % chunk_size as int >= 0,
                    chunk_size >= 16,
                    len <= usize::MAX,
            ;
        }
        let total_chunks = len / chunk_size + if len % chunk_size == 0 {
            0
        } else {
            1
        };
        if total_chunks > MAX_CHUNKS {
            return Err(AirgapError::TooManyChunks(total_chunks));
        }
        let ghost plan = planned_chunks(data@, chunk_size as nat, session_id);
        let mut chunks: Vec<Chunk> = Vec::new();
        let mut i: usize = 0;
        while i < total_chunks
            invariant
                len == data@.len(),
                MIN_CHUNK_SIZE <= chunk_size <= MAX_CHUNK_SIZE,
                total_chunks == chunk_count_for(len as nat, chunk_size as nat),
                total_chunks <= MAX_CHUNKS,
                plan == planned_chunks(data@, chunk_size as nat, session_id),
                i <= total_chunks,
                chunks@.len() == i,
                forall|j: int| 0 <= j < i ==> (#[trigger] chunks@[j])@ == plan[j],
            decreases total_chunks - i,
        {
            proof {
                lemma_slice_bounds(len as nat, chunk_size as nat, i as nat);
            }
            let start = i * chunk_size;
            let end = if len - start >= chunk_size {
                start + chunk_size
            } else {
                len
            };
            let mut chunk_data: Vec<u8> = Vec::new();
            append_bytes(&mut chunk_data, &data[start..end]);
            assert(chunk_data@ == slice_of(data@, chunk_size as nat, i as int));
            match Chunk::new(total_chunks as u16, i as u16, session_id, chunk_data) {
                Ok(chunk) => {
                    chunks.push(chunk);
                },
                Err(e) => {
                    return Err(AirgapError::from(e));
                },
            }
            i = i + 1;
        }
        let r = Encoder { chunks, session_id, config };
        assert(r.plan() =~= plan);
        Ok(r)
    }

    /// Number of chunks of the session.
    pub fn chunk_count(&self) -> (r: usize)
        ensures
            r == self.plan().len(),
    {
        self.chunks.len()
    }

    /// The session shared by all chunks.
    pub fn session_id(&self) -> (r: u32)
        ensures
            r == self.session(),
    {
        self.session_id
    }

    /// The frame of the chunk at `index`.
    pub fn get_chunk_bytes(&self, index: usize) -> (r: Result<Vec<u8>, AirgapError>)
        ensures
            index < self.plan().len() ==> r is Ok && r->Ok_0@ == frame_of(self.plan()[index as int]),
            index >= self.plan().len() ==> r == Err::<Vec<u8>, AirgapError>(
                AirgapError::ChunkOutOfBounds(index as u16),
            ),
    {
        if index >= self.chunks.len() {
            return Err(AirgapError::ChunkOutOfBounds(index as u16));
        }
        Ok(self.chunks[index].to_bytes())
    }

    /// The text form of the frame at `index`, as an optical code carries it.
    pub fn get_qr_string(&self, index: usize) -> (r: Result<String, AirgapError>)
        ensures
            index < self.plan().len() ==> r is Ok && r->Ok_0@ == base45_text(
                frame_of(self.plan()[index as int]),
            ) && base45_bytes(r->Ok_0@) == Some(frame_of(self.plan()[index as int])),
            index >= self.plan().len() ==> r == Err::<String, AirgapError>(
                AirgapError::ChunkOutOfBounds(index as u16),
            ),
    {
        if index >= self.chunks.len() {
            return Err(AirgapError::ChunkOutOfBounds(index as u16));
        }
        let bytes = self.chunks[index].to_bytes();
        Ok(base45_encode(bytes.as_slice()))
    }

    /// PNG images of every chunk's code, in index order.
    pub fn generate_png_bytes(&self) -> (r: Result<Vec<Vec<u8>>, AirgapError>)
        ensures
            r is Ok <==> forall|i: int|
                0 <= i < self.plan().len() ==> (#[trigger] chunk_png(self.plan()[i], self.qr_config())) is Some,
            r is Ok ==> r->Ok_0@.len() == self.plan().len(),
            r is Ok ==> forall|i: int|
                0 <= i < self.plan().len() ==> (#[trigger] r->Ok_0@[i])@ == chunk_png(
                    self.plan()[i],
                    self.qr_config(),
                )->0,
            r is Err ==> r->Err_0 is EncodingError,
    {
        let images = match generate_images_from_chunks(&self.chunks, &self.config) {
            Ok(images) => images,
            Err(e) => {
                proof {
                    let j = choose|j: int|
                        0 <= j < self.chunks@.len() && !(chunk_image(self.chunks@[j]@, self.config) is Some);
                    assert(self.plan()[j] == self.chunks@[j]@);
                    assert(!(chunk_png(self.plan()[j], self.config) is Some));
                }
                return Err(e);
            },
        };
        let ghost shown = images@;
        let r = generate_pngs_bytes(images);
        proof {
            assert forall|i: int| 0 <= i < self.plan().len() implies chunk_png(
                self.plan()[i],
                self.qr_config(),
            ) == png_of(shown[i]) by {
                assert(self.plan()[i] == self.chunks@[i]@);
                assert(shown[i] == chunk_image(self.chunks@[i]@, self.config)->0);
            }
            if r is Err {
                let j = choose|j: int| 0 <= j < shown.len() && !(png_of(shown[j]) is Some);
                assert(!(chunk_png(self.plan()[j], self.qr_config()) is Some));
            } else {
                assert forall|i: int| 0 <= i < self.plan().len() implies (#[trigger] chunk_png(
                    self.plan()[i],
                    self.qr_config(),
                )) is Some by {
                    assert(png_of(shown[i]) is Some);
                }
            }
        }
        r
    }

    /// The PNG image of the code of the chunk at `index`.
    pub fn generate_png_bytes_for_item(&self, index: usize) -> (r: Result<Vec<u8>, AirgapError>)
        ensures
            index >= self.plan().len() ==> r == Err::<Vec<u8>, AirgapError>(
                AirgapError::ChunkOutOfBounds(index as u16),
            ),
            index < self.plan().len() ==> (r is Ok <==> chunk_png(
                self.plan()[index as int],
                self.qr_config(),
            ) is Some),
            index < self.plan().len() && r is Ok ==> r->Ok_0@ == chunk_png(
                self.plan()[index as int],
                self.qr_config(),
            )->0,
            index < self.plan().len() && r is Err ==> r->Err_0 is EncodingError,
    {
        if index >= self.chunks.len() {
            return Err(AirgapError::ChunkOutOfBounds(index as u16));
        }
        let image = match generate_image_from_chunk(&self.chunks[index], &self.config) {
            Ok(image) => image,
            Err(e) => return Err(e),
        };
        generate_png_bytes(&image)
    }
}

/// The code image of a chunk's text form, at the configured level and size.
/// A size beyond `MAX_QR_SIZE` is an encoding error.
pub fn generate_image_from_chunk(chunk: &Chunk, config: &QrConfig) -> (r: Result<
    image::DynamicImage,
    AirgapError,
>)
    ensures
        r is Ok <==> chunk_image(chunk@, *config) is Some,
        r is Ok ==> r->Ok_0 == chunk_image(chunk@, *config)->0,
        r is Err ==> r->Err_0 is EncodingError,
{
    reveal(chunk_image);
    if config.qr_size > MAX_QR_SIZE {
        return Err(AirgapError::EncodingError("QR size too large".to_string()));
    }
    let bytes = chunk.to_bytes();
    let encoded = base45_encode(bytes.as_slice());
    match qr_code_for(encoded.as_str(), config.ec_level) {
        Ok(code) => Ok(render_gray(&code, config.qr_size)),
        Err(e) => Err(AirgapError::EncodingError(qr_error_text(&e))),
    }
}

/// The code images of all chunks, in order; the first failure is returned.
pub fn generate_images_from_chunks(chunks: &Vec<Chunk>, qr_config: &QrConfig) -> (r: Result<
    Vec<image::DynamicImage>,
    AirgapError,
>)
    ensures
        r is Ok <==> forall|i: int|
            0 <= i < chunks@.len() ==> (#[trigger] chunk_image(chunks@[i]@, *qr_config)) is Some,
        r is Ok ==> r->Ok_0@.len() == chunks@.len(),
        r is Ok ==> forall|i: int|
            0 <= i < chunks@.len() ==> #[trigger] r->Ok_0@[i] == chunk_image(
                chunks@[i]@,
                *qr_config,
            )->0,
        r is Err ==> r->Err_0 is EncodingError,
{
    let mut images: Vec<image::DynamicImage> = Vec::new();
    let mut i: usize = 0;
    while i < chunks.len()
        invariant
            i <= chunks@.len(),
            images@.len() == i,
            forall|j: int| 0 <= j < i ==> (#[trigger] chunk_image(chunks@[j]@, *qr_config)) is Some,
            forall|j: int|
                0 <= j < i ==> #[trigger] images@[j] == chunk_image(chunks@[j]@, *qr_config)->0,
        decreases chunks@.len() - i,
    {
        match generate_image_from_chunk(&chunks[i], qr_config) {
            Ok(image) => images.push(image),
            Err(e) => return Err(e),
        }
        i = i + 1;
    }
    Ok(images)
}

/// The PNG encoding of an image.
pub fn generate_png_bytes(image: &image::DynamicImage) -> (r: Result<Vec<u8>, AirgapError>)
    ensures
        r is Ok <==> png_of(*image) is Some,
        r is Ok ==> r->Ok_0@ == png_of(*image)->0,
        r is Err ==> r->Err_0 is EncodingError,
{
    match png_encoding(image) {
        Ok(bytes) => Ok(bytes),
        Err(e) => Err(AirgapError::EncodingError(image_error_text(&e))),
    }
}

/// The PNG encodings of images, in order; the first failure is returned.
pub fn generate_pngs_bytes(images: Vec<image::DynamicImage>) -> (r: Result<
    Vec<Vec<u8>>,
    AirgapError,
>)
    ensures
        r is Ok <==> forall|i: int| 0 <= i < images@.len() ==> (#[trigger] png_of(images@[i])) is Some,
        r is Ok ==> r->Ok_0@.len() == images@.len(),
        r is Ok ==> forall|i: int|
            0 <= i < images@.len() ==> (#[trigger] r->Ok_0@[i])@ == png_of(images@[i])->0,
        r is Err ==> r->Err_0 is EncodingError,
{
    let mut png_bytes: Vec<Vec<u8>> = Vec::new();
    let mut i: usize = 0;
    while i < images.len()
        invariant
            i <= images@.len(),
            png_bytes@.len() == i,
            forall|j: int| 0 <= j < i ==> (#[trigger] png_of(images@[j])) is Some,
            forall|j: int| 0 <= j < i ==> (#[trigger] png_bytes@[j])@ == png_of(images@[j])->0,
        decreases images@.len() - i,
    {
        match generate_png_bytes(&images[i]) {
            Ok(bytes) => png_bytes.push(bytes),
            Err(e) => return Err(e),
        }
        i = i + 1;
    }
    Ok(png_bytes)
}

} // verus!
