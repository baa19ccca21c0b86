//! Transport of a byte payload over a one-way channel of scanned optical codes:
//! the frame format, the encoder that cuts a payload into frames and the
//! decoder that puts a session back together.

pub mod decoder;
pub mod encoder;
pub mod error;
pub mod laws;
pub mod protocol;
pub mod render;
pub mod text;

pub use decoder::{Decoder, DecoderView};
pub use encoder::{Encoder, QrConfig};
pub use error::AirgapError;
pub use render::EcLevel;
pub use protocol::{Chunk, ChunkView, TransportError};
