use airgap::protocol::{MAGIC, MAX_CHUNK_SIZE, VERSION};
use airgap::{Chunk, Decoder, Encoder, TransportError};

fn sample_chunk() -> Chunk {
    Chunk::new(3, 1, 0x0102_0304, vec![0xAA, 0xBB]).unwrap()
}

#[test]
fn frame_layout_is_exact() {
    let bytes = sample_chunk().to_bytes();
    let body = [0x19, 0xF7, 1, 0, 3, 0, 1, 1, 2, 3, 4, 0, 2, 0, 0, 0, 0xAA, 0xBB];
    assert_eq!(&bytes[..18], &body[..]);
    let crc = crc32fast::hash(&body);
    assert_eq!(&bytes[18..], &crc.to_be_bytes()[..]);
    assert_eq!(MAGIC, 0x19F7);
    assert_eq!(VERSION, 1);
}

#[test]
fn frame_round_trips() {
    let chunk = sample_chunk();
    let parsed = Chunk::from_bytes(&chunk.to_bytes()).unwrap();
    assert_eq!(parsed.total_chunks, 3);
    assert_eq!(parsed.chunk_index, 1);
    assert_eq!(parsed.session_id, 0x0102_0304);
    assert_eq!(parsed.data, vec![0xAA, 0xBB]);
}

#[test]
fn flipped_data_bit_is_crc_mismatch() {
    let chunk = Chunk::new(1, 0, 42, vec![1, 2, 3, 4, 5, 6, 7, 8]).unwrap();
    let frame = chunk.to_bytes();
    for pos in 16..24 {
        for bit in 0..8 {
            let mut bad = frame.clone();
            bad[pos] ^= 1 << bit;
            assert_eq!(Chunk::from_bytes(&bad).unwrap_err(), TransportError::CrcMismatch);
        }
    }
    let mut decoder = Decoder::new();
    let mut bad = frame.clone();
    bad[20] ^= 0x10;
    assert_eq!(decoder.process_frame(&bad).unwrap_err(), TransportError::CrcMismatch);
    assert_eq!(decoder.progress(), (0, 0));
}

#[test]
fn short_buffer_is_encoding_error() {
    let frame = sample_chunk().to_bytes();
    assert_eq!(
        Chunk::from_bytes(&frame[..19]).unwrap_err(),
        TransportError::EncodingError("Chunk too small".to_string())
    );
    assert_eq!(
        Chunk::from_bytes(&[]).unwrap_err(),
        TransportError::EncodingError("Chunk too small".to_string())
    );
}

#[test]
fn wrong_magic_is_rejected() {
    let mut frame = sample_chunk().to_bytes();
    frame[0] = 0x18;
    assert_eq!(Chunk::from_bytes(&frame).unwrap_err(), TransportError::InvalidMagic);
}

#[test]
fn other_version_is_rejected() {
    let mut frame = sample_chunk().to_bytes();
    frame[2] = 2;
    assert_eq!(Chunk::from_bytes(&frame).unwrap_err(), TransportError::UnsupportedVersion(2));
}

#[test]
fn index_beyond_total_is_rejected() {
    let mut frame = sample_chunk().to_bytes();
    frame[6] = 3;
    assert_eq!(Chunk::from_bytes(&frame).unwrap_err(), TransportError::ChunkOutOfBounds(3));
}

#[test]
fn oversized_declared_length_is_rejected() {
    let mut frame = sample_chunk().to_bytes();
    frame[11] = 0x07;
    frame[12] = 0x81;
    assert_eq!(
        Chunk::from_bytes(&frame).unwrap_err(),
        TransportError::ChunkSizeTooLarge(1921, MAX_CHUNK_SIZE)
    );
}

#[test]
fn truncated_frame_is_encoding_error() {
    let mut frame = sample_chunk().to_bytes();
    frame[12] = 3;
    assert_eq!(
        Chunk::from_bytes(&frame).unwrap_err(),
        TransportError::EncodingError("Chunk truncated".to_string())
    );
}

#[test]
fn chunk_new_checks_its_fields() {
    assert_eq!(
        Chunk::new(1, 0, 0, vec![0; 1921]).unwrap_err(),
        TransportError::ChunkSizeTooLarge(1921, 1920)
    );
    assert_eq!(Chunk::new(1, 0, 0, vec![]).unwrap_err(), TransportError::ChunkSizeTooSmall(0, 1));
    assert_eq!(Chunk::new(2, 2, 0, vec![1]).unwrap_err(), TransportError::ChunkOutOfBounds(2));
    assert_eq!(Chunk::new(1, 0, 0, vec![0; 1920]).unwrap().data.len(), 1920);
}

#[test]
fn text_form_is_base45_of_frame() {
    let encoder = Encoder::with_session_id(&[1, 2, 3], 16, Default::default(), 9).unwrap();
    let frame = encoder.get_chunk_bytes(0).unwrap();
    let text = encoder.get_qr_string(0).unwrap();
    assert_eq!(text, base45::encode(&frame));
    assert_ne!(text.as_bytes(), &frame[..]);
    assert_eq!(base45::decode(&text).unwrap(), frame);
}

#[test]
fn frame_without_data_is_rejected() {
    // A well-formed header declaring no data, followed by a matching checksum.
    let body: [u8; 16] = [0x19, 0xF7, 1, 0, 1, 0, 0, 0, 0, 0, 5, 0, 0, 0, 0, 0];
    let mut frame = body.to_vec();
    frame.extend_from_slice(&crc32fast::hash(&body).to_be_bytes());
    assert_eq!(Chunk::from_bytes(&frame).unwrap_err(), TransportError::ChunkSizeTooSmall(0, 1));
    let mut decoder = Decoder::new();
    assert_eq!(decoder.process_frame(&frame).unwrap_err(), TransportError::ChunkSizeTooSmall(0, 1));
    assert_eq!(decoder.session_id(), None);
    assert_eq!(decoder.progress(), (0, 0));
}

#[test]
fn codec_error_reaches_decoder_unchanged() {
    let frame = sample_chunk().to_bytes();
    let mut decoder = Decoder::new();
    let text = base45::encode(&frame[..10]);
    assert_eq!(
        decoder.process_qr_string(&text).unwrap_err(),
        TransportError::EncodingError("Chunk too small".to_string())
    );
    assert_eq!(
        decoder.process_qr_string("!!").unwrap_err(),
        TransportError::EncodingError("Invalid base45 string".to_string())
    );
    assert_eq!(decoder.progress(), (0, 0));
}

#[test]
fn empty_frame_with_bad_checksum_is_crc_mismatch() {
    let body: [u8; 16] = [0x19, 0xF7, 1, 0, 1, 0, 0, 0, 0, 0, 5, 0, 0, 0, 0, 0];
    let mut frame = body.to_vec();
    frame.extend_from_slice(&(crc32fast::hash(&body) ^ 1).to_be_bytes());
    assert_eq!(Chunk::from_bytes(&frame).unwrap_err(), TransportError::CrcMismatch);
}
