use airgap::encoder::{generate_png_bytes, size_advisory};
use airgap::error::{AIRGAP_ERR_CHUNK_SIZE_TOO_SMALL, AIRGAP_ERR_EMPTY_DATA, AIRGAP_ERR_ENCODING};
use airgap::{AirgapError, EcLevel, Encoder, QrConfig, TransportError};

#[test]
fn boundary_chunk_sizes() {
    let data = vec![1u8; 100];
    assert_eq!(Encoder::new(&data, 15).err(), Some(AirgapError::ChunkSizeTooSmall(15, 16)));
    assert_eq!(Encoder::new(&data, 1921).err(), Some(AirgapError::ChunkSizeTooLarge(1921, 1920)));
    assert_eq!(Encoder::new(&[], 500).err(), Some(AirgapError::EmptyData));
    assert_eq!(Encoder::new(&[], 15).err(), Some(AirgapError::EmptyData));
    assert_eq!(Encoder::new(&data, 16).unwrap().chunk_count(), 7);
    assert_eq!(Encoder::new(&data, 1920).unwrap().chunk_count(), 1);
}

#[test]
fn too_many_chunks() {
    let data = vec![0u8; 65535 * 16 + 1];
    assert_eq!(Encoder::new(&data, 16).err(), Some(AirgapError::TooManyChunks(65536)));
    let data = vec![0u8; 65535 * 16];
    assert_eq!(Encoder::new(&data, 16).unwrap().chunk_count(), 65535);
}

#[test]
fn out_of_range_index() {
    let encoder = Encoder::new(&[5u8; 40], 16).unwrap();
    assert_eq!(encoder.chunk_count(), 3);
    assert_eq!(encoder.get_chunk_bytes(3).err(), Some(AirgapError::ChunkOutOfBounds(3)));
    assert_eq!(encoder.get_qr_string(7).err(), Some(AirgapError::ChunkOutOfBounds(7)));
    assert_eq!(encoder.generate_png_bytes_for_item(3).err(), Some(AirgapError::ChunkOutOfBounds(3)));
}

#[test]
fn session_is_shared_by_all_chunks() {
    let encoder = Encoder::with_session_id(&[9u8; 50], 16, QrConfig::with_size(200), 0xDEAD_BEEF).unwrap();
    assert_eq!(encoder.session_id(), 0xDEAD_BEEF);
    for i in 0..encoder.chunk_count() {
        let frame = encoder.get_chunk_bytes(i).unwrap();
        assert_eq!(&frame[7..11], &[0xDE, 0xAD, 0xBE, 0xEF]);
        assert_eq!(&frame[3..5], &[0, 4]);
        assert_eq!(&frame[5..7], &[0, i as u8]);
    }
}

#[test]
fn config_constructors() {
    let c = QrConfig::default();
    assert_eq!(c.ec_level, EcLevel::M);
    assert_eq!(c.qr_size, 400);
    let c = QrConfig::with_size(123);
    assert_eq!(c.ec_level, EcLevel::M);
    assert_eq!(c.qr_size, 123);
}

#[test]
fn recommended_size_advisory() {
    assert!(!size_advisory(10, 1100));
    assert!(size_advisory(10, 1101));
    assert!(size_advisory(10, 1920));
    assert!(!size_advisory(10, 1921));
    assert!(!size_advisory(0, 1500));
    assert!(Encoder::new(&[1u8; 3000], 1500).is_ok());
}

#[test]
fn png_of_one_item() {
    let encoder = Encoder::with_config(&[7u8; 300], 100, QrConfig { ec_level: EcLevel::H, qr_size: 300 }).unwrap();
    let png = encoder.generate_png_bytes_for_item(2).unwrap();
    assert_eq!(&png[..8], &[0x89, b'P', b'N', b'G', 0x0D, 0x0A, 0x1A, 0x0A]);
}

#[test]
fn oversized_render_target_is_encoding_error() {
    let encoder = Encoder::with_config(&[7u8; 30], 16, QrConfig { ec_level: EcLevel::L, qr_size: u32::MAX }).unwrap();
    assert!(matches!(encoder.generate_png_bytes_for_item(0), Err(AirgapError::EncodingError(_))));
}

#[test]
fn single_image_to_png() {
    let chunk = airgap::Chunk::new(1, 0, 5, vec![1, 2, 3]).unwrap();
    let image = airgap::encoder::generate_image_from_chunk(&chunk, &QrConfig::with_size(100)).unwrap();
    let png = generate_png_bytes(&image).unwrap();
    assert!(png.len() > 8);
}

#[test]
fn error_codes() {
    assert_eq!(AirgapError::EmptyData.to_code(), AIRGAP_ERR_EMPTY_DATA);
    assert_eq!(AirgapError::ChunkSizeTooSmall(1, 16).to_code(), AIRGAP_ERR_CHUNK_SIZE_TOO_SMALL);
    assert_eq!(AirgapError::EncodingError("x".to_string()).to_code(), AIRGAP_ERR_ENCODING);
    assert_eq!(AirgapError::UnknownError.to_code(), -10);
    assert_eq!(AirgapError::CrcMismatch.to_code(), -13);
    assert_eq!(AirgapError::MissingChunk(0).to_code(), -20);
}

#[test]
fn transport_errors_convert() {
    assert_eq!(AirgapError::from(TransportError::CrcMismatch), AirgapError::CrcMismatch);
    assert_eq!(AirgapError::from(TransportError::UnsupportedVersion(4)), AirgapError::UnsupportedVersion(4));
    assert_eq!(
        AirgapError::from(TransportError::EncodingError("bad".to_string())),
        AirgapError::EncodingError("bad".to_string())
    );
}

#[test]
fn bulk_pngs_match_per_item_pngs() {
    let encoder = Encoder::new(&[3u8; 250], 100).unwrap();
    let pngs = encoder.generate_png_bytes().unwrap();
    assert_eq!(pngs.len(), 3);
    for (i, png) in pngs.iter().enumerate() {
        assert_eq!(png, &encoder.generate_png_bytes_for_item(i).unwrap());
    }
    assert_ne!(pngs[0], pngs[2]);
}

#[test]
fn images_of_all_chunks() {
    let chunks = vec![
        airgap::Chunk::new(2, 0, 1, vec![1, 2]).unwrap(),
        airgap::Chunk::new(2, 1, 1, vec![3]).unwrap(),
    ];
    let images = airgap::encoder::generate_images_from_chunks(&chunks, &QrConfig::with_size(50)).unwrap();
    assert_eq!(images.len(), 2);
    let pngs = airgap::encoder::generate_pngs_bytes(images).unwrap();
    assert_eq!(pngs.len(), 2);
    let bad = QrConfig { ec_level: EcLevel::M, qr_size: u32::MAX };
    assert!(matches!(
        airgap::encoder::generate_images_from_chunks(&chunks, &bad),
        Err(AirgapError::EncodingError(_))
    ));
}
