use airgap::{Decoder, Encoder, TransportError};

#[test]
#[allow(deprecated)]
fn test_round_trip() {
    // Arbitrary data
    let data = vec![0x42; 2000]; // 2KB of data

    // Encode
    let encoder = Encoder::new(&data, 500).unwrap();
    println!("Chunks: {}", encoder.chunk_count());

    // Simulate scanning
    let mut decoder = Decoder::new();

    // Get raw encoded strings (simulate QR scanning)
    for i in 0..encoder.chunk_count() {
        let chunk_bytes = encoder.get_chunk_bytes(i).unwrap();
        let qr_string = base45::encode_from_buffer(chunk_bytes);
        decoder.process_qr_string(&qr_string).unwrap();
    }

    // Decode
    assert!(decoder.is_complete());
    let decoded = decoder.get_data().unwrap();

    assert_eq!(data, decoded);
}

#[test]
fn test_ml_kem_key() {
    let pubkey = vec![0xAB; 1568];

    let encoder = Encoder::new(&pubkey, 780).unwrap();

    assert_eq!(encoder.chunk_count(), 3);

    let pngs = encoder.generate_png_bytes().unwrap();
    assert_eq!(pngs.len(), 3);

    for png in pngs {
        assert!(png.len() > 1000); // PNG has overhead
    }
}

fn payload(len: usize) -> Vec<u8> {
    (0..len).map(|i| (i * 7 + 3) as u8).collect()
}

fn scan(encoder: &Encoder, order: &[usize]) -> Decoder {
    let mut decoder = Decoder::new();
    for &i in order {
        let text = encoder.get_qr_string(i).unwrap();
        decoder.process_qr_string(&text).unwrap();
    }
    decoder
}

#[test]
fn scenario_a_out_of_order_scan() {
    let data = vec![0x42u8; 2000];
    let encoder = Encoder::new(&data, 500).unwrap();
    assert_eq!(encoder.chunk_count(), 4);
    for i in 0..4 {
        // 16-byte header, 500 data bytes, 4-byte checksum
        assert_eq!(encoder.get_chunk_bytes(i).unwrap().len(), 520);
    }
    let decoder = scan(&encoder, &[2, 0, 3, 1]);
    assert!(decoder.is_complete());
    assert_eq!(decoder.progress(), (4, 4));
    assert_eq!(decoder.get_data().unwrap(), data);
}

#[test]
fn scenario_b_last_chunk_shorter() {
    let data = vec![0xABu8; 1568];
    let encoder = Encoder::new(&data, 780).unwrap();
    assert_eq!(encoder.chunk_count(), 3);
    assert_eq!(encoder.get_chunk_bytes(0).unwrap().len(), 800);
    assert_eq!(encoder.get_chunk_bytes(1).unwrap().len(), 800);
    assert_eq!(encoder.get_chunk_bytes(2).unwrap().len(), 28);
}

#[test]
fn round_trip_various_sizes() {
    for &(len, size) in &[(1usize, 16usize), (16, 16), (17, 16), (1000, 33), (5000, 1920), (3841, 1920)] {
        let data = payload(len);
        let encoder = Encoder::new(&data, size).unwrap();
        let n = encoder.chunk_count();
        assert_eq!(n, (len + size - 1) / size);
        let order: Vec<usize> = (0..n).collect();
        let decoder = scan(&encoder, &order);
        assert!(decoder.is_complete());
        assert_eq!(decoder.get_data().unwrap(), data);
    }
}

#[test]
fn reverse_and_shuffled_orders_agree() {
    let data = payload(3000);
    let encoder = Encoder::new(&data, 256).unwrap();
    let n = encoder.chunk_count();
    assert_eq!(n, 12);
    let forward: Vec<usize> = (0..n).collect();
    let reverse: Vec<usize> = (0..n).rev().collect();
    let shuffled: Vec<usize> = vec![5, 11, 0, 7, 2, 9, 1, 10, 3, 8, 4, 6];
    let a = scan(&encoder, &forward).get_data().unwrap();
    let b = scan(&encoder, &reverse).get_data().unwrap();
    let c = scan(&encoder, &shuffled).get_data().unwrap();
    assert_eq!(a, data);
    assert_eq!(b, data);
    assert_eq!(c, data);
}

#[test]
fn repeated_text_is_harmless() {
    let data = payload(100);
    let encoder = Encoder::new(&data, 40).unwrap();
    let mut decoder = Decoder::new();
    let text = encoder.get_qr_string(1).unwrap();
    decoder.process_qr_string(&text).unwrap();
    assert_eq!(decoder.progress(), (1, 3));
    let again = decoder.process_qr_string(&text).unwrap();
    assert_eq!(again.chunk_index, 1);
    assert_eq!(decoder.progress(), (1, 3));
    assert!(!decoder.is_complete());
}

#[test]
fn foreign_session_is_rejected_without_change() {
    let data = payload(100);
    let ours = Encoder::with_session_id(&data, 40, Default::default(), 7).unwrap();
    let theirs = Encoder::with_session_id(&data, 40, Default::default(), 8).unwrap();
    let mut decoder = Decoder::new();
    decoder.process_qr_string(&ours.get_qr_string(0).unwrap()).unwrap();
    assert_eq!(decoder.session_id(), Some(7));
    let before = decoder.progress();
    let err = decoder.process_qr_string(&theirs.get_qr_string(1).unwrap()).unwrap_err();
    assert_eq!(err, TransportError::SessionMismatch);
    assert_eq!(decoder.progress(), before);
    assert_eq!(decoder.session_id(), Some(7));
}

#[test]
fn other_total_is_metadata_mismatch() {
    let ours = Encoder::with_session_id(&payload(100), 40, Default::default(), 7).unwrap();
    let longer = Encoder::with_session_id(&payload(200), 40, Default::default(), 7).unwrap();
    let mut decoder = Decoder::new();
    decoder.process_qr_string(&ours.get_qr_string(0).unwrap()).unwrap();
    let err = decoder.process_qr_string(&longer.get_qr_string(1).unwrap()).unwrap_err();
    assert_eq!(err, TransportError::MetadataMismatch);
    assert_eq!(decoder.progress(), (1, 3));
}

#[test]
fn malformed_text_is_encoding_error() {
    let mut decoder = Decoder::new();
    let err = decoder.process_qr_string(":::").unwrap_err();
    assert!(matches!(err, TransportError::EncodingError(_)));
    assert_eq!(decoder.progress(), (0, 0));
    assert_eq!(decoder.session_id(), None);
}

#[test]
fn incomplete_session_reports_progress() {
    let encoder = Encoder::new(&payload(100), 40).unwrap();
    let decoder = scan(&encoder, &[0, 2]);
    assert!(!decoder.is_complete());
    assert_eq!(decoder.progress(), (2, 3));
    match decoder.get_data() {
        Err(TransportError::EncodingError(msg)) => assert_eq!(msg, "Incomplete: 2/3 chunks"),
        other => panic!("unexpected {:?}", other),
    }
}

#[test]
fn fresh_decoder_is_empty() {
    let decoder = Decoder::new();
    assert!(!decoder.is_complete());
    assert_eq!(decoder.progress(), (0, 0));
    assert!(matches!(decoder.get_data(), Err(TransportError::EncodingError(_))));
}

#[test]
fn reset_allows_a_new_session() {
    let first = Encoder::with_session_id(&payload(100), 40, Default::default(), 1).unwrap();
    let second = Encoder::with_session_id(&payload(50), 16, Default::default(), 2).unwrap();
    let mut decoder = scan(&first, &[0, 1, 2]);
    assert!(decoder.is_complete());
    decoder.reset();
    assert_eq!(decoder.progress(), (0, 0));
    assert_eq!(decoder.session_id(), None);
    for i in 0..second.chunk_count() {
        decoder.process_qr_string(&second.get_qr_string(i).unwrap()).unwrap();
    }
    assert_eq!(decoder.session_id(), Some(2));
    assert_eq!(decoder.get_data().unwrap(), payload(50));
}

#[test]
fn process_frame_takes_raw_frames() {
    let data = payload(70);
    let encoder = Encoder::new(&data, 32).unwrap();
    let mut decoder = Decoder::new();
    for i in (0..encoder.chunk_count()).rev() {
        let frame = encoder.get_chunk_bytes(i).unwrap();
        let chunk = decoder.process_frame(&frame).unwrap();
        assert_eq!(chunk.chunk_index as usize, i);
        assert_eq!(chunk.session_id, encoder.session_id());
    }
    assert_eq!(decoder.get_data().unwrap(), data);
}
