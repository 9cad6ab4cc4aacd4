use pixel_change_check::compression::{compress_frame, decompress_frame, CodecError};

#[test]
fn compression_round_trips_and_shrinks_uniform_data() {
    let frame = vec![0u8; 1920 * 3 * 10];
    let compressed = compress_frame(&frame, 800).unwrap();
    assert!(compressed.len() < frame.len());
    assert_ne!(compressed, frame);
    assert_eq!(decompress_frame(&compressed).unwrap(), frame);
}

#[test]
fn quality_zero_stores_without_compressing() {
    let frame: Vec<u8> = (0..1000).map(|i| (i % 7) as u8).collect();
    let stored = compress_frame(&frame, 0).unwrap();
    assert!(stored.len() > frame.len());
    assert_eq!(decompress_frame(&stored).unwrap(), frame);
}

#[test]
fn garbage_is_not_a_zlib_stream() {
    assert_eq!(decompress_frame(&[1, 2, 3, 4, 5]), Err(CodecError::InvalidStream));
}
