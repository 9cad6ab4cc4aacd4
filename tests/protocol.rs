use pixel_change_check::protocol::{
    deserialize_payload, serialize_payload, FrameProtocol, Message, ProtocolError, MAX_FRAME_SIZE,
    MAX_MESSAGE_SIZE,
};
use pixel_change_check::types::Frame;

#[test]
fn payload_of_64_kib_plus_one_is_too_large() {
    let payload = vec![7u8; 64 * 1024 + 1];
    assert!(matches!(serialize_payload(&payload), Err(ProtocolError::MessageTooLarge)));
}

#[test]
fn payload_of_exactly_64_kib_is_accepted() {
    let payload = vec![7u8; 64 * 1024];
    let bytes = serialize_payload(&payload).unwrap();
    assert_eq!(bytes.len(), 5 + 65536);
    assert_eq!(&bytes[0..5], &[1, 0, 0, 1, 0]);
    assert_eq!(deserialize_payload(&bytes).unwrap(), payload);
}

#[test]
fn envelope_layout_is_version_then_little_endian_length() {
    let bytes = serialize_payload(&[0xaa, 0xbb, 0xcc]).unwrap();
    assert_eq!(bytes, vec![1, 3, 0, 0, 0, 0xaa, 0xbb, 0xcc]);
}

#[test]
fn envelope_round_trips() {
    for len in [0usize, 1, 255, 256, 300, 65535, MAX_MESSAGE_SIZE] {
        let payload: Vec<u8> = (0..len).map(|i| (i % 251) as u8).collect();
        let bytes = serialize_payload(&payload).unwrap();
        assert_eq!(deserialize_payload(&bytes).unwrap(), payload);
    }
}

#[test]
fn trailing_bytes_after_the_payload_are_not_read() {
    let mut bytes = serialize_payload(&[9, 8]).unwrap();
    bytes.extend_from_slice(&[1, 2, 3]);
    assert_eq!(deserialize_payload(&bytes).unwrap(), vec![9, 8]);
}

#[test]
fn short_input_is_rejected() {
    assert!(matches!(deserialize_payload(&[1, 0, 0, 0]), Err(ProtocolError::MessageTooShort)));
    assert!(matches!(deserialize_payload(&[]), Err(ProtocolError::MessageTooShort)));
}

#[test]
fn wrong_version_is_rejected() {
    assert!(matches!(deserialize_payload(&[2, 0, 0, 0, 0]), Err(ProtocolError::VersionMismatch)));
}

#[test]
fn announced_length_over_the_limit_is_rejected() {
    assert!(matches!(deserialize_payload(&[1, 1, 0, 1, 0]), Err(ProtocolError::MessageTooLarge)));
}

#[test]
fn missing_payload_bytes_are_rejected() {
    assert!(matches!(deserialize_payload(&[1, 4, 0, 0, 0, 1, 2, 3]), Err(ProtocolError::Truncated)));
}

fn frame_with(len: usize) -> Frame {
    let data: Vec<u8> = (0..len).map(|i| (i % 253) as u8).collect();
    Frame { id: 42, timestamp: 1_700_000_000_000, width: 0, height: 0, data }
}

fn chunk_lengths(messages: &[Message]) -> Vec<usize> {
    messages
        .iter()
        .map(|m| match m {
            Message::FrameData { frame_id, timestamp, data } => {
                assert_eq!(*frame_id, 42);
                assert_eq!(*timestamp, 1_700_000_000_000);
                data.len()
            }
            _ => panic!("not frame data"),
        })
        .collect()
}

#[test]
fn frames_are_split_into_chunks_of_at_most_4_mib() {
    assert_eq!(chunk_lengths(&FrameProtocol::encode_frame(&frame_with(0))), vec![0]);
    assert_eq!(chunk_lengths(&FrameProtocol::encode_frame(&frame_with(10))), vec![10]);
    assert_eq!(chunk_lengths(&FrameProtocol::encode_frame(&frame_with(MAX_FRAME_SIZE))), vec![MAX_FRAME_SIZE]);
    assert_eq!(
        chunk_lengths(&FrameProtocol::encode_frame(&frame_with(MAX_FRAME_SIZE + 1))),
        vec![MAX_FRAME_SIZE, 1]
    );
    assert_eq!(
        chunk_lengths(&FrameProtocol::encode_frame(&frame_with(2 * MAX_FRAME_SIZE + 5))),
        vec![MAX_FRAME_SIZE, MAX_FRAME_SIZE, 5]
    );
}

#[test]
fn chunked_frames_reassemble() {
    for (w, h) in [(2u32, 2u32), (1024, 1365), (1024, 1366), (1920, 1080)] {
        let len = (w * h * 3) as usize;
        let mut f = frame_with(len);
        f.width = w;
        f.height = h;
        let messages = FrameProtocol::encode_frame(&f);
        let back = FrameProtocol::decode_frame(messages, w, h).unwrap();
        assert_eq!(back.id, 42);
        assert_eq!(back.timestamp, 1_700_000_000_000);
        assert_eq!((back.width, back.height), (w, h));
        assert_eq!(back.data, f.data);
    }
}

#[test]
fn reassembly_keeps_only_the_first_frame_and_skips_other_messages() {
    let messages = vec![
        Message::KeepAlive,
        Message::FrameData { frame_id: 5, timestamp: 9, data: vec![1, 2, 3] },
        Message::FrameAck { frame_id: 5 },
        Message::FrameData { frame_id: 6, timestamp: 9, data: vec![7, 7, 7] },
        Message::FrameData { frame_id: 5, timestamp: 9, data: vec![4, 5, 6] },
    ];
    let f = FrameProtocol::decode_frame(messages, 1, 2).unwrap();
    assert_eq!(f.id, 5);
    assert_eq!(f.data, vec![1, 2, 3, 4, 5, 6]);
}

#[test]
fn reassembly_without_frame_data_fails() {
    let messages = vec![Message::KeepAlive, Message::Error("x".to_string())];
    assert!(matches!(FrameProtocol::decode_frame(messages, 0, 0), Err(ProtocolError::IncompleteFrame)));
    assert!(matches!(FrameProtocol::decode_frame(Vec::new(), 0, 0), Err(ProtocolError::IncompleteFrame)));
}

#[test]
fn reassembly_checks_the_size() {
    let messages = vec![Message::FrameData { frame_id: 1, timestamp: 2, data: vec![0; 11] }];
    assert!(matches!(FrameProtocol::decode_frame(messages, 2, 2), Err(ProtocolError::FrameSizeMismatch)));
}

#[test]
fn a_payload_of_a_full_frame_chunk_does_not_fit_one_envelope() {
    let payload = vec![0u8; MAX_FRAME_SIZE];
    assert!(matches!(serialize_payload(&payload), Err(ProtocolError::MessageTooLarge)));
    assert!(serialize_payload(&[]).is_ok());
}
