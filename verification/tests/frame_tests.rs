use wsft::websocket_frame::FrameError;
use wsft::websocket_frame::WebSocketFrame;

fn frame_bytes(byte0: u8, byte1: u8, key: [u8; 4], masked: &[u8]) -> Vec<u8> {
    let mut v = vec![byte0, byte1, key[0], key[1], key[2], key[3]];
    v.extend_from_slice(masked);
    v
}

fn decode_err(data: &Vec<u8>) -> FrameError {
    match WebSocketFrame::from(data) {
        Ok(_) => panic!("expected decoding to fail"),
        Err(e) => e,
    }
}

#[test]
fn decode_basic_frame() {
    let data = frame_bytes(0x81, 0x82, [0x01, 0x02, 0x03, 0x04], &[0x10, 0x11]);
    let frame = WebSocketFrame::from(&data).unwrap();
    assert!(frame.fin_bit);
    assert!(!frame.rsv1);
    assert!(!frame.rsv2);
    assert!(!frame.rsv3);
    assert_eq!(frame.opcode, 1);
    assert!(frame.mask_bit);
    assert_eq!(frame.payload_len, 2);
    assert_eq!(frame.frame_len, 8);
    assert_eq!(frame.masking_key, [0x01, 0x02, 0x03, 0x04]);
    assert_eq!(frame.masked_payload, vec![0x10, 0x11]);
    assert_eq!(frame.unmasked_payload, vec![0x11, 0x13]);
}

#[test]
fn decode_key_cycling() {
    let data = frame_bytes(0x81, 0x85, [0xAA, 0xBB, 0xCC, 0xDD], &[0x00, 0x00, 0x00, 0x00, 0x00]);
    let frame = WebSocketFrame::from(&data).unwrap();
    assert_eq!(frame.payload_len, 5);
    assert_eq!(frame.unmasked_payload, vec![0xAA, 0xBB, 0xCC, 0xDD, 0xAA]);
}

#[test]
fn decode_short_input_is_malformed() {
    let data = vec![0x81, 0x82, 0x01, 0x02, 0x03];
    assert_eq!(decode_err(&data), FrameError::MalformedInput);
    let empty: Vec<u8> = Vec::new();
    assert_eq!(decode_err(&empty), FrameError::MalformedInput);
}

#[test]
fn decode_extended_length_is_unsupported() {
    // payload_len 126 fails whatever the actual byte count
    let exact = frame_bytes(0x81, 0xFE, [1, 2, 3, 4], &[]);
    assert_eq!(decode_err(&exact), FrameError::UnsupportedLength);
    let longer = frame_bytes(0x81, 0xFE, [1, 2, 3, 4], &[0; 126]);
    assert_eq!(decode_err(&longer), FrameError::UnsupportedLength);
    let highest = frame_bytes(0x81, 0xFF, [1, 2, 3, 4], &[0; 10]);
    assert_eq!(decode_err(&highest), FrameError::UnsupportedLength);
}

#[test]
fn decode_length_mismatch_is_inconsistent() {
    // declares 3 payload bytes, carries 2
    let short = frame_bytes(0x81, 0x83, [1, 2, 3, 4], &[0x10, 0x11]);
    assert_eq!(decode_err(&short), FrameError::InconsistentLength);
    // declares 1 payload byte, carries 2
    let long = frame_bytes(0x81, 0x81, [1, 2, 3, 4], &[0x10, 0x11]);
    assert_eq!(decode_err(&long), FrameError::InconsistentLength);
}

#[test]
fn decode_zero_length_payload() {
    let data = frame_bytes(0x88, 0x80, [9, 8, 7, 6], &[]);
    let frame = WebSocketFrame::from(&data).unwrap();
    assert_eq!(frame.payload_len, 0);
    assert_eq!(frame.frame_len, 6);
    assert_eq!(frame.opcode, 8);
    assert!(frame.masked_payload.is_empty());
    assert!(frame.unmasked_payload.is_empty());
}

#[test]
fn unmask_round_trip() {
    let data = frame_bytes(0x82, 0x87, [0x5A, 0xC3, 0x0F, 0xF0], &[1, 2, 3, 4, 5, 6, 7]);
    let frame = WebSocketFrame::from(&data).unwrap();
    for i in 0..frame.masked_payload.len() {
        let remasked = frame.unmasked_payload[i] ^ frame.masking_key[i % 4];
        assert_eq!(remasked, frame.masked_payload[i]);
    }
}

#[test]
fn payload_chars_carry_code_points() {
    // unmasked payload spells "Hi"
    let data = frame_bytes(0x81, 0x82, [1, 2, 3, 4], &[b'H' ^ 1, b'i' ^ 2]);
    let frame = WebSocketFrame::from(&data).unwrap();
    assert_eq!(frame.unmasked_payload, vec![b'H', b'i']);
    assert_eq!(frame.payload, vec!['H', 'i']);
}
