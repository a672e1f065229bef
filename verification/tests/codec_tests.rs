use bytes::BytesMut;
use http_handler::frame::WebSocketFrame;
use http_handler::frame::WebSocketOpcode;
use http_handler::WebSocketCodec;

#[test]
fn test_decode_single_frame() {
    let mut codec = WebSocketCodec::new();

    // Create a simple text frame
    let frame = WebSocketFrame::new_text("Hello".to_string(), true);
    let encoded = frame.encode(None);

    let mut buffer = BytesMut::from(&encoded[..]);
    let decoded = codec.decode(&mut buffer).unwrap();

    assert!(decoded.is_some());
    let decoded_frame = decoded.unwrap();
    assert_eq!(decoded_frame.opcode, WebSocketOpcode::Text);
    assert_eq!(decoded_frame.payload, b"Hello");
    assert!(decoded_frame.fin);
}

#[test]
fn test_decode_fragmented_message() {
    let mut codec = WebSocketCodec::new();

    // First fragment
    let frame1 = WebSocketFrame::new_text("Hel".to_string(), false);
    let encoded1 = frame1.encode(None);

    let mut buffer = BytesMut::from(&encoded1[..]);
    let result = codec.decode(&mut buffer).unwrap();
    assert!(result.is_none()); // Not complete yet

    // Second fragment (continuation)
    let frame2 = WebSocketFrame::new_continuation(b"lo".to_vec(), true);
    let encoded2 = frame2.encode(None);

    buffer.extend_from_slice(&encoded2);
    let result = codec.decode(&mut buffer).unwrap();

    assert!(result.is_some());
    let decoded_frame = result.unwrap();
    assert_eq!(decoded_frame.opcode, WebSocketOpcode::Text);
    assert_eq!(decoded_frame.payload, b"Hello");
    assert!(decoded_frame.fin);
}

#[test]
fn codec_test_encode_frame() {
    let mut codec = WebSocketCodec::new();
    let mut buffer = BytesMut::new();

    let frame = WebSocketFrame::new_binary(vec![1, 2, 3], true);
    codec.encode(frame, &mut buffer).unwrap();

    assert!(!buffer.is_empty());

    // Decode it back to verify
    let mut decode_codec = WebSocketCodec::new();
    let decoded = decode_codec.decode(&mut buffer).unwrap();

    assert!(decoded.is_some());
    let decoded_frame = decoded.unwrap();
    assert_eq!(decoded_frame.opcode, WebSocketOpcode::Binary);
    assert_eq!(decoded_frame.payload, vec![1, 2, 3]);
}

#[test]
fn test_control_frame_immediate_return() {
    let mut codec = WebSocketCodec::new();

    // Create a ping frame
    let frame = WebSocketFrame::new_ping(b"test".to_vec());
    let encoded = frame.encode(None);

    let mut buffer = BytesMut::from(&encoded[..]);
    let decoded = codec.decode(&mut buffer).unwrap();

    // Control frames should be returned immediately
    assert!(decoded.is_some());
    let decoded_frame = decoded.unwrap();
    assert_eq!(decoded_frame.opcode, WebSocketOpcode::Ping);
    assert_eq!(decoded_frame.payload, b"test");
}

#[test]
fn test_ping_mid_fragmented_message() {
    // A control frame injected between fragments surfaces immediately
    // and leaves the in-progress message undisturbed
    let mut codec = WebSocketCodec::new();

    let first = WebSocketFrame::new_text("Hel".to_string(), false).encode(None);
    let mut buffer = BytesMut::from(&first[..]);
    assert!(codec.decode(&mut buffer).unwrap().is_none());

    let ping = WebSocketFrame::new_ping(b"now".to_vec()).encode(None);
    buffer.extend_from_slice(&ping);
    let interleaved = codec.decode(&mut buffer).unwrap().unwrap();
    assert_eq!(interleaved.opcode, WebSocketOpcode::Ping);
    assert_eq!(interleaved.payload, b"now");

    let last = WebSocketFrame::new_continuation(b"lo".to_vec(), true).encode(None);
    buffer.extend_from_slice(&last);
    let assembled = codec.decode(&mut buffer).unwrap().unwrap();
    assert_eq!(assembled.opcode, WebSocketOpcode::Text);
    assert_eq!(assembled.payload, b"Hello");
    assert!(assembled.fin);
}

#[test]
fn test_decode_incomplete_then_complete() {
    // Bytes arriving in two pieces: no frame until the rest is there
    let mut codec = WebSocketCodec::new();
    let encoded = WebSocketFrame::new_text("split".to_string(), true).encode(None);

    let mut buffer = BytesMut::from(&encoded[..3]);
    assert!(codec.decode(&mut buffer).unwrap().is_none());
    assert_eq!(buffer.len(), 3); // nothing consumed

    buffer.extend_from_slice(&encoded[3..]);
    let frame = codec.decode(&mut buffer).unwrap().unwrap();
    assert_eq!(frame.payload, b"split");
    assert!(buffer.is_empty());
}

#[test]
fn test_decode_fatal_error_propagates() {
    // A reserved bit set is fatal, and the buffer is left untouched
    let mut codec = WebSocketCodec::new();
    let mut buffer = BytesMut::from(&[0b1100_0001u8, 0u8][..]);
    let result = codec.decode(&mut buffer);
    assert!(result.is_err());
    assert_eq!(buffer.len(), 2);
}

#[test]
fn test_fatal_error_resets_fragmentation() {
    let mut codec = WebSocketCodec::new();

    // Start a fragmented message
    let first = WebSocketFrame::new_text("Hel".to_string(), false).encode(None);
    let mut buffer = BytesMut::from(&first[..]);
    assert!(codec.decode(&mut buffer).unwrap().is_none());

    // A fatal protocol violation aborts decoding and clears the
    // accumulator together with the pending opcode
    buffer.extend_from_slice(&[0b1100_0001, 0]);
    assert!(codec.decode(&mut buffer).is_err());
    bytes::Buf::advance(&mut buffer, 2);

    // A final continuation now finds no message in progress: ignored,
    // with no stale fragments carried over
    let cont = WebSocketFrame::new_continuation(b"lo".to_vec(), true).encode(None);
    buffer.extend_from_slice(&cont);
    assert!(codec.decode(&mut buffer).unwrap().is_none());

    // And a fresh single-frame message decodes with only its own payload
    let fresh = WebSocketFrame::new_text("ok".to_string(), true).encode(None);
    buffer.extend_from_slice(&fresh);
    let frame = codec.decode(&mut buffer).unwrap().unwrap();
    assert_eq!(frame.payload, b"ok");
}

#[test]
fn test_unexpected_continuation_ignored() {
    // A continuation with no message in progress yields no frame and
    // starts no accumulator
    let mut codec = WebSocketCodec::new();
    let encoded = WebSocketFrame::new_continuation(b"zzz".to_vec(), true).encode(None);
    let mut buffer = BytesMut::from(&encoded[..]);
    assert!(codec.decode(&mut buffer).unwrap().is_none());
    assert!(buffer.is_empty());

    // The codec is still idle: a fresh text frame decodes normally
    let text = WebSocketFrame::new_text("ok".to_string(), true).encode(None);
    buffer.extend_from_slice(&text);
    let frame = codec.decode(&mut buffer).unwrap().unwrap();
    assert_eq!(frame.payload, b"ok");
}

#[test]
fn test_three_fragment_message() {
    let mut codec = WebSocketCodec::new();
    let mut buffer = BytesMut::new();

    let parts = WebSocketFrame::new_binary(b"ab".to_vec(), false).encode(None);
    buffer.extend_from_slice(&parts);
    assert!(codec.decode(&mut buffer).unwrap().is_none());

    let mid = WebSocketFrame::new_continuation(b"cd".to_vec(), false).encode(None);
    buffer.extend_from_slice(&mid);
    assert!(codec.decode(&mut buffer).unwrap().is_none());

    let end = WebSocketFrame::new_continuation(b"ef".to_vec(), true).encode(None);
    buffer.extend_from_slice(&end);
    let frame = codec.decode(&mut buffer).unwrap().unwrap();
    assert_eq!(frame.opcode, WebSocketOpcode::Binary);
    assert_eq!(frame.payload, b"abcdef");
}
