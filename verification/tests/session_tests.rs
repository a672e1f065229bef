use http_handler::frame::WebSocketError;
use http_handler::WebSocketDecoder;
use http_handler::WebSocketEncoder;

#[test]
fn test_write_and_read_text_message() {
    let mut encoder = WebSocketEncoder::new();
    let mut decoder = WebSocketDecoder::new();

    // Write a text message
    let bytes = encoder.write_text("Hello WebSocket!").unwrap();

    // Read it back on the other side
    decoder.feed(&bytes);
    let frame = decoder.next_message().unwrap().unwrap();
    assert!(frame.is_text());
    assert_eq!(frame.payload_as_text().unwrap(), "Hello WebSocket!");
}

#[test]
fn test_write_and_read_binary_message() {
    let mut encoder = WebSocketEncoder::new();
    let mut decoder = WebSocketDecoder::new();

    let data = vec![0x01, 0x02, 0x03, 0x04];
    let bytes = encoder.write_binary(&data).unwrap();

    decoder.feed(&bytes);
    let frame = decoder.next_message().unwrap().unwrap();
    assert!(frame.is_binary());
    assert_eq!(frame.payload, data);
}

#[test]
fn test_write_close_then_writes_fail() {
    let mut encoder = WebSocketEncoder::new();
    let mut decoder = WebSocketDecoder::new();

    // Send a close frame with code and reason
    let bytes = encoder.write_close(Some(1000), Some("Normal closure")).unwrap();

    decoder.feed(&bytes);
    let frame = decoder.next_message().unwrap().unwrap();
    assert!(frame.is_close());
    let (code, reason) = frame.parse_close_payload().unwrap();
    assert_eq!(code, 1000);
    assert_eq!(reason, "Normal closure");

    // Nothing more is buffered: no further message
    assert!(decoder.next_message().unwrap().is_none());

    // A subsequent write on that encoder fails
    let write_result = encoder.write_text("Should fail");
    assert!(write_result.is_err(), "Write should fail after close");
    assert!(matches!(write_result, Err(WebSocketError::IoError(_))));
}

#[test]
fn test_close_cannot_be_called_twice() {
    let mut encoder = WebSocketEncoder::new();

    // First close should succeed
    encoder.write_close(Some(1000), None).unwrap();

    // Second close should fail (write direction already closed)
    let result = encoder.write_close(Some(1000), None);
    assert!(result.is_err(), "Second close should fail");
}

#[test]
fn test_end_is_idempotent() {
    let mut encoder = WebSocketEncoder::new();

    // First end should succeed
    encoder.end().unwrap();

    // Second end should also succeed (half-close is idempotent)
    encoder.end().unwrap();
}

#[test]
fn test_end_then_write_fails() {
    let mut encoder = WebSocketEncoder::new();
    let bytes = encoder.write_text("before").unwrap();
    assert!(!bytes.is_empty());
    encoder.end().unwrap();
    assert!(encoder.write_binary(&[1, 2]).is_err());
}

#[test]
fn test_multiple_messages_in_order() {
    let mut encoder = WebSocketEncoder::new();
    let mut decoder = WebSocketDecoder::new();

    let mut wire = Vec::new();
    wire.extend_from_slice(&encoder.write_text("Message 1").unwrap());
    wire.extend_from_slice(&encoder.write_text("Message 2").unwrap());
    wire.extend_from_slice(&encoder.write_binary(&[1, 2, 3]).unwrap());

    decoder.feed(&wire);

    let msg1 = decoder.next_message().unwrap().unwrap();
    assert_eq!(msg1.payload_as_text().unwrap(), "Message 1");

    let msg2 = decoder.next_message().unwrap().unwrap();
    assert_eq!(msg2.payload_as_text().unwrap(), "Message 2");

    let msg3 = decoder.next_message().unwrap().unwrap();
    assert_eq!(msg3.payload, vec![1, 2, 3]);

    assert!(decoder.next_message().unwrap().is_none());
}

#[test]
fn test_decoder_partial_feed() {
    // Bytes arrive split mid-frame: the decoder waits, then assembles
    let mut encoder = WebSocketEncoder::new();
    let mut decoder = WebSocketDecoder::new();

    let bytes = encoder.write_text("chunked").unwrap();
    decoder.feed(&bytes[..4]);
    assert!(decoder.next_message().unwrap().is_none());
    decoder.feed(&bytes[4..]);
    let frame = decoder.next_message().unwrap().unwrap();
    assert_eq!(frame.payload_as_text().unwrap(), "chunked");
}

#[test]
fn test_decoder_fatal_error() {
    // A protocol violation on the wire is a fatal decoder error
    let mut decoder = WebSocketDecoder::new();
    decoder.feed(&[0b1000_0011, 0]); // opcode 0x3 names nothing
    let result = decoder.next_message();
    assert!(matches!(result, Err(WebSocketError::InvalidOpcode(0x3))));
}

#[test]
fn test_decoder_fatal_error_mid_message() {
    // A fatal error mid-fragmented-message aborts decoding; the caller
    // must stop using the connection
    let mut decoder = WebSocketDecoder::new();

    let mut wire = http_handler::WebSocketFrame::new_text("Hel".to_string(), false).encode(None);
    wire.extend_from_slice(&[0b1100_0001, 0]); // RSV1 set: fatal
    decoder.feed(&wire);
    assert!(decoder.next_message().unwrap().is_none());
    assert!(matches!(
        decoder.next_message(),
        Err(WebSocketError::ReservedBitsSet)
    ));
}
