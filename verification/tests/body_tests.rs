use http_handler::ReadOutcome;
use http_handler::StreamError;
use http_handler::StreamingBody;

fn expect_data(outcome: ReadOutcome) -> Vec<u8> {
    match outcome {
        ReadOutcome::Data(v) => v,
        ReadOutcome::Pending => panic!("expected data, found pending"),
        ReadOutcome::End => panic!("expected data, found end of body"),
    }
}

#[test]
fn test_from_data_yields_exactly_then_ends() {
    // The read side yields exactly the given bytes, then end-of-body
    let mut body = StreamingBody::from_data(b"abc123".to_vec());
    assert_eq!(expect_data(body.read(4)), b"abc1");
    assert_eq!(expect_data(body.read(4)), b"23");
    assert!(matches!(body.read(4), ReadOutcome::End));
    // No further data is ever produced
    assert!(matches!(body.read(4), ReadOutcome::End));
}

#[test]
fn test_from_data_single_chunk() {
    let mut body = StreamingBody::from_data(b"payload".to_vec());
    assert_eq!(expect_data(body.poll_chunk()), b"payload");
    assert!(matches!(body.poll_chunk(), ReadOutcome::End));
}

#[test]
fn test_empty_body_pending_until_shutdown() {
    let mut body = StreamingBody::new();
    assert!(matches!(body.poll_chunk(), ReadOutcome::Pending));
    body.shutdown();
    assert!(matches!(body.poll_chunk(), ReadOutcome::End));
}

#[test]
fn test_backpressure_suspends_then_resumes() {
    // Once unread bytes reach the bound, a writer is granted nothing;
    // after the reader drains, a retried write is granted again
    let mut body = StreamingBody::new_with_buffer_size(4);
    assert_eq!(body.buffer_size(), 4);

    assert_eq!(body.write(b"hello").unwrap(), 4); // "hell" fits
    assert_eq!(body.write(b"o").unwrap(), 0); // full: the writer suspends

    assert_eq!(expect_data(body.read(2)), b"he"); // the reader drains
    assert_eq!(body.write(b"o").unwrap(), 1); // the writer resumes

    body.shutdown();
    assert_eq!(expect_data(body.read(8192)), b"llo");
    assert!(matches!(body.read(8192), ReadOutcome::End));
}

#[test]
fn test_write_after_shutdown_fails() {
    let mut body = StreamingBody::new();
    assert_eq!(body.write(b"once").unwrap(), 4);
    body.shutdown();
    let result = body.write(b"more");
    assert!(matches!(result, Err(StreamError::StreamClosed)));
    // The buffered bytes are still readable after the write half closed
    assert_eq!(expect_data(body.poll_chunk()), b"once");
    assert!(matches!(body.poll_chunk(), ReadOutcome::End));
}

#[test]
fn test_bytes_surface_in_write_order() {
    let mut body = StreamingBody::new_with_buffer_size(64);
    body.write(b"first ").unwrap();
    body.write(b"second ").unwrap();
    body.write(b"third").unwrap();
    assert_eq!(expect_data(body.read(64)), b"first second third");
}

#[test]
fn test_buffer_sizes() {
    let body = StreamingBody::new();
    assert_eq!(body.buffer_size(), 16384);
    let custom = StreamingBody::new_with_buffer_size(1024);
    assert_eq!(custom.buffer_size(), 1024);
}
