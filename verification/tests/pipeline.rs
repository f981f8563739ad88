use update_actor::payload::capture_payload;
use update_actor::update::{PayloadData, UpdateError};
use update_actor::validation::{validate_payload, ValidationPass};

fn chunk(s: &[u8]) -> PayloadData {
    PayloadData::Bytes(s.to_vec())
}

#[test]
fn capture_concatenates_chunks_in_receive_order() {
    let chunks = vec![chunk(b"{\"a\":"), chunk(b"1}")];
    let captured = capture_payload(&chunks);
    assert_eq!(captured, Ok(Some(b"{\"a\":1}".to_vec())));
}

#[test]
fn capture_empty_stream_yields_no_blob() {
    let captured = capture_payload(&Vec::new());
    assert_eq!(captured, Ok(None));
    let captured = capture_payload(&vec![chunk(b""), chunk(b"")]);
    assert_eq!(captured, Ok(None));
}

#[test]
fn capture_surfaces_first_transport_failure() {
    let chunks = vec![
        chunk(b"partial"),
        PayloadData::TransportFailed("connection reset".to_string()),
        PayloadData::TransportFailed("late".to_string()),
    ];
    let captured = capture_payload(&chunks);
    assert_eq!(captured, Err(UpdateError::Transport("connection reset".to_string())));
}

#[test]
fn well_formed_json_passes_by_streaming_check_alone() {
    assert_eq!(validate_payload(&b"{\"a\":1}".to_vec()), Ok(ValidationPass::Streaming));
    assert_eq!(validate_payload(&b"[1,2,3]".to_vec()), Ok(ValidationPass::Streaming));
    assert_eq!(
        validate_payload(&b"{\"docs\":[{\"id\":1,\"title\":\"x\"}]}".to_vec()),
        Ok(ValidationPass::Streaming),
    );
}

#[test]
fn malformed_json_fails_with_parser_diagnostic() {
    let r = validate_payload(&b"{\"a\":1".to_vec());
    match r {
        Err(m) => assert!(!m.is_empty()),
        Ok(_) => panic!("truncated JSON accepted"),
    }
    let r = validate_payload(&b"not json at all".to_vec());
    match r {
        Err(m) => assert!(!m.is_empty()),
        Ok(_) => panic!("garbage accepted"),
    }
}

#[test]
fn minus_zero_numbers_are_decided_by_the_fallback_parse() {
    // top-level numbers beginning minus-then-zero bypass the streaming
    // checker, which cannot finish on them, and the fallback decides
    assert_eq!(validate_payload(&b"-0.5".to_vec()), Ok(ValidationPass::Fallback));
    assert_eq!(validate_payload(&b"-0".to_vec()), Ok(ValidationPass::Fallback));
    assert_eq!(validate_payload(&b" \t-0e1".to_vec()), Ok(ValidationPass::Fallback));
    match validate_payload(&b"-0.".to_vec()) {
        Err(m) => assert!(!m.is_empty()),
        Ok(p) => panic!("truncated minus-zero fraction accepted as {:?}", p),
    }
    // the same shape nested in a container stays on the fast path
    assert_eq!(validate_payload(&b"{\"a\":-0.5}".to_vec()), Ok(ValidationPass::Streaming));
    assert_eq!(validate_payload(&b"[-0.5]".to_vec()), Ok(ValidationPass::Streaming));
}

#[test]
fn error_message_carries_diagnostic() {
    let e = UpdateError::Transport("boom".to_string());
    assert_eq!(e.message(), "boom".to_string());
    let e = UpdateError::UnexistingUpdate(5);
    assert!(!e.message().is_empty());
    let e = UpdateError::SequenceExhausted;
    assert!(!e.message().is_empty());
    let e = UpdateError::Io("disk full".to_string());
    assert_eq!(e.message(), "disk full".to_string());
}
