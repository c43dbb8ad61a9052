use kak_tree_sitter::request::ClientRequest;
use kak_tree_sitter::request::DaemonRequest;
use kak_tree_sitter::wire::WireError;
use kak_tree_sitter::wire::decode_request;
use kak_tree_sitter::wire::encode_client_request;
use kak_tree_sitter::wire::encode_request;

fn roundtrip(payload: Vec<u8>) -> Vec<u8> {
    let req = DaemonRequest { payload };
    let doc = encode_request(&req);
    decode_request(&doc).expect("well-formed document").payload
}

#[test]
fn encode_plain_payload_is_quoted() {
    let req = DaemonRequest { payload: b"hello".to_vec() };
    assert_eq!(encode_request(&req), b"\"hello\"".to_vec());
}

#[test]
fn encode_empty_payload_is_bare_quotes() {
    let req = DaemonRequest { payload: Vec::new() };
    assert_eq!(encode_request(&req), b"\"\"".to_vec());
}

#[test]
fn encode_escapes_quote_and_backslash() {
    let req = DaemonRequest { payload: vec![0x22, 0x5c] };
    assert_eq!(encode_request(&req), vec![0x22, 0x5c, 0x22, 0x5c, 0x5c, 0x22]);
}

#[test]
fn encode_escapes_control_and_non_ascii_bytes() {
    let req = DaemonRequest { payload: vec![0x0a, 0xff] };
    assert_eq!(encode_request(&req), b"\"\\u000a\\u00ff\"".to_vec());
}

#[test]
fn roundtrip_empty() {
    assert_eq!(roundtrip(Vec::new()), Vec::<u8>::new());
}

#[test]
fn roundtrip_plain_text() {
    assert_eq!(roundtrip(b"highlight buf.rs".to_vec()), b"highlight buf.rs".to_vec());
}

#[test]
fn roundtrip_every_byte_value() {
    let payload: Vec<u8> = (0u8..=255u8).collect();
    assert_eq!(roundtrip(payload.clone()), payload);
}

#[test]
fn reinterpreted_client_request_round_trips_to_equal_payload() {
    let original = b"shutdown".to_vec();
    let client_req = ClientRequest { payload: original.clone() };
    let daemon_req = client_req.reinterpret();
    let wire = encode_request(&daemon_req);
    let parsed = decode_request(&wire).expect("sender output is well-formed");
    assert_eq!(parsed.payload, original);
}

#[test]
fn sender_compute_step_matches_reinterpret_then_encode() {
    let payload = b"highlight buf.rs".to_vec();
    let via_sender = encode_client_request(ClientRequest { payload: payload.clone() });
    let via_steps = encode_request(&ClientRequest { payload: payload.clone() }.reinterpret());
    assert_eq!(via_sender, via_steps);
    assert_eq!(decode_request(&via_sender).unwrap().payload, payload);
}

#[test]
fn decode_rejects_empty_input() {
    assert_eq!(decode_request(&Vec::new()), Err(WireError::Malformed));
}

#[test]
fn decode_rejects_missing_opening_quote() {
    assert_eq!(decode_request(&b"hello\"".to_vec()), Err(WireError::Malformed));
}

#[test]
fn decode_rejects_unterminated_document() {
    assert_eq!(decode_request(&b"\"hello".to_vec()), Err(WireError::Malformed));
}

#[test]
fn decode_rejects_trailing_data() {
    assert_eq!(decode_request(&b"\"hello\" ".to_vec()), Err(WireError::Malformed));
}

#[test]
fn decode_rejects_unknown_escape() {
    assert_eq!(decode_request(&b"\"\\x41\"".to_vec()), Err(WireError::Malformed));
}

#[test]
fn decode_rejects_truncated_unicode_escape() {
    assert_eq!(decode_request(&b"\"\\u00\"".to_vec()), Err(WireError::Malformed));
}

#[test]
fn decode_rejects_unicode_escape_beyond_one_byte() {
    assert_eq!(decode_request(&b"\"\\u0141\"".to_vec()), Err(WireError::Malformed));
}

#[test]
fn decode_rejects_uppercase_hex() {
    assert_eq!(decode_request(&b"\"\\u00FF\"".to_vec()), Err(WireError::Malformed));
}

#[test]
fn decode_rejects_raw_control_byte() {
    assert_eq!(decode_request(&vec![0x22, 0x07, 0x22]), Err(WireError::Malformed));
}

#[test]
fn decode_rejects_raw_non_ascii_byte() {
    assert_eq!(decode_request(&vec![0x22, 0xc3, 0xa9, 0x22]), Err(WireError::Malformed));
}

#[test]
fn decode_accepts_escapes_the_encoder_emits() {
    let doc = b"\"a\\\"b\\\\c\\u0000\"".to_vec();
    let parsed = decode_request(&doc).expect("well-formed document");
    assert_eq!(parsed.payload, vec![b'a', 0x22, b'b', 0x5c, b'c', 0x00]);
}
