use echo_server::codec::{
    decode_add_request, decode_add_response, decode_client_message, decode_echo_message,
    encode_add_request, encode_add_response, encode_client_message, encode_echo_message,
    AddRequest, AddResponse, ClientMessage, EchoMessage, MalformedMessage,
};

fn echo_envelope(content: &[u8]) -> Vec<u8> {
    encode_client_message(&ClientMessage::EchoMessage(EchoMessage { content: content.to_vec() }))
}

#[test]
fn echo_message_wire_form() {
    let bytes = encode_echo_message(&EchoMessage { content: b"ping".to_vec() });
    assert_eq!(bytes, vec![0x0A, 0x04, b'p', b'i', b'n', b'g']);
}

#[test]
fn empty_echo_message_is_not_empty_on_the_wire() {
    let bytes = encode_echo_message(&EchoMessage { content: Vec::new() });
    assert_eq!(bytes, vec![0x0A, 0x00]);
    let back = decode_echo_message(&bytes).unwrap();
    assert!(back.content.is_empty());
}

#[test]
fn client_echo_envelope_wire_form() {
    assert_eq!(echo_envelope(b"ping"), vec![0x0A, 0x06, 0x0A, 0x04, b'p', b'i', b'n', b'g']);
}

#[test]
fn client_add_envelope_wire_form() {
    let bytes = encode_client_message(&ClientMessage::AddRequest(AddRequest { a: 2, b: 3 }));
    assert_eq!(bytes, vec![0x12, 0x04, 0x08, 0x02, 0x10, 0x03]);
}

#[test]
fn negative_int32_is_sign_extended() {
    let bytes = encode_add_request(&AddRequest { a: -1, b: 0 });
    assert_eq!(
        bytes,
        vec![0x08, 0xFF, 0xFF, 0xFF, 0xFF, 0xFF, 0xFF, 0xFF, 0xFF, 0xFF, 0x01, 0x10, 0x00]
    );
    let back = decode_add_request(&bytes).unwrap();
    assert_eq!((back.a, back.b), (-1, 0));
}

#[test]
fn add_response_wire_form() {
    assert_eq!(encode_add_response(&AddResponse { result: 5 }), vec![0x08, 0x05]);
    assert_eq!(
        encode_add_response(&AddResponse { result: i32::MIN }),
        vec![0x08, 0x80, 0x80, 0x80, 0x80, 0xF8, 0xFF, 0xFF, 0xFF, 0xFF, 0x01]
    );
    assert_eq!(decode_add_response(&[0x08, 0x05]), Ok(AddResponse { result: 5 }));
}

#[test]
fn long_content_uses_a_two_byte_length() {
    let content = vec![7u8; 300];
    let bytes = encode_echo_message(&EchoMessage { content: content.clone() });
    assert_eq!(&bytes[..3], &[0x0A, 0xAC, 0x02]);
    assert_eq!(bytes.len(), 303);
    assert_eq!(decode_echo_message(&bytes).unwrap().content, content);
}

#[test]
fn decode_echo_envelope() {
    match decode_client_message(&echo_envelope(b"ping")) {
        Ok(ClientMessage::EchoMessage(m)) => assert_eq!(m.content, b"ping".to_vec()),
        _ => panic!("expected an echo request"),
    }
}

#[test]
fn decode_add_envelope() {
    match decode_client_message(&[0x12, 0x04, 0x08, 0x02, 0x10, 0x03]) {
        Ok(ClientMessage::AddRequest(r)) => assert_eq!((r.a, r.b), (2, 3)),
        _ => panic!("expected an addition request"),
    }
}

#[test]
fn absent_fields_default_to_zero() {
    match decode_client_message(&[0x12, 0x02, 0x10, 0x03]) {
        Ok(ClientMessage::AddRequest(r)) => assert_eq!((r.a, r.b), (0, 3)),
        _ => panic!("expected an addition request"),
    }
    match decode_client_message(&[0x0A, 0x00]) {
        Ok(ClientMessage::EchoMessage(m)) => assert!(m.content.is_empty()),
        _ => panic!("expected an echo request"),
    }
}

#[test]
fn empty_envelope_is_malformed() {
    assert!(matches!(decode_client_message(&[]), Err(MalformedMessage)));
}

#[test]
fn two_variants_are_malformed() {
    let mut bytes = echo_envelope(b"x");
    bytes.extend_from_slice(&[0x12, 0x04, 0x08, 0x02, 0x10, 0x03]);
    assert!(decode_client_message(&bytes).is_err());
}

#[test]
fn truncated_envelopes_are_malformed() {
    let full = echo_envelope(b"ping");
    for k in 1..full.len() {
        assert!(decode_client_message(&full[..k]).is_err(), "prefix of {} bytes", k);
    }
}

#[test]
fn unknown_field_is_malformed() {
    assert!(decode_client_message(&[0x1A, 0x00]).is_err());
    assert!(decode_client_message(&[0x08, 0x01]).is_err());
}

#[test]
fn echo_body_decoded_as_add_is_rejected() {
    // An echo request's bytes do not pass for an addition request.
    assert!(decode_add_request(&[0x0A, 0x04, b'p', b'i', b'n', b'g']).is_err());
}

#[test]
fn overlong_varint_is_malformed() {
    let mut bytes = vec![0x08];
    bytes.extend_from_slice(&[0xFF; 9]);
    bytes.push(0x02);
    assert!(decode_add_response(&bytes).is_err());
}

#[test]
fn int32_out_of_range_is_malformed() {
    // 2^31 fits no int32.
    assert!(decode_add_response(&[0x08, 0x80, 0x80, 0x80, 0x80, 0x08]).is_err());
}
