use echo_server::codec::{
    decode_add_response, decode_echo_message, encode_client_message, AddRequest, ClientMessage,
    EchoMessage,
};
use echo_server::connection::{
    handle_one_round, reply_to, step, sum_of, ConnAction, ConnEvent, ConnState, Ending, Round,
};

fn reply(data: &[u8]) -> Vec<u8> {
    match handle_one_round(data) {
        Round::Reply(b) => b,
        _ => panic!("expected a reply"),
    }
}

#[test]
fn echo_ping_scenario() {
    let req = encode_client_message(&ClientMessage::EchoMessage(EchoMessage {
        content: b"ping".to_vec(),
    }));
    let back = decode_echo_message(&reply(&req)).unwrap();
    assert_eq!(back.content, b"ping".to_vec());
}

#[test]
fn add_two_and_three_scenario() {
    let req = encode_client_message(&ClientMessage::AddRequest(AddRequest { a: 2, b: 3 }));
    let back = decode_add_response(&reply(&req)).unwrap();
    assert_eq!(back.result, 5);
}

#[test]
fn echo_round_trips_binary_content() {
    let content: Vec<u8> = (0..=255u8).collect();
    let req = encode_client_message(&ClientMessage::EchoMessage(EchoMessage {
        content: content.clone(),
    }));
    assert_eq!(decode_echo_message(&reply(&req)).unwrap().content, content);
}

#[test]
fn add_negative_numbers() {
    let req = encode_client_message(&ClientMessage::AddRequest(AddRequest { a: -7, b: 3 }));
    assert_eq!(decode_add_response(&reply(&req)).unwrap().result, -4);
}

#[test]
fn addition_wraps_around() {
    assert_eq!(sum_of(&AddRequest { a: i32::MAX, b: 1 }).result, i32::MIN);
    assert_eq!(sum_of(&AddRequest { a: i32::MIN, b: -1 }).result, i32::MAX);
    assert_eq!(sum_of(&AddRequest { a: i32::MIN, b: i32::MIN }).result, 0);
    let req = encode_client_message(&ClientMessage::AddRequest(AddRequest { a: i32::MAX, b: 1 }));
    assert_eq!(decode_add_response(&reply(&req)).unwrap().result, i32::MIN);
}

#[test]
fn reply_to_dispatches_by_variant() {
    let r = reply_to(&ClientMessage::AddRequest(AddRequest { a: 40, b: 2 }));
    assert_eq!(r, vec![0x08, 42]);
    let e = reply_to(&ClientMessage::EchoMessage(EchoMessage { content: b"hi".to_vec() }));
    assert_eq!(e, vec![0x0A, 0x02, b'h', b'i']);
}

#[test]
fn zero_bytes_means_peer_closed() {
    assert!(matches!(handle_one_round(&[]), Round::PeerClosed));
    let (s, a) = step(ConnState::Reading, ConnEvent::Received(Vec::new()));
    assert_eq!(s, ConnState::ClosedByPeer);
    assert!(matches!(a, ConnAction::Close(Ending::PeerDisconnected)));
}

#[test]
fn malformed_read_fails_the_connection() {
    assert!(matches!(handle_one_round(&[0xFF]), Round::Malformed));
    let (s, a) = step(ConnState::Reading, ConnEvent::Received(vec![0x0A, 0x05, 0x01]));
    assert_eq!(s, ConnState::Failed);
    assert!(matches!(a, ConnAction::Close(Ending::Malformed)));
    // A failed connection stays failed.
    let (s2, a2) = step(s, ConnEvent::Ready(true));
    assert_eq!(s2, ConnState::Failed);
    assert!(matches!(a2, ConnAction::Close(Ending::Io)));
}

#[test]
fn full_round_through_the_state_machine() {
    let (s, a) = step(ConnState::Reading, ConnEvent::Ready(true));
    assert_eq!(s, ConnState::Reading);
    assert!(matches!(a, ConnAction::Read));
    let req = vec![0x12, 0x04, 0x08, 0x02, 0x10, 0x03];
    let (s, a) = step(s, ConnEvent::Received(req));
    assert_eq!(s, ConnState::Responding);
    match a {
        ConnAction::Send(b) => assert_eq!(b, vec![0x08, 0x05]),
        _ => panic!("expected a reply"),
    }
    let (s, a) = step(s, ConnEvent::Sent(true));
    assert_eq!(s, ConnState::Reading);
    assert!(matches!(a, ConnAction::Read));
}

#[test]
fn shutdown_is_seen_at_the_round_boundary() {
    let (s, a) = step(ConnState::Reading, ConnEvent::Ready(false));
    assert_eq!(s, ConnState::Stopped);
    assert!(matches!(a, ConnAction::Close(Ending::ShutdownRequested)));
    let (s, a) = step(ConnState::Responding, ConnEvent::Sent(false));
    assert_eq!(s, ConnState::Stopped);
    assert!(matches!(a, ConnAction::Close(Ending::ShutdownRequested)));
}

#[test]
fn io_failures_fail_the_connection() {
    let (s, a) = step(ConnState::Reading, ConnEvent::ReadFailed);
    assert_eq!(s, ConnState::Failed);
    assert!(matches!(a, ConnAction::Close(Ending::Io)));
    let (s, a) = step(ConnState::Responding, ConnEvent::SendFailed);
    assert_eq!(s, ConnState::Failed);
    assert!(matches!(a, ConnAction::Close(Ending::Io)));
}

#[test]
fn two_clients_get_their_own_replies() {
    let r1 = encode_client_message(&ClientMessage::EchoMessage(EchoMessage {
        content: b"first".to_vec(),
    }));
    let r2 = encode_client_message(&ClientMessage::AddRequest(AddRequest { a: 10, b: 20 }));
    let (c1, a1) = step(ConnState::Reading, ConnEvent::Received(r1));
    let (c2, a2) = step(ConnState::Reading, ConnEvent::Received(r2));
    assert_eq!((c1, c2), (ConnState::Responding, ConnState::Responding));
    match (a1, a2) {
        (ConnAction::Send(b1), ConnAction::Send(b2)) => {
            assert_eq!(decode_echo_message(&b1).unwrap().content, b"first".to_vec());
            assert_eq!(decode_add_response(&b2).unwrap().result, 30);
        }
        _ => panic!("expected two replies"),
    }
}
