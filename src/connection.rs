//! One accepted connection: what is answered to each read, and the state
//! machine that says when the connection goes on and when it ends.
//!
//! A connection reads, decodes, dispatches, writes the reply and reads
//! again. It ends when the peer closes, when a buffer is malformed (the
//! stream may no longer be aligned with message boundaries), on a read or
//! write failure, or when the service stops running, which is looked at
//! only at the start of each round.

use vstd::prelude::*;
use crate::codec::{
    add_response_bytes, client_message_bytes, decode_client_message, echo_message_bytes,
    encode_add_response, encode_echo_message, lemma_add_response_round_trip,
    lemma_client_message_round_trip, lemma_echo_message_round_trip,
    lemma_truncated_client_message_fails, parse_add_response,
    parse_client_message, parse_echo_message, AddRequest, AddResponse, ClientMessage, Request,
};

verus! {

/// `a + b` with two's-complement wraparound at 32 bits.
pub open spec fn wrapping_sum(a: i32, b: i32) -> i32 {
    let s = a + b;
    if s > i32::MAX {
        (s - 0x1_0000_0000) as i32
    } else if s < i32::MIN {
        (s + 0x1_0000_0000) as i32
    } else {
        s as i32
    }
}

/// The reply the service owes to a request.
pub open spec fn reply_bytes(m: Request) -> Seq<u8> {
    match m {
        Request::Echo(c) => echo_message_bytes(c),
        Request::Add(a, b) => add_response_bytes(wrapping_sum(a, b)),
    }
}

/// Adds the two integers of a request; an overflow wraps around.
pub fn sum_of(req: &AddRequest) -> (r: AddResponse)
    ensures
        r.result == wrapping_sum(req.a, req.b),
{
    let s: i64 = req.a as i64 + req.b as i64;
    let result: i32 = if s > 0x7FFF_FFFF {
        (s - 0x1_0000_0000) as i32
    } else if s < -0x8000_0000 {
        (s + 0x1_0000_0000) as i32
    } else {
        s as i32
    };
    AddResponse { result }
}

/// Dispatches a decoded request and encodes the reply: the same echo
/// message for an echo, the sum for an addition.
pub fn reply_to(m: &ClientMessage) -> (r: Vec<u8>)
    ensures
        r@ == reply_bytes(m@),
{
    match m {
        ClientMessage::EchoMessage(e) => encode_echo_message(e),
        ClientMessage::AddRequest(req) => {
            let resp = sum_of(req);
            encode_add_response(&resp)
        },
    }
}

/// What one read on a connection comes to.
pub enum Round {
    /// The reply to write back.
    Reply(Vec<u8>),
    /// The read returned no bytes: the peer closed the connection.
    PeerClosed,
    /// The bytes read are no well-formed envelope.
    Malformed,
}

/// The outcome of one read: nothing read means the peer left; otherwise
/// the bytes are decoded once as an envelope and answered.
pub open spec fn round_of(data: Seq<u8>, r: Round) -> bool {
    if data.len() == 0 {
        r is PeerClosed
    } else {
        match parse_client_message(data) {
            Some(m) => r matches Round::Reply(b) && b@ == reply_bytes(m),
            None => r is Malformed,
        }
    }
}

/// Answers the bytes of one read.
pub fn handle_one_round(data: &[u8]) -> (r: Round)
    ensures
        round_of(data@, r),
{
    if data.len() == 0 {
        return Round::PeerClosed;
    }
    match decode_client_message(data) {
        Ok(m) => Round::Reply(reply_to(&m)),
        Err(_) => Round::Malformed,
    }
}

/// Where a connection stands.
#[derive(PartialEq, Eq, Structural, Clone, Copy, Debug)]
pub enum ConnState {
    /// At a round boundary or waiting on a read.
    Reading,
    /// A reply is being written.
    Responding,
    ClosedByPeer,
    Failed,
    Stopped,
}

/// Why a connection ended. Only `Malformed` and `Io` are errors.
#[derive(PartialEq, Eq, Structural, Clone, Copy, Debug)]
pub enum Ending {
    PeerDisconnected,
    Malformed,
    Io,
    ShutdownRequested,
}

/// What happened on a connection since the last step.
pub enum ConnEvent {
    /// A round is about to start; the flag says whether the service runs.
    Ready(bool),
    /// A read returned these bytes (none: the peer closed).
    Received(Vec<u8>),
    ReadFailed,
    /// The reply was written; the flag says whether the service runs.
    Sent(bool),
    SendFailed,
}

/// What the connection's owner is to do next.
pub enum ConnAction {
    Read,
    Send(Vec<u8>),
    Close(Ending),
}

pub open spec fn is_terminal(s: ConnState) -> bool {
    s is ClosedByPeer || s is Failed || s is Stopped
}

pub open spec fn ending_of(s: ConnState) -> Ending {
    match s {
        ConnState::ClosedByPeer => Ending::PeerDisconnected,
        ConnState::Stopped => Ending::ShutdownRequested,
        _ => Ending::Io,
    }
}

/// A round boundary: read on while the service runs, else stop.
pub open spec fn begins_round(running: bool, r: (ConnState, ConnAction)) -> bool {
    if running {
        r.0 == ConnState::Reading && r.1 is Read
    } else {
        r.0 == ConnState::Stopped && r.1 == ConnAction::Close(Ending::ShutdownRequested)
    }
}

/// The step after a read of `data`.
pub open spec fn answers(data: Seq<u8>, r: (ConnState, ConnAction)) -> bool {
    if data.len() == 0 {
        r.0 == ConnState::ClosedByPeer && r.1 == ConnAction::Close(Ending::PeerDisconnected)
    } else {
        match parse_client_message(data) {
            Some(m) => r.0 == ConnState::Responding && (r.1 matches ConnAction::Send(b)
                && b@ == reply_bytes(m)),
            None => r.0 == ConnState::Failed && r.1 == ConnAction::Close(Ending::Malformed),
        }
    }
}

/// The one step of the connection state machine. A terminal state stays
/// as it is; an event that the state does not wait for fails the
/// connection.
pub fn step(state: ConnState, event: ConnEvent) -> (r: (ConnState, ConnAction))
    ensures
        is_terminal(state) ==> r.0 == state && r.1 == ConnAction::Close(ending_of(state)),
        state is Reading ==> (event matches ConnEvent::Ready(running) ==> begins_round(running, r)),
        state is Responding ==> (event matches ConnEvent::Sent(running) ==> begins_round(running, r)),
        state is Reading ==> (event matches ConnEvent::Received(data) ==> answers(data@, r)),
        state is Reading && event is ReadFailed ==> r.0 == ConnState::Failed && r.1
            == ConnAction::Close(Ending::Io),
        state is Responding && event is SendFailed ==> r.0 == ConnState::Failed && r.1
            == ConnAction::Close(Ending::Io),
        state is Reading && (event is Sent || event is SendFailed) ==> r.0 == ConnState::Failed
            && r.1 == ConnAction::Close(Ending::Io),
        state is Responding && !(event is Sent || event is SendFailed) ==> r.0 == ConnState::Failed
            && r.1 == ConnAction::Close(Ending::Io),
{
    match state {
        ConnState::ClosedByPeer => (state, ConnAction::Close(Ending::PeerDisconnected)),
        ConnState::Stopped => (state, ConnAction::Close(Ending::ShutdownRequested)),
        ConnState::Failed => (state, ConnAction::Close(Ending::Io)),
        ConnState::Reading => match event {
            ConnEvent::Ready(running) => begin_round(running),
            ConnEvent::Received(data) => match handle_one_round(data.as_slice()) {
                Round::Reply(b) => (ConnState::Responding, ConnAction::Send(b)),
                Round::PeerClosed => (
                    ConnState::ClosedByPeer,
                    ConnAction::Close(Ending::PeerDisconnected),
                ),
                Round::Malformed => (ConnState::Failed, ConnAction::Close(Ending::Malformed)),
            },
            _ => (ConnState::Failed, ConnAction::Close(Ending::Io)),
        },
        ConnState::Responding => match event {
            ConnEvent::Sent(running) => begin_round(running),
            _ => (ConnState::Failed, ConnAction::Close(Ending::Io)),
        },
    }
}

fn begin_round(running: bool) -> (r: (ConnState, ConnAction))
    ensures
        begins_round(running, r),
{
    if running {
        (ConnState::Reading, ConnAction::Read)
    } else {
        (ConnState::Stopped, ConnAction::Close(Ending::ShutdownRequested))
    }
}

/// Sending an echo request with any content gets back an echo message that
/// decodes to that same content, byte for byte.
pub proof fn lemma_echo_reply(content: Seq<u8>, r: (ConnState, ConnAction))
    requires
        content.len() <= isize::MAX,
        answers(client_message_bytes(Request::Echo(content)), r),
    ensures
        r.0 == ConnState::Responding,
        r.1 matches ConnAction::Send(b) && parse_echo_message(b@) == Some(content),
{
    lemma_client_message_round_trip(Request::Echo(content));
    lemma_echo_message_round_trip(content);
}

/// Sending an addition request for any two int32 gets back a response
/// that decodes to their sum, wrapped around at 32 bits: the exact sum
/// wherever it fits in an int32.
pub proof fn lemma_add_reply(a: i32, b: i32, r: (ConnState, ConnAction))
    requires
        answers(client_message_bytes(Request::Add(a, b)), r),
    ensures
        r.0 == ConnState::Responding,
        r.1 matches ConnAction::Send(bytes) && parse_add_response(bytes@) == Some(
            wrapping_sum(a, b),
        ),
        i32::MIN <= a + b <= i32::MAX ==> wrapping_sum(a, b) == a + b,
        (a + b - wrapping_sum(a, b)) % 0x1_0000_0000 == 0,
{
    lemma_client_message_round_trip(Request::Add(a, b));
    lemma_add_response_round_trip(wrapping_sum(a, b));
}

/// A read of bytes that are no well-formed envelope ends that connection,
/// as a malformed message, and writes nothing back.
pub proof fn lemma_malformed_ends_connection(data: Seq<u8>, r: (ConnState, ConnAction))
    requires
        data.len() > 0,
        parse_client_message(data) is None,
        answers(data, r),
    ensures
        r.0 == ConnState::Failed,
        r.1 == ConnAction::Close(Ending::Malformed),
{
}

/// A request cut short, by any number of bytes, ends its connection as
/// malformed instead of being answered.
pub proof fn lemma_truncated_request_ends_connection(m: Request, k: int, r: (ConnState, ConnAction))
    requires
        m matches Request::Echo(c) ==> c.len() <= isize::MAX,
        0 < k < client_message_bytes(m).len(),
        answers(client_message_bytes(m).take(k), r),
    ensures
        r.0 == ConnState::Failed,
        r.1 == ConnAction::Close(Ending::Malformed),
{
    lemma_truncated_client_message_fails(m, k);
}

/// Connections share nothing but the running flag, and each step of a
/// connection looks at its own state and read alone: two clients served side
/// by side, in any interleaving, each get the reply to their own request.
pub proof fn lemma_replies_are_not_crossed(
    m1: Request,
    m2: Request,
    r1: (ConnState, ConnAction),
    r2: (ConnState, ConnAction),
)
    requires
        m1 matches Request::Echo(c) ==> c.len() <= isize::MAX,
        m2 matches Request::Echo(c) ==> c.len() <= isize::MAX,
        answers(client_message_bytes(m1), r1),
        answers(client_message_bytes(m2), r2),
    ensures
        r1.1 matches ConnAction::Send(b) && b@ == reply_bytes(m1),
        r2.1 matches ConnAction::Send(b) && b@ == reply_bytes(m2),
{
    lemma_client_message_round_trip(m1);
    lemma_client_message_round_trip(m2);
}

} // verus!
