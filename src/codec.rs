//! The messages of the service and their protobuf wire form.
//!
//! A client sends one `ClientMessage` envelope whose single field says which
//! request it carries: field 1 holds an `EchoMessage`, field 2 an
//! `AddRequest`. The server answers with a bare `EchoMessage` or
//! `AddResponse`. Encoders write every field, defaults included, so that no
//! reply is ever empty; decoders take each field of a message at most once,
//! in field order, and treat an absent scalar as its default.

use vstd::prelude::*;
use crate::varint::{
    lemma_parse_varint_bounds, lemma_varint_cap_u64, lemma_varint_prefix_fails, lemma_varint_round_trip, parse_varint,
    put_varint, read_varint_at, varint_bytes,
};

verus! {

/// Key of a length-delimited field 1 (the echo variant of the envelope, and
/// the content of an echo message).
pub const KEY_FIELD1_LEN: u8 = 0x0A;

/// Key of a length-delimited field 2 (the addition variant of the envelope).
pub const KEY_FIELD2_LEN: u8 = 0x12;

/// Key of a varint field 1 (`a` of a request, `result` of a response).
pub const KEY_FIELD1_VARINT: u8 = 0x08;

/// Key of a varint field 2 (`b` of a request).
pub const KEY_FIELD2_VARINT: u8 = 0x10;

/// A request to send `content` back unchanged; also the reply to it.
pub struct EchoMessage {
    pub content: Vec<u8>,
}

/// A request to add two integers.
pub struct AddRequest {
    pub a: i32,
    pub b: i32,
}

/// The reply to an `AddRequest`.
#[derive(PartialEq, Eq, Structural, Clone, Copy, Debug)]
pub struct AddResponse {
    pub result: i32,
}

/// The envelope a client sends: exactly one of the two requests.
pub enum ClientMessage {
    EchoMessage(EchoMessage),
    AddRequest(AddRequest),
}

/// What a `ClientMessage` means.
pub enum Request {
    Echo(Seq<u8>),
    Add(i32, i32),
}

impl View for ClientMessage {
    type V = Request;

    open spec fn view(&self) -> Request {
        match self {
            ClientMessage::EchoMessage(m) => Request::Echo(m.content@),
            ClientMessage::AddRequest(r) => Request::Add(r.a, r.b),
        }
    }
}

/// A byte sequence that is not the wire form of the expected message.
#[derive(PartialEq, Eq, Structural, Clone, Copy, Debug)]
pub struct MalformedMessage;

pub open spec fn two_pow_64() -> int {
    0x1_0000_0000_0000_0000
}

/// An int32 on the wire: sign-extended to 64 bits, as protobuf writes it.
pub open spec fn int32_wire(x: i32) -> nat {
    if x >= 0 {
        x as nat
    } else {
        (x + two_pow_64()) as nat
    }
}

/// The int32 whose wire form is `v`, if any.
pub open spec fn int32_of_wire(v: nat) -> Option<i32> {
    if v < 0x8000_0000 {
        Some(v as i32)
    } else if two_pow_64() - 0x8000_0000 <= v < two_pow_64() {
        Some((v - two_pow_64()) as i32)
    } else {
        None
    }
}

pub open spec fn int32_field(key: u8, x: i32) -> Seq<u8> {
    seq![key] + varint_bytes(int32_wire(x))
}

pub open spec fn len_field(key: u8, payload: Seq<u8>) -> Seq<u8> {
    seq![key] + varint_bytes(payload.len()) + payload
}

pub open spec fn echo_message_bytes(content: Seq<u8>) -> Seq<u8> {
    len_field(KEY_FIELD1_LEN, content)
}

pub open spec fn add_request_bytes(a: i32, b: i32) -> Seq<u8> {
    int32_field(KEY_FIELD1_VARINT, a) + int32_field(KEY_FIELD2_VARINT, b)
}

pub open spec fn add_response_bytes(result: i32) -> Seq<u8> {
    int32_field(KEY_FIELD1_VARINT, result)
}

pub open spec fn client_message_bytes(m: Request) -> Seq<u8> {
    match m {
        Request::Echo(c) => len_field(KEY_FIELD1_LEN, echo_message_bytes(c)),
        Request::Add(a, b) => len_field(KEY_FIELD2_LEN, add_request_bytes(a, b)),
    }
}

/// An int32 field with `key` at the front of `s`: its value and what
/// follows. Where the front holds another key the field is absent, and its
/// value is 0.
pub open spec fn parse_int32_field(s: Seq<u8>, key: u8) -> Option<(i32, Seq<u8>)> {
    if s.len() > 0 && s[0] == key {
        match parse_varint(s.drop_first()) {
            Some((v, n)) => match int32_of_wire(v) {
                Some(x) => Some((x, s.drop_first().skip(n as int))),
                None => None,
            },
            None => None,
        }
    } else {
        Some((0, s))
    }
}

/// A length-delimited field with `key` at the front of `s`: its payload
/// and what follows.
pub open spec fn parse_len_field(s: Seq<u8>, key: u8) -> Option<(Seq<u8>, Seq<u8>)> {
    if s.len() > 0 && s[0] == key {
        match parse_varint(s.drop_first()) {
            Some((len, n)) => {
                let t = s.drop_first().skip(n as int);
                if len <= t.len() {
                    Some((t.take(len as int), t.skip(len as int)))
                } else {
                    None
                }
            },
            None => None,
        }
    } else {
        None
    }
}

pub open spec fn parse_echo_message(s: Seq<u8>) -> Option<Seq<u8>> {
    if s.len() == 0 {
        Some(Seq::empty())
    } else {
        match parse_len_field(s, KEY_FIELD1_LEN) {
            Some((c, rest)) => if rest.len() == 0 {
                Some(c)
            } else {
                None
            },
            None => None,
        }
    }
}

pub open spec fn parse_add_request(s: Seq<u8>) -> Option<(i32, i32)> {
    match parse_int32_field(s, KEY_FIELD1_VARINT) {
        Some((a, r1)) => match parse_int32_field(r1, KEY_FIELD2_VARINT) {
            Some((b, r2)) => if r2.len() == 0 {
                Some((a, b))
            } else {
                None
            },
            None => None,
        },
        None => None,
    }
}

pub open spec fn parse_add_response(s: Seq<u8>) -> Option<i32> {
    match parse_int32_field(s, KEY_FIELD1_VARINT) {
        Some((r, rest)) => if rest.len() == 0 {
            Some(r)
        } else {
            None
        },
        None => None,
    }
}

/// The envelope: exactly one variant field and nothing after it. An empty
/// sequence names no variant and is rejected.
pub open spec fn parse_client_message(s: Seq<u8>) -> Option<Request> {
    match parse_len_field(s, KEY_FIELD1_LEN) {
        Some((p, rest)) => if rest.len() == 0 {
            match parse_echo_message(p) {
                Some(c) => Some(Request::Echo(c)),
                None => None,
            }
        } else {
            None
        },
        None => match parse_len_field(s, KEY_FIELD2_LEN) {
            Some((p, rest)) => if rest.len() == 0 {
                match parse_add_request(p) {
                    Some((a, b)) => Some(Request::Add(a, b)),
                    None => None,
                }
            } else {
                None
            },
            None => None,
        },
    }
}

pub proof fn lemma_int32_wire(x: i32)
    ensures
        int32_wire(x) < two_pow_64(),
        int32_of_wire(int32_wire(x)) == Some(x),
{
}

pub proof fn lemma_int32_field_round_trip(key: u8, x: i32, rest: Seq<u8>)
    ensures
        parse_int32_field(int32_field(key, x) + rest, key) == Some((x, rest)),
{
    let s = int32_field(key, x) + rest;
    lemma_int32_wire(x);
    lemma_varint_cap_u64();
    lemma_varint_round_trip(int32_wire(x), 0, rest);
    assert(s.drop_first() =~= varint_bytes(int32_wire(x)) + rest);
    assert(s.drop_first().skip(varint_bytes(int32_wire(x)).len() as int) =~= rest);
}

pub proof fn lemma_len_field_round_trip(key: u8, p: Seq<u8>, rest: Seq<u8>)
    requires
        p.len() < two_pow_64(),
    ensures
        parse_len_field(len_field(key, p) + rest, key) == Some((p, rest)),
{
    let s = len_field(key, p) + rest;
    let v = varint_bytes(p.len());
    lemma_varint_cap_u64();
    lemma_varint_round_trip(p.len(), 0, p + rest);
    assert(s.drop_first() =~= v + (p + rest));
    let t = s.drop_first().skip(v.len() as int);
    assert(t =~= p + rest);
    assert(t.take(p.len() as int) =~= p);
    assert(t.skip(p.len() as int) =~= rest);
}

/// An echo message decodes to the content it was encoded from.
pub proof fn lemma_echo_message_round_trip(content: Seq<u8>)
    requires
        content.len() < two_pow_64(),
    ensures
        parse_echo_message(echo_message_bytes(content)) == Some(content),
{
    lemma_len_field_round_trip(KEY_FIELD1_LEN, content, Seq::empty());
    assert(echo_message_bytes(content) + Seq::empty() =~= echo_message_bytes(content));
}

/// An addition request decodes to the two integers it was encoded from.
pub proof fn lemma_add_request_round_trip(a: i32, b: i32)
    ensures
        parse_add_request(add_request_bytes(a, b)) == Some((a, b)),
{
    let fb = int32_field(KEY_FIELD2_VARINT, b);
    lemma_int32_field_round_trip(KEY_FIELD1_VARINT, a, fb);
    lemma_int32_field_round_trip(KEY_FIELD2_VARINT, b, Seq::empty());
    assert(fb + Seq::empty() =~= fb);
}

/// An addition response decodes to the result it was encoded from.
pub proof fn lemma_add_response_round_trip(result: i32)
    ensures
        parse_add_response(add_response_bytes(result)) == Some(result),
{
    lemma_int32_field_round_trip(KEY_FIELD1_VARINT, result, Seq::empty());
    assert(add_response_bytes(result) + Seq::empty() =~= add_response_bytes(result));
}

pub proof fn lemma_varint_len_at_most_ten(v: nat)
    requires
        v < two_pow_64(),
    ensures
        varint_bytes(v).len() <= 10,
{
    lemma_varint_cap_u64();
    lemma_varint_round_trip(v, 0, Seq::empty());
}

/// Every envelope a client encodes decodes back to the same request. The
/// bound on the echoed content is what a `Vec` in memory can hold.
pub proof fn lemma_client_message_round_trip(m: Request)
    requires
        m matches Request::Echo(c) ==> c.len() <= isize::MAX,
    ensures
        parse_client_message(client_message_bytes(m)) == Some(m),
{
    let s = client_message_bytes(m);
    match m {
        Request::Echo(c) => {
            let p = echo_message_bytes(c);
            lemma_varint_len_at_most_ten(c.len());
            lemma_len_field_round_trip(KEY_FIELD1_LEN, p, Seq::empty());
            assert(s + Seq::empty() =~= s);
            lemma_echo_message_round_trip(c);
        },
        Request::Add(a, b) => {
            let p = add_request_bytes(a, b);
            lemma_int32_wire(a);
            lemma_int32_wire(b);
            lemma_varint_len_at_most_ten(int32_wire(a));
            lemma_varint_len_at_most_ten(int32_wire(b));
            lemma_len_field_round_trip(KEY_FIELD2_LEN, p, Seq::empty());
            assert(s + Seq::empty() =~= s);
            assert(s[0] == KEY_FIELD2_LEN);
            lemma_add_request_round_trip(a, b);
        },
    }
}

fn push_int32_field(buf: &mut Vec<u8>, key: u8, x: i32)
    ensures
        final(buf)@ == old(buf)@ + int32_field(key, x),
{
    let wire: u64 = if x >= 0 {
        x as u64
    } else {
        u64::MAX - ((-(x + 1)) as u64)
    };
    assert(wire as nat == int32_wire(x));
    let ghost start = buf@;
    buf.push(key);
    put_varint(wire, buf);
    assert(buf@ =~= start + int32_field(key, x));
}

fn push_len_field(buf: &mut Vec<u8>, key: u8, payload: &[u8])
    ensures
        final(buf)@ == old(buf)@ + len_field(key, payload@),
{
    let ghost start = buf@;
    buf.push(key);
    put_varint(payload.len() as u64, buf);
    let mut i: usize = 0;
    while i < payload.len()
        invariant
            i <= payload@.len(),
            buf@ == start + seq![key] + varint_bytes(payload@.len()) + payload@.take(i as int),
        decreases payload@.len() - i,
    {
        buf.push(payload[i]);
        i = i + 1;
        assert(payload@.take(i as int) =~= payload@.take(i - 1) + seq![payload@[i - 1]]);
    }
    assert(payload@.take(i as int) =~= payload@);
    assert(buf@ =~= start + len_field(key, payload@));
}

/// The wire form of an echo message, written as a reply.
pub fn encode_echo_message(m: &EchoMessage) -> (r: Vec<u8>)
    ensures
        r@ == echo_message_bytes(m.content@),
{
    let mut buf: Vec<u8> = Vec::new();
    push_len_field(&mut buf, KEY_FIELD1_LEN, m.content.as_slice());
    assert(buf@ =~= echo_message_bytes(m.content@));
    buf
}

/// The wire form of an addition request.
pub fn encode_add_request(m: &AddRequest) -> (r: Vec<u8>)
    ensures
        r@ == add_request_bytes(m.a, m.b),
{
    let mut buf: Vec<u8> = Vec::new();
    push_int32_field(&mut buf, KEY_FIELD1_VARINT, m.a);
    push_int32_field(&mut buf, KEY_FIELD2_VARINT, m.b);
    assert(buf@ =~= add_request_bytes(m.a, m.b));
    buf
}

/// The wire form of an addition response, written as a reply.
pub fn encode_add_response(m: &AddResponse) -> (r: Vec<u8>)
    ensures
        r@ == add_response_bytes(m.result),
{
    let mut buf: Vec<u8> = Vec::new();
    push_int32_field(&mut buf, KEY_FIELD1_VARINT, m.result);
    assert(buf@ =~= add_response_bytes(m.result));
    buf
}

/// The wire form of the envelope a client sends.
pub fn encode_client_message(m: &ClientMessage) -> (r: Vec<u8>)
    ensures
        r@ == client_message_bytes(m@),
{
    let mut buf: Vec<u8> = Vec::new();
    match m {
        ClientMessage::EchoMessage(e) => {
            let inner = encode_echo_message(e);
            push_len_field(&mut buf, KEY_FIELD1_LEN, inner.as_slice());
        },
        ClientMessage::AddRequest(a) => {
            let inner = encode_add_request(a);
            push_len_field(&mut buf, KEY_FIELD2_LEN, inner.as_slice());
        },
    }
    assert(buf@ =~= client_message_bytes(m@));
    buf
}

/// Reads an int32 field with `key` at `pos`: its value (0 where the field
/// is absent) and the position after it.
fn read_int32_field(bytes: &[u8], pos: usize, key: u8) -> (r: Option<(i32, usize)>)
    requires
        pos <= bytes@.len(),
    ensures
        match r {
            Some((x, end)) => pos <= end <= bytes@.len() && parse_int32_field(
                bytes@.skip(pos as int),
                key,
            ) == Some((x, bytes@.skip(end as int))),
            None => parse_int32_field(bytes@.skip(pos as int), key) is None,
        },
{
    if pos < bytes.len() && bytes[pos] == key {
        assert(bytes@.skip(pos as int).drop_first() =~= bytes@.skip(pos + 1));
        match read_varint_at(bytes, pos + 1) {
            Some((v, end)) => {
                assert(bytes@.skip(pos + 1).skip(end - pos - 1) =~= bytes@.skip(end as int));
                if v < 0x8000_0000 {
                    Some((v as i32, end))
                } else if v >= 0xFFFF_FFFF_8000_0000 {
                    let d: u64 = u64::MAX - v;
                    Some((-(d as i32) - 1, end))
                } else {
                    None
                }
            },
            None => None,
        }
    } else {
        Some((0, pos))
    }
}

/// Reads a length-delimited field with `key` at `pos`: where its payload
/// starts and ends.
fn read_len_field(bytes: &[u8], pos: usize, key: u8) -> (r: Option<(usize, usize)>)
    requires
        pos <= bytes@.len(),
    ensures
        match r {
            Some((start, end)) => pos < start <= end <= bytes@.len() && parse_len_field(
                bytes@.skip(pos as int),
                key,
            ) == Some((bytes@.subrange(start as int, end as int), bytes@.skip(end as int))),
            None => parse_len_field(bytes@.skip(pos as int), key) is None,
        },
{
    if pos < bytes.len() && bytes[pos] == key {
        assert(bytes@.skip(pos as int).drop_first() =~= bytes@.skip(pos + 1));
        match read_varint_at(bytes, pos + 1) {
            Some((n, start)) => {
                let ghost t = bytes@.skip(start as int);
                assert(bytes@.skip(pos + 1).skip(start - pos - 1) =~= t);
                if n <= (bytes.len() - start) as u64 {
                    let end = start + n as usize;
                    assert(t.take(n as int) =~= bytes@.subrange(start as int, end as int));
                    assert(t.skip(n as int) =~= bytes@.skip(end as int));
                    Some((start, end))
                } else {
                    None
                }
            },
            None => None,
        }
    } else {
        None
    }
}

/// Decodes an echo message, such as the reply to an echo request.
pub fn decode_echo_message(bytes: &[u8]) -> (r: Result<EchoMessage, MalformedMessage>)
    ensures
        match r {
            Ok(m) => parse_echo_message(bytes@) == Some(m.content@),
            Err(_) => parse_echo_message(bytes@) is None,
        },
{
    if bytes.len() == 0 {
        return Ok(EchoMessage { content: Vec::new() });
    }
    assert(bytes@.skip(0) =~= bytes@);
    match read_len_field(bytes, 0, KEY_FIELD1_LEN) {
        Some((start, end)) => {
            if end == bytes.len() {
                let content = vstd::slice::slice_to_vec(
                    vstd::slice::slice_subrange(bytes, start, end),
                );
                Ok(EchoMessage { content })
            } else {
                Err(MalformedMessage)
            }
        },
        None => Err(MalformedMessage),
    }
}

/// Decodes the body of an addition request.
pub fn decode_add_request(bytes: &[u8]) -> (r: Result<AddRequest, MalformedMessage>)
    ensures
        match r {
            Ok(m) => parse_add_request(bytes@) == Some((m.a, m.b)),
            Err(_) => parse_add_request(bytes@) is None,
        },
{
    assert(bytes@.skip(0) =~= bytes@);
    match read_int32_field(bytes, 0, KEY_FIELD1_VARINT) {
        Some((a, mid)) => match read_int32_field(bytes, mid, KEY_FIELD2_VARINT) {
            Some((b, end)) => {
                if end == bytes.len() {
                    Ok(AddRequest { a, b })
                } else {
                    Err(MalformedMessage)
                }
            },
            None => Err(MalformedMessage),
        },
        None => Err(MalformedMessage),
    }
}

/// Decodes an addition response, the reply to an addition request.
pub fn decode_add_response(bytes: &[u8]) -> (r: Result<AddResponse, MalformedMessage>)
    ensures
        match r {
            Ok(m) => parse_add_response(bytes@) == Some(m.result),
            Err(_) => parse_add_response(bytes@) is None,
        },
{
    assert(bytes@.skip(0) =~= bytes@);
    match read_int32_field(bytes, 0, KEY_FIELD1_VARINT) {
        Some((result, end)) => {
            if end == bytes.len() {
                Ok(AddResponse { result })
            } else {
                Err(MalformedMessage)
            }
        },
        None => Err(MalformedMessage),
    }
}

/// Decodes the envelope a client sends. The variant is told by the field
/// number of the envelope's one field; anything else, including an empty
/// buffer or a second field, is malformed.
pub fn decode_client_message(bytes: &[u8]) -> (r: Result<ClientMessage, MalformedMessage>)
    ensures
        match r {
            Ok(m) => parse_client_message(bytes@) == Some(m@),
            Err(_) => parse_client_message(bytes@) is None,
        },
{
    assert(bytes@.skip(0) =~= bytes@);
    match read_len_field(bytes, 0, KEY_FIELD1_LEN) {
        Some((start, end)) => {
            if end != bytes.len() {
                return Err(MalformedMessage);
            }
            match decode_echo_message(vstd::slice::slice_subrange(bytes, start, end)) {
                Ok(m) => Ok(ClientMessage::EchoMessage(m)),
                Err(e) => Err(e),
            }
        },
        None => match read_len_field(bytes, 0, KEY_FIELD2_LEN) {
            Some((start, end)) => {
                if end != bytes.len() {
                    return Err(MalformedMessage);
                }
                match decode_add_request(vstd::slice::slice_subrange(bytes, start, end)) {
                    Ok(m) => Ok(ClientMessage::AddRequest(m)),
                    Err(e) => Err(e),
                }
            },
            None => Err(MalformedMessage),
        },
    }
}

/// A length-delimited field cut short fails to parse.
pub proof fn lemma_len_field_prefix_fails(key: u8, p: Seq<u8>, k: int)
    requires
        p.len() < two_pow_64(),
        0 < k < len_field(key, p).len(),
    ensures
        parse_len_field(len_field(key, p).take(k), key) is None,
{
    let s = len_field(key, p);
    let t = s.take(k);
    let v = varint_bytes(p.len());
    assert(t[0] == key);
    if k - 1 < v.len() {
        assert(t.drop_first() =~= v.take(k - 1));
        lemma_varint_prefix_fails(p.len(), 0, (k - 1) as nat);
    } else {
        let rest = p.take(k - 1 - v.len());
        assert(t.drop_first() =~= v + rest);
        lemma_varint_cap_u64();
        lemma_varint_round_trip(p.len(), 0, rest);
        assert(t.drop_first().skip(v.len() as int) =~= rest);
    }
}

/// A truncated envelope is malformed: no proper, non-empty prefix of the
/// wire form of a request decodes.
pub proof fn lemma_truncated_client_message_fails(m: Request, k: int)
    requires
        m matches Request::Echo(c) ==> c.len() <= isize::MAX,
        0 < k < client_message_bytes(m).len(),
    ensures
        parse_client_message(client_message_bytes(m).take(k)) is None,
{
    let t = client_message_bytes(m).take(k);
    match m {
        Request::Echo(c) => {
            lemma_varint_len_at_most_ten(c.len());
            lemma_len_field_prefix_fails(KEY_FIELD1_LEN, echo_message_bytes(c), k);
            assert(t[0] == KEY_FIELD1_LEN);
        },
        Request::Add(a, b) => {
            lemma_int32_wire(a);
            lemma_int32_wire(b);
            lemma_varint_len_at_most_ten(int32_wire(a));
            lemma_varint_len_at_most_ten(int32_wire(b));
            lemma_len_field_prefix_fails(KEY_FIELD2_LEN, add_request_bytes(a, b), k);
            assert(t[0] == KEY_FIELD2_LEN);
        },
    }
}

} // verus!
