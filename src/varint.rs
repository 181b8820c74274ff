//! Base-128 varints, the integer encoding of the protobuf wire format.
//! Encoding and decoding are delegated to prost; this module states what
//! they do and proves the facts the message codec needs.

use vstd::prelude::*;

verus! {

/// The canonical encoding of `v`: seven bits per byte, least significant
/// group first, with the high bit set on every byte but the last.
pub open spec fn varint_bytes(v: nat) -> Seq<u8>
    decreases v,
{
    if v < 128 {
        seq![v as u8]
    } else {
        seq![(v % 128 + 128) as u8] + varint_bytes(v / 128)
    }
}

/// Reads one varint from the front of `s`, of which `k` bytes have already
/// been read. A varint has at most ten bytes, and the tenth may only hold
/// the single bit that is left of 64. Gives the value and the number of
/// bytes taken from `s`.
pub open spec fn parse_varint_from(s: Seq<u8>, k: nat) -> Option<(nat, nat)>
    decreases s.len(),
{
    if s.len() == 0 || k >= 10 {
        None
    } else if s[0] < 128 {
        if k == 9 && s[0] > 1 {
            None
        } else {
            Some((s[0] as nat, 1nat))
        }
    } else {
        match parse_varint_from(s.drop_first(), k + 1) {
            Some((v, n)) => Some((((s[0] - 128) + 128 * v) as nat, n + 1)),
            None => None,
        }
    }
}

/// Reads one varint from the front of `s`: its value and its length.
pub open spec fn parse_varint(s: Seq<u8>) -> Option<(nat, nat)> {
    parse_varint_from(s, 0)
}

/// The values that fit in the bytes of a varint that are left after `k`.
pub open spec fn varint_cap(k: nat) -> nat
    decreases 9 - k,
{
    if k >= 9 {
        2
    } else {
        128 * varint_cap(k + 1)
    }
}

pub proof fn lemma_varint_cap_u64()
    ensures
        varint_cap(0) == 0x1_0000_0000_0000_0000,
{
    reveal_with_fuel(varint_cap, 10);
}

/// A parsed varint fits what is left of its ten bytes and lies inside `s`.
pub proof fn lemma_parse_varint_bounds(s: Seq<u8>, k: nat)
    requires
        parse_varint_from(s, k) is Some,
    ensures
        parse_varint_from(s, k).unwrap().0 < varint_cap(k),
        1 <= parse_varint_from(s, k).unwrap().1 <= s.len(),
        k < 10,
    decreases s.len(),
{
    if s[0] >= 128 {
        lemma_parse_varint_bounds(s.drop_first(), k + 1);
        let v = parse_varint_from(s.drop_first(), k + 1).unwrap().0;
        let b = s[0] - 128;
        let c = varint_cap(k + 1);
        assert(b + 128 * v < 128 * c) by (nonlinear_arith)
            requires 0 <= b < 128, v < c;
    } else if k < 9 {
        lemma_varint_cap_grows(k);
    }
}

proof fn lemma_varint_cap_grows(k: nat)
    requires
        k < 9,
    ensures
        varint_cap(k) >= 256,
    decreases 9 - k,
{
    reveal_with_fuel(varint_cap, 2);
    if k + 1 < 9 {
        lemma_varint_cap_grows(k + 1);
    }
}

/// Decoding the canonical encoding of `v`, whatever follows it, gives `v`
/// back and consumes exactly its bytes.
pub proof fn lemma_varint_round_trip(v: nat, k: nat, rest: Seq<u8>)
    requires
        k <= 9,
        v < varint_cap(k),
    ensures
        parse_varint_from(varint_bytes(v) + rest, k) == Some((v, varint_bytes(v).len())),
        1 <= varint_bytes(v).len() <= 10 - k,
    decreases v,
{
    let s = varint_bytes(v) + rest;
    if v < 128 {
        assert(s[0] == v as u8);
    } else {
        if k == 9 {
            assert(false);
        }
        let c = varint_cap(k + 1);
        assert(v / 128 < c) by (nonlinear_arith)
            requires v < 128 * c;
        lemma_varint_round_trip(v / 128, k + 1, rest);
        assert(s.drop_first() =~= varint_bytes(v / 128) + rest);
        assert(s[0] == (v % 128 + 128) as u8);
    }
}

/// A varint cut short is no varint: every proper prefix of a canonical
/// encoding fails to parse.
pub proof fn lemma_varint_prefix_fails(v: nat, k: nat, j: nat)
    requires
        j < varint_bytes(v).len(),
    ensures
        parse_varint_from(varint_bytes(v).take(j as int), k) is None,
    decreases v,
{
    let s = varint_bytes(v).take(j as int);
    if j > 0 && k < 10 {
        assert(v >= 128);
        assert(s[0] == (v % 128 + 128) as u8);
        assert(s.drop_first() =~= varint_bytes(v / 128).take(j - 1));
        lemma_varint_prefix_fails(v / 128, k + 1, (j - 1) as nat);
    }
}

/// Declares prost's decoding error, which carries no data this crate reads.
#[verifier::external_type_specification]
#[verifier::external_body]
pub struct ExDecodeError(prost::DecodeError);

/// Relies on prost::encoding::encode_varint: it appends the canonical
/// varint of `v` to the buffer.
#[verifier::external_body]
pub(crate) fn put_varint(v: u64, buf: &mut Vec<u8>)
    ensures
        final(buf)@ == old(buf)@ + varint_bytes(v as nat),
{
    prost::encoding::encode_varint(v, buf)
}

/// Relies on prost::encoding::decode_varint on a byte slice: it reads one
/// varint from the front, fails where `parse_varint` finds none, and leaves
/// the slice advanced past the bytes it read, whose remaining length is
/// returned beside the value.
#[verifier::external_body]
fn decode_varint_prefix(bytes: &[u8]) -> (r: Result<(u64, usize), prost::DecodeError>)
    ensures
        match r {
            Ok((v, left)) => left <= bytes@.len() && parse_varint(bytes@) == Some(
                (v as nat, (bytes@.len() - left) as nat),
            ),
            Err(_) => parse_varint(bytes@) is None,
        },
{
    let mut cur: &[u8] = bytes;
    let r = prost::encoding::decode_varint(&mut cur);
    r.map(|v| (v, cur.len()))
}

/// Reads the varint that starts at `pos`: its value and the position just
/// past it, or `None` where no well-formed varint starts there.
pub fn read_varint_at(bytes: &[u8], pos: usize) -> (r: Option<(u64, usize)>)
    requires
        pos <= bytes@.len(),
    ensures
        match r {
            Some((v, end)) => pos < end <= bytes@.len() && parse_varint(bytes@.skip(pos as int))
                == Some((v as nat, (end - pos) as nat)),
            None => parse_varint(bytes@.skip(pos as int)) is None,
        },
{
    let tail = vstd::slice::slice_subrange(bytes, pos, bytes.len());
    assert(tail@ =~= bytes@.skip(pos as int));
    match decode_varint_prefix(tail) {
        Ok((v, left)) => {
            proof {
                lemma_parse_varint_bounds(tail@, 0);
            }
            Some((v, bytes.len() - left))
        },
        Err(_) => None,
    }
}

} // verus!
