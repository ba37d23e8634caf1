//! Byte-level codec for the message variants.
//!
//! Wire layout: an echo message carries its content as one length-delimited
//! field (key `0x0a`); an add request carries its two integers as varint
//! fields (keys `0x08` and `0x10`); an add response carries its result as one
//! varint field (key `0x08`). A field whose value is the default (empty text,
//! zero) is not written at all, so the empty byte string is a valid encoding
//! of more than one variant.

use vstd::prelude::*;
use crate::messages::{AddRequest, AddResponse, ClientMessage, EchoMessage};
use crate::wire::{parse_varint, varint, vint_push, vint_read};
use crate::wire::{lemma_parse_of_varint, lemma_parse_varint_bounds};

verus! {

/// The 64-bit image of a 32-bit integer as its varint carries it: the value
/// itself when non-negative, else its two's complement in 64 bits.
pub open spec fn int32_wire(x: i32) -> u64 {
    if x >= 0 {
        x as u64
    } else {
        (x + 0x1_0000_0000_0000_0000) as u64
    }
}

/// The 32-bit integer read back from a wire value: its low 32 bits,
/// interpreted as two's complement.
pub open spec fn wire_to_int32(v: u64) -> i32 {
    if v % 0x1_0000_0000 < 0x8000_0000 {
        (v % 0x1_0000_0000) as i32
    } else {
        (v % 0x1_0000_0000 - 0x1_0000_0000) as i32
    }
}

/// The encoding of an echo message with content `c`.
pub open spec fn echo_wire(c: Seq<u8>) -> Seq<u8> {
    if c.len() == 0 {
        Seq::empty()
    } else {
        seq![0x0au8] + varint(c.len() as u64) + c
    }
}

/// The encoding of an add request.
pub open spec fn add_request_wire(a: i32, b: i32) -> Seq<u8> {
    (if a == 0 {
        Seq::<u8>::empty()
    } else {
        seq![0x08u8] + varint(int32_wire(a))
    }) + (if b == 0 {
        Seq::<u8>::empty()
    } else {
        seq![0x10u8] + varint(int32_wire(b))
    })
}

/// The encoding of an add response.
pub open spec fn add_response_wire(r: i32) -> Seq<u8> {
    if r == 0 {
        Seq::empty()
    } else {
        seq![0x08u8] + varint(int32_wire(r))
    }
}

/// What decoding bytes as an echo message yields: the content, where the
/// bytes are empty or exactly one field-1 length-delimited payload that
/// spans the rest of the input.
pub open spec fn echo_parse(s: Seq<u8>) -> Option<Seq<u8>> {
    if s.len() == 0 {
        Some(Seq::empty())
    } else if s[0] == 0x0a {
        match parse_varint(s, 1) {
            Some((v, end)) => if v == s.len() - end {
                Some(s.subrange(end, s.len() as int))
            } else {
                None
            },
            None => None,
        }
    } else {
        None
    }
}

/// The add-request parse after the optional first field: an optional field 2
/// that must end the input.
pub open spec fn add_tail_parse(s: Seq<u8>, pos: int, a: i32) -> Option<(i32, i32)> {
    if pos == s.len() {
        Some((a, 0))
    } else if 0 <= pos < s.len() && s[pos] == 0x10 {
        match parse_varint(s, pos + 1) {
            Some((v, end)) => if end == s.len() {
                Some((a, wire_to_int32(v)))
            } else {
                None
            },
            None => None,
        }
    } else {
        None
    }
}

/// What decoding bytes as an add request yields: the two integers, from an
/// optional field 1 followed by an optional field 2, nothing else.
pub open spec fn add_request_parse(s: Seq<u8>) -> Option<(i32, i32)> {
    if s.len() > 0 && s[0] == 0x08 {
        match parse_varint(s, 1) {
            Some((v, end)) => add_tail_parse(s, end, wire_to_int32(v)),
            None => None,
        }
    } else {
        add_tail_parse(s, 0, 0)
    }
}

/// What decoding bytes as an add response yields: the result integer, from
/// an optional field 1 that must span the whole input.
pub open spec fn add_response_parse(s: Seq<u8>) -> Option<i32> {
    if s.len() == 0 {
        Some(0)
    } else if s[0] == 0x08 {
        match parse_varint(s, 1) {
            Some((v, end)) => if end == s.len() {
                Some(wire_to_int32(v))
            } else {
                None
            },
            None => None,
        }
    } else {
        None
    }
}

/// Computes the wire image of a 32-bit integer.
fn wire_of_i32(x: i32) -> (r: u64)
    ensures
        r == int32_wire(x),
{
    if x >= 0 {
        x as u64
    } else {
        0xFFFF_FFFF_FFFF_FFFFu64 - ((-1 - x) as u64)
    }
}

/// Reads a 32-bit integer back from its wire value.
fn i32_of_wire(v: u64) -> (r: i32)
    ensures
        r == wire_to_int32(v),
{
    let low: u64 = v % 0x1_0000_0000;
    if low < 0x8000_0000 {
        low as i32
    } else {
        ((low as i64) - 0x1_0000_0000i64) as i32
    }
}

/// Appends every byte of `src` to `out`, in order.
fn push_all(out: &mut Vec<u8>, src: &[u8])
    ensures
        final(out)@ == old(out)@ + src@,
{
    let mut i: usize = 0;
    while i < src.len()
        invariant
            i <= src@.len(),
            out@ == old(out)@ + src@.subrange(0, i as int),
        decreases src@.len() - i,
    {
        out.push(src[i]);
        assert(out@ =~= old(out)@ + src@.subrange(0, i + 1));
        i = i + 1;
    }
    assert(out@ =~= old(out)@ + src@);
}

/// Encodes an echo message: nothing at all for empty content, else the
/// content as one length-delimited field.
pub fn encode_echo(m: &EchoMessage) -> (r: Vec<u8>)
    ensures
        r@ == echo_wire(m.content@),
{
    let mut out: Vec<u8> = Vec::new();
    if m.content.len() == 0 {
        return out;
    }
    out.push(0x0a);
    vint_push(m.content.len() as u64, &mut out);
    push_all(&mut out, m.content.as_slice());
    assert(out@ =~= echo_wire(m.content@));
    out
}

/// Decodes bytes as an echo message, exactly where `echo_parse` accepts them.
pub fn decode_echo(bytes: &[u8]) -> (r: Option<EchoMessage>)
    ensures
        match r {
            Some(m) => echo_parse(bytes@) == Some(m.content@),
            None => echo_parse(bytes@) is None,
        },
{
    if bytes.len() == 0 {
        return Some(EchoMessage { content: Vec::new() });
    }
    if bytes[0] != 0x0a {
        return None;
    }
    match vint_read(bytes, 1) {
        Some((v, end)) => {
            proof {
                lemma_parse_varint_bounds(bytes@, 1);
            }
            let rest: usize = bytes.len() - end;
            if v == rest as u64 {
                let mut content: Vec<u8> = Vec::new();
                let mut i: usize = end;
                while i < bytes.len()
                    invariant
                        end <= i <= bytes@.len(),
                        content@ == bytes@.subrange(end as int, i as int),
                    decreases bytes@.len() - i,
                {
                    content.push(bytes[i]);
                    assert(content@ =~= bytes@.subrange(end as int, i + 1));
                    i = i + 1;
                }
                Some(EchoMessage { content })
            } else {
                None
            }
        },
        None => None,
    }
}

/// Encodes an add request: each integer as a varint field, left out when it
/// is zero.
pub fn encode_add_request(m: &AddRequest) -> (r: Vec<u8>)
    ensures
        r@ == add_request_wire(m.a, m.b),
{
    let mut out: Vec<u8> = Vec::new();
    if m.a != 0 {
        out.push(0x08);
        vint_push(wire_of_i32(m.a), &mut out);
    }
    if m.b != 0 {
        out.push(0x10);
        vint_push(wire_of_i32(m.b), &mut out);
    }
    assert(out@ =~= add_request_wire(m.a, m.b));
    out
}

/// Decodes bytes as an add request, exactly where `add_request_parse`
/// accepts them.
pub fn decode_add_request(bytes: &[u8]) -> (r: Option<AddRequest>)
    ensures
        match r {
            Some(m) => add_request_parse(bytes@) == Some((m.a, m.b)),
            None => add_request_parse(bytes@) is None,
        },
{
    let mut pos: usize = 0;
    let mut a: i32 = 0;
    if bytes.len() > 0 && bytes[0] == 0x08 {
        match vint_read(bytes, 1) {
            Some((v, end)) => {
                proof {
                    lemma_parse_varint_bounds(bytes@, 1);
                }
                a = i32_of_wire(v);
                pos = end;
            },
            None => {
                return None;
            },
        }
    }
    if pos == bytes.len() {
        return Some(AddRequest { a, b: 0 });
    }
    if bytes[pos] != 0x10 {
        return None;
    }
    match vint_read(bytes, pos + 1) {
        Some((v, end)) => {
            if end == bytes.len() {
                Some(AddRequest { a, b: i32_of_wire(v) })
            } else {
                None
            }
        },
        None => None,
    }
}

/// Encodes an add response: the result as a varint field, or nothing when it
/// is zero.
pub fn encode_add_response(m: &AddResponse) -> (r: Vec<u8>)
    ensures
        r@ == add_response_wire(m.result),
{
    let mut out: Vec<u8> = Vec::new();
    if m.result != 0 {
        out.push(0x08);
        vint_push(wire_of_i32(m.result), &mut out);
    }
    assert(out@ =~= add_response_wire(m.result));
    out
}

/// Decodes bytes as an add response, exactly where `add_response_parse`
/// accepts them.
pub fn decode_add_response(bytes: &[u8]) -> (r: Option<AddResponse>)
    ensures
        match r {
            Some(m) => add_response_parse(bytes@) == Some(m.result),
            None => add_response_parse(bytes@) is None,
        },
{
    if bytes.len() == 0 {
        return Some(AddResponse { result: 0 });
    }
    if bytes[0] != 0x08 {
        return None;
    }
    match vint_read(bytes, 1) {
        Some((v, end)) => {
            if end == bytes.len() {
                Some(AddResponse { result: i32_of_wire(v) })
            } else {
                None
            }
        },
        None => None,
    }
}

/// Tries the known variants in their fixed priority order — echo first, then
/// the add request — and the first decode that succeeds wins. There is no
/// discriminant on the wire, so this order is part of the protocol.
pub fn decode_client_message(bytes: &[u8]) -> (r: Option<ClientMessage>)
    ensures
        match r {
            Some(ClientMessage::Echo(m)) => echo_parse(bytes@) == Some(m.content@),
            Some(ClientMessage::Add(m)) => echo_parse(bytes@) is None
                && add_request_parse(bytes@) == Some((m.a, m.b)),
            None => echo_parse(bytes@) is None && add_request_parse(bytes@) is None,
        },
{
    match decode_echo(bytes) {
        Some(m) => Some(ClientMessage::Echo(m)),
        None => match decode_add_request(bytes) {
            Some(m) => Some(ClientMessage::Add(m)),
            None => None,
        },
    }
}

/// The wire image of a 32-bit integer reads back as that integer.
pub proof fn lemma_int32_wire_round_trip(x: i32)
    ensures
        wire_to_int32(int32_wire(x)) == x,
{
    if x >= 0 {
        vstd::arithmetic::div_mod::lemma_small_mod(x as nat, 0x1_0000_0000);
    } else {
        let y = x + 0x1_0000_0000;
        vstd::arithmetic::div_mod::lemma_mod_multiples_vanish(
            0xFFFF_FFFF,
            y,
            0x1_0000_0000,
        );
        vstd::arithmetic::div_mod::lemma_small_mod(y as nat, 0x1_0000_0000);
        assert(int32_wire(x) == 0x1_0000_0000 * 0xFFFF_FFFF + y);
    }
}

/// Law: decoding an encoded echo message gives back its exact content.
pub proof fn lemma_echo_round_trip(c: Seq<u8>)
    requires
        c.len() < 0x1_0000_0000_0000_0000,
    ensures
        echo_parse(echo_wire(c)) == Some(c),
{
    if c.len() > 0 {
        let lenv = c.len() as u64;
        let w = varint(lenv);
        let s = echo_wire(c);
        assert(s == seq![0x0au8] + w + c);
        assert(s[0] == 0x0a);
        assert(s.subrange(1, 1 + w.len() as int) =~= w);
        lemma_parse_of_varint(s, 1, lenv);
        assert(s.len() - (1 + w.len() as int) == lenv);
        assert(s.subrange(1 + w.len() as int, s.len() as int) =~= c);
    }
}

/// Law: decoding an encoded add request gives back both addends — except for
/// the all-default request, whose encoding is empty and is claimed first by
/// the echo decode.
pub proof fn lemma_add_request_round_trip(a: i32, b: i32)
    ensures
        add_request_parse(add_request_wire(a, b)) == Some((a, b)),
{
    let s = add_request_wire(a, b);
    lemma_int32_wire_round_trip(a);
    lemma_int32_wire_round_trip(b);
    if a == 0 && b == 0 {
        assert(s.len() == 0);
    } else if a == 0 {
        let wb = varint(int32_wire(b));
        assert(s =~= seq![0x10u8] + wb);
        assert(s[0] == 0x10);
        assert(s.subrange(1, 1 + wb.len() as int) =~= wb);
        lemma_parse_of_varint(s, 1, int32_wire(b));
    } else {
        let wa = varint(int32_wire(a));
        assert(s.subrange(1, 1 + wa.len() as int) =~= wa);
        lemma_parse_of_varint(s, 1, int32_wire(a));
        let mid: int = 1 + wa.len() as int;
        if b == 0 {
            assert(s =~= seq![0x08u8] + wa);
            assert(mid == s.len());
        } else {
            let wb = varint(int32_wire(b));
            assert(s =~= seq![0x08u8] + wa + (seq![0x10u8] + wb));
            assert(s[mid] == 0x10);
            assert(s.subrange(mid + 1, mid + 1 + wb.len() as int) =~= wb);
            lemma_parse_of_varint(s, mid + 1, int32_wire(b));
            assert(mid + 1 + wb.len() as int == s.len());
        }
    }
}

/// Law: dispatch by first successful decode is unambiguous for this schema
/// everywhere but on the empty byte string. A nonempty echo encoding never
/// decodes as an add request, and the encoding of an add request with at
/// least one nonzero field never decodes as an echo: their first bytes are
/// distinct field keys.
pub proof fn lemma_dispatch_unambiguous(c: Seq<u8>, a: i32, b: i32)
    requires
        c.len() > 0,
        c.len() < 0x1_0000_0000_0000_0000,
        !(a == 0 && b == 0),
    ensures
        add_request_parse(echo_wire(c)) is None,
        echo_parse(add_request_wire(a, b)) is None,
{
    let e = echo_wire(c);
    assert(e[0] == 0x0a);
    let s = add_request_wire(a, b);
    assert(s.len() > 0);
    assert(s[0] != 0x0a);
}

/// Law: decoding an encoded add response gives back its result.
pub proof fn lemma_add_response_round_trip(r: i32)
    ensures
        add_response_parse(add_response_wire(r)) == Some(r),
{
    lemma_int32_wire_round_trip(r);
    if r != 0 {
        let w = varint(int32_wire(r));
        let s = add_response_wire(r);
        assert(s[0] == 0x08);
        assert(s.subrange(1, 1 + w.len() as int) =~= w);
        lemma_parse_of_varint(s, 1, int32_wire(r));
        assert(1 + w.len() as int == s.len());
    }
}

} // verus!
