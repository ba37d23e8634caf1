//! Base-128 varints, the primitive of the wire format.
//!
//! The canonical encoding of a value is described by `varint`; what the
//! decoder accepts (which includes non-canonical encodings such as
//! `[0x80, 0x00]` for zero) is described by `parse_varint`.

use vstd::prelude::*;

verus! {

/// Canonical LEB128 encoding of a 64-bit value: little-endian base-128
/// digits, every byte but the last carrying the continuation bit.
pub open spec fn varint(n: u64) -> Seq<u8>
    decreases n,
{
    if n < 0x80 {
        seq![n as u8]
    } else {
        seq![(n % 0x80 + 0x80) as u8] + varint(n / 0x80)
    }
}

/// The varint parse at position `pos` of `s`: the decoded value and the
/// position just past the last byte read, or `None` where no varint of at
/// most ten bytes with a value that fits in 64 bits starts there.
///
/// The bound on `hi` — the value carried by the bytes after the first —
/// makes the recombined value fit: the low seven bits plus `0x80 * hi`
/// stays under two to the 64th exactly when `hi` is under two to the 57th.
/// For a ten-byte varint that is the familiar rule that the tenth byte may
/// be at most 1; for anything shorter it holds of itself.
pub open spec fn parse_varint(s: Seq<u8>, pos: int) -> Option<(u64, int)>
    decreases s.len() - pos,
{
    if pos < 0 || pos >= s.len() {
        None
    } else if s[pos] < 0x80 {
        Some((s[pos] as u64, pos + 1))
    } else {
        match parse_varint(s, pos + 1) {
            Some((hi, end)) => {
                if end - pos <= 10 && hi < 0x200_0000_0000_0000 {
                    Some((((s[pos] - 0x80) + 0x80 * hi) as u64, end))
                } else {
                    None
                }
            },
            None => None,
        }
    }
}

/// The canonical encoding is one to ten bytes long, shorter for smaller
/// values.
pub proof fn lemma_varint_len(v: u64)
    ensures
        1 <= varint(v).len() <= 10,
        v < 0x80 ==> varint(v).len() == 1,
        v < 0x4000 ==> varint(v).len() <= 2,
        v < 0x20_0000 ==> varint(v).len() <= 3,
        v < 0x1000_0000 ==> varint(v).len() <= 4,
        v < 0x8_0000_0000 ==> varint(v).len() <= 5,
        v < 0x400_0000_0000 ==> varint(v).len() <= 6,
        v < 0x2_0000_0000_0000 ==> varint(v).len() <= 7,
        v < 0x100_0000_0000_0000 ==> varint(v).len() <= 8,
        v < 0x8000_0000_0000_0000 ==> varint(v).len() <= 9,
    decreases v,
{
    if v >= 0x80 {
        lemma_varint_len(v / 0x80);
    }
}

/// A successful parse reads at least one byte and stays inside the sequence.
pub proof fn lemma_parse_varint_bounds(s: Seq<u8>, pos: int)
    requires
        parse_varint(s, pos) is Some,
    ensures
        pos < parse_varint(s, pos).unwrap().1 <= s.len(),
    decreases s.len() - pos,
{
    if 0 <= pos < s.len() && s[pos] >= 0x80 {
        lemma_parse_varint_bounds(s, pos + 1);
    }
}

/// A canonical encoding embedded in a larger sequence parses back to the
/// value it encodes, whatever follows it.
pub proof fn lemma_parse_of_varint(s: Seq<u8>, pos: int, v: u64)
    requires
        0 <= pos,
        pos + varint(v).len() <= s.len(),
        s.subrange(pos, pos + varint(v).len()) == varint(v),
    ensures
        parse_varint(s, pos) == Some((v, pos + varint(v).len())),
    decreases v,
{
    lemma_varint_len(v);
    let w = varint(v);
    assert(s[pos] == s.subrange(pos, pos + w.len())[0]);
    if v < 0x80 {
        assert(s[pos] == v as u8);
    } else {
        let tail = varint(v / 0x80);
        assert(s[pos] == (v % 0x80 + 0x80) as u8);
        assert(s.subrange(pos + 1, pos + 1 + tail.len()) =~= tail) by {
            assert(forall|i: int|
                0 <= i < tail.len() ==> s.subrange(pos, pos + w.len())[i + 1] == tail[i]);
        }
        lemma_parse_of_varint(s, pos + 1, v / 0x80);
        assert(v / 0x80 < 0x200_0000_0000_0000);
        vstd::arithmetic::div_mod::lemma_fundamental_div_mod(v as int, 0x80);
        assert((s[pos] - 0x80) + 0x80 * (v / 0x80) == v);
    }
}

/// Relies on prost::encoding::encode_varint: appends the canonical LEB128
/// bytes of the value to the buffer.
#[verifier::external_body]
pub(crate) fn vint_push(v: u64, out: &mut Vec<u8>)
    ensures
        final(out)@ == old(out)@ + varint(v),
{
    prost::encoding::encode_varint(v, out);
}

/// Relies on prost::encoding::decode_varint: reads one varint from position
/// `pos` of the slice and reports the value with the position just past it.
/// It fails exactly where `parse_varint` does: no byte without the
/// continuation bit within reach, more than ten bytes, or a tenth byte above
/// 1 — the overflow rule its decoder applies on both its fast and slow
/// paths.
#[verifier::external_body]
pub(crate) fn vint_read(b: &[u8], pos: usize) -> (r: Option<(u64, usize)>)
    requires
        pos <= b@.len(),
    ensures
        match r {
            Some(p) => parse_varint(b@, pos as int) == Some((p.0, p.1 as int)),
            None => parse_varint(b@, pos as int) is None,
        },
{
    let mut rest: &[u8] = &b[pos..];
    match prost::encoding::decode_varint(&mut rest) {
        Ok(v) => Some((v, b.len() - rest.len())),
        Err(_) => None,
    }
}

} // verus!
