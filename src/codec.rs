//! The fixed 8-byte header that precedes every frame: a little-endian
//! operation tag followed by a little-endian payload length.
use crate::error::RichPresenceError;
use vstd::prelude::*;

verus! {

/// The four little-endian bytes of `x`.
pub open spec fn le_bytes(x: u32) -> Seq<u8> {
    seq![(x & 0xff) as u8, ((x >> 8u32) & 0xff) as u8, ((x >> 16u32) & 0xff) as u8, ((x >> 24u32) & 0xff) as u8]
}

/// The number whose little-endian bytes are `b[0..4]`.
pub open spec fn le_value(b: Seq<u8>) -> u32
    recommends
        b.len() == 4,
{
    (b[0] as u32) | ((b[1] as u32) << 8u32) | ((b[2] as u32) << 16u32) | ((b[3] as u32) << 24u32)
}

/// The header of a frame with operation tag `tag` and a payload of `length` bytes.
pub open spec fn header_bytes(tag: u32, length: u32) -> Seq<u8> {
    le_bytes(tag) + le_bytes(length)
}

/// What decoding `b` as a header gives: the tag and the length, or an error
/// when `b` is not exactly eight bytes long.
pub open spec fn unpack_spec(b: Seq<u8>) -> Result<(u32, u32), RichPresenceError> {
    if b.len() == 8 {
        Ok((le_value(b.subrange(0, 4)), le_value(b.subrange(4, 8))))
    } else {
        Err(RichPresenceError::RecvInvalidPacket)
    }
}

fn push_le(out: &mut Vec<u8>, x: u32)
    ensures
        final(out)@ == old(out)@ + le_bytes(x),
{
    out.push((x & 0xff) as u8);
    out.push(((x >> 8u32) & 0xff) as u8);
    out.push(((x >> 16u32) & 0xff) as u8);
    out.push(((x >> 24u32) & 0xff) as u8);
    assert(final(out)@ =~= old(out)@ + le_bytes(x));
}

fn read_le(b: &[u8], at: usize) -> (r: u32)
    requires
        at + 4 <= b@.len(),
    ensures
        r == le_value(b@.subrange(at as int, at + 4)),
{
    (b[at] as u32) | ((b[at + 1] as u32) << 8u32) | ((b[at + 2] as u32) << 16u32) | ((b[at + 3]
        as u32) << 24u32)
}

/// Encodes a frame header: the tag, then the length, both little-endian.
pub fn pack(tag: u32, length: u32) -> (r: Vec<u8>)
    ensures
        r@ == header_bytes(tag, length),
        r@.len() == 8,
{
    let mut out: Vec<u8> = Vec::new();
    push_le(&mut out, tag);
    push_le(&mut out, length);
    assert(out@ =~= header_bytes(tag, length));
    out
}

/// Decodes a frame header into its tag and length.
pub fn unpack(bytes: &[u8]) -> (r: Result<(u32, u32), RichPresenceError>)
    ensures
        r == unpack_spec(bytes@),
{
    if bytes.len() != 8 {
        return Err(RichPresenceError::RecvInvalidPacket);
    }
    let tag = read_le(bytes, 0);
    let length = read_le(bytes, 4);
    Ok((tag, length))
}

/// Reading back the little-endian bytes of a number gives the number.
pub proof fn lemma_le_round_trip(x: u32)
    ensures
        le_bytes(x).len() == 4,
        le_value(le_bytes(x)) == x,
{
    let b = le_bytes(x);
    assert(b[0] == (x & 0xff) as u8);
    assert(b[1] == ((x >> 8u32) & 0xff) as u8);
    assert(b[2] == ((x >> 16u32) & 0xff) as u8);
    assert(b[3] == ((x >> 24u32) & 0xff) as u8);
    assert((((x & 0xff) as u8) as u32) | ((((x >> 8u32) & 0xff) as u8 as u32) << 8u32) | ((((x
        >> 16u32) & 0xff) as u8 as u32) << 16u32) | ((((x >> 24u32) & 0xff) as u8 as u32) << 24u32)
        == x) by (bit_vector);
}

/// Decoding an encoded header gives back its tag and length, and every
/// encoded header is eight bytes long.
pub proof fn lemma_pack_unpack(tag: u32, length: u32)
    ensures
        header_bytes(tag, length).len() == 8,
        unpack_spec(header_bytes(tag, length)) == Ok::<(u32, u32), RichPresenceError>((tag, length)),
{
    lemma_le_round_trip(tag);
    lemma_le_round_trip(length);
    let h = header_bytes(tag, length);
    assert(h.subrange(0, 4) =~= le_bytes(tag));
    assert(h.subrange(4, 8) =~= le_bytes(length));
}

} // verus!
