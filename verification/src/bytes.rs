//! Big-endian encoding and decoding of the fixed-width integers that make up the wire format.
use vstd::prelude::*;

verus! {

/// The two big-endian bytes of `v`.
pub open spec fn be16(v: u16) -> Seq<u8> {
    seq![(v >> 8u16) as u8, (v & 0xffu16) as u8]
}

/// The four big-endian bytes of `v`.
pub open spec fn be32(v: u32) -> Seq<u8> {
    seq![
        (v >> 24u32) as u8,
        ((v >> 16u32) & 0xffu32) as u8,
        ((v >> 8u32) & 0xffu32) as u8,
        (v & 0xffu32) as u8,
    ]
}

/// The value of the first two bytes of `s`, read as a big-endian integer.
pub open spec fn from_be16(s: Seq<u8>) -> u16 {
    ((s[0] as u16) << 8u16) | (s[1] as u16)
}

/// The value of the first four bytes of `s`, read as a big-endian integer.
pub open spec fn from_be32(s: Seq<u8>) -> u32 {
    ((s[0] as u32) << 24u32) | ((s[1] as u32) << 16u32) | ((s[2] as u32) << 8u32) | (s[3] as u32)
}

/// Reading back the bytes of a 16-bit value gives the value.
pub broadcast proof fn lemma_be16_roundtrip(v: u16)
    ensures
        #[trigger] from_be16(be16(v)) == v,
{
    let b0 = (v >> 8u16) as u8;
    let b1 = (v & 0xffu16) as u8;
    assert(((v >> 8u16) as u8) as u16 == v >> 8u16) by (bit_vector);
    assert(((v & 0xffu16) as u8) as u16 == v & 0xffu16) by (bit_vector);
    assert((((v >> 8u16) << 8u16) | (v & 0xffu16)) == v) by (bit_vector);
}

/// Reading back the bytes of a 32-bit value gives the value.
pub broadcast proof fn lemma_be32_roundtrip(v: u32)
    ensures
        #[trigger] from_be32(be32(v)) == v,
{
    assert(((v >> 24u32) as u8) as u32 == v >> 24u32) by (bit_vector);
    assert((((v >> 16u32) & 0xffu32) as u8) as u32 == (v >> 16u32) & 0xffu32) by (bit_vector);
    assert((((v >> 8u32) & 0xffu32) as u8) as u32 == (v >> 8u32) & 0xffu32) by (bit_vector);
    assert(((v & 0xffu32) as u8) as u32 == v & 0xffu32) by (bit_vector);
    assert(((v >> 24u32) << 24u32) | (((v >> 16u32) & 0xffu32) << 16u32) | (((v >> 8u32)
        & 0xffu32) << 8u32) | (v & 0xffu32) == v) by (bit_vector);
}

/// Appends the big-endian bytes of `v` to `out`.
pub fn push_be16(out: &mut Vec<u8>, v: u16)
    ensures
        final(out)@ == old(out)@ + be16(v),
{
    out.push((v >> 8u16) as u8);
    out.push((v & 0xffu16) as u8);
    assert(final(out)@ =~= old(out)@ + be16(v));
}

/// Appends the big-endian bytes of `v` to `out`.
pub fn push_be32(out: &mut Vec<u8>, v: u32)
    ensures
        final(out)@ == old(out)@ + be32(v),
{
    out.push((v >> 24u32) as u8);
    out.push(((v >> 16u32) & 0xffu32) as u8);
    out.push(((v >> 8u32) & 0xffu32) as u8);
    out.push((v & 0xffu32) as u8);
    assert(final(out)@ =~= old(out)@ + be32(v));
}

/// Reads the big-endian 16-bit value stored at `buf[pos..pos + 2]`.
pub fn read_be16(buf: &[u8], pos: usize) -> (r: u16)
    requires
        pos + 2 <= buf@.len(),
    ensures
        r == from_be16(buf@.subrange(pos as int, pos + 2)),
{
    ((buf[pos] as u16) << 8u16) | (buf[pos + 1] as u16)
}

/// Reads the big-endian 32-bit value stored at `buf[pos..pos + 4]`.
pub fn read_be32(buf: &[u8], pos: usize) -> (r: u32)
    requires
        pos + 4 <= buf@.len(),
    ensures
        r == from_be32(buf@.subrange(pos as int, pos + 4)),
{
    ((buf[pos] as u32) << 24u32) | ((buf[pos + 1] as u32) << 16u32) | ((buf[pos + 2] as u32)
        << 8u32) | (buf[pos + 3] as u32)
}

} // verus!
