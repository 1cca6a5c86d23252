//! Network byte order: writing and reading 16- and 32-bit fields, and the
//! hand-off of an encoded packet to a `bytes::BytesMut` buffer.

use bytes::BytesMut;
use vstd::prelude::*;

verus! {

/// The two octets of `v`, most significant first.
pub open spec fn be16(v: u16) -> Seq<u8> {
    seq![(v / 256) as u8, (v % 256) as u8]
}

/// The four octets of `v`, most significant first.
pub open spec fn be32(v: u32) -> Seq<u8> {
    seq![
        (v / 0x100_0000) as u8,
        ((v / 0x1_0000) % 256) as u8,
        ((v / 256) % 256) as u8,
        (v % 256) as u8,
    ]
}

/// The 16-bit big-endian value of the octets of `s` at `i` and `i + 1`.
pub open spec fn read_be16(s: Seq<u8>, i: int) -> u16 {
    (s[i] as int * 256 + s[i + 1] as int) as u16
}

/// The 32-bit big-endian value of the octets of `s` at `i .. i + 4`.
pub open spec fn read_be32(s: Seq<u8>, i: int) -> u32 {
    (s[i] as int * 0x100_0000 + s[i + 1] as int * 0x1_0000 + s[i + 2] as int * 256
        + s[i + 3] as int) as u32
}

/// Appends one octet.
pub fn put_u8(buf: &mut Vec<u8>, v: u8)
    ensures
        final(buf)@ == old(buf)@.push(v),
{
    buf.push(v);
}

/// Appends `v` in network byte order.
pub fn put_u16(buf: &mut Vec<u8>, v: u16)
    ensures
        final(buf)@ == old(buf)@ + be16(v),
{
    buf.push((v / 256) as u8);
    buf.push((v % 256) as u8);
    assert(buf@ =~= old(buf)@ + be16(v));
}

/// Appends `v` in network byte order.
pub fn put_u32(buf: &mut Vec<u8>, v: u32)
    ensures
        final(buf)@ == old(buf)@ + be32(v),
{
    buf.push((v / 0x100_0000) as u8);
    buf.push(((v / 0x1_0000) % 256) as u8);
    buf.push(((v / 256) % 256) as u8);
    buf.push((v % 256) as u8);
    assert(buf@ =~= old(buf)@ + be32(v));
}

/// Appends the octets of `s`, in order.
pub fn put_slice(buf: &mut Vec<u8>, s: &[u8])
    ensures
        final(buf)@ == old(buf)@ + s@,
{
    let mut i: usize = 0;
    while i < s.len()
        invariant
            i <= s@.len(),
            buf@ == old(buf)@ + s@.take(i as int),
        decreases s@.len() - i,
    {
        buf.push(s[i]);
        i = i + 1;
        assert(s@.take(i as int) =~= s@.take(i - 1).push(s@[i - 1]));
    }
    assert(s@.take(s@.len() as int) =~= s@);
}

/// Reads the 16-bit big-endian field at `i`.
pub fn get_u16(data: &[u8], i: usize) -> (v: u16)
    requires
        i + 1 < data@.len(),
    ensures
        v == read_be16(data@, i as int),
{
    (data[i] as u16) * 256 + (data[i + 1] as u16)
}

/// Reads the 32-bit big-endian field at `i`.
pub fn get_u32(data: &[u8], i: usize) -> (v: u32)
    requires
        i + 3 < data@.len(),
    ensures
        v == read_be32(data@, i as int),
{
    (data[i] as u32) * 0x100_0000 + (data[i + 1] as u32) * 0x1_0000 + (data[i + 2] as u32) * 256
        + (data[i + 3] as u32)
}

/// Makes `bytes::BytesMut` known to Verus, as an opaque type.
#[verifier::external_type_specification]
#[verifier::external_body]
pub struct ExBytesMut(BytesMut);

/// The octets held by a `BytesMut` buffer.
pub uninterp spec fn bytes_mut_octets(b: BytesMut) -> Seq<u8>;

/// `BytesMut::from(&[u8])`: a buffer holding a copy of `s`.
#[verifier::external_body]
pub(crate) fn bytes_mut_from_slice(s: &[u8]) -> (b: BytesMut)
    ensures
        bytes_mut_octets(b) == s@,
{
    BytesMut::from(s)
}

} // verus!
