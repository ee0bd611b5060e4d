//! Page buffers: the bytes a `BytesMut` holds, and the little-endian
//! encoding of 64-bit values within them.
use byteorder::{ByteOrder, LittleEndian};
use bytes::BytesMut;
use vstd::prelude::*;

verus! {

#[verifier::external_type_specification]
#[verifier::external_body]
pub struct ExBytesMut(BytesMut);

/// The bytes that a `BytesMut` buffer holds, in order.
pub uninterp spec fn page_contents(page: BytesMut) -> Seq<u8>;

/// The eight bytes of `v`, least significant first.
pub open spec fn le_bytes(v: u64) -> Seq<u8> {
    seq![
        v as u8,
        (v >> 8) as u8,
        (v >> 16) as u8,
        (v >> 24) as u8,
        (v >> 32) as u8,
        (v >> 40) as u8,
        (v >> 48) as u8,
        (v >> 56) as u8,
    ]
}

/// The 64-bit value whose bytes, least significant first, are the first
/// eight of `b`.
pub open spec fn le_u64(b: Seq<u8>) -> u64
    recommends
        b.len() >= 8,
{
    (b[0] as u64) | (b[1] as u64) << 8u64 | (b[2] as u64) << 16u64 | (b[3] as u64) << 24u64
        | (b[4] as u64) << 32u64 | (b[5] as u64) << 40u64 | (b[6] as u64) << 48u64
        | (b[7] as u64) << 56u64
}

/// Decoding the little-endian bytes of a value gives the value back.
pub proof fn lemma_le_u64_of_le_bytes(v: u64)
    ensures
        le_u64(le_bytes(v)) == v,
{
    let s = le_bytes(v);
    let (b0, b1, b2, b3) = (s[0] as u64, s[1] as u64, s[2] as u64, s[3] as u64);
    let (b4, b5, b6, b7) = (s[4] as u64, s[5] as u64, s[6] as u64, s[7] as u64);
    assert(b0 | b1 << 8u64 | b2 << 16u64 | b3 << 24u64 | b4 << 32u64 | b5 << 40u64 | b6 << 48u64
        | b7 << 56u64 == v) by (bit_vector)
        requires
            b0 == (v as u8) as u64,
            b1 == ((v >> 8) as u8) as u64,
            b2 == ((v >> 16) as u8) as u64,
            b3 == ((v >> 24) as u8) as u64,
            b4 == ((v >> 32) as u8) as u64,
            b5 == ((v >> 40) as u8) as u64,
            b6 == ((v >> 48) as u8) as u64,
            b7 == ((v >> 56) as u8) as u64,
    ;
}

/// Relies on `BytesMut`'s `Deref<Target = [u8]>`: indexing reads byte `i`.
#[verifier::external_body]
pub(crate) fn page_byte(page: &BytesMut, i: usize) -> (r: u8)
    requires
        i < page_contents(*page).len(),
    ensures
        r == page_contents(*page)[i as int],
{
    page[i]
}

/// Relies on `BytesMut`'s `DerefMut`: assigning through the index replaces
/// byte `i` and leaves the length and every other byte as they were.
#[verifier::external_body]
pub(crate) fn page_set_byte(page: &mut BytesMut, i: usize, v: u8)
    requires
        i < page_contents(*old(page)).len(),
    ensures
        page_contents(*final(page)) == page_contents(*old(page)).update(i as int, v),
{
    page[i] = v;
}

/// Relies on byteorder's `LittleEndian::write_u64`, given the buffer from
/// `begin` on: it overwrites `begin..begin + 8` with the little-endian bytes
/// of `n` and nothing else.
#[verifier::external_body]
pub(crate) fn page_write_u64_le(page: &mut BytesMut, begin: usize, n: u64)
    requires
        begin + 8 <= page_contents(*old(page)).len(),
    ensures
        page_contents(*final(page)) == page_contents(*old(page)).subrange(0, begin as int)
            + le_bytes(n) + page_contents(*old(page)).subrange(
            begin + 8,
            page_contents(*old(page)).len() as int,
        ),
{
    LittleEndian::write_u64(&mut page[begin..], n)
}

/// Relies on byteorder's `LittleEndian::read_u64`, given the buffer from
/// `begin` on: it decodes the eight bytes at `begin..begin + 8`, least
/// significant first.
#[verifier::external_body]
pub(crate) fn read_u64_le(buf: &[u8], begin: usize) -> (r: u64)
    requires
        begin + 8 <= buf@.len(),
    ensures
        r == le_u64(buf@.subrange(begin as int, begin + 8)),
{
    LittleEndian::read_u64(&buf[begin..])
}

} // verus!
