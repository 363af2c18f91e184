//! Little-endian integers as byte sequences.
//!
//! The spec functions say which bytes stand for which number; the executable
//! functions hand the work to `byteorder` and state what it does over them.
use byteorder::{ByteOrder, LittleEndian};
use vstd::prelude::*;

verus! {

/// The two bytes of `n`, least significant first.
pub open spec fn u16_le(n: u16) -> Seq<u8> {
    seq![(n % 256) as u8, (n / 256) as u8]
}

/// The number that the first two bytes of `bytes` stand for.
pub open spec fn le_u16(bytes: Seq<u8>) -> u16
    recommends
        bytes.len() >= 2,
{
    (bytes[0] + 256 * bytes[1]) as u16
}

/// The four bytes of `n`, least significant first.
pub open spec fn u32_le(n: u32) -> Seq<u8> {
    seq![
        (n % 256) as u8,
        (n / 256 % 256) as u8,
        (n / 65536 % 256) as u8,
        (n / 16777216) as u8,
    ]
}

/// The number that the first four bytes of `bytes` stand for.
pub open spec fn le_u32(bytes: Seq<u8>) -> u32
    recommends
        bytes.len() >= 4,
{
    (bytes[0] + 256 * bytes[1] + 65536 * bytes[2] + 16777216 * bytes[3]) as u32
}

/// The eight bytes of `n`, least significant first.
pub open spec fn u64_le(n: u64) -> Seq<u8> {
    seq![
        (n % 256) as u8,
        (n / 256 % 256) as u8,
        (n / 65536 % 256) as u8,
        (n / 16777216 % 256) as u8,
        (n / 4294967296 % 256) as u8,
        (n / 1099511627776 % 256) as u8,
        (n / 281474976710656 % 256) as u8,
        (n / 72057594037927936) as u8,
    ]
}

/// The number that the first eight bytes of `bytes` stand for.
pub open spec fn le_u64(bytes: Seq<u8>) -> u64
    recommends
        bytes.len() >= 8,
{
    (bytes[0] + 256 * bytes[1] + 65536 * bytes[2] + 16777216 * bytes[3] + 4294967296 * bytes[4]
        + 1099511627776 * bytes[5] + 281474976710656 * bytes[6] + 72057594037927936 * bytes[7]) as u64
}

/// Reading back the bytes of a number gives the number.
pub proof fn lemma_u16_le_inverse(n: u16)
    ensures
        u16_le(n).len() == 2,
        le_u16(u16_le(n)) == n,
{
}

/// Writing out the number that two bytes stand for gives the two bytes.
pub proof fn lemma_le_u16_inverse(bytes: Seq<u8>)
    requires
        bytes.len() == 2,
    ensures
        u16_le(le_u16(bytes)) == bytes,
{
    assert(u16_le(le_u16(bytes)) =~= bytes);
}

/// Reading back the bytes of a number gives the number.
pub proof fn lemma_u32_le_inverse(n: u32)
    ensures
        u32_le(n).len() == 4,
        le_u32(u32_le(n)) == n,
{
    assert(n == n % 256 + 256 * (n / 256 % 256) + 65536 * (n / 65536 % 256) + 16777216 * (n
        / 16777216)) by (bit_vector);
}

/// Writing out the number that four bytes stand for gives the four bytes.
pub proof fn lemma_le_u32_inverse(bytes: Seq<u8>)
    requires
        bytes.len() == 4,
    ensures
        u32_le(le_u32(bytes)) == bytes,
{
    let (b0, b1, b2, b3) = (bytes[0], bytes[1], bytes[2], bytes[3]);
    let n = le_u32(bytes);
    assert(n == b0 + 256 * b1 + 65536 * b2 + 16777216 * b3);
    assert(n % 256 == b0 && n / 256 % 256 == b1 && n / 65536 % 256 == b2 && n / 16777216 == b3)
        by (bit_vector)
        requires
            n == b0 + 256 * b1 + 65536 * b2 + 16777216 * b3,
    ;
    assert(u32_le(n) =~= bytes);
}

/// Reading back the bytes of a number gives the number.
pub proof fn lemma_u64_le_inverse(n: u64)
    ensures
        u64_le(n).len() == 8,
        le_u64(u64_le(n)) == n,
{
    assert(n == n % 256 + 256 * (n / 256 % 256) + 65536 * (n / 65536 % 256) + 16777216 * (n
        / 16777216 % 256) + 4294967296 * (n / 4294967296 % 256) + 1099511627776 * (n
        / 1099511627776 % 256) + 281474976710656 * (n / 281474976710656 % 256)
        + 72057594037927936 * (n / 72057594037927936)) by (bit_vector);
}

/// Writing out the number that eight bytes stand for gives the eight bytes.
pub proof fn lemma_le_u64_inverse(bytes: Seq<u8>)
    requires
        bytes.len() == 8,
    ensures
        u64_le(le_u64(bytes)) == bytes,
{
    let (b0, b1, b2, b3) = (bytes[0], bytes[1], bytes[2], bytes[3]);
    let (b4, b5, b6, b7) = (bytes[4], bytes[5], bytes[6], bytes[7]);
    let n = le_u64(bytes);
    assert(n == b0 + 256 * b1 + 65536 * b2 + 16777216 * b3 + 4294967296 * b4 + 1099511627776 * b5
        + 281474976710656 * b6 + 72057594037927936 * b7);
    assert(n % 256 == b0 && n / 256 % 256 == b1 && n / 65536 % 256 == b2 && n / 16777216 % 256
        == b3 && n / 4294967296 % 256 == b4 && n / 1099511627776 % 256 == b5 && n
        / 281474976710656 % 256 == b6 && n / 72057594037927936 == b7) by (bit_vector)
        requires
            n == b0 + 256 * b1 + 65536 * b2 + 16777216 * b3 + 4294967296 * b4 + 1099511627776
                * b5 + 281474976710656 * b6 + 72057594037927936 * b7,
    ;
    assert(u64_le(n) =~= bytes);
}

/// `byteorder`'s `LittleEndian::read_u16`: the first two bytes of `buf`
/// read as a little-endian number. The outside function panics on a
/// buffer shorter than two bytes, which `requires` leaves out.
#[verifier::external_body]
pub(crate) fn read_u16(buf: &[u8]) -> (n: u16)
    requires
        buf@.len() >= 2,
    ensures
        n == le_u16(buf@),
{
    LittleEndian::read_u16(buf)
}

/// `byteorder`'s `LittleEndian::read_u32`: the first four bytes of `buf`
/// read as a little-endian number. The outside function panics on a
/// buffer shorter than four bytes, which `requires` leaves out.
#[verifier::external_body]
pub(crate) fn read_u32(buf: &[u8]) -> (n: u32)
    requires
        buf@.len() >= 4,
    ensures
        n == le_u32(buf@),
{
    LittleEndian::read_u32(buf)
}

/// `byteorder`'s `LittleEndian::read_u64`: the first eight bytes of `buf`
/// read as a little-endian number. The outside function panics on a
/// buffer shorter than eight bytes, which `requires` leaves out.
#[verifier::external_body]
pub(crate) fn read_u64(buf: &[u8]) -> (n: u64)
    requires
        buf@.len() >= 8,
    ensures
        n == le_u64(buf@),
{
    LittleEndian::read_u64(buf)
}

/// `byteorder`'s `LittleEndian::write_u16`: the first two bytes of `buf`
/// become the little-endian bytes of `n`, the rest of `buf` stays. The
/// outside function panics on a buffer shorter than two bytes, which
/// `requires` leaves out.
#[verifier::external_body]
pub(crate) fn write_u16(buf: &mut [u8], n: u16)
    requires
        old(buf)@.len() >= 2,
    ensures
        final(buf)@ == u16_le(n) + old(buf)@.skip(2),
{
    LittleEndian::write_u16(buf, n)
}

/// `byteorder`'s `LittleEndian::write_u32`: the first four bytes of `buf`
/// become the little-endian bytes of `n`, the rest of `buf` stays. The
/// outside function panics on a buffer shorter than four bytes, which
/// `requires` leaves out.
#[verifier::external_body]
pub(crate) fn write_u32(buf: &mut [u8], n: u32)
    requires
        old(buf)@.len() >= 4,
    ensures
        final(buf)@ == u32_le(n) + old(buf)@.skip(4),
{
    LittleEndian::write_u32(buf, n)
}

/// `byteorder`'s `LittleEndian::write_u64`: the first eight bytes of `buf`
/// become the little-endian bytes of `n`, the rest of `buf` stays. The
/// outside function panics on a buffer shorter than eight bytes, which
/// `requires` leaves out.
#[verifier::external_body]
pub(crate) fn write_u64(buf: &mut [u8], n: u64)
    requires
        old(buf)@.len() >= 8,
    ensures
        final(buf)@ == u64_le(n) + old(buf)@.skip(8),
{
    LittleEndian::write_u64(buf, n)
}

/// The eight bytes of `n`, least significant first.
pub fn bytes_of_u64(n: u64) -> (bytes: Vec<u8>)
    ensures
        bytes@ == u64_le(n),
{
    let mut bytes: Vec<u8> = vec![0u8; 8];
    write_u64(bytes.as_mut_slice(), n);
    assert(bytes@ =~= u64_le(n));
    bytes
}

} // verus!
