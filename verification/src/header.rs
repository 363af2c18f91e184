//! The fifteen bytes at the head of a store: its origin and how many
//! records follow.
use crate::endian::{
    bytes_of_u64, le_u64, lemma_le_u64_inverse, lemma_u64_le_inverse, read_u64, u64_le,
};
use crate::timestamp::{
    lemma_timestamp_decode_encode, lemma_timestamp_encode_decode, Timestamp, TIMESTAMP_SIZE,
};
use vstd::prelude::*;

verus! {

/// The number of bytes that a [`DbHeader`] takes.
pub const HEADER_SIZE: usize = 15;

/// The header of a DB file.
///
/// `origin_date` is the date that the time offsets of the records count
/// from: the store holds no record from before it. `records_number` is how
/// many records the store holds.
#[derive(Debug, Copy, Clone, PartialEq, Eq, Structural)]
pub struct DbHeader {
    pub origin_date: Timestamp,
    pub records_number: u64,
}

impl DbHeader {
    /// The fifteen bytes that stand for `self`: the origin date, then the
    /// number of records as a little-endian 64-bit number.
    pub open spec fn encode(self) -> Seq<u8> {
        self.origin_date.encode() + u64_le(self.records_number)
    }

    /// The header that the first fifteen bytes of `bytes` stand for.
    pub open spec fn decode(bytes: Seq<u8>) -> DbHeader
        recommends
            bytes.len() >= HEADER_SIZE,
    {
        DbHeader {
            origin_date: Timestamp::decode(bytes),
            records_number: le_u64(bytes.skip(TIMESTAMP_SIZE as int)),
        }
    }

    /// Reads a header from the first fifteen bytes of `d`.
    pub fn from_bytes(d: &[u8]) -> (h: DbHeader)
        requires
            d@.len() >= HEADER_SIZE,
        ensures
            h == DbHeader::decode(d@),
    {
        let timestamp = Timestamp::from_bytes(d);
        let count = &d[TIMESTAMP_SIZE..HEADER_SIZE];
        assert(le_u64(count@) == le_u64(d@.skip(TIMESTAMP_SIZE as int)));
        DbHeader { origin_date: timestamp, records_number: read_u64(count) }
    }

    /// The fifteen bytes that stand for `self`.
    pub fn as_bytes(&self) -> (store: Vec<u8>)
        ensures
            store@ == self.encode(),
            store@.len() == HEADER_SIZE,
    {
        let mut store = self.origin_date.as_bytes();
        let mut count = bytes_of_u64(self.records_number);
        store.append(&mut count);
        store
    }
}

/// Decoding the bytes of a header gives the header back.
pub proof fn lemma_header_decode_encode(h: DbHeader)
    ensures
        h.encode().len() == HEADER_SIZE,
        DbHeader::decode(h.encode()) == h,
{
    lemma_timestamp_decode_encode(h.origin_date);
    lemma_u64_le_inverse(h.records_number);
    assert(h.encode().skip(7) =~= u64_le(h.records_number));
}

/// Encoding the header that fifteen bytes stand for gives the fifteen bytes
/// back.
pub proof fn lemma_header_encode_decode(bytes: Seq<u8>)
    requires
        bytes.len() == HEADER_SIZE,
    ensures
        DbHeader::decode(bytes).encode() == bytes,
{
    lemma_timestamp_encode_decode(bytes.subrange(0, 7));
    lemma_le_u64_inverse(bytes.skip(7));
    assert(Timestamp::decode(bytes) == Timestamp::decode(bytes.subrange(0, 7)));
    assert(DbHeader::decode(bytes).encode() =~= bytes);
}

} // verus!
