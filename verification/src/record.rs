//! One entry of the store in five bytes: when, and what value.
use crate::endian::{le_u32, lemma_le_u32_inverse, lemma_u32_le_inverse, read_u32, u32_le, write_u32};
use core::cmp::Ordering;
use vstd::prelude::*;
use vstd::std_specs::cmp::PartialOrdSpecImpl;

verus! {

/// The number of bytes that a [`RecordInfo`] takes.
pub const RECORD_SIZE: usize = 5;

/// Represent an entry in the database.
///
/// `time_offset` is the number of seconds passed since the origin date of
/// the store: a `u32`, so records reach up to 136 years after that date.
/// Records are ordered by `time_offset` alone.
#[derive(Debug, Copy, Clone, PartialEq, Eq, Structural)]
pub struct RecordInfo {
    pub time_offset: u32,
    pub value: u8,
}

impl RecordInfo {
    /// The five bytes that stand for `self`: the time offset as a
    /// little-endian 32-bit number, then the value.
    pub open spec fn encode(self) -> Seq<u8> {
        u32_le(self.time_offset) + seq![self.value]
    }

    /// The record that the first five bytes of `bytes` stand for.
    pub open spec fn decode(bytes: Seq<u8>) -> RecordInfo
        recommends
            bytes.len() >= RECORD_SIZE,
    {
        RecordInfo { time_offset: le_u32(bytes), value: bytes[4] }
    }

    /// Reads a record from the first five bytes of `d`.
    pub fn from_bytes(d: &[u8]) -> (r: RecordInfo)
        requires
            d@.len() >= RECORD_SIZE,
        ensures
            r == RecordInfo::decode(d@),
    {
        RecordInfo { time_offset: read_u32(d), value: d[4] }
    }

    /// The five bytes that stand for `self`.
    pub fn as_bytes(&self) -> (store: Vec<u8>)
        ensures
            store@ == self.encode(),
            store@.len() == RECORD_SIZE,
    {
        let mut store: Vec<u8> = vec![0u8; RECORD_SIZE];
        write_u32(store.as_mut_slice(), self.time_offset);
        store[4] = self.value;
        assert(store@ =~= self.encode());
        store
    }
}

/// Whether no record of the sequence is earlier than one before it.
pub open spec fn sorted_by_time(records: Seq<RecordInfo>) -> bool {
    forall|i: int, j: int|
        0 <= i <= j < records.len() ==> records[i].time_offset <= records[j].time_offset
}

/// `sort_unstable_by_key` of the standard library, with the time offset as
/// the key: afterwards the records stand in ascending order of time offset,
/// and they are the records that stood there before, each as often as before.
/// Which of two records with one time offset comes first is left open.
#[verifier::external_body]
pub(crate) fn sort_by_time(records: &mut Vec<RecordInfo>)
    ensures
        sorted_by_time(final(records)@),
        final(records)@.to_multiset() == old(records)@.to_multiset(),
{
    records.sort_unstable_by_key(|r| r.time_offset)
}

impl PartialOrd for RecordInfo {
    fn partial_cmp(&self, other: &RecordInfo) -> (r: Option<Ordering>) {
        if self.time_offset < other.time_offset {
            Some(Ordering::Less)
        } else if self.time_offset == other.time_offset {
            Some(Ordering::Equal)
        } else {
            Some(Ordering::Greater)
        }
    }
}

impl PartialOrdSpecImpl for RecordInfo {
    open spec fn obeys_partial_cmp_spec() -> bool {
        true
    }

    open spec fn partial_cmp_spec(&self, other: &RecordInfo) -> Option<Ordering> {
        if self.time_offset < other.time_offset {
            Some(Ordering::Less)
        } else if self.time_offset == other.time_offset {
            Some(Ordering::Equal)
        } else {
            Some(Ordering::Greater)
        }
    }
}

/// Decoding the bytes of a record gives the record back.
pub proof fn lemma_record_decode_encode(r: RecordInfo)
    ensures
        r.encode().len() == RECORD_SIZE,
        RecordInfo::decode(r.encode()) == r,
{
    lemma_u32_le_inverse(r.time_offset);
}

/// Encoding the record that five bytes stand for gives the five bytes back.
pub proof fn lemma_record_encode_decode(bytes: Seq<u8>)
    requires
        bytes.len() == RECORD_SIZE,
    ensures
        RecordInfo::decode(bytes).encode() == bytes,
{
    lemma_le_u32_inverse(bytes.subrange(0, 4));
    assert(RecordInfo::decode(bytes).encode() =~= bytes);
}

} // verus!
