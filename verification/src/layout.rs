//! Where things stand in the file, and what the file is worth as a store.
//!
//! ```text
//! offset 0..7   origin date     (u16 year, then month, day, hour, minute, second)
//! offset 7..15  number of records  (u64)
//! offset 15..   the records, five bytes each  (u32 time offset, u8 value)
//! ```
use crate::endian::u64_le;
use crate::header::{DbHeader, HEADER_SIZE};
use crate::image::write_at;
use crate::issue::DbIssue;
use crate::record::{RecordInfo, RECORD_SIZE};
use vstd::prelude::*;

verus! {

/// Where the number of records stands in the file: behind the origin date.
pub const COUNT_POSITION: usize = 7;

/// Where record `index` starts in the file.
pub open spec fn record_position(index: int) -> int {
    HEADER_SIZE + RECORD_SIZE * index
}

/// Whether the file is long enough to hold a header.
pub open spec fn holds_header(file: Seq<u8>) -> bool {
    file.len() >= HEADER_SIZE
}

/// The header that the file starts with.
pub open spec fn header_of(file: Seq<u8>) -> DbHeader
    recommends
        holds_header(file),
{
    DbHeader::decode(file.subrange(0, HEADER_SIZE as int))
}

/// Whether the file is long enough to hold all of record `index`.
pub open spec fn holds_record(file: Seq<u8>, index: int) -> bool {
    0 <= index && record_position(index) + RECORD_SIZE <= file.len()
}

/// Whether the file is long enough to hold all of its first `count` records.
pub open spec fn holds_records(file: Seq<u8>, count: int) -> bool {
    count <= 0 || record_position(count) <= file.len()
}

/// The record that stands at `index`.
pub open spec fn record_of(file: Seq<u8>, index: int) -> RecordInfo
    recommends
        holds_record(file, index),
{
    RecordInfo::decode(
        file.subrange(record_position(index), record_position(index) + RECORD_SIZE),
    )
}

/// The first `count` records of the file, in the order in which they stand.
pub open spec fn records_of(file: Seq<u8>, count: int) -> Seq<RecordInfo>
    recommends
        holds_records(file, count),
{
    Seq::new(count as nat, |i: int| record_of(file, i))
}

/// How many whole records the file holds after its header.
pub open spec fn complete_records(file: Seq<u8>) -> int {
    if holds_header(file) {
        (file.len() - HEADER_SIZE) / (RECORD_SIZE as int)
    } else {
        0
    }
}

/// Whether the file is a header and whole records, with no bytes left over.
pub open spec fn holds_whole_records(file: Seq<u8>) -> bool {
    holds_header(file) && (file.len() - HEADER_SIZE) % (RECORD_SIZE as int) == 0
}

/// Whether none of the first `count` records is earlier than one before it.
pub open spec fn time_ordered(file: Seq<u8>, count: int) -> bool {
    forall|i: int, j: int|
        0 <= i <= j < count ==> (#[trigger] record_of(file, i)).time_offset <= (
        #[trigger] record_of(file, j)).time_offset
}

/// The first fault that a scan of the file from its start meets.
///
/// A file too short for a header has a corrupted header. Else the header's
/// origin date is looked at, then the records that the header counts, one
/// by one: the scan stops at the first that is earlier than the one before
/// it, or that the file does not hold whole. Last comes the length of the
/// file: it may not be more than the header and the counted records take.
pub open spec fn file_issue(file: Seq<u8>) -> DbIssue {
    let counted = header_of(file).records_number as int;
    let complete = complete_records(file);
    if !holds_header(file) {
        DbIssue::HeaderCorrupted
    } else if !header_of(file).origin_date.valid() {
        DbIssue::OriginDateInvalid
    } else if !time_ordered(file, if counted <= complete { counted } else { complete }) {
        DbIssue::UnorderedRecord
    } else if complete < counted {
        DbIssue::RecordCorrupted(complete as u64)
    } else if file.len() > record_position(counted) {
        DbIssue::MismatchRecordAmount
    } else {
        DbIssue::NoIssue
    }
}

/// Whether `record` may come after the records that the header counts: it
/// is not earlier than the last of them.
pub open spec fn follows(file: Seq<u8>, record: RecordInfo) -> bool {
    let counted = header_of(file).records_number;
    counted > 0 ==> record_of(file, counted - 1).time_offset <= record.time_offset
}

/// What a check finds after the records that the header counts were put in
/// order, in a file that holds them all and has a valid origin date:
/// nothing, unless the file is longer than the header says.
pub open spec fn issue_in_order(file: Seq<u8>) -> DbIssue {
    if file.len() > record_position(header_of(file).records_number as int) {
        DbIssue::MismatchRecordAmount
    } else {
        DbIssue::NoIssue
    }
}

/// The file after the number of records was set to `count`: the eight
/// bytes of the number stand where the header has its count.
pub open spec fn recounted(file: Seq<u8>, count: u64) -> Seq<u8> {
    write_at(file, COUNT_POSITION as int, u64_le(count))
}

/// The file after `record` was appended and the number of records set to
/// `count`: the bytes of the record stand at the end, those of the number
/// in the header.
pub open spec fn appended(file: Seq<u8>, record: RecordInfo, count: u64) -> Seq<u8> {
    recounted(file + record.encode(), count)
}

/// Whether `after` is `before` with its first `count` records put in order
/// of time: the same records, each as often as before, none earlier than
/// one before it, and every byte outside them as it was.
pub open spec fn reordered(before: Seq<u8>, after: Seq<u8>, count: int) -> bool {
    &&& after.len() == before.len()
    &&& forall|k: int|
        0 <= k < before.len() && !(record_position(0) <= k < record_position(count))
            ==> after[k] == before[k]
    &&& time_ordered(after, count)
    &&& records_of(after, count).to_multiset() == records_of(before, count).to_multiset()
}

/// Where record `rec_id` starts in the file, if that position can be told
/// in 64 bits.
pub fn record_offset(rec_id: u64) -> (pos: Option<u64>)
    ensures
        pos == if record_position(rec_id as int) <= u64::MAX {
            Some(record_position(rec_id as int) as u64)
        } else {
            None
        },
{
    let header = HEADER_SIZE as u64;
    let record = RECORD_SIZE as u64;
    if rec_id <= (u64::MAX - header) / record {
        Some(header + record * rec_id)
    } else {
        None
    }
}

} // verus!
