//! What holds of the store across its operations, stated over the bytes of
//! the file.
use crate::endian::{lemma_u64_le_inverse, u64_le};
use crate::header::{lemma_header_decode_encode, DbHeader, HEADER_SIZE};
use crate::issue::DbIssue;
use crate::layout::{
    appended, complete_records, file_issue, follows, header_of, holds_header, holds_record,
    holds_records, holds_whole_records, issue_in_order, record_of, record_position, recounted,
    reordered, time_ordered,
};
use crate::record::{lemma_record_decode_encode, RecordInfo, RECORD_SIZE};
use vstd::prelude::*;

verus! {

/// A file that is the bytes of a header and nothing more is fifteen bytes
/// long and reads back as that header. With no records in the header and a
/// valid origin date, a check finds nothing wrong with it.
pub proof fn lemma_fresh_file(header: DbHeader)
    ensures
        header.encode().len() == HEADER_SIZE,
        header_of(header.encode()) == header,
        header.records_number == 0 && header.origin_date.valid() ==> file_issue(header.encode())
            == DbIssue::NoIssue,
{
    lemma_header_decode_encode(header);
    let file = header.encode();
    assert(file.subrange(0, 15) =~= file);
    assert(complete_records(file) == 0);
}

/// A check of a file too short for a header finds the header corrupted.
pub proof fn lemma_short_file(file: Seq<u8>)
    requires
        file.len() < HEADER_SIZE,
    ensures
        file_issue(file) == DbIssue::HeaderCorrupted,
{
}

/// A check of a file longer than its header and the records that the header
/// counts finds the number of records mismatched, unless it stops before:
/// at an origin date that is invalid, or at a record out of order.
pub proof fn lemma_long_file(file: Seq<u8>)
    requires
        holds_header(file),
        header_of(file).origin_date.valid(),
        time_ordered(file, header_of(file).records_number as int),
        file.len() > record_position(header_of(file).records_number as int),
    ensures
        file_issue(file) == DbIssue::MismatchRecordAmount,
{
}

/// A check finds nothing wrong only with a file that ends where the last
/// record that its header counts ends.
pub proof fn lemma_sound_file_length(file: Seq<u8>)
    requires
        file_issue(file) == DbIssue::NoIssue,
    ensures
        file.len() == record_position(header_of(file).records_number as int),
        complete_records(file) == header_of(file).records_number,
        holds_whole_records(file),
{
}

/// Setting the number of records in a file that holds a header changes
/// that number and nothing else: the file keeps its length, the header its
/// origin date, and every record reads back as before.
pub proof fn lemma_recount(file: Seq<u8>, count: u64)
    requires
        holds_header(file),
    ensures
        recounted(file, count).len() == file.len(),
        header_of(recounted(file, count)) == (DbHeader {
            origin_date: header_of(file).origin_date,
            records_number: count,
        }),
        forall|i: int|
            holds_record(file, i) ==> #[trigger] record_of(recounted(file, count), i) == record_of(
                file,
                i,
            ),
{
    let after = recounted(file, count);
    lemma_u64_le_inverse(count);
    assert(after.subrange(0, 15).skip(7) =~= u64_le(count));
    assert(after.subrange(0, 7) =~= file.subrange(0, 7));
    assert forall|i: int| holds_record(file, i) implies #[trigger] record_of(after, i)
        == record_of(file, i) by {
        assert(after.subrange(record_position(i), record_position(i) + 5) =~= file.subrange(
            record_position(i),
            record_position(i) + 5,
        ));
    }
}

/// After a record was appended to a file of a header and whole records,
/// the file is five bytes longer, the header counts what it was told to and
/// has the origin date that it had, the new record reads back at the index
/// after the last, and the records before it read back as before.
pub proof fn lemma_append_reads_back(file: Seq<u8>, record: RecordInfo, count: u64)
    requires
        holds_whole_records(file),
    ensures
        ({
            let after = appended(file, record, count);
            &&& after.len() == file.len() + RECORD_SIZE
            &&& holds_whole_records(after)
            &&& complete_records(after) == complete_records(file) + 1
            &&& header_of(after) == DbHeader {
                origin_date: header_of(file).origin_date,
                records_number: count,
            }
            &&& record_of(after, complete_records(file)) == record
            &&& forall|i: int|
                0 <= i < complete_records(file) ==> #[trigger] record_of(after, i) == record_of(
                    file,
                    i,
                )
        }),
{
    let longer = file + record.encode();
    let after = appended(file, record, count);
    let last = complete_records(file);
    lemma_recount(longer, count);
    lemma_record_decode_encode(record);
    assert(file.len() == record_position(last));
    assert(longer.subrange(0, 15) =~= file.subrange(0, 15));
    assert(longer.subrange(record_position(last), record_position(last) + 5) =~= record.encode());
    assert(record_of(after, last) == record_of(longer, last));
    assert forall|i: int| 0 <= i < last implies #[trigger] record_of(after, i) == record_of(
        file,
        i,
    ) by {
        assert(longer.subrange(record_position(i), record_position(i) + 5) =~= file.subrange(
            record_position(i),
            record_position(i) + 5,
        ));
        assert(record_of(after, i) == record_of(longer, i));
    }
}

/// A file with which a check finds nothing wrong stays so when a record is
/// appended that is not earlier than the last one, and the header is told
/// to count one more.
pub proof fn lemma_append_in_order(file: Seq<u8>, record: RecordInfo)
    requires
        file_issue(file) == DbIssue::NoIssue,
        header_of(file).records_number < u64::MAX,
        follows(file, record),
    ensures
        file_issue(appended(file, record, (header_of(file).records_number + 1) as u64))
            == DbIssue::NoIssue,
{
    let count = header_of(file).records_number;
    let after = appended(file, record, (count + 1) as u64);
    lemma_sound_file_length(file);
    lemma_append_reads_back(file, record, (count + 1) as u64);
    assert forall|i: int, j: int| 0 <= i <= j < count + 1 implies (#[trigger] record_of(
        after,
        i,
    )).time_offset <= (#[trigger] record_of(after, j)).time_offset by {
        if j < count {
            assert(record_of(file, i).time_offset <= record_of(file, j).time_offset);
        } else if i < count {
            assert(record_of(file, i).time_offset <= record_of(file, count - 1).time_offset);
        }
    }
}

/// After the records that the header counts were put in order, a check no
/// longer finds a record out of order: it finds nothing wrong, or only that
/// the file is longer than the header says.
pub proof fn lemma_reorder_repairs(before: Seq<u8>, after: Seq<u8>)
    requires
        holds_header(before),
        header_of(before).origin_date.valid(),
        holds_records(before, header_of(before).records_number as int),
        reordered(before, after, header_of(before).records_number as int),
    ensures
        header_of(after) == header_of(before),
        file_issue(after) == issue_in_order(before),
        file_issue(after) != DbIssue::UnorderedRecord,
{
    assert(after.subrange(0, 15) =~= before.subrange(0, 15));
}

} // verus!
