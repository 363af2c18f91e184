//! The store: a file of one header and the records after it, and the
//! operations that read it, lengthen it, check it and put it in order.
//!
//! The file is held here as its bytes. Every operation says what it does to
//! them, so that whoever keeps the real file has only to carry the bytes
//! there and back.
use crate::endian::bytes_of_u64;
use crate::header::{DbHeader, HEADER_SIZE};
use crate::image::{read_bytes, write_bytes};
use crate::issue::{fails_with, DbIssue, EnodError};
use crate::laws::{
    lemma_append_in_order, lemma_append_reads_back, lemma_fresh_file, lemma_recount,
    lemma_reorder_repairs,
};
use crate::layout::{
    appended, complete_records, file_issue, follows, header_of, holds_header, holds_record,
    holds_records, holds_whole_records, issue_in_order, record_of, record_offset,
    record_position, records_of, recounted, reordered, time_ordered, COUNT_POSITION,
};
use crate::record::{lemma_record_decode_encode, sort_by_time, RecordInfo, RECORD_SIZE};
use crate::timestamp::Timestamp;
use vstd::prelude::*;

verus! {

/// A store: the bytes of its file, whether the file is held open, and the
/// header as the store remembers it.
#[derive(Debug)]
pub struct PhysicalDB {
    file: Vec<u8>,
    open: bool,
    header: DbHeader,
}

/// What a [`PhysicalDB`] is made of.
pub struct DbState {
    /// The bytes of the file.
    pub file: Seq<u8>,
    /// Whether the file is held open.
    pub open: bool,
    /// The header as the store remembers it. It follows the store's own
    /// writes, not the file: the two can differ.
    pub header: DbHeader,
}

impl DbState {
    /// Whether the store remembers the header that the file holds. A store
    /// is made so and stays so under its own operations; it is another
    /// hand on the file that can bring the two apart.
    pub open spec fn consistent(self) -> bool {
        holds_header(self.file) && self.header == header_of(self.file)
    }
}

impl View for PhysicalDB {
    type V = DbState;

    closed spec fn view(&self) -> DbState {
        DbState { file: self.file@, open: self.open, header: self.header }
    }
}

/// The message of the failure to read a whole header.
pub open spec fn short_header_message() -> Seq<char> {
    "Could not read header: not enough octets."@
}

/// The message of the failure to read a whole record.
pub open spec fn short_record_message() -> Seq<char> {
    "Could not read record: not enough octets."@
}

impl PhysicalDB {
    /// This function will create a new database: its file holds a header
    /// with no records and nothing more, and is not open.
    ///
    /// The argument is the date with which to initialize the database, in
    /// UTC. Whoever wants the current date and time reads the clock and
    /// hands them in: see [`Timestamp::from_datetime`].
    ///
    /// The result is always `Ok`: nothing of this can fail in memory.
    pub fn create(origin_date: Timestamp) -> (r: Result<PhysicalDB, EnodError>)
        ensures
            r matches Ok(db) && {
                &&& db@ == (DbState {
                    file: (DbHeader { origin_date, records_number: 0 }).encode(),
                    open: false,
                    header: DbHeader { origin_date, records_number: 0 },
                })
                &&& db@.file.len() == HEADER_SIZE
                &&& db@.consistent()
            },
    {
        // We always start with an empty DB, so we store 0 for the number of records.
        let header = DbHeader { origin_date, records_number: 0 };
        proof {
            lemma_fresh_file(header);
        }

        Ok(PhysicalDB {
            file: header.as_bytes(),
            open: false,  // don't want to open the file right away.
            header,
        })
    }

    /// A store over a file that exists: `file` is what the file holds,
    /// `header` what the store is to remember as its header.
    pub fn from_parts(file: Vec<u8>, open: bool, header: DbHeader) -> (db: PhysicalDB)
        ensures
            db@ == (DbState { file: file@, open, header }),
    {
        PhysicalDB { file, open, header }
    }

    /// The bytes of the file.
    pub fn file(&self) -> (file: &Vec<u8>)
        ensures
            file@ == self@.file,
    {
        &self.file
    }

    /// Whether the file is held open.
    pub fn is_open(&self) -> (open: bool)
        ensures
            open == self@.open,
    {
        self.open
    }

    /// The header as the store remembers it.
    pub fn header(&self) -> (header: DbHeader)
        ensures
            header == self@.header,
    {
        self.header
    }

    /// Open the database file in read and write mode. Does nothing to a
    /// file that is open.
    pub fn open(&mut self) -> (r: Result<(), EnodError>)
        ensures
            r is Ok,
            final(self)@ == (DbState { open: true, ..old(self)@ }),
    {
        if self.open {
            return Ok(());
        }
        self.open = true;
        Ok(())
    }

    /// Close the database file. Does nothing to a file that is closed.
    /// Nothing is lost: every write went to the file when it was made.
    pub fn close(&mut self) -> (r: Result<(), EnodError>)
        ensures
            r is Ok,
            final(self)@ == (DbState { open: false, ..old(self)@ }),
    {
        if self.open {
            self.open = false;
        }
        Ok(())
    }

    /// Read the header from the file, opening the file if need be.
    /// Does not update the header in memory.
    ///
    /// Fails where the file is shorter than a header.
    pub fn read_header(&mut self) -> (r: Result<DbHeader, EnodError>)
        ensures
            final(self)@ == (DbState { open: true, ..old(self)@ }),
            holds_header(old(self)@.file) ==> r == Ok::<DbHeader, EnodError>(
                header_of(old(self)@.file),
            ),
            !holds_header(old(self)@.file) ==> fails_with(r, short_header_message()),
    {
        self.open = true;

        let buffer = read_bytes(self.file.as_slice(), 0, HEADER_SIZE);
        if buffer.len() == HEADER_SIZE {
            let header = DbHeader::from_bytes(buffer);
            return Ok(header);
        }
        Err(EnodError::IOError("Could not read header: not enough octets.".to_string()))
    }

    /// Read record `rec_id` from the file, opening the file if need be.
    ///
    /// The size of the header and record are static.
    /// So the position of each record is deterministic.
    /// If `n` is the record id, then its position within the file is
    /// pos(n) = (7 + 8) + (5*n)
    ///
    /// Fails where the file ends before the record does.
    pub fn read_record(&mut self, rec_id: u64) -> (r: Result<RecordInfo, EnodError>)
        ensures
            final(self)@ == (DbState { open: true, ..old(self)@ }),
            holds_record(old(self)@.file, rec_id as int) ==> r == Ok::<RecordInfo, EnodError>(
                record_of(old(self)@.file, rec_id as int),
            ),
            !holds_record(old(self)@.file, rec_id as int) ==> fails_with(
                r,
                short_record_message(),
            ),
    {
        self.open = true;

        // A position past what 64 bits can tell is past the end of any file.
        assert(self.file@.len() == self.file.len() <= u64::MAX);
        if let Some(pos) = record_offset(rec_id) {
            let buffer = read_bytes(self.file.as_slice(), pos, RECORD_SIZE);
            if buffer.len() == RECORD_SIZE {
                let record = RecordInfo::from_bytes(buffer);
                return Ok(record);
            }
        }
        Err(EnodError::IOError("Could not read record: not enough octets.".to_string()))
    }

    /// This utility function will update the number of record in the
    /// database: `drn` more than the store remembers, in the file and in
    /// what the store remembers. The sum has to fit in 64 bits.
    pub fn update_record_number(&mut self, drn: u64) -> (r: Result<(), EnodError>)
        requires
            old(self)@.header.records_number + drn <= u64::MAX,
        ensures
            r is Ok,
            final(self)@ == (DbState {
                file: recounted(
                    old(self)@.file,
                    (old(self)@.header.records_number + drn) as u64,
                ),
                open: true,
                header: DbHeader {
                    records_number: (old(self)@.header.records_number + drn) as u64,
                    ..old(self)@.header
                },
            }),
            holds_header(old(self)@.file) ==> {
                &&& final(self)@.file.len() == old(self)@.file.len()
                &&& header_of(final(self)@.file) == DbHeader {
                    origin_date: header_of(old(self)@.file).origin_date,
                    records_number: (old(self)@.header.records_number + drn) as u64,
                }
            },
            old(self)@.consistent() ==> final(self)@.consistent(),
    {
        self.open = true;
        proof {
            if holds_header(self@.file) {
                lemma_recount(self@.file, (self@.header.records_number + drn) as u64);
            }
        }

        // The record number is always at position 7
        let count = bytes_of_u64(self.header.records_number + drn);
        write_bytes(&mut self.file, COUNT_POSITION, count.as_slice());
        self.header.records_number += drn;

        Ok(())
    }

    /// Add a record in the database: its bytes go to the end of the file,
    /// and the number of records goes up by one. Nothing asks whether the
    /// record is later than those before it: [`PhysicalDB::check_db_file`]
    /// finds out.
    pub fn append_record(&mut self, rec_nfo: RecordInfo) -> (r: Result<(), EnodError>)
        requires
            old(self)@.header.records_number < u64::MAX,
            old(self)@.file.len() + RECORD_SIZE <= usize::MAX,
        ensures
            r is Ok,
            final(self)@ == (DbState {
                file: appended(
                    old(self)@.file,
                    rec_nfo,
                    (old(self)@.header.records_number + 1) as u64,
                ),
                open: true,
                header: DbHeader {
                    records_number: (old(self)@.header.records_number + 1) as u64,
                    ..old(self)@.header
                },
            }),
            holds_header(old(self)@.file) ==> {
                &&& final(self)@.file.len() == old(self)@.file.len() + RECORD_SIZE
                &&& header_of(final(self)@.file) == DbHeader {
                    origin_date: header_of(old(self)@.file).origin_date,
                    records_number: (old(self)@.header.records_number + 1) as u64,
                }
            },
            holds_whole_records(old(self)@.file) ==> record_of(
                final(self)@.file,
                complete_records(old(self)@.file),
            ) == rec_nfo,
            old(self)@.consistent() ==> final(self)@.consistent(),
            old(self)@.consistent() && file_issue(old(self)@.file) == DbIssue::NoIssue && follows(
                old(self)@.file,
                rec_nfo,
            ) ==> file_issue(final(self)@.file) == DbIssue::NoIssue,
    {
        self.open = true;
        proof {
            let count = (self@.header.records_number + 1) as u64;
            if holds_header(self@.file) {
                lemma_recount(self@.file + rec_nfo.encode(), count);
            }
            if holds_whole_records(self@.file) {
                lemma_append_reads_back(self@.file, rec_nfo, count);
            }
            if self@.consistent() && file_issue(self@.file) == DbIssue::NoIssue && follows(
                self@.file,
                rec_nfo,
            ) {
                lemma_append_in_order(self@.file, rec_nfo);
            }
        }

        // write record
        let end = self.file.len();
        let bytes = rec_nfo.as_bytes();
        write_bytes(&mut self.file, end, bytes.as_slice());
        assert(self.file@ =~= old(self)@.file + rec_nfo.encode());

        // Update DbHeader
        self.update_record_number(1)
    }

    /// Perform check to find any issue in the database file.
    /// It will return the first issue it find. You might need to run this
    /// function until it return `DbIssue::NoIssue` to check for all
    /// possible issue.
    ///
    /// The number of records is the one in the file, not the one that the
    /// store remembers. The file is left as it is.
    pub fn check_db_file(&mut self) -> (r: Result<DbIssue, EnodError>)
        ensures
            r == Ok::<DbIssue, EnodError>(file_issue(old(self)@.file)),
            final(self)@ == (DbState { open: true, ..old(self)@ }),
    {
        self.open = true;

        // First try to read the header
        let header = match self.read_header() {
            Ok(header) => header,
            Err(_) => {
                return Ok(DbIssue::HeaderCorrupted);
            },
        };
        if !header.origin_date.is_valid() {
            return Ok(DbIssue::OriginDateInvalid);
        }
        let ghost file = self@.file;
        let mut time_offset: u32 = 0;
        let mut i: u64 = 0;
        while i < header.records_number
            invariant
                self@ == (DbState { open: true, ..old(self)@ }),
                file == self@.file,
                holds_header(file),
                header == header_of(file),
                header.origin_date.valid(),
                i <= header.records_number,
                i <= complete_records(file),
                time_ordered(file, i as int),
                i == 0 ==> time_offset == 0,
                i > 0 ==> time_offset == record_of(file, i - 1).time_offset,
            decreases header.records_number - i,
        {
            match self.read_record(i) {
                Err(_) => {
                    // The first record that does not read is the one after
                    // the last that the file holds whole.
                    assert(complete_records(file) == i);
                    return Ok(DbIssue::RecordCorrupted(i));
                },
                Ok(record) => {
                    assert(i < complete_records(file));
                    if time_offset > record.time_offset {
                        assert(record_of(file, i - 1).time_offset > record_of(
                            file,
                            i as int,
                        ).time_offset);
                        return Ok(DbIssue::UnorderedRecord);
                    }
                    time_offset = record.time_offset;
                },
            }
            i += 1;
        }

        // Every counted record was read, so all of them lie within the file.
        assert(i == header.records_number);
        assert(RECORD_SIZE * complete_records(file) <= file.len() - HEADER_SIZE);
        assert(HEADER_SIZE + RECORD_SIZE * header.records_number <= file.len());
        let size = self.file.len() as u64;
        if size > HEADER_SIZE as u64 + RECORD_SIZE as u64 * header.records_number {
            return Ok(DbIssue::MismatchRecordAmount);
        }
        Ok(DbIssue::NoIssue)
    }

    /// Reorder the record in the DB.
    /// Use if your DB records got scrambled for some reason.
    /// Right now it use a simple way :
    /// - Read all the record
    /// - reorder them in-memory
    /// - dump *all* the record in the DB
    /// It means that if you have just one record wrong you end up
    /// re-writing the whole DB.
    ///
    /// The records are as many as the store remembers. Where the file does
    /// not hold them all, nothing is written.
    pub fn reorder_record(&mut self) -> (r: Result<(), EnodError>)
        ensures
            final(self)@.open,
            final(self)@.header == old(self)@.header,
            holds_records(old(self)@.file, old(self)@.header.records_number as int) ==> r is Ok
                && reordered(
                old(self)@.file,
                final(self)@.file,
                old(self)@.header.records_number as int,
            ),
            !holds_records(old(self)@.file, old(self)@.header.records_number as int)
                ==> fails_with(r, short_record_message()) && final(self)@.file == old(self)@.file,
            holds_header(old(self)@.file) ==> header_of(final(self)@.file) == header_of(
                old(self)@.file,
            ),
            old(self)@.consistent() ==> final(self)@.consistent(),
            old(self)@.consistent() && old(self)@.header.origin_date.valid() && r is Ok
                ==> file_issue(final(self)@.file) == issue_in_order(old(self)@.file),
    {
        self.open = true;

        let ghost before = self@.file;
        let count = self.header.records_number;
        let mut records: Vec<RecordInfo> = Vec::new();
        let mut i: u64 = 0;
        while i < count
            invariant
                self@ == (DbState { open: true, ..old(self)@ }),
                before == self@.file,
                count == self@.header.records_number,
                i <= count,
                holds_records(before, i as int),
                records@ == records_of(before, i as int),
            decreases count - i,
        {
            match self.read_record(i) {
                Err(e) => {
                    return Err(e);
                },
                Ok(record) => {
                    records.push(record);
                    assert(records@ =~= records_of(before, i + 1));
                },
            }
            i += 1;
        }
        let ghost unsorted = records@;
        sort_by_time(&mut records);
        proof {
            unsorted.to_multiset_ensures();
            records@.to_multiset_ensures();
        }
        assert(before.len() == self.file.len() <= usize::MAX);

        let mut k: usize = 0;
        while k < records.len()
            invariant
                self@.open,
                self@.header == old(self)@.header,
                k <= records@.len() == count,
                holds_records(before, count as int),
                before.len() <= usize::MAX,
                self@.file.len() == before.len(),
                forall|b: int|
                    0 <= b < before.len() && !(record_position(0) <= b < record_position(k as int))
                        ==> self@.file[b] == before[b],
                forall|j: int| 0 <= j < k ==> #[trigger] record_of(self@.file, j) == records@[j],
            decreases records@.len() - k,
        {
            let ghost current = self@.file;
            let record = records[k];
            let bytes = record.as_bytes();
            write_bytes(&mut self.file, HEADER_SIZE + RECORD_SIZE * k, bytes.as_slice());
            proof {
                lemma_record_decode_encode(record);
                assert(self@.file.subrange(record_position(k as int), record_position(k as int) + 5)
                    =~= record.encode());
                assert forall|j: int| 0 <= j < k implies #[trigger] record_of(self@.file, j)
                    == records@[j] by {
                    assert(self@.file.subrange(record_position(j), record_position(j) + 5)
                        =~= current.subrange(record_position(j), record_position(j) + 5));
                    assert(record_of(current, j) == records@[j]);
                }
            }
            k += 1;
        }
        proof {
            let after = self@.file;
            assert(records_of(after, count as int) =~= records@);
            if holds_header(before) {
                assert(after.subrange(0, 15) =~= before.subrange(0, 15));
            }
            if old(self)@.consistent() && old(self)@.header.origin_date.valid() {
                lemma_reorder_repairs(before, after);
            }
        }
        Ok(())
    }
}

} // verus!
