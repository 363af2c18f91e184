use chrono::{TimeZone, Utc};
use enod::{DbHeader, DbIssue, EnodError, PhysicalDB, RecordInfo, Timestamp};

fn origin() -> Timestamp {
    Timestamp { year: 1994, month: 7, day: 8, hour: 6, minute: 55, second: 34 }
}

/// The date and time that the clock shows, in UTC.
fn now() -> Timestamp {
    Timestamp::from_datetime(Utc::now().naive_utc())
}

/// The bytes of a file with `origin`, a header that counts `count` records,
/// and the records of the given time offsets, each with its index as value.
fn file_of(origin: Timestamp, count: u64, offsets: &[u32]) -> Vec<u8> {
    let mut file = DbHeader { origin_date: origin, records_number: count }.as_bytes();
    for (i, offset) in offsets.iter().enumerate() {
        file.extend(RecordInfo { time_offset: *offset, value: i as u8 }.as_bytes());
    }
    file
}

/// A closed store over `file` that remembers `count` records.
fn store_of(file: Vec<u8>, count: u64) -> PhysicalDB {
    PhysicalDB::from_parts(file, false, DbHeader { origin_date: origin(), records_number: count })
}

fn offsets_of(db: &mut PhysicalDB, count: u64) -> Vec<u32> {
    (0..count).map(|i| db.read_record(i).expect("could not get record.").time_offset).collect()
}

#[test]
fn create_db_origin_now() {
    let r = PhysicalDB::create(now());
    assert!(r.is_ok());
}

#[test]
fn create_db_origin_specific() {
    let origin_date = Utc.with_ymd_and_hms(1994, 07, 08, 6, 55, 34).unwrap();
    let wr = PhysicalDB::create(Timestamp::from_datetime(origin_date.naive_utc()));
    assert!(wr.is_ok());

    let db = wr.unwrap();
    let buf: Vec<u8> = db.file().clone();
    assert!(!db.is_open());
    assert!(buf.len() == (7 + 8));

    let db_header = DbHeader::from_bytes(buf.as_slice());
    assert_eq!(db_header.records_number, 0);
    assert_eq!(db_header.origin_date.year, 1994);
    assert_eq!(db_header.origin_date.month, 07);
    assert_eq!(db_header.origin_date.day, 08);
    assert_eq!(db_header.origin_date.hour, 6);
    assert_eq!(db_header.origin_date.minute, 55);
    assert_eq!(db_header.origin_date.second, 34);
}

#[test]
fn append_record() {
    let mut db = PhysicalDB::create(now()).expect("could not create db.");
    let header = db.read_header().expect("could not read header.");
    assert_eq!(header.records_number, 0);

    let origin_record = RecordInfo {
        time_offset: 5,
        value: 10,
    };

    db.append_record(origin_record)
        .expect("could not append record.");

    let fs_record = db.read_record(0).expect("could not get record.");
    assert_eq!(origin_record, fs_record);

    let header = db.read_header().expect("could not read header.");
    assert_eq!(header.records_number, 1);
}

#[test]
fn check_healthy_db() {
    let mut db = PhysicalDB::create(now()).expect("could not create db.");
    let _header = db.read_header().expect("could not read header.");

    // Add 10 record in the DB
    for i in 0..10 {
        let origin_record = RecordInfo {
            time_offset: 5 + i,
            value: i as u8,
        };
        db.append_record(origin_record)
            .expect("could not append record.");
    }

    let err = db.check_db_file().expect("could not check db file.");
    assert_eq!(err, DbIssue::NoIssue);
}

#[test]
fn check_unordered_db() {
    let mut db = PhysicalDB::create(now()).expect("could not create db.");
    let _header = db.read_header().expect("could not read header.");

    // Add 10 record in the DB
    for i in 0..10 {
        let origin_record = RecordInfo {
            time_offset: 9 - i,
            value: i as u8,
        };
        db.append_record(origin_record)
            .expect("could not append record.");
    }

    let err = db.check_db_file().expect("could not check db file.");
    assert_eq!(err, DbIssue::UnorderedRecord);
}

#[test]
fn reorder_db() {
    let mut db = PhysicalDB::create(now()).expect("could not create db.");
    let _header = db.read_header().expect("could not read header.");

    // Add 10 record in the DB in reverse order
    for i in 0..10 {
        let origin_record = RecordInfo {
            time_offset: 9 - i,
            value: i as u8,
        };
        db.append_record(origin_record)
            .expect("could not append record.");
    }

    let err = db.check_db_file().expect("could not check db file.");
    assert_eq!(err, DbIssue::UnorderedRecord);

    let res = db.reorder_record();
    assert_eq!(res.is_ok(), true);

    let err = db.check_db_file().expect("could not check db file.");
    assert_eq!(err, DbIssue::NoIssue);
}

#[test]
fn create_writes_a_header_and_nothing_more() {
    let db = PhysicalDB::create(origin()).expect("could not create db.");
    assert_eq!(db.file(), &vec![0xca, 0x07, 7, 8, 6, 55, 34, 0, 0, 0, 0, 0, 0, 0, 0]);
    assert_eq!(db.header(), DbHeader { origin_date: origin(), records_number: 0 });
    assert!(!db.is_open());
}

#[test]
fn created_store_reads_back_its_origin() {
    let mut db = PhysicalDB::create(origin()).unwrap();
    let header = db.read_header().expect("could not read header.");
    assert_eq!(header.records_number, 0);
    assert_eq!(header.origin_date, origin());
    assert_eq!(db.file().len(), 15);
    assert_eq!(db.check_db_file(), Ok(DbIssue::NoIssue));
}

#[test]
fn create_takes_the_date_as_it_is_in_utc() {
    let date = Utc.with_ymd_and_hms(2024, 2, 29, 23, 59, 59).unwrap();
    let db = PhysicalDB::create(Timestamp::from_datetime(date.naive_utc()))
        .expect("could not create db.");
    assert_eq!(
        db.header().origin_date,
        Timestamp { year: 2024, month: 2, day: 29, hour: 23, minute: 59, second: 59 }
    );
}

#[test]
fn create_with_the_time_of_the_clock_takes_a_valid_date() {
    let mut db = PhysicalDB::create(now()).expect("could not create db.");
    assert!(db.header().origin_date.is_valid());
    assert_eq!(db.header().records_number, 0);
    assert_eq!(db.file(), &db.header().as_bytes());
    assert_eq!(db.check_db_file(), Ok(DbIssue::NoIssue));
}

#[test]
fn open_and_close_can_be_repeated() {
    let mut db = PhysicalDB::create(origin()).unwrap();
    assert!(!db.is_open());
    assert_eq!(db.close(), Ok(()));
    assert!(!db.is_open());
    assert_eq!(db.open(), Ok(()));
    assert!(db.is_open());
    assert_eq!(db.open(), Ok(()));
    assert!(db.is_open());
    assert_eq!(db.close(), Ok(()));
    assert!(!db.is_open());
    assert_eq!(db.close(), Ok(()));
    assert!(!db.is_open());
    assert_eq!(db.file().len(), 15);
}

#[test]
fn every_access_opens_the_file() {
    let mut db = PhysicalDB::create(origin()).unwrap();
    db.read_header().expect("could not read header.");
    assert!(db.is_open());

    db.close().unwrap();
    assert!(db.read_record(0).is_err());
    assert!(db.is_open());

    db.close().unwrap();
    db.update_record_number(0).unwrap();
    assert!(db.is_open());

    db.close().unwrap();
    db.append_record(RecordInfo { time_offset: 1, value: 1 }).unwrap();
    assert!(db.is_open());

    db.close().unwrap();
    db.check_db_file().unwrap();
    assert!(db.is_open());

    db.close().unwrap();
    db.reorder_record().unwrap();
    assert!(db.is_open());
}

#[test]
fn read_header_of_a_short_file_fails() {
    for len in 0..15 {
        let mut file = file_of(origin(), 0, &[]);
        file.truncate(len);
        let mut db = store_of(file, 0);
        assert_eq!(
            db.read_header(),
            Err(EnodError::IOError("Could not read header: not enough octets.".to_string()))
        );
    }
}

#[test]
fn read_header_leaves_the_remembered_header() {
    // The file says 2 records, the store remembers 7.
    let mut db = store_of(file_of(origin(), 2, &[1, 2]), 7);
    let header = db.read_header().expect("could not read header.");
    assert_eq!(header.records_number, 2);
    assert_eq!(db.header().records_number, 7);
}

#[test]
fn read_record_finds_each_slot() {
    let mut db = store_of(file_of(origin(), 3, &[10, 20, 30]), 3);
    assert_eq!(db.read_record(0), Ok(RecordInfo { time_offset: 10, value: 0 }));
    assert_eq!(db.read_record(1), Ok(RecordInfo { time_offset: 20, value: 1 }));
    assert_eq!(db.read_record(2), Ok(RecordInfo { time_offset: 30, value: 2 }));
}

#[test]
fn read_record_past_the_end_fails() {
    let short = Err(EnodError::IOError("Could not read record: not enough octets.".to_string()));
    let mut db = store_of(file_of(origin(), 3, &[10, 20, 30]), 3);
    assert_eq!(db.read_record(3), short);
    assert_eq!(db.read_record(4), short);
    assert_eq!(db.read_record(u64::MAX), short);
    assert_eq!(db.read_record((u64::MAX - 15) / 5), short);
    assert_eq!(db.read_record((u64::MAX - 15) / 5 + 1), short);
}

#[test]
fn read_record_cut_short_fails() {
    let mut file = file_of(origin(), 2, &[10, 20]);
    file.truncate(15 + 5 + 4);
    let mut db = store_of(file, 2);
    assert_eq!(db.read_record(0), Ok(RecordInfo { time_offset: 10, value: 0 }));
    assert!(db.read_record(1).is_err());
}

#[test]
fn read_record_does_not_ask_the_header() {
    // The header counts no record, the file holds one.
    let mut db = store_of(file_of(origin(), 0, &[10]), 0);
    assert_eq!(db.read_record(0), Ok(RecordInfo { time_offset: 10, value: 0 }));
}

#[test]
fn update_record_number_adds_to_what_is_remembered() {
    let mut db = store_of(file_of(origin(), 2, &[1, 2]), 7);
    assert_eq!(db.update_record_number(3), Ok(()));
    assert_eq!(db.header().records_number, 10);
    assert_eq!(db.read_header().unwrap().records_number, 10);
    assert_eq!(db.read_header().unwrap().origin_date, origin());
    assert_eq!(db.file(), &file_of(origin(), 10, &[1, 2]));
}

#[test]
fn update_record_number_reaches_the_largest_count() {
    let mut db = store_of(file_of(origin(), 0, &[]), u64::MAX - 1);
    assert_eq!(db.update_record_number(1), Ok(()));
    assert_eq!(db.header().records_number, u64::MAX);
    assert_eq!(db.file()[7..], [255u8; 8]);
}

#[test]
fn update_record_number_of_a_short_file_fills_it_up() {
    let mut db = store_of(vec![1, 2, 3], 4);
    assert_eq!(db.update_record_number(1), Ok(()));
    assert_eq!(db.file(), &vec![1, 2, 3, 0, 0, 0, 0, 5, 0, 0, 0, 0, 0, 0, 0]);
}

#[test]
fn append_record_writes_at_the_end() {
    let mut db = PhysicalDB::create(origin()).unwrap();
    db.append_record(RecordInfo { time_offset: 5, value: 10 }).unwrap();
    assert_eq!(db.file().len(), 20);
    assert_eq!(db.file()[15..], [5u8, 0, 0, 0, 10]);
    assert_eq!(db.file()[7..15], [1u8, 0, 0, 0, 0, 0, 0, 0]);
    assert_eq!(db.file()[..7], [0xcau8, 0x07, 7, 8, 6, 55, 34]);
    assert_eq!(db.header().records_number, 1);

    db.append_record(RecordInfo { time_offset: 6, value: 11 }).unwrap();
    assert_eq!(db.file().len(), 25);
    assert_eq!(db.file()[15..20], [5u8, 0, 0, 0, 10]);
    assert_eq!(db.file()[20..], [6u8, 0, 0, 0, 11]);
    assert_eq!(db.read_header().unwrap().records_number, 2);
    assert_eq!(db.read_record(1), Ok(RecordInfo { time_offset: 6, value: 11 }));
}

#[test]
fn append_record_counts_from_what_is_remembered() {
    // The file says 1 record, the store remembers none.
    let mut db = store_of(file_of(origin(), 1, &[10]), 0);
    db.append_record(RecordInfo { time_offset: 20, value: 1 }).unwrap();
    assert_eq!(db.read_header().unwrap().records_number, 1);
    assert_eq!(db.check_db_file(), Ok(DbIssue::MismatchRecordAmount));
}

#[test]
fn check_finds_a_corrupted_header() {
    for len in 0..15 {
        let mut file = file_of(origin(), 0, &[]);
        file.truncate(len);
        assert_eq!(store_of(file, 0).check_db_file(), Ok(DbIssue::HeaderCorrupted));
    }
}

#[test]
fn create_takes_an_origin_that_is_no_date() {
    let bad = Timestamp { month: 13, ..origin() };
    let mut db = PhysicalDB::create(bad).expect("could not create db.");
    assert_eq!(db.header().origin_date, bad);
    assert_eq!(db.check_db_file(), Ok(DbIssue::OriginDateInvalid));
}

#[test]
fn check_finds_an_invalid_origin() {
    let bad = Timestamp { month: 13, ..origin() };
    assert_eq!(store_of(file_of(bad, 0, &[]), 0).check_db_file(), Ok(DbIssue::OriginDateInvalid));
    let bad = Timestamp { year: 1900, month: 2, day: 29, ..origin() };
    assert_eq!(store_of(file_of(bad, 1, &[1]), 1).check_db_file(), Ok(DbIssue::OriginDateInvalid));
}

#[test]
fn check_finds_a_missing_record() {
    // The header counts more records than the file holds.
    assert_eq!(
        store_of(file_of(origin(), 3, &[1, 2]), 3).check_db_file(),
        Ok(DbIssue::RecordCorrupted(2))
    );
    assert_eq!(
        store_of(file_of(origin(), 1, &[]), 1).check_db_file(),
        Ok(DbIssue::RecordCorrupted(0))
    );
    assert_eq!(
        store_of(file_of(origin(), u64::MAX, &[1, 2, 3]), 3).check_db_file(),
        Ok(DbIssue::RecordCorrupted(3))
    );
}

#[test]
fn check_finds_a_record_cut_short() {
    let mut file = file_of(origin(), 2, &[1, 2]);
    file.pop();
    assert_eq!(store_of(file, 2).check_db_file(), Ok(DbIssue::RecordCorrupted(1)));
}

#[test]
fn check_finds_a_record_out_of_order() {
    assert_eq!(
        store_of(file_of(origin(), 3, &[1, 3, 2]), 3).check_db_file(),
        Ok(DbIssue::UnorderedRecord)
    );
    assert_eq!(
        store_of(file_of(origin(), 2, &[1, 0]), 2).check_db_file(),
        Ok(DbIssue::UnorderedRecord)
    );
}

#[test]
fn check_finds_a_file_too_long() {
    assert_eq!(
        store_of(file_of(origin(), 2, &[1, 2, 3]), 2).check_db_file(),
        Ok(DbIssue::MismatchRecordAmount)
    );
    let mut file = file_of(origin(), 0, &[]);
    file.push(0);
    assert_eq!(store_of(file, 0).check_db_file(), Ok(DbIssue::MismatchRecordAmount));
}

#[test]
fn check_accepts_equal_times_and_a_first_record_at_zero() {
    assert_eq!(
        store_of(file_of(origin(), 4, &[0, 0, 7, 7]), 4).check_db_file(),
        Ok(DbIssue::NoIssue)
    );
    assert_eq!(
        store_of(file_of(origin(), 2, &[u32::MAX, u32::MAX]), 2).check_db_file(),
        Ok(DbIssue::NoIssue)
    );
}

#[test]
fn check_stops_at_the_first_issue() {
    let bad = Timestamp { day: 0, ..origin() };
    // A bad origin comes before anything about the records.
    assert_eq!(
        store_of(file_of(bad, 5, &[3, 2, 1]), 5).check_db_file(),
        Ok(DbIssue::OriginDateInvalid)
    );
    // A record out of order comes before a missing one behind it.
    assert_eq!(
        store_of(file_of(origin(), 5, &[3, 2, 1]), 5).check_db_file(),
        Ok(DbIssue::UnorderedRecord)
    );
    // A record out of order comes before the length of the file.
    assert_eq!(
        store_of(file_of(origin(), 2, &[3, 2, 1]), 2).check_db_file(),
        Ok(DbIssue::UnorderedRecord)
    );
    // Records that the header does not count are not looked at.
    assert_eq!(
        store_of(file_of(origin(), 2, &[2, 3, 1]), 2).check_db_file(),
        Ok(DbIssue::MismatchRecordAmount)
    );
}

#[test]
fn check_reads_the_count_from_the_file() {
    // The store remembers 0 records; the file says 3 and holds 3.
    assert_eq!(
        store_of(file_of(origin(), 3, &[1, 2, 3]), 0).check_db_file(),
        Ok(DbIssue::NoIssue)
    );
}

#[test]
fn check_changes_nothing() {
    let file = file_of(origin(), 3, &[3, 1, 2]);
    let mut db = store_of(file.clone(), 9);
    db.check_db_file().unwrap();
    assert_eq!(db.file(), &file);
    assert_eq!(db.header().records_number, 9);
}

#[test]
fn reorder_sorts_the_records_by_time() {
    let mut db = PhysicalDB::create(origin()).unwrap();
    for i in 0..10 {
        db.append_record(RecordInfo { time_offset: 9 - i, value: i as u8 }).unwrap();
    }
    assert_eq!(db.reorder_record(), Ok(()));
    assert_eq!(offsets_of(&mut db, 10), vec![0, 1, 2, 3, 4, 5, 6, 7, 8, 9]);
    // Each record kept its value.
    for i in 0..10 {
        assert_eq!(db.read_record(i), Ok(RecordInfo { time_offset: i as u32, value: 9 - i as u8 }));
    }
    assert_eq!(db.file().len(), 15 + 5 * 10);
    assert_eq!(db.read_header().unwrap(), DbHeader { origin_date: origin(), records_number: 10 });
}

#[test]
fn reorder_keeps_every_record_also_equal_ones() {
    let mut db = store_of(file_of(origin(), 6, &[5, 1, 5, 0, 1, 5]), 6);
    assert_eq!(db.reorder_record(), Ok(()));
    assert_eq!(offsets_of(&mut db, 6), vec![0, 1, 1, 5, 5, 5]);
    let mut values: Vec<(u32, u8)> = (0..6)
        .map(|i| db.read_record(i).unwrap())
        .map(|r| (r.time_offset, r.value))
        .collect();
    values.sort();
    assert_eq!(values, vec![(0, 3), (1, 1), (1, 4), (5, 0), (5, 2), (5, 5)]);
    assert_eq!(db.check_db_file(), Ok(DbIssue::NoIssue));
}

#[test]
fn reorder_leaves_what_is_not_counted() {
    // The store remembers 2 records: the third stays where it is.
    let mut db = store_of(file_of(origin(), 2, &[9, 8, 1]), 2);
    assert_eq!(db.reorder_record(), Ok(()));
    assert_eq!(offsets_of(&mut db, 3), vec![8, 9, 1]);
    assert_eq!(db.file()[..15], file_of(origin(), 2, &[])[..]);
    assert_eq!(db.check_db_file(), Ok(DbIssue::MismatchRecordAmount));
}

#[test]
fn reorder_of_missing_records_fails_and_writes_nothing() {
    let file = file_of(origin(), 3, &[9, 8]);
    let mut db = store_of(file.clone(), 3);
    assert_eq!(
        db.reorder_record(),
        Err(EnodError::IOError("Could not read record: not enough octets.".to_string()))
    );
    assert_eq!(db.file(), &file);
}

#[test]
fn reorder_of_no_records_does_nothing() {
    let mut db = PhysicalDB::create(origin()).unwrap();
    assert_eq!(db.reorder_record(), Ok(()));
    assert_eq!(db.file(), &file_of(origin(), 0, &[]));
    let mut short = store_of(vec![1, 2, 3], 0);
    assert_eq!(short.reorder_record(), Ok(()));
    assert_eq!(short.file(), &vec![1, 2, 3]);
}

#[test]
fn from_parts_keeps_what_it_is_given() {
    let header = DbHeader { origin_date: origin(), records_number: 4 };
    let db = PhysicalDB::from_parts(vec![1, 2, 3], true, header);
    assert_eq!(db.file(), &vec![1, 2, 3]);
    assert!(db.is_open());
    assert_eq!(db.header(), header);
}
