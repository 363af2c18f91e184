use enod::{DbHeader, Timestamp, HEADER_SIZE, RECORD_SIZE, TIMESTAMP_SIZE};

fn a_date() -> Timestamp {
    Timestamp { year: 1994, month: 7, day: 8, hour: 6, minute: 55, second: 34 }
}

#[test]
fn sizes() {
    assert_eq!(TIMESTAMP_SIZE, 7);
    assert_eq!(HEADER_SIZE, 15);
    assert_eq!(RECORD_SIZE, 5);
}

#[test]
fn header_bytes_are_origin_then_count() {
    let h = DbHeader { origin_date: a_date(), records_number: 0x0102_0304_0506_0708 };
    let bytes = h.as_bytes();
    assert_eq!(bytes, vec![0xca, 0x07, 7, 8, 6, 55, 34, 8, 7, 6, 5, 4, 3, 2, 1]);
    assert_eq!(DbHeader::from_bytes(&bytes), h);
}

#[test]
fn header_bytes_of_small_and_large_counts() {
    let zero = DbHeader { origin_date: a_date(), records_number: 0 };
    assert_eq!(zero.as_bytes()[7..], [0u8; 8]);
    let one = DbHeader { origin_date: a_date(), records_number: 1 };
    assert_eq!(one.as_bytes()[7..], [1u8, 0, 0, 0, 0, 0, 0, 0]);
    let most = DbHeader { origin_date: a_date(), records_number: u64::MAX };
    assert_eq!(most.as_bytes()[7..], [255u8; 8]);
    let high = DbHeader { origin_date: a_date(), records_number: 1 << 56 };
    assert_eq!(high.as_bytes()[7..], [0u8, 0, 0, 0, 0, 0, 0, 1]);
}

#[test]
fn header_round_trip() {
    for count in [0u64, 1, 255, 256, 10, 1 << 32, u64::MAX, 0x1122_3344_5566_7788] {
        let h = DbHeader { origin_date: a_date(), records_number: count };
        let bytes = h.as_bytes();
        assert_eq!(bytes.len(), 15);
        assert_eq!(DbHeader::from_bytes(&bytes), h);
    }
}

#[test]
fn header_bytes_round_trip() {
    let bytes: Vec<u8> = (100u8..115).collect();
    assert_eq!(DbHeader::from_bytes(&bytes).as_bytes(), bytes);
}

#[test]
fn header_reads_only_its_fifteen_bytes() {
    let mut bytes = DbHeader { origin_date: a_date(), records_number: 3 }.as_bytes();
    bytes.extend_from_slice(&[9, 9, 9, 9, 9]);
    let h = DbHeader::from_bytes(&bytes);
    assert_eq!(h.origin_date, a_date());
    assert_eq!(h.records_number, 3);
}

#[test]
fn count_bytes_are_little_endian() {
    assert_eq!(enod::endian::bytes_of_u64(0x0102_0304_0506_0708), vec![8, 7, 6, 5, 4, 3, 2, 1]);
    assert_eq!(enod::endian::bytes_of_u64(0), vec![0; 8]);
    assert_eq!(enod::endian::bytes_of_u64(10), vec![10, 0, 0, 0, 0, 0, 0, 0]);
    assert_eq!(enod::endian::bytes_of_u64(u64::MAX), vec![255; 8]);
}
