use enod::RecordInfo;
use std::cmp::Ordering;

#[test]
fn record_bytes_are_little_endian() {
    let r = RecordInfo { time_offset: 0x0102_0304, value: 9 };
    assert_eq!(r.as_bytes(), vec![4, 3, 2, 1, 9]);
    assert_eq!(RecordInfo::from_bytes(&[4, 3, 2, 1, 9]), r);
}

#[test]
fn record_bytes_of_small_and_large_offsets() {
    assert_eq!(RecordInfo { time_offset: 5, value: 10 }.as_bytes(), vec![5, 0, 0, 0, 10]);
    assert_eq!(RecordInfo { time_offset: 0, value: 0 }.as_bytes(), vec![0, 0, 0, 0, 0]);
    assert_eq!(
        RecordInfo { time_offset: u32::MAX, value: 255 }.as_bytes(),
        vec![255, 255, 255, 255, 255]
    );
    assert_eq!(RecordInfo { time_offset: 65536, value: 1 }.as_bytes(), vec![0, 0, 1, 0, 1]);
    assert_eq!(RecordInfo { time_offset: 1 << 24, value: 1 }.as_bytes(), vec![0, 0, 0, 1, 1]);
}

#[test]
fn record_round_trip() {
    for r in [
        RecordInfo { time_offset: 5, value: 10 },
        RecordInfo { time_offset: 0, value: 0 },
        RecordInfo { time_offset: u32::MAX, value: 255 },
        RecordInfo { time_offset: 0xdead_beef, value: 0x7f },
    ] {
        let bytes = r.as_bytes();
        assert_eq!(bytes.len(), 5);
        assert_eq!(RecordInfo::from_bytes(&bytes), r);
    }
}

#[test]
fn record_bytes_round_trip() {
    for bytes in [[0u8, 0, 0, 0, 0], [1, 2, 3, 4, 5], [255, 254, 253, 252, 251]] {
        assert_eq!(RecordInfo::from_bytes(&bytes).as_bytes(), bytes.to_vec());
    }
}

#[test]
fn record_reads_only_its_five_bytes() {
    let r = RecordInfo::from_bytes(&[5, 0, 0, 0, 10, 77, 78]);
    assert_eq!(r, RecordInfo { time_offset: 5, value: 10 });
}

#[test]
fn records_are_ordered_by_time_alone() {
    let early = RecordInfo { time_offset: 5, value: 200 };
    let late = RecordInfo { time_offset: 6, value: 1 };
    assert!(early < late);
    assert!(late > early);
    assert_eq!(early.partial_cmp(&late), Some(Ordering::Less));
    assert_eq!(late.partial_cmp(&early), Some(Ordering::Greater));

    // One time, two values: neither comes first, though they differ.
    let other = RecordInfo { time_offset: 5, value: 3 };
    assert_eq!(early.partial_cmp(&other), Some(Ordering::Equal));
    assert!(early != other);
    assert!(early <= other && early >= other);
}
