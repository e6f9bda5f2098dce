use chunked_transfer::byte_range::{part_count, part_range, PartRange, RangeError};

#[test]
fn part_count_is_ceiling() {
    assert_eq!(part_count(10_000_000, 5_000_000), 2);
    assert_eq!(part_count(10_000_001, 5_000_000), 3);
    assert_eq!(part_count(10, 3), 4);
    assert_eq!(part_count(1, 1024), 1);
    assert_eq!(part_count(0, 1024), 0);
    assert_eq!(part_count(u64::MAX, 1), u64::MAX);
    assert_eq!(part_count(u64::MAX, 2), u64::MAX / 2 + 1);
}

#[test]
fn ranges_of_uneven_file() {
    assert_eq!(part_range(1, 3, 10), Ok(PartRange { offset: 0, length: 3 }));
    assert_eq!(part_range(2, 3, 10), Ok(PartRange { offset: 3, length: 3 }));
    assert_eq!(part_range(3, 3, 10), Ok(PartRange { offset: 6, length: 3 }));
    assert_eq!(part_range(4, 3, 10), Ok(PartRange { offset: 9, length: 1 }));
    assert_eq!(part_range(5, 3, 10), Err(RangeError { part_number: 5 }));
}

#[test]
fn ranges_partition_the_file() {
    for &(size, part) in &[(10u64, 3u64), (12, 4), (1, 7), (5_000_001, 1_000_000)] {
        let n = part_count(size, part) as u32;
        let mut next = 0u64;
        for p in 1..=n {
            let r = part_range(p, part, size).unwrap();
            assert_eq!(r.offset, next);
            assert!(r.length > 0);
            next = r.offset + r.length;
        }
        assert_eq!(next, size);
        let last = part_range(n, part, size).unwrap();
        assert_eq!(last.length, size - (n as u64 - 1) * part);
        assert!(part_range(n + 1, part, size).is_err());
    }
}

#[test]
fn part_zero_is_out_of_range() {
    assert_eq!(part_range(0, 5, 100), Err(RangeError { part_number: 0 }));
}

#[test]
fn empty_file_has_no_parts() {
    assert_eq!(part_range(1, 5, 0), Err(RangeError { part_number: 1 }));
}

#[test]
fn offset_past_u64_is_out_of_range() {
    assert_eq!(part_range(u32::MAX, u64::MAX / 2, u64::MAX), Err(RangeError { part_number: u32::MAX }));
    assert_eq!(part_range(2, u64::MAX, u64::MAX), Err(RangeError { part_number: 2 }));
    assert_eq!(part_range(1, u64::MAX, u64::MAX), Ok(PartRange { offset: 0, length: u64::MAX }));
}
