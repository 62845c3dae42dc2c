use binary_reader::{BinaryReader, ReadError};

#[test]
fn test_binary_reader_read() {
    let mut reader = BinaryReader::from_bytes(&vec![0, 0, 1, 2, 3, 67, 89, 44]);
    assert_eq!(reader.read(2).unwrap(), vec![0, 0]);
    assert_eq!(reader.pos(), 2);
    reader.seek(4).unwrap();
    assert_eq!(reader.read(2).unwrap(), vec![3, 67]);
    assert_eq!(reader.pos(), 6);
    reader.seek_relative(-3).unwrap();
    assert_eq!(reader.read(3).unwrap(), vec![2, 3, 67]);
}

#[test]
fn test_binary_reader_read_strings() {
    let mut reader = BinaryReader::from_bytes(&vec![
        0x61, 0x70, 0x70, 0x6c, 0x65, 0x73, 0x00, // "apples\0"
        0x62, 0x61, 0x6e, 0x61, 0x6e, 0x61, 0x73, 0x64, // "bananas"
        0x61, 0x74, 0x61, 0x00, 0x0a, // "data\0\n"
    ]);

    let string1 = "apples".to_string();
    let string2 = "bananas".to_string();
    let string3 = "data\0\n".to_string();

    assert_eq!(reader.read_string_ascii(), string1);
    assert_eq!(reader.read_string_ascii_limited(7).unwrap(), string2);
    assert_eq!(reader.read_string_ascii_limited(6).unwrap(), string3);
}

#[test]
fn new_reader_starts_at_zero() {
    let reader = BinaryReader::from_bytes(&[9, 8, 7]);
    assert_eq!(reader.pos(), 0);
    assert_eq!(reader.size(), 3);
    assert!(reader.is_file());
}

#[test]
fn from_bytes_copies_the_slice() {
    let mut source = vec![1u8, 2, 3];
    let mut reader = BinaryReader::from_bytes(&source);
    source[0] = 99;
    assert_eq!(reader.read(3).unwrap(), vec![1, 2, 3]);
}

#[test]
fn sequential_reads_advance_position() {
    let data: Vec<u8> = (0u8..20).collect();
    let mut reader = BinaryReader::from_bytes(&data);
    let mut sum = 0u64;
    for len in [3u64, 0, 5, 1, 11] {
        let got = reader.read(len).unwrap();
        assert_eq!(got, data[sum as usize..(sum + len) as usize].to_vec());
        sum += len;
        assert_eq!(reader.pos(), sum);
    }
    assert_eq!(reader.pos(), 20);
    assert_eq!(reader.size(), 20);
}

#[test]
fn seek_round_trip() {
    let mut reader = BinaryReader::from_bytes(&[0u8; 16]);
    for p in [0u64, 1, 7, 15, 16] {
        reader.seek(p).unwrap();
        assert_eq!(reader.pos(), p);
    }
}

#[test]
fn seek_past_end_is_accepted_and_read_fails() {
    let mut reader = BinaryReader::from_bytes(&[1, 2, 3]);
    assert_eq!(reader.seek(10), Ok(()));
    assert_eq!(reader.pos(), 10);
    assert_eq!(reader.read(1), Err(ReadError::UnexpectedEof));
    assert_eq!(reader.pos(), 10);
    assert_eq!(reader.size(), 3);
}

#[test]
fn seek_to_largest_position() {
    let mut reader = BinaryReader::from_bytes(&[1, 2, 3]);
    reader.seek(u64::MAX).unwrap();
    assert_eq!(reader.pos(), u64::MAX);
    assert_eq!(reader.read(0).unwrap(), Vec::<u8>::new());
    assert_eq!(reader.pos(), u64::MAX);
    assert_eq!(reader.seek_relative(1), Err(ReadError::InvalidSeek));
    assert_eq!(reader.pos(), u64::MAX);
}

#[test]
fn relative_seek_composition() {
    let mut reader = BinaryReader::from_bytes(&[0u8; 32]);
    for (p, d) in [(0u64, 0i64), (4, 3), (10, -10), (31, 1), (16, -5)] {
        reader.seek(p).unwrap();
        reader.seek_relative(d).unwrap();
        assert_eq!(reader.pos() as i64, p as i64 + d);
    }
}

#[test]
fn relative_seek_before_start_fails() {
    let mut reader = BinaryReader::from_bytes(&[1, 2, 3, 4]);
    reader.seek(2).unwrap();
    assert_eq!(reader.seek_relative(-3), Err(ReadError::InvalidSeek));
    assert_eq!(reader.pos(), 2);
    assert_eq!(reader.read(2).unwrap(), vec![3, 4]);
}

#[test]
fn failed_read_keeps_position() {
    let mut reader = BinaryReader::from_bytes(&[1, 2, 3]);
    assert_eq!(reader.read(1).unwrap(), vec![1]);
    assert_eq!(reader.read(5), Err(ReadError::UnexpectedEof));
    assert_eq!(reader.pos(), 1);
}

#[test]
fn failed_read_leaves_store_at_end() {
    let mut reader = BinaryReader::from_bytes(&[1, 2, 3]);
    assert_eq!(reader.read(5), Err(ReadError::UnexpectedEof));
    assert_eq!(reader.pos(), 0);
    // The store's cursor is at the end now; the tracked position is stale
    // until the next absolute seek.
    assert_eq!(reader.read(1), Err(ReadError::UnexpectedEof));
    reader.seek_relative(-1).unwrap();
    assert_eq!(reader.pos(), u64::MAX);
    assert_eq!(reader.read(1).unwrap(), vec![3]);
    assert_eq!(reader.pos(), 0);
    reader.seek(0).unwrap();
    assert_eq!(reader.read(3).unwrap(), vec![1, 2, 3]);
    assert_eq!(reader.pos(), 3);
}

#[test]
fn read_of_nothing_succeeds() {
    let mut reader = BinaryReader::from_bytes(&[]);
    assert_eq!(reader.read(0).unwrap(), Vec::<u8>::new());
    assert_eq!(reader.pos(), 0);
    assert_eq!(reader.size(), 0);
}

#[test]
fn read_of_huge_length_fails() {
    let mut reader = BinaryReader::from_bytes(&[1, 2]);
    assert_eq!(reader.read(u64::MAX), Err(ReadError::UnexpectedEof));
    assert_eq!(reader.pos(), 0);
}

#[test]
fn bounded_ascii_read_success() {
    let mut reader = BinaryReader::from_bytes(&[0x61, 0x70, 0x70, 0x6c, 0x65, 0x73, 0x00]);
    assert_eq!(reader.read_string_ascii_limited(6).unwrap(), "apples".to_string());
    assert_eq!(reader.pos(), 6);
}

#[test]
fn bounded_ascii_read_keeps_nul() {
    let mut reader = BinaryReader::from_bytes(&[0x61, 0x00, 0x7f]);
    assert_eq!(reader.read_string_ascii_limited(3).unwrap(), "a\0\u{7f}".to_string());
    assert_eq!(reader.pos(), 3);
}

#[test]
fn bounded_ascii_read_rolls_back_on_invalid_data() {
    let mut reader = BinaryReader::from_bytes(&[0x41, 0x80, 0x42]);
    assert_eq!(reader.read_string_ascii_limited(3), Err(ReadError::InvalidData));
    assert_eq!(reader.pos(), 0);
    assert_eq!(reader.read(3).unwrap(), vec![0x41, 0x80, 0x42]);
}

#[test]
fn bounded_ascii_read_rolls_back_whole_span() {
    let mut reader = BinaryReader::from_bytes(&[0x10, 0x41, 0x42, 0x43, 0xff, 0x44]);
    reader.seek(1).unwrap();
    assert_eq!(reader.read_string_ascii_limited(4), Err(ReadError::InvalidData));
    assert_eq!(reader.pos(), 1);
    assert_eq!(reader.read_string_ascii_limited(3).unwrap(), "ABC".to_string());
    assert_eq!(reader.pos(), 4);
}

#[test]
fn bounded_ascii_read_past_end_fails() {
    let mut reader = BinaryReader::from_bytes(&[0x41, 0x42]);
    assert_eq!(reader.read_string_ascii_limited(3), Err(ReadError::UnexpectedEof));
    assert_eq!(reader.pos(), 0);
}

#[test]
fn unbounded_ascii_read_stops_at_nul() {
    let mut reader =
        BinaryReader::from_bytes(&[0x61, 0x70, 0x70, 0x6c, 0x65, 0x73, 0x00, 0x62, 0x63]);
    assert_eq!(reader.read_string_ascii(), "apples".to_string());
    assert_eq!(reader.pos(), 7);
    assert_eq!(reader.read_u8(), Ok(0x62));
}

#[test]
fn unbounded_ascii_read_stops_at_non_ascii() {
    let mut reader = BinaryReader::from_bytes(&[0x68, 0x69, 0x80, 0x21]);
    assert_eq!(reader.read_string_ascii(), "hi".to_string());
    assert_eq!(reader.pos(), 3);
    assert_eq!(reader.read_string_ascii(), "!".to_string());
    assert_eq!(reader.pos(), 4);
}

#[test]
fn unbounded_ascii_read_at_end_is_empty() {
    let mut reader = BinaryReader::from_bytes(&[0x61, 0x62]);
    reader.seek(2).unwrap();
    assert_eq!(reader.read_string_ascii(), String::new());
    assert_eq!(reader.pos(), 2);
    let mut empty = BinaryReader::from_bytes(&[]);
    assert_eq!(empty.read_string_ascii(), String::new());
    assert_eq!(empty.pos(), 0);
}

#[test]
fn unbounded_ascii_read_runs_to_end_of_data() {
    let mut reader = BinaryReader::from_bytes(&[0x61, 0x62, 0x63]);
    assert_eq!(reader.read_string_ascii(), "abc".to_string());
    assert_eq!(reader.pos(), 3);
}

#[test]
fn typed_reads_little_endian() {
    let data: Vec<u8> = (1u8..=16).collect();
    let mut reader = BinaryReader::from_bytes(&data);
    assert_eq!(reader.read_u8(), Ok(0x01));
    reader.seek(0).unwrap();
    assert_eq!(reader.read_u16(), Ok(0x0201));
    assert_eq!(reader.pos(), 2);
    reader.seek(0).unwrap();
    assert_eq!(reader.read_u32(), Ok(0x0403_0201));
    assert_eq!(reader.pos(), 4);
    reader.seek(0).unwrap();
    assert_eq!(reader.read_u64(), Ok(0x0807_0605_0403_0201));
    assert_eq!(reader.pos(), 8);
    reader.seek(0).unwrap();
    assert_eq!(reader.read_u128(), Ok(0x100f_0e0d_0c0b_0a09_0807_0605_0403_0201));
    assert_eq!(reader.pos(), 16);
    reader.seek(0).unwrap();
    assert_eq!(reader.read_i16(), Ok(0x0201));
    reader.seek(0).unwrap();
    assert_eq!(reader.read_i32(), Ok(0x0403_0201));
    reader.seek(0).unwrap();
    assert_eq!(reader.read_i64(), Ok(0x0807_0605_0403_0201));
    reader.seek(0).unwrap();
    assert_eq!(reader.read_i128(), Ok(0x100f_0e0d_0c0b_0a09_0807_0605_0403_0201));
}

#[test]
fn typed_reads_big_endian() {
    let data: Vec<u8> = (1u8..=16).collect();
    let mut reader = BinaryReader::from_bytes(&data);
    assert_eq!(reader.read_u16_be(), Ok(0x0102));
    assert_eq!(reader.pos(), 2);
    reader.seek(0).unwrap();
    assert_eq!(reader.read_u32_be(), Ok(0x0102_0304));
    reader.seek(0).unwrap();
    assert_eq!(reader.read_u64_be(), Ok(0x0102_0304_0506_0708));
    reader.seek(0).unwrap();
    assert_eq!(reader.read_u128_be(), Ok(0x0102_0304_0506_0708_090a_0b0c_0d0e_0f10));
    assert_eq!(reader.pos(), 16);
    reader.seek(0).unwrap();
    assert_eq!(reader.read_i16_be(), Ok(0x0102));
    reader.seek(0).unwrap();
    assert_eq!(reader.read_i32_be(), Ok(0x0102_0304));
    reader.seek(0).unwrap();
    assert_eq!(reader.read_i64_be(), Ok(0x0102_0304_0506_0708));
    reader.seek(0).unwrap();
    assert_eq!(reader.read_i128_be(), Ok(0x0102_0304_0506_0708_090a_0b0c_0d0e_0f10));
}

#[test]
fn typed_reads_of_negative_values() {
    let mut reader = BinaryReader::from_bytes(&[0xfe, 0xff, 0xff, 0xff, 0xff, 0xff, 0xff, 0x80]);
    assert_eq!(reader.read_i16(), Ok(-2));
    reader.seek(0).unwrap();
    assert_eq!(reader.read_i32(), Ok(-2));
    reader.seek(0).unwrap();
    assert_eq!(reader.read_i64(), Ok(i64::MIN + 0x00ff_ffff_ffff_fffe));
    reader.seek(6).unwrap();
    assert_eq!(reader.read_i16_be(), Ok(-128));
    reader.seek(4).unwrap();
    assert_eq!(reader.read_i32_be(), Ok(-128));
}

#[test]
fn typed_read_past_end_fails_and_keeps_position() {
    let mut reader = BinaryReader::from_bytes(&[1, 2, 3]);
    reader.seek(2).unwrap();
    assert_eq!(reader.read_u16(), Err(ReadError::UnexpectedEof));
    assert_eq!(reader.pos(), 2);
    reader.seek(0).unwrap();
    assert_eq!(reader.read_u32_be(), Err(ReadError::UnexpectedEof));
    assert_eq!(reader.read_i64(), Err(ReadError::UnexpectedEof));
    assert_eq!(reader.read_u128(), Err(ReadError::UnexpectedEof));
    assert_eq!(reader.pos(), 0);
    let mut empty = BinaryReader::from_bytes(&[]);
    assert_eq!(empty.read_u8(), Err(ReadError::UnexpectedEof));
}
