use binary_reader::binary_reader::decode_ascii;
use binary_reader::data_interface::DataInterface;
use binary_reader::serialization::{
    read_i128, read_i128_be, read_i16, read_i16_be, read_i32, read_i32_be, read_i64, read_i64_be,
    read_u128, read_u128_be, read_u16, read_u16_be, read_u32, read_u32_be, read_u64, read_u64_be,
    write_i128, write_i128_be, write_i16, write_i16_be, write_i32, write_i32_be, write_i64,
    write_i64_be, write_u128, write_u128_be, write_u16, write_u16_be, write_u32, write_u32_be,
    write_u64, write_u64_be,
};
use binary_reader::ReadError;

#[test]
fn decode_exact_values() {
    assert_eq!(read_u16(&[0x34, 0x12]), 0x1234);
    assert_eq!(read_u16_be(&[0x34, 0x12]), 0x3412);
    assert_eq!(read_u32(&[0x78, 0x56, 0x34, 0x12]), 0x1234_5678);
    assert_eq!(read_u32_be(&[0x78, 0x56, 0x34, 0x12]), 0x7856_3412);
    assert_eq!(read_u64(&[1, 0, 0, 0, 0, 0, 0, 0]), 1);
    assert_eq!(read_u64_be(&[1, 0, 0, 0, 0, 0, 0, 0]), 1 << 56);
    assert_eq!(read_u128(&[2, 0, 0, 0, 0, 0, 0, 0, 0, 0, 0, 0, 0, 0, 0, 0]), 2);
    assert_eq!(read_u128_be(&[2, 0, 0, 0, 0, 0, 0, 0, 0, 0, 0, 0, 0, 0, 0, 0]), 2 << 120);
    assert_eq!(read_i16(&[0xff, 0x7f]), i16::MAX);
    assert_eq!(read_i16(&[0x00, 0x80]), i16::MIN);
    assert_eq!(read_i16_be(&[0x80, 0x00]), i16::MIN);
    assert_eq!(read_i32(&[0xff, 0xff, 0xff, 0xff]), -1);
    assert_eq!(read_i32_be(&[0xff, 0xff, 0xff, 0xfe]), -2);
    assert_eq!(read_i64(&[0xfd, 0xff, 0xff, 0xff, 0xff, 0xff, 0xff, 0xff]), -3);
    assert_eq!(read_i64_be(&[0x80, 0, 0, 0, 0, 0, 0, 0]), i64::MIN);
    assert_eq!(read_i128(&[0xff; 16]), -1);
    assert_eq!(read_i128_be(&[0x80, 0, 0, 0, 0, 0, 0, 0, 0, 0, 0, 0, 0, 0, 0, 0]), i128::MIN);
}

#[test]
fn encode_exact_values() {
    let mut b2 = [0u8; 2];
    write_u16(&mut b2, 0x1234);
    assert_eq!(b2, [0x34, 0x12]);
    write_u16_be(&mut b2, 0x1234);
    assert_eq!(b2, [0x12, 0x34]);
    write_i16(&mut b2, -2);
    assert_eq!(b2, [0xfe, 0xff]);
    write_i16_be(&mut b2, -2);
    assert_eq!(b2, [0xff, 0xfe]);
    let mut b4 = [0u8; 4];
    write_u32(&mut b4, 0x1234_5678);
    assert_eq!(b4, [0x78, 0x56, 0x34, 0x12]);
    write_u32_be(&mut b4, 0x1234_5678);
    assert_eq!(b4, [0x12, 0x34, 0x56, 0x78]);
    write_i32(&mut b4, i32::MIN);
    assert_eq!(b4, [0, 0, 0, 0x80]);
    write_i32_be(&mut b4, i32::MIN);
    assert_eq!(b4, [0x80, 0, 0, 0]);
    let mut b8 = [0u8; 8];
    write_u64(&mut b8, 0x0102_0304_0506_0708);
    assert_eq!(b8, [8, 7, 6, 5, 4, 3, 2, 1]);
    write_u64_be(&mut b8, 0x0102_0304_0506_0708);
    assert_eq!(b8, [1, 2, 3, 4, 5, 6, 7, 8]);
    write_i64(&mut b8, -1);
    assert_eq!(b8, [0xff; 8]);
    write_i64_be(&mut b8, 1);
    assert_eq!(b8, [0, 0, 0, 0, 0, 0, 0, 1]);
    let mut b16 = [0u8; 16];
    write_u128(&mut b16, 1);
    assert_eq!(b16, [1, 0, 0, 0, 0, 0, 0, 0, 0, 0, 0, 0, 0, 0, 0, 0]);
    write_u128_be(&mut b16, 1);
    assert_eq!(b16, [0, 0, 0, 0, 0, 0, 0, 0, 0, 0, 0, 0, 0, 0, 0, 1]);
    write_i128(&mut b16, -1);
    assert_eq!(b16, [0xff; 16]);
    write_i128_be(&mut b16, i128::MIN);
    assert_eq!(b16, [0x80, 0, 0, 0, 0, 0, 0, 0, 0, 0, 0, 0, 0, 0, 0, 0]);
}

#[test]
fn unsigned_round_trip() {
    for v in [0u16, 1, 0x00ff, 0x0100, 0x1234, u16::MAX] {
        let mut b = [0u8; 2];
        write_u16(&mut b, v);
        assert_eq!(read_u16(&b), v);
        write_u16_be(&mut b, v);
        assert_eq!(read_u16_be(&b), v);
    }
    for v in [0u32, 1, 0x1234_5678, u32::MAX] {
        let mut b = [0u8; 4];
        write_u32(&mut b, v);
        assert_eq!(read_u32(&b), v);
        write_u32_be(&mut b, v);
        assert_eq!(read_u32_be(&b), v);
    }
    for v in [0u64, 1, 0x0123_4567_89ab_cdef, u64::MAX] {
        let mut b = [0u8; 8];
        write_u64(&mut b, v);
        assert_eq!(read_u64(&b), v);
        write_u64_be(&mut b, v);
        assert_eq!(read_u64_be(&b), v);
    }
    for v in [0u128, 1, 0x0123_4567_89ab_cdef_0011_2233_4455_6677, u128::MAX] {
        let mut b = [0u8; 16];
        write_u128(&mut b, v);
        assert_eq!(read_u128(&b), v);
        write_u128_be(&mut b, v);
        assert_eq!(read_u128_be(&b), v);
    }
}

#[test]
fn signed_round_trip() {
    for v in [0i16, 1, -1, -2, 0x1234, i16::MIN, i16::MAX] {
        let mut b = [0u8; 2];
        write_i16(&mut b, v);
        assert_eq!(read_i16(&b), v);
        write_i16_be(&mut b, v);
        assert_eq!(read_i16_be(&b), v);
    }
    for v in [0i32, 1, -1, -0x1234_5678, i32::MIN, i32::MAX] {
        let mut b = [0u8; 4];
        write_i32(&mut b, v);
        assert_eq!(read_i32(&b), v);
        write_i32_be(&mut b, v);
        assert_eq!(read_i32_be(&b), v);
    }
    for v in [0i64, 1, -1, -0x0123_4567_89ab_cdef, i64::MIN, i64::MAX] {
        let mut b = [0u8; 8];
        write_i64(&mut b, v);
        assert_eq!(read_i64(&b), v);
        write_i64_be(&mut b, v);
        assert_eq!(read_i64_be(&b), v);
    }
    for v in [0i128, 1, -1, -0x0123_4567_89ab_cdef_0011_2233_4455_6677, i128::MIN, i128::MAX] {
        let mut b = [0u8; 16];
        write_i128(&mut b, v);
        assert_eq!(read_i128(&b), v);
        write_i128_be(&mut b, v);
        assert_eq!(read_i128_be(&b), v);
    }
}

#[test]
fn byte_orders_diverge() {
    let mut b2 = [0u8; 2];
    write_u16(&mut b2, 0x1234);
    assert_ne!(read_u16_be(&b2), 0x1234);
    assert_eq!(read_u16_be(&b2), 0x3412);
    let mut b4 = [0u8; 4];
    write_u32_be(&mut b4, 0x1234_5678);
    assert_ne!(read_u32(&b4), 0x1234_5678);
    assert_eq!(read_u32(&b4), 0x7856_3412);
    let mut b8 = [0u8; 8];
    write_i64(&mut b8, -2);
    assert_ne!(read_i64_be(&b8), -2);
    let mut b16 = [0u8; 16];
    write_u128(&mut b16, 1);
    assert_ne!(read_u128_be(&b16), 1);
}

#[test]
fn byte_orders_agree_on_palindromes() {
    let mut b2 = [0u8; 2];
    write_u16(&mut b2, 0x4141);
    assert_eq!(read_u16_be(&b2), 0x4141);
    let mut b4 = [0u8; 4];
    write_u32(&mut b4, 0x1234_3412);
    assert_eq!(read_u32_be(&b4), 0x1234_3412);
}

#[test]
fn decode_ascii_accepts_all_of_ascii() {
    assert_eq!(decode_ascii(&[]), Ok(String::new()));
    assert_eq!(decode_ascii(&[0x00, 0x41, 0x7f]), Ok("\0A\u{7f}".to_string()));
    assert_eq!(decode_ascii(b"data\0\n"), Ok("data\0\n".to_string()));
}

#[test]
fn decode_ascii_rejects_high_bytes() {
    assert_eq!(decode_ascii(&[0x80]), Err(ReadError::InvalidData));
    assert_eq!(decode_ascii(&[0x41, 0x42, 0xff]), Err(ReadError::InvalidData));
}

#[test]
fn store_reads_and_seeks() {
    let mut store = DataInterface::from_bytes(&[5, 6, 7, 8]);
    assert_eq!(store.offset(), 0);
    assert_eq!(store.read(3).unwrap(), vec![5, 6, 7]);
    assert_eq!(store.offset(), 3);
    assert_eq!(store.read(2), Err(ReadError::UnexpectedEof));
    assert_eq!(store.offset(), 4);
    assert_eq!(store.seek_relative(-4), Ok(()));
    assert_eq!(store.offset(), 0);
    assert_eq!(store.seek_relative(-1), Err(ReadError::InvalidSeek));
    assert_eq!(store.offset(), 0);
    assert_eq!(store.seek(9), Ok(()));
    assert_eq!(store.offset(), 9);
    assert_eq!(store.read(0).unwrap(), Vec::<u8>::new());
    assert_eq!(store.offset(), 9);
    assert_eq!(store.seek(u64::MAX), Ok(()));
    assert_eq!(store.seek_relative(1), Err(ReadError::InvalidSeek));
    assert_eq!(store.offset(), u64::MAX);
}
