//! The calls into the `byteorder` crate.
//!
//! Nothing in this file is proved. Each function makes one call, and its
//! contract states, over the numeral model of [`crate::radix`], what the
//! source of `byteorder` shows of that call: a read decodes the first bytes of
//! the buffer with `from_le_bytes` / `from_be_bytes`, a write copies
//! `to_le_bytes` / `to_be_bytes` over the first bytes and leaves the rest
//! alone, and the signed forms go through the unsigned ones by a two's
//! complement cast. `byteorder` panics on a buffer shorter than the type, so
//! each function asks for one that is long enough.

use vstd::prelude::*;
use crate::radix::{le_nat, be_nat, le_bytes, be_bytes, to_signed, from_signed};

verus! {

/// `byteorder::LittleEndian::read_u16`: the first two bytes of the buffer as a
/// little-endian numeral.
#[verifier::external_body]
pub(crate) fn read_u16_le(buf: &[u8]) -> (r: u16)
    requires
        buf@.len() >= 2,
    ensures
        r as nat == le_nat(buf@.take(2)),
{
    <byteorder::LittleEndian as byteorder::ByteOrder>::read_u16(buf)
}

/// `byteorder::LittleEndian::read_u32`: the first four bytes of the buffer as a
/// little-endian numeral.
#[verifier::external_body]
pub(crate) fn read_u32_le(buf: &[u8]) -> (r: u32)
    requires
        buf@.len() >= 4,
    ensures
        r as nat == le_nat(buf@.take(4)),
{
    <byteorder::LittleEndian as byteorder::ByteOrder>::read_u32(buf)
}

/// `byteorder::LittleEndian::read_u64`: the first eight bytes of the buffer as a
/// little-endian numeral.
#[verifier::external_body]
pub(crate) fn read_u64_le(buf: &[u8]) -> (r: u64)
    requires
        buf@.len() >= 8,
    ensures
        r as nat == le_nat(buf@.take(8)),
{
    <byteorder::LittleEndian as byteorder::ByteOrder>::read_u64(buf)
}

/// `byteorder::LittleEndian::read_u128`: the first sixteen bytes of the buffer as a
/// little-endian numeral.
#[verifier::external_body]
pub(crate) fn read_u128_le(buf: &[u8]) -> (r: u128)
    requires
        buf@.len() >= 16,
    ensures
        r as nat == le_nat(buf@.take(16)),
{
    <byteorder::LittleEndian as byteorder::ByteOrder>::read_u128(buf)
}

/// `byteorder::LittleEndian::read_i16`: the first two bytes of the buffer as a
/// little-endian numeral, read in two's complement.
#[verifier::external_body]
pub(crate) fn read_i16_le(buf: &[u8]) -> (r: i16)
    requires
        buf@.len() >= 2,
    ensures
        r as int == to_signed(le_nat(buf@.take(2)), 2),
{
    <byteorder::LittleEndian as byteorder::ByteOrder>::read_i16(buf)
}

/// `byteorder::LittleEndian::read_i32`: the first four bytes of the buffer as a
/// little-endian numeral, read in two's complement.
#[verifier::external_body]
pub(crate) fn read_i32_le(buf: &[u8]) -> (r: i32)
    requires
        buf@.len() >= 4,
    ensures
        r as int == to_signed(le_nat(buf@.take(4)), 4),
{
    <byteorder::LittleEndian as byteorder::ByteOrder>::read_i32(buf)
}

/// `byteorder::LittleEndian::read_i64`: the first eight bytes of the buffer as a
/// little-endian numeral, read in two's complement.
#[verifier::external_body]
pub(crate) fn read_i64_le(buf: &[u8]) -> (r: i64)
    requires
        buf@.len() >= 8,
    ensures
        r as int == to_signed(le_nat(buf@.take(8)), 8),
{
    <byteorder::LittleEndian as byteorder::ByteOrder>::read_i64(buf)
}

/// `byteorder::LittleEndian::read_i128`: the first sixteen bytes of the buffer as a
/// little-endian numeral, read in two's complement.
#[verifier::external_body]
pub(crate) fn read_i128_le(buf: &[u8]) -> (r: i128)
    requires
        buf@.len() >= 16,
    ensures
        r as int == to_signed(le_nat(buf@.take(16)), 16),
{
    <byteorder::LittleEndian as byteorder::ByteOrder>::read_i128(buf)
}

/// `byteorder::BigEndian::read_u16`: the first two bytes of the buffer as a
/// big-endian numeral.
#[verifier::external_body]
pub(crate) fn read_u16_be(buf: &[u8]) -> (r: u16)
    requires
        buf@.len() >= 2,
    ensures
        r as nat == be_nat(buf@.take(2)),
{
    <byteorder::BigEndian as byteorder::ByteOrder>::read_u16(buf)
}

/// `byteorder::BigEndian::read_u32`: the first four bytes of the buffer as a
/// big-endian numeral.
#[verifier::external_body]
pub(crate) fn read_u32_be(buf: &[u8]) -> (r: u32)
    requires
        buf@.len() >= 4,
    ensures
        r as nat == be_nat(buf@.take(4)),
{
    <byteorder::BigEndian as byteorder::ByteOrder>::read_u32(buf)
}

/// `byteorder::BigEndian::read_u64`: the first eight bytes of the buffer as a
/// big-endian numeral.
#[verifier::external_body]
pub(crate) fn read_u64_be(buf: &[u8]) -> (r: u64)
    requires
        buf@.len() >= 8,
    ensures
        r as nat == be_nat(buf@.take(8)),
{
    <byteorder::BigEndian as byteorder::ByteOrder>::read_u64(buf)
}

/// `byteorder::BigEndian::read_u128`: the first sixteen bytes of the buffer as a
/// big-endian numeral.
#[verifier::external_body]
pub(crate) fn read_u128_be(buf: &[u8]) -> (r: u128)
    requires
        buf@.len() >= 16,
    ensures
        r as nat == be_nat(buf@.take(16)),
{
    <byteorder::BigEndian as byteorder::ByteOrder>::read_u128(buf)
}

/// `byteorder::BigEndian::read_i16`: the first two bytes of the buffer as a
/// big-endian numeral, read in two's complement.
#[verifier::external_body]
pub(crate) fn read_i16_be(buf: &[u8]) -> (r: i16)
    requires
        buf@.len() >= 2,
    ensures
        r as int == to_signed(be_nat(buf@.take(2)), 2),
{
    <byteorder::BigEndian as byteorder::ByteOrder>::read_i16(buf)
}

/// `byteorder::BigEndian::read_i32`: the first four bytes of the buffer as a
/// big-endian numeral, read in two's complement.
#[verifier::external_body]
pub(crate) fn read_i32_be(buf: &[u8]) -> (r: i32)
    requires
        buf@.len() >= 4,
    ensures
        r as int == to_signed(be_nat(buf@.take(4)), 4),
{
    <byteorder::BigEndian as byteorder::ByteOrder>::read_i32(buf)
}

/// `byteorder::BigEndian::read_i64`: the first eight bytes of the buffer as a
/// big-endian numeral, read in two's complement.
#[verifier::external_body]
pub(crate) fn read_i64_be(buf: &[u8]) -> (r: i64)
    requires
        buf@.len() >= 8,
    ensures
        r as int == to_signed(be_nat(buf@.take(8)), 8),
{
    <byteorder::BigEndian as byteorder::ByteOrder>::read_i64(buf)
}

/// `byteorder::BigEndian::read_i128`: the first sixteen bytes of the buffer as a
/// big-endian numeral, read in two's complement.
#[verifier::external_body]
pub(crate) fn read_i128_be(buf: &[u8]) -> (r: i128)
    requires
        buf@.len() >= 16,
    ensures
        r as int == to_signed(be_nat(buf@.take(16)), 16),
{
    <byteorder::BigEndian as byteorder::ByteOrder>::read_i128(buf)
}

/// `byteorder::LittleEndian::write_u16`: the first two bytes of the buffer become
/// the little-endian bytes of `n`; the others stay.
#[verifier::external_body]
pub(crate) fn write_u16_le(buf: &mut [u8], n: u16)
    requires
        old(buf)@.len() >= 2,
    ensures
        final(buf)@ == le_bytes(n as nat, 2) + old(buf)@.skip(2),
{
    <byteorder::LittleEndian as byteorder::ByteOrder>::write_u16(buf, n)
}

/// `byteorder::LittleEndian::write_u32`: the first four bytes of the buffer become
/// the little-endian bytes of `n`; the others stay.
#[verifier::external_body]
pub(crate) fn write_u32_le(buf: &mut [u8], n: u32)
    requires
        old(buf)@.len() >= 4,
    ensures
        final(buf)@ == le_bytes(n as nat, 4) + old(buf)@.skip(4),
{
    <byteorder::LittleEndian as byteorder::ByteOrder>::write_u32(buf, n)
}

/// `byteorder::LittleEndian::write_u64`: the first eight bytes of the buffer become
/// the little-endian bytes of `n`; the others stay.
#[verifier::external_body]
pub(crate) fn write_u64_le(buf: &mut [u8], n: u64)
    requires
        old(buf)@.len() >= 8,
    ensures
        final(buf)@ == le_bytes(n as nat, 8) + old(buf)@.skip(8),
{
    <byteorder::LittleEndian as byteorder::ByteOrder>::write_u64(buf, n)
}

/// `byteorder::LittleEndian::write_u128`: the first sixteen bytes of the buffer become
/// the little-endian bytes of `n`; the others stay.
#[verifier::external_body]
pub(crate) fn write_u128_le(buf: &mut [u8], n: u128)
    requires
        old(buf)@.len() >= 16,
    ensures
        final(buf)@ == le_bytes(n as nat, 16) + old(buf)@.skip(16),
{
    <byteorder::LittleEndian as byteorder::ByteOrder>::write_u128(buf, n)
}

/// `byteorder::LittleEndian::write_i16`: the first two bytes of the buffer become
/// the little-endian bytes of the two's complement of `n`; the others stay.
#[verifier::external_body]
pub(crate) fn write_i16_le(buf: &mut [u8], n: i16)
    requires
        old(buf)@.len() >= 2,
    ensures
        final(buf)@ == le_bytes(from_signed(n as int, 2), 2) + old(buf)@.skip(2),
{
    <byteorder::LittleEndian as byteorder::ByteOrder>::write_i16(buf, n)
}

/// `byteorder::LittleEndian::write_i32`: the first four bytes of the buffer become
/// the little-endian bytes of the two's complement of `n`; the others stay.
#[verifier::external_body]
pub(crate) fn write_i32_le(buf: &mut [u8], n: i32)
    requires
        old(buf)@.len() >= 4,
    ensures
        final(buf)@ == le_bytes(from_signed(n as int, 4), 4) + old(buf)@.skip(4),
{
    <byteorder::LittleEndian as byteorder::ByteOrder>::write_i32(buf, n)
}

/// `byteorder::LittleEndian::write_i64`: the first eight bytes of the buffer become
/// the little-endian bytes of the two's complement of `n`; the others stay.
#[verifier::external_body]
pub(crate) fn write_i64_le(buf: &mut [u8], n: i64)
    requires
        old(buf)@.len() >= 8,
    ensures
        final(buf)@ == le_bytes(from_signed(n as int, 8), 8) + old(buf)@.skip(8),
{
    <byteorder::LittleEndian as byteorder::ByteOrder>::write_i64(buf, n)
}

/// `byteorder::LittleEndian::write_i128`: the first sixteen bytes of the buffer become
/// the little-endian bytes of the two's complement of `n`; the others stay.
#[verifier::external_body]
pub(crate) fn write_i128_le(buf: &mut [u8], n: i128)
    requires
        old(buf)@.len() >= 16,
    ensures
        final(buf)@ == le_bytes(from_signed(n as int, 16), 16) + old(buf)@.skip(16),
{
    <byteorder::LittleEndian as byteorder::ByteOrder>::write_i128(buf, n)
}

/// `byteorder::BigEndian::write_u16`: the first two bytes of the buffer become
/// the big-endian bytes of `n`; the others stay.
#[verifier::external_body]
pub(crate) fn write_u16_be(buf: &mut [u8], n: u16)
    requires
        old(buf)@.len() >= 2,
    ensures
        final(buf)@ == be_bytes(n as nat, 2) + old(buf)@.skip(2),
{
    <byteorder::BigEndian as byteorder::ByteOrder>::write_u16(buf, n)
}

/// `byteorder::BigEndian::write_u32`: the first four bytes of the buffer become
/// the big-endian bytes of `n`; the others stay.
#[verifier::external_body]
pub(crate) fn write_u32_be(buf: &mut [u8], n: u32)
    requires
        old(buf)@.len() >= 4,
    ensures
        final(buf)@ == be_bytes(n as nat, 4) + old(buf)@.skip(4),
{
    <byteorder::BigEndian as byteorder::ByteOrder>::write_u32(buf, n)
}

/// `byteorder::BigEndian::write_u64`: the first eight bytes of the buffer become
/// the big-endian bytes of `n`; the others stay.
#[verifier::external_body]
pub(crate) fn write_u64_be(buf: &mut [u8], n: u64)
    requires
        old(buf)@.len() >= 8,
    ensures
        final(buf)@ == be_bytes(n as nat, 8) + old(buf)@.skip(8),
{
    <byteorder::BigEndian as byteorder::ByteOrder>::write_u64(buf, n)
}

/// `byteorder::BigEndian::write_u128`: the first sixteen bytes of the buffer become
/// the big-endian bytes of `n`; the others stay.
#[verifier::external_body]
pub(crate) fn write_u128_be(buf: &mut [u8], n: u128)
    requires
        old(buf)@.len() >= 16,
    ensures
        final(buf)@ == be_bytes(n as nat, 16) + old(buf)@.skip(16),
{
    <byteorder::BigEndian as byteorder::ByteOrder>::write_u128(buf, n)
}

/// `byteorder::BigEndian::write_i16`: the first two bytes of the buffer become
/// the big-endian bytes of the two's complement of `n`; the others stay.
#[verifier::external_body]
pub(crate) fn write_i16_be(buf: &mut [u8], n: i16)
    requires
        old(buf)@.len() >= 2,
    ensures
        final(buf)@ == be_bytes(from_signed(n as int, 2), 2) + old(buf)@.skip(2),
{
    <byteorder::BigEndian as byteorder::ByteOrder>::write_i16(buf, n)
}

/// `byteorder::BigEndian::write_i32`: the first four bytes of the buffer become
/// the big-endian bytes of the two's complement of `n`; the others stay.
#[verifier::external_body]
pub(crate) fn write_i32_be(buf: &mut [u8], n: i32)
    requires
        old(buf)@.len() >= 4,
    ensures
        final(buf)@ == be_bytes(from_signed(n as int, 4), 4) + old(buf)@.skip(4),
{
    <byteorder::BigEndian as byteorder::ByteOrder>::write_i32(buf, n)
}

/// `byteorder::BigEndian::write_i64`: the first eight bytes of the buffer become
/// the big-endian bytes of the two's complement of `n`; the others stay.
#[verifier::external_body]
pub(crate) fn write_i64_be(buf: &mut [u8], n: i64)
    requires
        old(buf)@.len() >= 8,
    ensures
        final(buf)@ == be_bytes(from_signed(n as int, 8), 8) + old(buf)@.skip(8),
{
    <byteorder::BigEndian as byteorder::ByteOrder>::write_i64(buf, n)
}

/// `byteorder::BigEndian::write_i128`: the first sixteen bytes of the buffer become
/// the big-endian bytes of the two's complement of `n`; the others stay.
#[verifier::external_body]
pub(crate) fn write_i128_be(buf: &mut [u8], n: i128)
    requires
        old(buf)@.len() >= 16,
    ensures
        final(buf)@ == be_bytes(from_signed(n as int, 16), 16) + old(buf)@.skip(16),
{
    <byteorder::BigEndian as byteorder::ByteOrder>::write_i128(buf, n)
}

} // verus!
