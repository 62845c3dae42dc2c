//! Fixed-width integer codecs over caller-supplied byte buffers, in
//! little-endian and big-endian byte order.
//!
//! The conversions themselves are made by the `byteorder` crate, through
//! [`crate::endian`]. Each function takes a buffer of exactly the width of its
//! type, and its contract says what is decoded or written over the numeral
//! model of [`crate::radix`].

use vstd::prelude::*;
use crate::endian;
use crate::radix::{le_nat, be_nat, le_bytes, be_bytes, to_signed, from_signed};

verus! {

/// Read a `u16` from a buffer. (Little Endian)
pub fn read_u16(buf: &[u8]) -> (r: u16)
    requires
        buf@.len() == 2,
    ensures
        r as nat == le_nat(buf@),
{
    proof {
        assert(buf@.take(2) =~= buf@);
    }
    endian::read_u16_le(buf)
}

/// Read a `u32` from a buffer. (Little Endian)
pub fn read_u32(buf: &[u8]) -> (r: u32)
    requires
        buf@.len() == 4,
    ensures
        r as nat == le_nat(buf@),
{
    proof {
        assert(buf@.take(4) =~= buf@);
    }
    endian::read_u32_le(buf)
}

/// Read a `u64` from a buffer. (Little Endian)
pub fn read_u64(buf: &[u8]) -> (r: u64)
    requires
        buf@.len() == 8,
    ensures
        r as nat == le_nat(buf@),
{
    proof {
        assert(buf@.take(8) =~= buf@);
    }
    endian::read_u64_le(buf)
}

/// Read a `u128` from a buffer. (Little Endian)
pub fn read_u128(buf: &[u8]) -> (r: u128)
    requires
        buf@.len() == 16,
    ensures
        r as nat == le_nat(buf@),
{
    proof {
        assert(buf@.take(16) =~= buf@);
    }
    endian::read_u128_le(buf)
}

/// Read a `i16` from a buffer. (Little Endian)
pub fn read_i16(buf: &[u8]) -> (r: i16)
    requires
        buf@.len() == 2,
    ensures
        r as int == to_signed(le_nat(buf@), 2),
{
    proof {
        assert(buf@.take(2) =~= buf@);
    }
    endian::read_i16_le(buf)
}

/// Read a `i32` from a buffer. (Little Endian)
pub fn read_i32(buf: &[u8]) -> (r: i32)
    requires
        buf@.len() == 4,
    ensures
        r as int == to_signed(le_nat(buf@), 4),
{
    proof {
        assert(buf@.take(4) =~= buf@);
    }
    endian::read_i32_le(buf)
}

/// Read a `i64` from a buffer. (Little Endian)
pub fn read_i64(buf: &[u8]) -> (r: i64)
    requires
        buf@.len() == 8,
    ensures
        r as int == to_signed(le_nat(buf@), 8),
{
    proof {
        assert(buf@.take(8) =~= buf@);
    }
    endian::read_i64_le(buf)
}

/// Read a `i128` from a buffer. (Little Endian)
pub fn read_i128(buf: &[u8]) -> (r: i128)
    requires
        buf@.len() == 16,
    ensures
        r as int == to_signed(le_nat(buf@), 16),
{
    proof {
        assert(buf@.take(16) =~= buf@);
    }
    endian::read_i128_le(buf)
}

/// Read a `u16` from a buffer. (Big Endian)
pub fn read_u16_be(buf: &[u8]) -> (r: u16)
    requires
        buf@.len() == 2,
    ensures
        r as nat == be_nat(buf@),
{
    proof {
        assert(buf@.take(2) =~= buf@);
    }
    endian::read_u16_be(buf)
}

/// Read a `u32` from a buffer. (Big Endian)
pub fn read_u32_be(buf: &[u8]) -> (r: u32)
    requires
        buf@.len() == 4,
    ensures
        r as nat == be_nat(buf@),
{
    proof {
        assert(buf@.take(4) =~= buf@);
    }
    endian::read_u32_be(buf)
}

/// Read a `u64` from a buffer. (Big Endian)
pub fn read_u64_be(buf: &[u8]) -> (r: u64)
    requires
        buf@.len() == 8,
    ensures
        r as nat == be_nat(buf@),
{
    proof {
        assert(buf@.take(8) =~= buf@);
    }
    endian::read_u64_be(buf)
}

/// Read a `u128` from a buffer. (Big Endian)
pub fn read_u128_be(buf: &[u8]) -> (r: u128)
    requires
        buf@.len() == 16,
    ensures
        r as nat == be_nat(buf@),
{
    proof {
        assert(buf@.take(16) =~= buf@);
    }
    endian::read_u128_be(buf)
}

/// Read a `i16` from a buffer. (Big Endian)
pub fn read_i16_be(buf: &[u8]) -> (r: i16)
    requires
        buf@.len() == 2,
    ensures
        r as int == to_signed(be_nat(buf@), 2),
{
    proof {
        assert(buf@.take(2) =~= buf@);
    }
    endian::read_i16_be(buf)
}

/// Read a `i32` from a buffer. (Big Endian)
pub fn read_i32_be(buf: &[u8]) -> (r: i32)
    requires
        buf@.len() == 4,
    ensures
        r as int == to_signed(be_nat(buf@), 4),
{
    proof {
        assert(buf@.take(4) =~= buf@);
    }
    endian::read_i32_be(buf)
}

/// Read a `i64` from a buffer. (Big Endian)
pub fn read_i64_be(buf: &[u8]) -> (r: i64)
    requires
        buf@.len() == 8,
    ensures
        r as int == to_signed(be_nat(buf@), 8),
{
    proof {
        assert(buf@.take(8) =~= buf@);
    }
    endian::read_i64_be(buf)
}

/// Read a `i128` from a buffer. (Big Endian)
pub fn read_i128_be(buf: &[u8]) -> (r: i128)
    requires
        buf@.len() == 16,
    ensures
        r as int == to_signed(be_nat(buf@), 16),
{
    proof {
        assert(buf@.take(16) =~= buf@);
    }
    endian::read_i128_be(buf)
}

/// Write a `u16` to a buffer. (Little Endian)
pub fn write_u16(buf: &mut [u8], n: u16)
    requires
        old(buf)@.len() == 2,
    ensures
        final(buf)@ == le_bytes(n as nat, 2),
{
    endian::write_u16_le(buf, n);
    proof {
        assert(old(buf)@.skip(2) =~= Seq::<u8>::empty());
        assert(buf@ =~= le_bytes(n as nat, 2));
    }
}

/// Write a `u32` to a buffer. (Little Endian)
pub fn write_u32(buf: &mut [u8], n: u32)
    requires
        old(buf)@.len() == 4,
    ensures
        final(buf)@ == le_bytes(n as nat, 4),
{
    endian::write_u32_le(buf, n);
    proof {
        assert(old(buf)@.skip(4) =~= Seq::<u8>::empty());
        assert(buf@ =~= le_bytes(n as nat, 4));
    }
}

/// Write a `u64` to a buffer. (Little Endian)
pub fn write_u64(buf: &mut [u8], n: u64)
    requires
        old(buf)@.len() == 8,
    ensures
        final(buf)@ == le_bytes(n as nat, 8),
{
    endian::write_u64_le(buf, n);
    proof {
        assert(old(buf)@.skip(8) =~= Seq::<u8>::empty());
        assert(buf@ =~= le_bytes(n as nat, 8));
    }
}

/// Write a `u128` to a buffer. (Little Endian)
pub fn write_u128(buf: &mut [u8], n: u128)
    requires
        old(buf)@.len() == 16,
    ensures
        final(buf)@ == le_bytes(n as nat, 16),
{
    endian::write_u128_le(buf, n);
    proof {
        assert(old(buf)@.skip(16) =~= Seq::<u8>::empty());
        assert(buf@ =~= le_bytes(n as nat, 16));
    }
}

/// Write a `i16` to a buffer. (Little Endian)
pub fn write_i16(buf: &mut [u8], n: i16)
    requires
        old(buf)@.len() == 2,
    ensures
        final(buf)@ == le_bytes(from_signed(n as int, 2), 2),
{
    endian::write_i16_le(buf, n);
    proof {
        assert(old(buf)@.skip(2) =~= Seq::<u8>::empty());
        assert(buf@ =~= le_bytes(from_signed(n as int, 2), 2));
    }
}

/// Write a `i32` to a buffer. (Little Endian)
pub fn write_i32(buf: &mut [u8], n: i32)
    requires
        old(buf)@.len() == 4,
    ensures
        final(buf)@ == le_bytes(from_signed(n as int, 4), 4),
{
    endian::write_i32_le(buf, n);
    proof {
        assert(old(buf)@.skip(4) =~= Seq::<u8>::empty());
        assert(buf@ =~= le_bytes(from_signed(n as int, 4), 4));
    }
}

/// Write a `i64` to a buffer. (Little Endian)
pub fn write_i64(buf: &mut [u8], n: i64)
    requires
        old(buf)@.len() == 8,
    ensures
        final(buf)@ == le_bytes(from_signed(n as int, 8), 8),
{
    endian::write_i64_le(buf, n);
    proof {
        assert(old(buf)@.skip(8) =~= Seq::<u8>::empty());
        assert(buf@ =~= le_bytes(from_signed(n as int, 8), 8));
    }
}

/// Write a `i128` to a buffer. (Little Endian)
pub fn write_i128(buf: &mut [u8], n: i128)
    requires
        old(buf)@.len() == 16,
    ensures
        final(buf)@ == le_bytes(from_signed(n as int, 16), 16),
{
    endian::write_i128_le(buf, n);
    proof {
        assert(old(buf)@.skip(16) =~= Seq::<u8>::empty());
        assert(buf@ =~= le_bytes(from_signed(n as int, 16), 16));
    }
}

/// Write a `u16` to a buffer. (Big Endian)
pub fn write_u16_be(buf: &mut [u8], n: u16)
    requires
        old(buf)@.len() == 2,
    ensures
        final(buf)@ == be_bytes(n as nat, 2),
{
    endian::write_u16_be(buf, n);
    proof {
        assert(old(buf)@.skip(2) =~= Seq::<u8>::empty());
        assert(buf@ =~= be_bytes(n as nat, 2));
    }
}

/// Write a `u32` to a buffer. (Big Endian)
pub fn write_u32_be(buf: &mut [u8], n: u32)
    requires
        old(buf)@.len() == 4,
    ensures
        final(buf)@ == be_bytes(n as nat, 4),
{
    endian::write_u32_be(buf, n);
    proof {
        assert(old(buf)@.skip(4) =~= Seq::<u8>::empty());
        assert(buf@ =~= be_bytes(n as nat, 4));
    }
}

/// Write a `u64` to a buffer. (Big Endian)
pub fn write_u64_be(buf: &mut [u8], n: u64)
    requires
        old(buf)@.len() == 8,
    ensures
        final(buf)@ == be_bytes(n as nat, 8),
{
    endian::write_u64_be(buf, n);
    proof {
        assert(old(buf)@.skip(8) =~= Seq::<u8>::empty());
        assert(buf@ =~= be_bytes(n as nat, 8));
    }
}

/// Write a `u128` to a buffer. (Big Endian)
pub fn write_u128_be(buf: &mut [u8], n: u128)
    requires
        old(buf)@.len() == 16,
    ensures
        final(buf)@ == be_bytes(n as nat, 16),
{
    endian::write_u128_be(buf, n);
    proof {
        assert(old(buf)@.skip(16) =~= Seq::<u8>::empty());
        assert(buf@ =~= be_bytes(n as nat, 16));
    }
}

/// Write a `i16` to a buffer. (Big Endian)
pub fn write_i16_be(buf: &mut [u8], n: i16)
    requires
        old(buf)@.len() == 2,
    ensures
        final(buf)@ == be_bytes(from_signed(n as int, 2), 2),
{
    endian::write_i16_be(buf, n);
    proof {
        assert(old(buf)@.skip(2) =~= Seq::<u8>::empty());
        assert(buf@ =~= be_bytes(from_signed(n as int, 2), 2));
    }
}

/// Write a `i32` to a buffer. (Big Endian)
pub fn write_i32_be(buf: &mut [u8], n: i32)
    requires
        old(buf)@.len() == 4,
    ensures
        final(buf)@ == be_bytes(from_signed(n as int, 4), 4),
{
    endian::write_i32_be(buf, n);
    proof {
        assert(old(buf)@.skip(4) =~= Seq::<u8>::empty());
        assert(buf@ =~= be_bytes(from_signed(n as int, 4), 4));
    }
}

/// Write a `i64` to a buffer. (Big Endian)
pub fn write_i64_be(buf: &mut [u8], n: i64)
    requires
        old(buf)@.len() == 8,
    ensures
        final(buf)@ == be_bytes(from_signed(n as int, 8), 8),
{
    endian::write_i64_be(buf, n);
    proof {
        assert(old(buf)@.skip(8) =~= Seq::<u8>::empty());
        assert(buf@ =~= be_bytes(from_signed(n as int, 8), 8));
    }
}

/// Write a `i128` to a buffer. (Big Endian)
pub fn write_i128_be(buf: &mut [u8], n: i128)
    requires
        old(buf)@.len() == 16,
    ensures
        final(buf)@ == be_bytes(from_signed(n as int, 16), 16),
{
    endian::write_i128_be(buf, n);
    proof {
        assert(old(buf)@.skip(16) =~= Seq::<u8>::empty());
        assert(buf@ =~= be_bytes(from_signed(n as int, 16), 16));
    }
}

} // verus!
