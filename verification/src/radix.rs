//! The mathematical model of fixed-width integers laid out as bytes: a byte
//! sequence read as a base-256 numeral, least significant digit first
//! (little-endian) or last (big-endian), and two's complement for the signed
//! types.

use vstd::prelude::*;

verus! {

/// `256^len`: the number of values that `len` bytes can hold.
pub open spec fn radix(len: nat) -> nat
    decreases len,
{
    if len == 0 {
        1
    } else {
        256 * radix((len - 1) as nat)
    }
}

/// The number that `s` denotes with its first byte least significant.
pub open spec fn le_nat(s: Seq<u8>) -> nat
    decreases s.len(),
{
    if s.len() == 0 {
        0
    } else {
        s[0] as nat + 256 * le_nat(s.drop_first())
    }
}

/// The number that `s` denotes with its first byte most significant.
pub open spec fn be_nat(s: Seq<u8>) -> nat {
    le_nat(s.reverse())
}

/// The `len` low base-256 digits of `n`, least significant first.
pub open spec fn le_bytes(n: nat, len: nat) -> Seq<u8>
    decreases len,
{
    if len == 0 {
        Seq::empty()
    } else {
        seq![(n % 256) as u8] + le_bytes(n / 256, (len - 1) as nat)
    }
}

/// The `len` low base-256 digits of `n`, most significant first.
pub open spec fn be_bytes(n: nat, len: nat) -> Seq<u8> {
    le_bytes(n, len).reverse()
}

/// The two's complement reading of an unsigned `len`-byte value.
pub open spec fn to_signed(n: nat, len: nat) -> int {
    if 2 * n >= radix(len) {
        n - radix(len)
    } else {
        n as int
    }
}

/// The unsigned `len`-byte value whose two's complement reading is `v`.
pub open spec fn from_signed(v: int, len: nat) -> nat {
    if v < 0 {
        (v + radix(len)) as nat
    } else {
        v as nat
    }
}

/// Whether `v` can be held by a signed integer of `len` bytes.
pub open spec fn fits_signed(v: int, len: nat) -> bool {
    -(radix(len) as int) <= 2 * v < radix(len) as int
}

/// `radix` on the widths of the fixed-width integer types.
pub proof fn lemma_radix_values()
    ensures
        radix(1) == 0x100,
        radix(2) == 0x1_0000,
        radix(4) == 0x1_0000_0000,
        radix(8) == 0x1_0000_0000_0000_0000,
        radix(16) == 0x1_0000_0000_0000_0000_0000_0000_0000_0000,
{
    reveal_with_fuel(radix, 17);
}

/// `le_bytes` yields exactly `len` bytes.
pub proof fn lemma_le_bytes_len(n: nat, len: nat)
    ensures
        le_bytes(n, len).len() == len,
    decreases len,
{
    if len > 0 {
        lemma_le_bytes_len(n / 256, (len - 1) as nat);
    }
}

/// A numeral of `s.len()` bytes denotes a number below `256^s.len()`.
pub proof fn lemma_le_nat_bound(s: Seq<u8>)
    ensures
        le_nat(s) < radix(s.len()),
    decreases s.len(),
{
    if s.len() > 0 {
        lemma_le_nat_bound(s.drop_first());
    }
}

/// Decoding the little-endian digits of `n` gives `n` back.
pub proof fn lemma_le_nat_of_bytes(n: nat, len: nat)
    requires
        n < radix(len),
    ensures
        le_nat(le_bytes(n, len)) == n,
    decreases len,
{
    if len > 0 {
        let rest = le_bytes(n / 256, (len - 1) as nat);
        let s = le_bytes(n, len);
        lemma_le_bytes_len(n, len);
        lemma_le_nat_of_bytes(n / 256, (len - 1) as nat);
        assert(s.drop_first() =~= rest);
        assert(s[0] == (n % 256) as u8);
    }
}

/// Encoding what `s` denotes, on as many bytes, gives `s` back.
pub proof fn lemma_le_bytes_of_nat(s: Seq<u8>)
    ensures
        le_bytes(le_nat(s), s.len()) == s,
    decreases s.len(),
{
    if s.len() > 0 {
        let rest = s.drop_first();
        lemma_le_bytes_of_nat(rest);
        let v = le_nat(s);
        assert(v % 256 == s[0] as nat && v / 256 == le_nat(rest));
        assert(le_bytes(v, s.len()) =~= s);
    } else {
        assert(le_bytes(le_nat(s), s.len()) =~= s);
    }
}

/// Reversing a sequence twice gives it back.
pub proof fn lemma_reverse_twice(s: Seq<u8>)
    ensures
        s.reverse().reverse() == s,
{
    assert(s.reverse().reverse() =~= s);
}

/// What a buffer decodes to fits the type of its width: the unsigned reading
/// lies below `256^len`, the signed one within the two's complement range, in
/// either byte order.
pub proof fn law_decoded_value_fits(s: Seq<u8>)
    ensures
        le_nat(s) < radix(s.len()),
        be_nat(s) < radix(s.len()),
        fits_signed(to_signed(le_nat(s), s.len()), s.len()),
        fits_signed(to_signed(be_nat(s), s.len()), s.len()),
{
    lemma_le_nat_bound(s);
    lemma_le_nat_bound(s.reverse());
}

/// Round trip of the unsigned types: a value below `256^len`, encoded on `len`
/// bytes in either byte order and decoded in the same order, is unchanged.
pub proof fn law_unsigned_round_trip(n: nat, len: nat)
    requires
        n < radix(len),
    ensures
        le_bytes(n, len).len() == len,
        be_bytes(n, len).len() == len,
        le_nat(le_bytes(n, len)) == n,
        be_nat(be_bytes(n, len)) == n,
{
    lemma_le_bytes_len(n, len);
    lemma_le_nat_of_bytes(n, len);
    lemma_reverse_twice(le_bytes(n, len));
}

/// Round trip of the signed types: a value that fits `len` bytes, encoded in
/// two's complement in either byte order and decoded in the same order, is
/// unchanged; negative values included.
pub proof fn law_signed_round_trip(v: int, len: nat)
    requires
        fits_signed(v, len),
    ensures
        from_signed(v, len) < radix(len),
        to_signed(le_nat(le_bytes(from_signed(v, len), len)), len) == v,
        to_signed(be_nat(be_bytes(from_signed(v, len), len)), len) == v,
{
    law_unsigned_round_trip(from_signed(v, len), len);
}

/// Round trip on each of the fixed widths: whatever value an integer type
/// holds, its bytes in either order decode to it again.
pub proof fn law_fixed_width_round_trip(a: u16, b: u32, c: u64, d: u128, e: i16, f: i32, g: i64, h: i128)
    ensures
        le_nat(le_bytes(a as nat, 2)) == a,
        be_nat(be_bytes(a as nat, 2)) == a,
        le_nat(le_bytes(b as nat, 4)) == b,
        be_nat(be_bytes(b as nat, 4)) == b,
        le_nat(le_bytes(c as nat, 8)) == c,
        be_nat(be_bytes(c as nat, 8)) == c,
        le_nat(le_bytes(d as nat, 16)) == d,
        be_nat(be_bytes(d as nat, 16)) == d,
        to_signed(le_nat(le_bytes(from_signed(e as int, 2), 2)), 2) == e,
        to_signed(be_nat(be_bytes(from_signed(e as int, 2), 2)), 2) == e,
        to_signed(le_nat(le_bytes(from_signed(f as int, 4), 4)), 4) == f,
        to_signed(be_nat(be_bytes(from_signed(f as int, 4), 4)), 4) == f,
        to_signed(le_nat(le_bytes(from_signed(g as int, 8), 8)), 8) == g,
        to_signed(be_nat(be_bytes(from_signed(g as int, 8), 8)), 8) == g,
        to_signed(le_nat(le_bytes(from_signed(h as int, 16), 16)), 16) == h,
        to_signed(be_nat(be_bytes(from_signed(h as int, 16), 16)), 16) == h,
{
    lemma_radix_values();
    law_unsigned_round_trip(a as nat, 2);
    law_unsigned_round_trip(b as nat, 4);
    law_unsigned_round_trip(c as nat, 8);
    law_unsigned_round_trip(d as nat, 16);
    law_signed_round_trip(e as int, 2);
    law_signed_round_trip(f as int, 4);
    law_signed_round_trip(g as int, 8);
    law_signed_round_trip(h as int, 16);
}

/// Byte order is respected: a value whose little-endian bytes do not read the
/// same in both directions decodes to another value when the bytes written in
/// one order are read in the other.
pub proof fn law_byte_orders_diverge(n: nat, len: nat)
    requires
        n < radix(len),
        le_bytes(n, len) != le_bytes(n, len).reverse(),
    ensures
        be_nat(le_bytes(n, len)) != n,
        le_nat(be_bytes(n, len)) != n,
{
    let s = le_bytes(n, len);
    let r = s.reverse();
    lemma_le_bytes_len(n, len);
    lemma_le_nat_of_bytes(n, len);
    lemma_le_bytes_of_nat(s);
    lemma_le_bytes_of_nat(r);
    assert(r.len() == s.len());
    if le_nat(r) == n {
        assert(r == le_bytes(n, len));
    }
}

} // verus!
