//! The cursor reader: sequential reads, seeks and typed reads over a store,
//! with a tracked position of its own.

use vstd::prelude::*;
use crate::data_interface::{DataInterface, StoreState};
use crate::error::ReadError;
use crate::radix::{be_nat, le_nat, to_signed};

verus! {

/// `v` brought into the range of a signed 64-bit integer by two's complement
/// wrapping.
#[verifier::opaque]
pub open spec fn wrap_signed(v: int) -> int {
    (v + 0x8000_0000_0000_0000) % 0x1_0000_0000_0000_0000 - 0x8000_0000_0000_0000
}

/// The unsigned 64-bit reading of a tracked position.
#[verifier::opaque]
pub open spec fn as_unsigned(v: int) -> nat {
    (v % 0x1_0000_0000_0000_0000) as nat
}

/// Wrapping leaves a value that a signed 64-bit integer holds as it is.
pub proof fn lemma_wrap_in_range(v: int)
    requires
        -0x8000_0000_0000_0000 <= v < 0x8000_0000_0000_0000,
    ensures
        wrap_signed(v) == v,
{
    reveal(wrap_signed);
}

/// Wrapping after each of two steps is wrapping once after both.
pub proof fn lemma_wrap_sum(a: int, b: int)
    ensures
        wrap_signed(wrap_signed(a) + b) == wrap_signed(a + b),
{
    reveal(wrap_signed);
    let h: int = 0x8000_0000_0000_0000;
    let m: int = 0x1_0000_0000_0000_0000;
    vstd::arithmetic::div_mod::lemma_add_mod_noop_right(b, a + h, m);
    assert(wrap_signed(a) + b + h == b + (a + h) % m);
    assert(b + (a + h) == a + b + h);
}

/// Read as unsigned, a wrapped value is the value modulo `2^64`; below
/// `2^64` and not negative, it is the value itself.
pub proof fn lemma_unsigned_of_wrap(v: int)
    ensures
        as_unsigned(wrap_signed(v)) == v % 0x1_0000_0000_0000_0000,
        0 <= v < 0x1_0000_0000_0000_0000 ==> as_unsigned(wrap_signed(v)) == v,
{
    reveal(wrap_signed);
    reveal(as_unsigned);
}

/// Whether every byte of `s` is ASCII.
pub open spec fn all_ascii(s: Seq<u8>) -> bool {
    forall|i: int| 0 <= i < s.len() ==> s[i] < 0x80
}

/// The bytes of `s`, each as the character with that code.
pub open spec fn as_chars(s: Seq<u8>) -> Seq<char> {
    Seq::new(s.len(), |i: int| s[i] as char)
}

/// Whether `b` continues a run of text: ASCII and not NUL.
pub open spec fn is_text_byte(b: u8) -> bool {
    b != 0 && b < 0x80
}

/// The index at which the run of text bytes that starts at `from` ends: that of
/// the first byte from there on that is NUL or outside ASCII, or the length of
/// `data` where there is none.
pub open spec fn text_end(data: Seq<u8>, from: int) -> int
    decreases data.len() - from,
{
    if from < 0 || from >= data.len() || !is_text_byte(data[from]) {
        from
    } else {
        text_end(data, from + 1)
    }
}

/// What a reader is, mathematically: its store, the position it tracks (signed,
/// and kept apart from the store's cursor), and the two attributes fixed when
/// it was made.
pub struct ReaderState {
    pub store: StoreState,
    pub position: int,
    pub size: nat,
    pub is_file: bool,
}

impl ReaderState {
    /// A reader just made over `data`. It reports itself as file-backed, as
    /// every reader does.
    pub open spec fn fresh(data: Seq<u8>) -> ReaderState {
        ReaderState {
            store: StoreState { data, offset: 0 },
            position: 0,
            size: data.len(),
            is_file: true,
        }
    }

    /// Whether the recorded size is the length of the data, as it is for every
    /// reader from the moment it is made.
    pub open spec fn wf(self) -> bool {
        self.size == self.store.data.len()
    }

    /// The position as callers see it.
    pub open spec fn pos(self) -> nat {
        as_unsigned(self.position)
    }

    /// Whether `len` bytes can be read.
    pub open spec fn can_read(self, len: nat) -> bool {
        self.store.can_read(len)
    }

    /// The `len` bytes that a read would hand out.
    pub open spec fn next_bytes(self, len: nat) -> Seq<u8> {
        self.store.next_bytes(len)
    }

    /// The reader once `len` bytes have been read.
    pub open spec fn after_read(self, len: nat) -> ReaderState {
        ReaderState {
            store: self.store.after_read(len),
            position: wrap_signed(self.position + len),
            ..self
        }
    }

    /// The reader once a read has failed: the tracked position stays, the
    /// store's cursor stands at the end of the data.
    pub open spec fn after_failed_read(self) -> ReaderState {
        ReaderState { store: self.store.at_end(), ..self }
    }

    /// The reader once it has sought to `pos`.
    pub open spec fn after_seek(self, pos: nat) -> ReaderState {
        ReaderState { store: self.store.after_seek(pos), position: wrap_signed(pos as int), ..self }
    }

    /// Whether a relative seek by `delta` succeeds.
    pub open spec fn can_seek_relative(self, delta: int) -> bool {
        self.store.can_seek_relative(delta)
    }

    /// The reader once it has sought by `delta`.
    pub open spec fn after_seek_relative(self, delta: int) -> ReaderState {
        ReaderState {
            store: self.store.after_seek_relative(delta),
            position: wrap_signed(self.position + delta),
            ..self
        }
    }

    /// Where the run of text bytes at the cursor ends.
    pub open spec fn text_stop(self) -> int {
        text_end(self.store.data, self.store.start() as int)
    }

    /// The run of text bytes at the cursor.
    pub open spec fn text_run(self) -> Seq<u8> {
        self.store.data.subrange(self.store.start() as int, self.text_stop())
    }

    /// The reader once the run of text at the cursor has been scanned: past the
    /// byte that ended the run, or, where the data ended first, as after a
    /// failed read behind the run.
    pub open spec fn after_text_scan(self) -> ReaderState {
        let run = (self.text_stop() - self.store.start()) as nat;
        if self.text_stop() < self.store.data.len() {
            self.after_read(run + 1)
        } else {
            self.after_read(run).after_failed_read()
        }
    }
}

/// Binary data reader.
#[derive(Debug)]
pub struct BinaryReader {
    is_file: bool,
    size: u64,
    position: i64,
    inner: DataInterface,
}

impl View for BinaryReader {
    type V = ReaderState;

    closed spec fn view(&self) -> ReaderState {
        ReaderState {
            store: self.inner@,
            position: self.position as int,
            size: self.size as nat,
            is_file: self.is_file,
        }
    }
}

/// The tracked position moved by `delta`, wrapping.
fn shifted(position: i64, delta: i128) -> (r: i64)
    requires
        -0x1_0000_0000_0000_0000 < delta < 0x1_0000_0000_0000_0000,
    ensures
        r as int == wrap_signed(position + delta),
{
    proof {
        reveal(wrap_signed);
    }
    let sum: i128 = position as i128 + delta;
    if sum > i64::MAX as i128 {
        (sum - 0x1_0000_0000_0000_0000) as i64
    } else if sum < i64::MIN as i128 {
        (sum + 0x1_0000_0000_0000_0000) as i64
    } else {
        sum as i64
    }
}

/// `String::push` of std: `c` is appended to `s`.
#[verifier::external_body]
fn push_char(s: &mut String, c: char)
    ensures
        final(s)@ == old(s)@.push(c),
{
    s.push(c)
}

/// Decodes `bytes` as ASCII text, one character for each byte. Fails with
/// `InvalidData` if and only if a byte has its high bit set.
pub fn decode_ascii(bytes: &[u8]) -> (r: Result<String, ReadError>)
    ensures
        all_ascii(bytes@) ==> r is Ok && r->Ok_0@ == as_chars(bytes@),
        !all_ascii(bytes@) ==> r == Err::<String, ReadError>(ReadError::InvalidData),
{
    let mut out = String::new();
    let mut i: usize = 0;
    while i < bytes.len()
        invariant
            i <= bytes@.len(),
            all_ascii(bytes@.take(i as int)),
            out@ == as_chars(bytes@.take(i as int)),
        decreases bytes@.len() - i,
    {
        let c: u8 = bytes[i];
        if c < 0x80 {
            push_char(&mut out, c as char);
        } else {
            return Err(ReadError::InvalidData);
        }
        i = i + 1;
        proof {
            assert(bytes@.take(i as int) =~= bytes@.take(i - 1).push(c));
            assert(as_chars(bytes@.take(i as int)) =~= as_chars(bytes@.take(i - 1)).push(
                c as char,
            ));
        }
    }
    proof {
        assert(bytes@.take(i as int) =~= bytes@);
    }
    Ok(out)
}

impl BinaryReader {
    /// Create a `BinaryReader` over a copy of a `u8` slice.
    pub fn from_bytes(bytes: &[u8]) -> (r: Self)
        ensures
            r@ == ReaderState::fresh(bytes@),
    {
        BinaryReader {
            is_file: true,
            size: bytes.len() as u64,
            position: 0,
            inner: DataInterface::from_bytes(bytes),
        }
    }

    /// Read a specified number of bytes. Succeeds if and only if that many
    /// remain; a failed read leaves the tracked position as it was.
    pub fn read(&mut self, len: u64) -> (r: Result<Vec<u8>, ReadError>)
        ensures
            old(self)@.can_read(len as nat) ==> r is Ok && r->Ok_0@ == old(self)@.next_bytes(
                len as nat,
            ) && final(self)@ == old(self)@.after_read(len as nat),
            !old(self)@.can_read(len as nat) ==> r == Err::<Vec<u8>, ReadError>(
                ReadError::UnexpectedEof,
            ) && final(self)@ == old(self)@.after_failed_read(),
    {
        match self.inner.read(len) {
            Ok(b) => {
                self.position = shifted(self.position, len as i128);
                Ok(b)
            },
            Err(e) => Err(e),
        }
    }

    /// Seek to a specified position in the data. Always succeeds, past the end
    /// of the data too.
    pub fn seek(&mut self, pos: u64) -> (r: Result<(), ReadError>)
        ensures
            r is Ok,
            final(self)@ == old(self)@.after_seek(pos as nat),
    {
        match self.inner.seek(pos) {
            Ok(()) => {
                self.position = shifted(0, pos as i128);
                Ok(())
            },
            Err(e) => Err(e),
        }
    }

    /// Seek a specified amount of bytes in the data, backward where the amount
    /// is negative. Fails with `InvalidSeek`, changing nothing, if and only if
    /// the store's cursor would come to stand before the first byte or past the
    /// largest position.
    pub fn seek_relative(&mut self, offset: i64) -> (r: Result<(), ReadError>)
        ensures
            old(self)@.can_seek_relative(offset as int) ==> r is Ok && final(self)@ == old(
                self,
            )@.after_seek_relative(offset as int),
            !old(self)@.can_seek_relative(offset as int) ==> r == Err::<(), ReadError>(
                ReadError::InvalidSeek,
            ) && final(self)@ == old(self)@,
    {
        match self.inner.seek_relative(offset) {
            Ok(()) => {
                self.position = shifted(self.position, offset as i128);
                Ok(())
            },
            Err(e) => Err(e),
        }
    }

    /// Return the current position in the data: the tracked position, read as
    /// an unsigned number.
    pub fn pos(&self) -> (r: u64)
        ensures
            r as nat == self@.pos(),
    {
        proof {
            reveal(as_unsigned);
        }
        if self.position >= 0 {
            self.position as u64
        } else {
            (self.position as i128 + 0x1_0000_0000_0000_0000) as u64
        }
    }

    /// Returns the flag set when the reader was made. It is `true` for a
    /// reader over a buffer in memory as well.
    pub fn is_file(&self) -> (r: bool)
        ensures
            r == self@.is_file,
    {
        self.is_file
    }

    /// Returns size of the data, as it was when the reader was made.
    pub fn size(&self) -> (r: u64)
        ensures
            r as nat == self@.size,
    {
        self.size
    }

    /// Read a `u8` from the data.
    pub fn read_u8(&mut self) -> (r: Result<u8, ReadError>)
        ensures
            old(self)@.can_read(1) ==> r == Ok::<u8, ReadError>(old(self)@.next_bytes(1)[0])
                && final(self)@ == old(self)@.after_read(1),
            !old(self)@.can_read(1) ==> r == Err::<u8, ReadError>(ReadError::UnexpectedEof)
                && final(self)@ == old(self)@.after_failed_read(),
    {
        match self.read(1) {
            Ok(b) => Ok(b[0]),
            Err(e) => Err(e),
        }
    }

    /// Read a `u16` from the data. (Little Endian)
    pub fn read_u16(&mut self) -> (r: Result<u16, ReadError>)
        ensures
            old(self)@.can_read(2) ==> r is Ok && r->Ok_0 as nat == le_nat(old(self)@.next_bytes(2))
                && final(self)@ == old(self)@.after_read(2),
            !old(self)@.can_read(2) ==> r == Err::<u16, ReadError>(ReadError::UnexpectedEof)
                && final(self)@ == old(self)@.after_failed_read(),
    {
        match self.read(2) {
            Ok(b) => Ok(crate::serialization::read_u16(b.as_slice())),
            Err(e) => Err(e),
        }
    }

    /// Read a `u32` from the data. (Little Endian)
    pub fn read_u32(&mut self) -> (r: Result<u32, ReadError>)
        ensures
            old(self)@.can_read(4) ==> r is Ok && r->Ok_0 as nat == le_nat(old(self)@.next_bytes(4))
                && final(self)@ == old(self)@.after_read(4),
            !old(self)@.can_read(4) ==> r == Err::<u32, ReadError>(ReadError::UnexpectedEof)
                && final(self)@ == old(self)@.after_failed_read(),
    {
        match self.read(4) {
            Ok(b) => Ok(crate::serialization::read_u32(b.as_slice())),
            Err(e) => Err(e),
        }
    }

    /// Read a `u64` from the data. (Little Endian)
    pub fn read_u64(&mut self) -> (r: Result<u64, ReadError>)
        ensures
            old(self)@.can_read(8) ==> r is Ok && r->Ok_0 as nat == le_nat(old(self)@.next_bytes(8))
                && final(self)@ == old(self)@.after_read(8),
            !old(self)@.can_read(8) ==> r == Err::<u64, ReadError>(ReadError::UnexpectedEof)
                && final(self)@ == old(self)@.after_failed_read(),
    {
        match self.read(8) {
            Ok(b) => Ok(crate::serialization::read_u64(b.as_slice())),
            Err(e) => Err(e),
        }
    }

    /// Read a `u128` from the data. (Little Endian)
    pub fn read_u128(&mut self) -> (r: Result<u128, ReadError>)
        ensures
            old(self)@.can_read(16) ==> r is Ok && r->Ok_0 as nat == le_nat(old(self)@.next_bytes(16))
                && final(self)@ == old(self)@.after_read(16),
            !old(self)@.can_read(16) ==> r == Err::<u128, ReadError>(ReadError::UnexpectedEof)
                && final(self)@ == old(self)@.after_failed_read(),
    {
        match self.read(16) {
            Ok(b) => Ok(crate::serialization::read_u128(b.as_slice())),
            Err(e) => Err(e),
        }
    }

    /// Read a `i16` from the data. (Little Endian)
    pub fn read_i16(&mut self) -> (r: Result<i16, ReadError>)
        ensures
            old(self)@.can_read(2) ==> r is Ok && r->Ok_0 as int == to_signed(le_nat(old(self)@.next_bytes(2)), 2)
                && final(self)@ == old(self)@.after_read(2),
            !old(self)@.can_read(2) ==> r == Err::<i16, ReadError>(ReadError::UnexpectedEof)
                && final(self)@ == old(self)@.after_failed_read(),
    {
        match self.read(2) {
            Ok(b) => Ok(crate::serialization::read_i16(b.as_slice())),
            Err(e) => Err(e),
        }
    }

    /// Read a `i32` from the data. (Little Endian)
    pub fn read_i32(&mut self) -> (r: Result<i32, ReadError>)
        ensures
            old(self)@.can_read(4) ==> r is Ok && r->Ok_0 as int == to_signed(le_nat(old(self)@.next_bytes(4)), 4)
                && final(self)@ == old(self)@.after_read(4),
            !old(self)@.can_read(4) ==> r == Err::<i32, ReadError>(ReadError::UnexpectedEof)
                && final(self)@ == old(self)@.after_failed_read(),
    {
        match self.read(4) {
            Ok(b) => Ok(crate::serialization::read_i32(b.as_slice())),
            Err(e) => Err(e),
        }
    }

    /// Read a `i64` from the data. (Little Endian)
    pub fn read_i64(&mut self) -> (r: Result<i64, ReadError>)
        ensures
            old(self)@.can_read(8) ==> r is Ok && r->Ok_0 as int == to_signed(le_nat(old(self)@.next_bytes(8)), 8)
                && final(self)@ == old(self)@.after_read(8),
            !old(self)@.can_read(8) ==> r == Err::<i64, ReadError>(ReadError::UnexpectedEof)
                && final(self)@ == old(self)@.after_failed_read(),
    {
        match self.read(8) {
            Ok(b) => Ok(crate::serialization::read_i64(b.as_slice())),
            Err(e) => Err(e),
        }
    }

    /// Read a `i128` from the data. (Little Endian)
    pub fn read_i128(&mut self) -> (r: Result<i128, ReadError>)
        ensures
            old(self)@.can_read(16) ==> r is Ok && r->Ok_0 as int == to_signed(le_nat(old(self)@.next_bytes(16)), 16)
                && final(self)@ == old(self)@.after_read(16),
            !old(self)@.can_read(16) ==> r == Err::<i128, ReadError>(ReadError::UnexpectedEof)
                && final(self)@ == old(self)@.after_failed_read(),
    {
        match self.read(16) {
            Ok(b) => Ok(crate::serialization::read_i128(b.as_slice())),
            Err(e) => Err(e),
        }
    }

    /// Read a `u16` from the data. (Big Endian)
    pub fn read_u16_be(&mut self) -> (r: Result<u16, ReadError>)
        ensures
            old(self)@.can_read(2) ==> r is Ok && r->Ok_0 as nat == be_nat(old(self)@.next_bytes(2))
                && final(self)@ == old(self)@.after_read(2),
            !old(self)@.can_read(2) ==> r == Err::<u16, ReadError>(ReadError::UnexpectedEof)
                && final(self)@ == old(self)@.after_failed_read(),
    {
        match self.read(2) {
            Ok(b) => Ok(crate::serialization::read_u16_be(b.as_slice())),
            Err(e) => Err(e),
        }
    }

    /// Read a `u32` from the data. (Big Endian)
    pub fn read_u32_be(&mut self) -> (r: Result<u32, ReadError>)
        ensures
            old(self)@.can_read(4) ==> r is Ok && r->Ok_0 as nat == be_nat(old(self)@.next_bytes(4))
                && final(self)@ == old(self)@.after_read(4),
            !old(self)@.can_read(4) ==> r == Err::<u32, ReadError>(ReadError::UnexpectedEof)
                && final(self)@ == old(self)@.after_failed_read(),
    {
        match self.read(4) {
            Ok(b) => Ok(crate::serialization::read_u32_be(b.as_slice())),
            Err(e) => Err(e),
        }
    }

    /// Read a `u64` from the data. (Big Endian)
    pub fn read_u64_be(&mut self) -> (r: Result<u64, ReadError>)
        ensures
            old(self)@.can_read(8) ==> r is Ok && r->Ok_0 as nat == be_nat(old(self)@.next_bytes(8))
                && final(self)@ == old(self)@.after_read(8),
            !old(self)@.can_read(8) ==> r == Err::<u64, ReadError>(ReadError::UnexpectedEof)
                && final(self)@ == old(self)@.after_failed_read(),
    {
        match self.read(8) {
            Ok(b) => Ok(crate::serialization::read_u64_be(b.as_slice())),
            Err(e) => Err(e),
        }
    }

    /// Read a `u128` from the data. (Big Endian)
    pub fn read_u128_be(&mut self) -> (r: Result<u128, ReadError>)
        ensures
            old(self)@.can_read(16) ==> r is Ok && r->Ok_0 as nat == be_nat(old(self)@.next_bytes(16))
                && final(self)@ == old(self)@.after_read(16),
            !old(self)@.can_read(16) ==> r == Err::<u128, ReadError>(ReadError::UnexpectedEof)
                && final(self)@ == old(self)@.after_failed_read(),
    {
        match self.read(16) {
            Ok(b) => Ok(crate::serialization::read_u128_be(b.as_slice())),
            Err(e) => Err(e),
        }
    }

    /// Read a `i16` from the data. (Big Endian)
    pub fn read_i16_be(&mut self) -> (r: Result<i16, ReadError>)
        ensures
            old(self)@.can_read(2) ==> r is Ok && r->Ok_0 as int == to_signed(be_nat(old(self)@.next_bytes(2)), 2)
                && final(self)@ == old(self)@.after_read(2),
            !old(self)@.can_read(2) ==> r == Err::<i16, ReadError>(ReadError::UnexpectedEof)
                && final(self)@ == old(self)@.after_failed_read(),
    {
        match self.read(2) {
            Ok(b) => Ok(crate::serialization::read_i16_be(b.as_slice())),
            Err(e) => Err(e),
        }
    }

    /// Read a `i32` from the data. (Big Endian)
    pub fn read_i32_be(&mut self) -> (r: Result<i32, ReadError>)
        ensures
            old(self)@.can_read(4) ==> r is Ok && r->Ok_0 as int == to_signed(be_nat(old(self)@.next_bytes(4)), 4)
                && final(self)@ == old(self)@.after_read(4),
            !old(self)@.can_read(4) ==> r == Err::<i32, ReadError>(ReadError::UnexpectedEof)
                && final(self)@ == old(self)@.after_failed_read(),
    {
        match self.read(4) {
            Ok(b) => Ok(crate::serialization::read_i32_be(b.as_slice())),
            Err(e) => Err(e),
        }
    }

    /// Read a `i64` from the data. (Big Endian)
    pub fn read_i64_be(&mut self) -> (r: Result<i64, ReadError>)
        ensures
            old(self)@.can_read(8) ==> r is Ok && r->Ok_0 as int == to_signed(be_nat(old(self)@.next_bytes(8)), 8)
                && final(self)@ == old(self)@.after_read(8),
            !old(self)@.can_read(8) ==> r == Err::<i64, ReadError>(ReadError::UnexpectedEof)
                && final(self)@ == old(self)@.after_failed_read(),
    {
        match self.read(8) {
            Ok(b) => Ok(crate::serialization::read_i64_be(b.as_slice())),
            Err(e) => Err(e),
        }
    }

    /// Read a `i128` from the data. (Big Endian)
    pub fn read_i128_be(&mut self) -> (r: Result<i128, ReadError>)
        ensures
            old(self)@.can_read(16) ==> r is Ok && r->Ok_0 as int == to_signed(be_nat(old(self)@.next_bytes(16)), 16)
                && final(self)@ == old(self)@.after_read(16),
            !old(self)@.can_read(16) ==> r == Err::<i128, ReadError>(ReadError::UnexpectedEof)
                && final(self)@ == old(self)@.after_failed_read(),
    {
        match self.read(16) {
            Ok(b) => Ok(crate::serialization::read_i128_be(b.as_slice())),
            Err(e) => Err(e),
        }
    }

    /// Read a string of a specified length from the data. Fails with
    /// `UnexpectedEof` where fewer bytes remain, and with `InvalidData` where
    /// one of them is not ASCII; in the second case the whole span is unread
    /// again, so that the reader is as it was before the call.
    pub fn read_string_ascii_limited(&mut self, len: u64) -> (r: Result<String, ReadError>)
        ensures
            !old(self)@.can_read(len as nat) ==> r == Err::<String, ReadError>(
                ReadError::UnexpectedEof,
            ) && final(self)@ == old(self)@.after_failed_read(),
            old(self)@.can_read(len as nat) && all_ascii(old(self)@.next_bytes(len as nat)) ==> r is Ok
                && r->Ok_0@ == as_chars(old(self)@.next_bytes(len as nat)) && final(self)@ == old(
                self,
            )@.after_read(len as nat),
            old(self)@.can_read(len as nat) && !all_ascii(old(self)@.next_bytes(len as nat)) ==> r
                == Err::<String, ReadError>(ReadError::InvalidData) && final(self)@ == old(self)@,
    {
        let before: i64 = self.position;
        let buf = match self.read(len) {
            Ok(b) => b,
            Err(e) => { return Err(e); },
        };
        match decode_ascii(buf.as_slice()) {
            Ok(s) => Ok(s),
            Err(e) => {
                self.unread(len, before);
                Err(e)
            },
        }
    }

    /// Read a string from the data until it encounters a NUL(0x00)/non-ascii
    /// character or the end of the data. Doesn't fail. The byte that ends the
    /// string is consumed and is not part of it.
    pub fn read_string_ascii(&mut self) -> (r: String)
        ensures
            r@ == as_chars(old(self)@.text_run()),
            final(self)@ == old(self)@.after_text_scan(),
    {
        let mut out = String::new();
        let mut reading = true;
        let ghost st = self@;
        let ghost from = st.store.start() as int;
        let ghost mut taken: nat = 0;
        proof {
            lemma_wrap_in_range(self.position as int);
        }
        while reading
            invariant
                st == old(self)@,
                from == st.store.start(),
                taken <= st.store.remaining(),
                text_end(st.store.data, from) == text_end(st.store.data, from + taken),
                out@ == as_chars(st.store.data.subrange(from, from + taken)),
                reading ==> self@ == st.after_read(taken),
                !reading ==> self@ == st.after_text_scan() && from + taken == st.text_stop(),
            decreases st.store.remaining() - taken, (if reading { 1int } else { 0int }),
        {
            match self.read_u8() {
                Ok(c) => {
                    if c < 0x80 && c != 0 {
                        push_char(&mut out, c as char);
                        proof {
                            lemma_wrap_sum(st.position + taken, 1);
                            assert(st.store.data.subrange(from, from + taken + 1)
                                =~= st.store.data.subrange(from, from + taken).push(c));
                            assert(as_chars(st.store.data.subrange(from, from + taken + 1))
                                =~= as_chars(st.store.data.subrange(from, from + taken)).push(
                                c as char,
                            ));
                            taken = taken + 1;
                        }
                    } else {
                        proof {
                            lemma_wrap_sum(st.position + taken, 1);
                        }
                        reading = false;
                    }
                },
                Err(_) => {
                    reading = false;
                },
            }
        }
        out
    }

    /// Takes back a read of `len` bytes that has just succeeded from the
    /// tracked position `before`: the store's cursor moves back by `len` and
    /// the tracked position with it.
    fn unread(&mut self, len: u64, before: i64)
        requires
            old(self)@.store.offset >= len,
            old(self)@.position == wrap_signed(before + len),
        ensures
            final(self)@.store == old(self)@.store.after_seek_relative(-(len as int)),
            final(self)@.position == before,
            final(self)@.size == old(self)@.size,
            final(self)@.is_file == old(self)@.is_file,
    {
        let target: u64 = self.inner.offset() - len;
        let _ = self.inner.seek(target);
        self.position = shifted(self.position, -(len as i128));
        proof {
            lemma_wrap_sum(before + len, -(len as int));
            lemma_wrap_in_range(before as int);
        }
    }
}

/// The sum of the lengths `lens`.
pub open spec fn total(lens: Seq<nat>) -> nat
    decreases lens.len(),
{
    if lens.len() == 0 {
        0
    } else {
        total(lens.drop_last()) + lens.last()
    }
}

/// The reader `st` once reads of the lengths `lens` have been made in turn.
pub open spec fn after_reads(st: ReaderState, lens: Seq<nat>) -> ReaderState
    decreases lens.len(),
{
    if lens.len() == 0 {
        st
    } else {
        after_reads(st, lens.drop_last()).after_read(lens.last())
    }
}

/// The lengths before the `k`-th sum to no more than all of them.
pub proof fn lemma_total_prefix(lens: Seq<nat>, k: int)
    requires
        0 <= k <= lens.len(),
    ensures
        total(lens.take(k)) <= total(lens),
    decreases lens.len(),
{
    if k == lens.len() {
        assert(lens.take(k) =~= lens);
    } else {
        assert(lens.take(k) =~= lens.drop_last().take(k));
        lemma_total_prefix(lens.drop_last(), k);
    }
}

/// Reads from a new reader whose lengths sum to no more than the data holds:
/// the last of them succeeds, and leaves the store's cursor and the position
/// at the sum.
pub proof fn lemma_reads_reach_total(data: Seq<u8>, lens: Seq<nat>)
    requires
        data.len() <= usize::MAX,
        total(lens) <= data.len(),
    ensures
        after_reads(ReaderState::fresh(data), lens).store == (StoreState {
            data,
            offset: total(lens),
        }),
        after_reads(ReaderState::fresh(data), lens).position == wrap_signed(total(lens) as int),
        after_reads(ReaderState::fresh(data), lens).pos() == total(lens),
        lens.len() > 0 ==> after_reads(ReaderState::fresh(data), lens.drop_last()).can_read(
            lens.last(),
        ),
    decreases lens.len(),
{
    lemma_unsigned_of_wrap(total(lens) as int);
    if lens.len() > 0 {
        lemma_reads_reach_total(data, lens.drop_last());
        lemma_wrap_sum(total(lens.drop_last()) as int, lens.last() as int);
    } else {
        lemma_wrap_in_range(0);
    }
}

/// Sequential reads advance the position by their lengths: on a new reader
/// over `data`, where the lengths `lens` sum to no more than `data` holds,
/// every read succeeds and the position after each is the sum of the lengths
/// read so far.
pub proof fn law_sequential_reads(data: Seq<u8>, lens: Seq<nat>)
    requires
        data.len() <= usize::MAX,
        total(lens) <= data.len(),
    ensures
        forall|k: int|
            0 <= k <= lens.len() ==> #[trigger] after_reads(
                ReaderState::fresh(data),
                lens.take(k),
            ).pos() == total(lens.take(k)),
        forall|k: int|
            0 <= k < lens.len() ==> (#[trigger] after_reads(
                ReaderState::fresh(data),
                lens.take(k),
            )).can_read(lens[k]),
{
    assert forall|k: int| 0 <= k <= lens.len() implies #[trigger] after_reads(
        ReaderState::fresh(data),
        lens.take(k),
    ).pos() == total(lens.take(k)) by {
        lemma_total_prefix(lens, k);
        lemma_reads_reach_total(data, lens.take(k));
    }
    assert forall|k: int| 0 <= k < lens.len() implies (#[trigger] after_reads(
        ReaderState::fresh(data),
        lens.take(k),
    )).can_read(lens[k]) by {
        lemma_total_prefix(lens, k + 1);
        lemma_reads_reach_total(data, lens.take(k + 1));
        assert(lens.take(k + 1).drop_last() =~= lens.take(k));
    }
}

/// What is fixed when a reader is made stays fixed: a new reader records the
/// length of its data as its size, and no read or seek, successful or failed,
/// changes the data, the size or the file flag.
pub proof fn law_attributes_are_fixed(st: ReaderState, data: Seq<u8>, len: nat, pos: nat, delta: int)
    ensures
        ReaderState::fresh(data).wf(),
        ReaderState::fresh(data).store.data == data,
        st.wf() ==> st.after_read(len).wf() && st.after_failed_read().wf() && st.after_seek(
            pos,
        ).wf() && st.after_seek_relative(delta).wf() && st.after_text_scan().wf(),
        st.after_read(len).is_file == st.is_file,
        st.after_failed_read().is_file == st.is_file,
        st.after_seek(pos).is_file == st.is_file,
        st.after_seek_relative(delta).is_file == st.is_file,
        st.after_text_scan().is_file == st.is_file,
{
}

/// The tracked position keeps step with the store: where the position equals
/// the store's cursor, it still does after every read and seek that succeeds.
pub proof fn law_position_follows_store(st: ReaderState, len: u64, pos: u64, delta: i64)
    requires
        st.store.data.len() <= usize::MAX,
        st.store.offset <= u64::MAX,
        st.pos() == st.store.offset,
    ensures
        st.can_read(len as nat) ==> st.after_read(len as nat).pos() == st.after_read(
            len as nat,
        ).store.offset,
        st.after_seek(pos as nat).pos() == st.after_seek(pos as nat).store.offset,
        st.can_seek_relative(delta as int) ==> st.after_seek_relative(delta as int).pos()
            == st.after_seek_relative(delta as int).store.offset,
{
    let m: int = 0x1_0000_0000_0000_0000;
    reveal(as_unsigned);
    lemma_unsigned_of_wrap(st.position + len);
    lemma_unsigned_of_wrap(st.position + delta);
    lemma_unsigned_of_wrap(pos as int);
    vstd::arithmetic::div_mod::lemma_add_mod_noop_right(len as int, st.position, m);
    vstd::arithmetic::div_mod::lemma_add_mod_noop_right(delta as int, st.position, m);
    assert(len + st.position == st.position + len);
    assert(delta + st.position == st.position + delta);
}

/// Seek round trip: after a seek to `p` the position is `p`, wherever the
/// reader stood and whether or not `p` lies within the data.
pub proof fn law_seek_round_trip(st: ReaderState, p: u64)
    ensures
        st.after_seek(p as nat).pos() == p,
        st.after_seek(p as nat).store.offset == p,
{
    lemma_unsigned_of_wrap(p as int);
}

/// Relative seeks compose with absolute ones: after a seek to `p`, a relative
/// seek by `d` whose target `p + d` is a position succeeds, and the position
/// is then `p + d`.
pub proof fn law_relative_seek_composes(st: ReaderState, p: u64, d: i64)
    requires
        0 <= p + d <= u64::MAX,
    ensures
        st.after_seek(p as nat).can_seek_relative(d as int),
        st.after_seek(p as nat).after_seek_relative(d as int).pos() == p + d,
        st.after_seek(p as nat).after_seek_relative(d as int).store.offset == p + d,
{
    lemma_wrap_sum(p as int, d as int);
    lemma_unsigned_of_wrap(p + d);
}

} // verus!
