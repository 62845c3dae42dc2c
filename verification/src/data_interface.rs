//! The memory-backed store: an owned byte buffer with a cursor of its own.

use vstd::prelude::*;
use vstd::slice::{slice_subrange, slice_to_vec};
use crate::error::ReadError;

verus! {

/// What a store is, mathematically: its bytes and where its cursor stands.
/// The cursor may stand past the last byte.
pub struct StoreState {
    pub data: Seq<u8>,
    pub offset: nat,
}

impl StoreState {
    /// The index of the next byte to hand out: the cursor, or the end of the
    /// data where the cursor stands past it.
    pub open spec fn start(self) -> nat {
        if self.offset <= self.data.len() {
            self.offset
        } else {
            self.data.len()
        }
    }

    /// How many bytes lie at or after the cursor.
    pub open spec fn remaining(self) -> nat {
        (self.data.len() - self.start()) as nat
    }

    /// Whether `len` bytes can be read from the cursor on.
    pub open spec fn can_read(self, len: nat) -> bool {
        len <= self.remaining()
    }

    /// The `len` bytes from the cursor on.
    pub open spec fn next_bytes(self, len: nat) -> Seq<u8> {
        self.data.subrange(self.start() as int, (self.start() + len) as int)
    }

    /// The store once `len` bytes have been read.
    pub open spec fn after_read(self, len: nat) -> StoreState {
        StoreState { data: self.data, offset: self.offset + len }
    }

    /// The store once a read has failed: the cursor stands at the end.
    pub open spec fn at_end(self) -> StoreState {
        StoreState { data: self.data, offset: self.data.len() }
    }

    /// The store with its cursor moved to `pos`.
    pub open spec fn after_seek(self, pos: nat) -> StoreState {
        StoreState { data: self.data, offset: pos }
    }

    /// Whether the cursor moved by `delta` is a position that can be held.
    pub open spec fn can_seek_relative(self, delta: int) -> bool {
        0 <= self.offset + delta <= u64::MAX
    }

    /// The store with its cursor moved by `delta`.
    pub open spec fn after_seek_relative(self, delta: int) -> StoreState {
        StoreState { data: self.data, offset: (self.offset + delta) as nat }
    }
}

/// An owned byte buffer and a cursor into it.
#[derive(Debug)]
pub struct DataInterface {
    data: Vec<u8>,
    offset: u64,
}

impl View for DataInterface {
    type V = StoreState;

    closed spec fn view(&self) -> StoreState {
        StoreState { data: self.data@, offset: self.offset as nat }
    }
}

impl DataInterface {
    /// A store over a copy of `bytes`, with the cursor at the first byte.
    pub fn from_bytes(bytes: &[u8]) -> (r: Self)
        ensures
            r@ == (StoreState { data: bytes@, offset: 0 }),
    {
        DataInterface { data: slice_to_vec(bytes), offset: 0 }
    }

    /// Where the cursor stands.
    pub fn offset(&self) -> (r: u64)
        ensures
            r as nat == self@.offset,
    {
        self.offset
    }

    /// Reads exactly `len` bytes from the cursor on and moves the cursor past
    /// them. Where fewer remain, nothing is handed out and the cursor is left
    /// at the end of the data.
    pub fn read(&mut self, len: u64) -> (r: Result<Vec<u8>, ReadError>)
        ensures
            old(self)@.can_read(len as nat) ==> r is Ok && r->Ok_0@ == old(self)@.next_bytes(
                len as nat,
            ) && final(self)@ == old(self)@.after_read(len as nat),
            !old(self)@.can_read(len as nat) ==> r == Err::<Vec<u8>, ReadError>(
                ReadError::UnexpectedEof,
            ) && final(self)@ == old(self)@.at_end(),
    {
        let n: usize = self.data.len();
        let start: usize = if self.offset <= n as u64 {
            self.offset as usize
        } else {
            n
        };
        if len > (n - start) as u64 {
            self.offset = n as u64;
            return Err(ReadError::UnexpectedEof);
        }
        let count: usize = len as usize;
        let out = slice_to_vec(slice_subrange(self.data.as_slice(), start, start + count));
        self.offset = self.offset + len;
        Ok(out)
    }

    /// Moves the cursor to `pos`, counted from the first byte. A position past
    /// the end is accepted: the next read of any byte fails.
    pub fn seek(&mut self, pos: u64) -> (r: Result<(), ReadError>)
        ensures
            r is Ok,
            final(self)@ == old(self)@.after_seek(pos as nat),
    {
        self.offset = pos;
        Ok(())
    }

    /// Moves the cursor by `offset`, backward where it is negative. Fails, and
    /// leaves the cursor where it was, where the target lies before the first
    /// byte or cannot be held.
    pub fn seek_relative(&mut self, offset: i64) -> (r: Result<(), ReadError>)
        ensures
            old(self)@.can_seek_relative(offset as int) ==> r is Ok && final(self)@ == old(
                self,
            )@.after_seek_relative(offset as int),
            !old(self)@.can_seek_relative(offset as int) ==> r == Err::<(), ReadError>(
                ReadError::InvalidSeek,
            ) && final(self)@ == old(self)@,
    {
        let target: i128 = self.offset as i128 + offset as i128;
        if target < 0 || target > u64::MAX as i128 {
            return Err(ReadError::InvalidSeek);
        }
        self.offset = target as u64;
        Ok(())
    }
}

} // verus!
