//! IB (Byte Index)

use vstd::prelude::*;
use crate::codec::{le32, le64, push_u32, push_u64, read_u32_at, read_u64_at, u32_at, u64_at};

verus! {

/// A byte offset into the file.
pub trait ByteIndex: Sized + Copy {
    /// The integer type of the offset.
    type Index: Copy;

    /// The byte index `index`.
    fn new(index: Self::Index) -> Self;

    /// The byte offset.
    fn index(&self) -> Self::Index;
}

/// An absolute byte offset into the file.
#[derive(Debug, Clone, Copy, PartialEq, Eq, Structural)]
pub struct UnicodeByteIndex(u64);

impl View for UnicodeByteIndex {
    type V = u64;

    closed spec fn view(&self) -> u64 {
        self.0
    }
}

impl UnicodeByteIndex {
    /// Reads a byte index from the first 8 little-endian bytes of `b`.
    pub fn read(b: &[u8]) -> (r: UnicodeByteIndex)
        requires
            b@.len() >= 8,
        ensures
            r@ == u64_at(b@, 0),
    {
        UnicodeByteIndex(read_u64_at(b, 0))
    }

    /// Appends the 8 little-endian bytes of the byte index.
    pub fn write(&self, out: &mut Vec<u8>)
        ensures
            final(out)@ == old(out)@ + le64(self@),
    {
        push_u64(out, self.0);
    }
}

impl ByteIndex for UnicodeByteIndex {
    type Index = u64;

    /// The byte index `index`.
    fn new(index: u64) -> (r: UnicodeByteIndex)
        ensures
            r@ == index,
    {
        UnicodeByteIndex(index)
    }

    /// The byte offset.
    fn index(&self) -> (r: u64)
        ensures
            r == self@,
    {
        self.0
    }
}

/// An absolute byte offset into the file.
#[derive(Debug, Clone, Copy, PartialEq, Eq, Structural)]
pub struct AnsiByteIndex(u32);

impl View for AnsiByteIndex {
    type V = u32;

    closed spec fn view(&self) -> u32 {
        self.0
    }
}

impl AnsiByteIndex {
    /// Reads a byte index from the first 4 little-endian bytes of `b`.
    pub fn read(b: &[u8]) -> (r: AnsiByteIndex)
        requires
            b@.len() >= 4,
        ensures
            r@ == u32_at(b@, 0),
    {
        AnsiByteIndex(read_u32_at(b, 0))
    }

    /// Appends the 4 little-endian bytes of the byte index.
    pub fn write(&self, out: &mut Vec<u8>)
        ensures
            final(out)@ == old(out)@ + le32(self@),
    {
        push_u32(out, self.0);
    }
}

impl ByteIndex for AnsiByteIndex {
    type Index = u32;

    /// The byte index `index`.
    fn new(index: u32) -> (r: AnsiByteIndex)
        ensures
            r@ == index,
    {
        AnsiByteIndex(index)
    }

    /// The byte offset.
    fn index(&self) -> (r: u32)
        ensures
            r == self@,
    {
        self.0
    }
}

} // verus!
