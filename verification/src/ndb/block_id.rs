//! BID (Block ID)

use vstd::prelude::*;
use crate::codec::{le32, le64, lemma_le_roundtrip, push_u32, push_u64, read_u32_at, read_u64_at, u32_at, u64_at};
use super::NdbError;

verus! {

/// A block id: a value that carries an internal flag and a block index.
pub trait BlockId: Sized + Copy {
    /// The integer type of the block index.
    type Index: Copy;

    /// Builds the block id with the given internal flag and index.
    fn new(is_internal: bool, index: Self::Index) -> Result<Self, NdbError>;

    /// Whether the block is internal.
    fn is_internal(&self) -> bool;

    /// The block index.
    fn index(&self) -> Self::Index;
}

/// The largest block index of a `UnicodeBlockId`: the index occupies the bits above the two flag bits.
pub const MAX_UNICODE_BLOCK_INDEX: u64 = 0x3FFF_FFFF_FFFF_FFFF;

/// A block id: a 64-bit value whose bit 1 marks internal blocks and whose upper bits hold the index.
#[derive(Debug, Clone, Copy, PartialEq, Eq, Structural)]
pub struct UnicodeBlockId(u64);

impl View for UnicodeBlockId {
    type V = u64;

    closed spec fn view(&self) -> u64 {
        self.0
    }
}

impl UnicodeBlockId {
    /// The block id with raw value `value`.
    pub fn from_raw(value: u64) -> (r: UnicodeBlockId)
        ensures
            r@ == value,
    {
        UnicodeBlockId(value)
    }

    /// The raw value of the block id.
    pub fn value(&self) -> (r: u64)
        ensures
            r == self@,
    {
        self.0
    }

    /// Reads a block id from the first 8 little-endian bytes of `b`.
    pub fn read(b: &[u8]) -> (r: UnicodeBlockId)
        requires
            b@.len() >= 8,
        ensures
            r@ == u64_at(b@, 0),
    {
        UnicodeBlockId(read_u64_at(b, 0))
    }

    /// Appends the 8 little-endian bytes of the block id.
    pub fn write(&self, out: &mut Vec<u8>)
        ensures
            final(out)@ == old(out)@ + le64(self@),
    {
        push_u64(out, self.0);
    }
}

impl BlockId for UnicodeBlockId {
    type Index = u64;

    /// Builds the block id with the given internal flag and index; the index must fit below the flag bits.
    fn new(is_internal: bool, index: u64) -> (r: Result<UnicodeBlockId, NdbError>)
        ensures
            r is Ok <==> index <= MAX_UNICODE_BLOCK_INDEX,
            r matches Ok(b) ==> b@ == index * 4 + (if is_internal { 2int } else { 0int }),
            r matches Ok(b) ==> b@ >> 2 == index && (b@ & 2 == 2) == is_internal,
            r is Err ==> r == Err::<UnicodeBlockId, NdbError>(NdbError::InvalidUnicodeBlockIndex(index)),
    {
        if index > MAX_UNICODE_BLOCK_INDEX {
            return Err(NdbError::InvalidUnicodeBlockIndex(index));
        }
        let flag: u64 = if is_internal { 2 } else { 0 };
        proof {
            assert(index <= 0x3FFF_FFFF_FFFF_FFFF && (flag == 0 || flag == 2) ==> {
                &&& (index << 2) | flag == index * 4 + flag
                &&& ((index << 2) | flag) >> 2 == index
                &&& (((index << 2) | flag) & 2 == 2) == (flag == 2)
            }) by (bit_vector);
        }
        Ok(UnicodeBlockId((index << 2) | flag))
    }

    /// Whether bit 1 (the internal flag) is set.
    fn is_internal(&self) -> (r: bool)
        ensures
            r == (self@ & 2 == 2),
    {
        self.0 & 2 == 2
    }

    /// The block index: the value without its two flag bits.
    fn index(&self) -> (r: u64)
        ensures
            r == self@ >> 2,
    {
        self.0 >> 2
    }
}

/// The largest block index of an `AnsiBlockId`: the index occupies the bits above the two flag bits.
pub const MAX_ANSI_BLOCK_INDEX: u32 = 0x3FFF_FFFF;

/// A block id: a 32-bit value whose bit 1 marks internal blocks and whose upper bits hold the index.
#[derive(Debug, Clone, Copy, PartialEq, Eq, Structural)]
pub struct AnsiBlockId(u32);

impl View for AnsiBlockId {
    type V = u32;

    closed spec fn view(&self) -> u32 {
        self.0
    }
}

impl AnsiBlockId {
    /// The block id with raw value `value`.
    pub fn from_raw(value: u32) -> (r: AnsiBlockId)
        ensures
            r@ == value,
    {
        AnsiBlockId(value)
    }

    /// The raw value of the block id.
    pub fn value(&self) -> (r: u32)
        ensures
            r == self@,
    {
        self.0
    }

    /// Reads a block id from the first 4 little-endian bytes of `b`.
    pub fn read(b: &[u8]) -> (r: AnsiBlockId)
        requires
            b@.len() >= 4,
        ensures
            r@ == u32_at(b@, 0),
    {
        AnsiBlockId(read_u32_at(b, 0))
    }

    /// Appends the 4 little-endian bytes of the block id.
    pub fn write(&self, out: &mut Vec<u8>)
        ensures
            final(out)@ == old(out)@ + le32(self@),
    {
        push_u32(out, self.0);
    }
}

impl BlockId for AnsiBlockId {
    type Index = u32;

    /// Builds the block id with the given internal flag and index; the index must fit below the flag bits.
    fn new(is_internal: bool, index: u32) -> (r: Result<AnsiBlockId, NdbError>)
        ensures
            r is Ok <==> index <= MAX_ANSI_BLOCK_INDEX,
            r matches Ok(b) ==> b@ == index * 4 + (if is_internal { 2int } else { 0int }),
            r matches Ok(b) ==> b@ >> 2 == index && (b@ & 2 == 2) == is_internal,
            r is Err ==> r == Err::<AnsiBlockId, NdbError>(NdbError::InvalidAnsiBlockIndex(index)),
    {
        if index > MAX_ANSI_BLOCK_INDEX {
            return Err(NdbError::InvalidAnsiBlockIndex(index));
        }
        let flag: u32 = if is_internal { 2 } else { 0 };
        proof {
            assert(index <= 0x3FFF_FFFF && (flag == 0 || flag == 2) ==> {
                &&& (index << 2) | flag == index * 4 + flag
                &&& ((index << 2) | flag) >> 2 == index
                &&& (((index << 2) | flag) & 2 == 2) == (flag == 2)
            }) by (bit_vector);
        }
        Ok(AnsiBlockId((index << 2) | flag))
    }

    /// Whether bit 1 (the internal flag) is set.
    fn is_internal(&self) -> (r: bool)
        ensures
            r == (self@ & 2 == 2),
    {
        self.0 & 2 == 2
    }

    /// The block index: the value without its two flag bits.
    fn index(&self) -> (r: u32)
        ensures
            r == self@ >> 2,
    {
        self.0 >> 2
    }
}

/// Reading the bytes that `write` produced gives the same block id.
pub proof fn lemma_block_id_roundtrip(u: UnicodeBlockId, a: AnsiBlockId)
    ensures
        u64_at(le64(u@), 0) == u@,
        u32_at(le32(a@), 0) == a@,
{
    lemma_le_roundtrip();
    assert(le64(u@).subrange(0, 8) =~= le64(u@));
    assert(le32(a@).subrange(0, 4) =~= le32(a@));
}

} // verus!
