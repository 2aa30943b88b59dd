//! BREF

use vstd::prelude::*;
use crate::codec::{le32, le64, lemma_le_roundtrip, u32_at, u64_at};
use super::block_id::{AnsiBlockId, BlockId, UnicodeBlockId};
use super::byte_index::{AnsiByteIndex, ByteIndex, UnicodeByteIndex};

verus! {

/// A reference to a block: its id and its byte offset in the file.
pub trait BlockRef: Sized + Copy {
    /// The block id type.
    type Block: BlockId;
    /// The byte index type.
    type Index: ByteIndex;

    /// The reference to block `block` at offset `index`.
    fn new(block: Self::Block, index: Self::Index) -> Self;

    /// The block id.
    fn block(&self) -> Self::Block;

    /// The byte offset.
    fn index(&self) -> Self::Index;
}

/// A block reference: the id of a block and its byte offset in the file.
#[derive(Debug, Clone, Copy, PartialEq, Eq, Structural)]
pub struct UnicodeBlockRef {
    block: UnicodeBlockId,
    index: UnicodeByteIndex,
}

impl View for UnicodeBlockRef {
    /// The raw block id and the byte offset.
    type V = (u64, u64);

    closed spec fn view(&self) -> (u64, u64) {
        (self.block@, self.index@)
    }
}

impl UnicodeBlockRef {
    /// The bytes of a block reference: the block id, then the byte index.
    pub open spec fn spec_bytes(&self) -> Seq<u8> {
        le64(self@.0) + le64(self@.1)
    }

    /// Reads a block reference from the first 16 bytes of `b`.
    pub fn read(b: &[u8]) -> (r: UnicodeBlockRef)
        requires
            b@.len() >= 16,
        ensures
            r@ == (u64_at(b@, 0), u64_at(b@, 8)),
    {
        let block = UnicodeBlockId::read(&b[0..8]);
        let index = UnicodeByteIndex::read(&b[8..16]);
        assert(b@.subrange(0, 8).subrange(0, 8) =~= b@.subrange(0, 8));
        assert(b@.subrange(8, 16).subrange(0, 8) =~= b@.subrange(8, 16));
        UnicodeBlockRef { block, index }
    }

    /// Appends the 16 bytes of the block reference.
    pub fn write(&self, out: &mut Vec<u8>)
        ensures
            final(out)@ == old(out)@ + self.spec_bytes(),
    {
        self.block.write(out);
        self.index.write(out);
        assert(out@ =~= old(out)@ + self.spec_bytes());
    }
}

impl BlockRef for UnicodeBlockRef {
    type Block = UnicodeBlockId;
    type Index = UnicodeByteIndex;

    /// The reference to block `block` at offset `index`.
    fn new(block: UnicodeBlockId, index: UnicodeByteIndex) -> (r: UnicodeBlockRef)
        ensures
            r@ == (block@, index@),
    {
        UnicodeBlockRef { block, index }
    }

    /// The block id.
    fn block(&self) -> (r: UnicodeBlockId)
        ensures
            r@ == self@.0,
    {
        self.block
    }

    /// The byte offset.
    fn index(&self) -> (r: UnicodeByteIndex)
        ensures
            r@ == self@.1,
    {
        self.index
    }
}

/// A block reference: the id of a block and its byte offset in the file.
#[derive(Debug, Clone, Copy, PartialEq, Eq, Structural)]
pub struct AnsiBlockRef {
    block: AnsiBlockId,
    index: AnsiByteIndex,
}

impl View for AnsiBlockRef {
    /// The raw block id and the byte offset.
    type V = (u32, u32);

    closed spec fn view(&self) -> (u32, u32) {
        (self.block@, self.index@)
    }
}

impl AnsiBlockRef {
    /// The bytes of a block reference: the block id, then the byte index.
    pub open spec fn spec_bytes(&self) -> Seq<u8> {
        le32(self@.0) + le32(self@.1)
    }

    /// Reads a block reference from the first 8 bytes of `b`.
    pub fn read(b: &[u8]) -> (r: AnsiBlockRef)
        requires
            b@.len() >= 8,
        ensures
            r@ == (u32_at(b@, 0), u32_at(b@, 4)),
    {
        let block = AnsiBlockId::read(&b[0..4]);
        let index = AnsiByteIndex::read(&b[4..8]);
        assert(b@.subrange(0, 4).subrange(0, 4) =~= b@.subrange(0, 4));
        assert(b@.subrange(4, 8).subrange(0, 4) =~= b@.subrange(4, 8));
        AnsiBlockRef { block, index }
    }

    /// Appends the 8 bytes of the block reference.
    pub fn write(&self, out: &mut Vec<u8>)
        ensures
            final(out)@ == old(out)@ + self.spec_bytes(),
    {
        self.block.write(out);
        self.index.write(out);
        assert(out@ =~= old(out)@ + self.spec_bytes());
    }
}

impl BlockRef for AnsiBlockRef {
    type Block = AnsiBlockId;
    type Index = AnsiByteIndex;

    /// The reference to block `block` at offset `index`.
    fn new(block: AnsiBlockId, index: AnsiByteIndex) -> (r: AnsiBlockRef)
        ensures
            r@ == (block@, index@),
    {
        AnsiBlockRef { block, index }
    }

    /// The block id.
    fn block(&self) -> (r: AnsiBlockId)
        ensures
            r@ == self@.0,
    {
        self.block
    }

    /// The byte offset.
    fn index(&self) -> (r: AnsiByteIndex)
        ensures
            r@ == self@.1,
    {
        self.index
    }
}

/// Reading the bytes that `write` produced gives the same block reference.
pub proof fn lemma_block_ref_roundtrip(u: UnicodeBlockRef, a: AnsiBlockRef)
    ensures
        u.spec_bytes().len() == 16,
        (u64_at(u.spec_bytes(), 0), u64_at(u.spec_bytes(), 8)) == u@,
        a.spec_bytes().len() == 8,
        (u32_at(a.spec_bytes(), 0), u32_at(a.spec_bytes(), 4)) == a@,
{
    lemma_le_roundtrip();
    assert(u.spec_bytes().subrange(0, 8) =~= le64(u@.0));
    assert(u.spec_bytes().subrange(8, 16) =~= le64(u@.1));
    assert(a.spec_bytes().subrange(0, 4) =~= le32(a@.0));
    assert(a.spec_bytes().subrange(4, 8) =~= le32(a@.1));
}

} // verus!
