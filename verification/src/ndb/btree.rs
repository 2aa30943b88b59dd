//! BTPAGE:
//! the pages of the node and block BTrees and their entries.

use std::marker::PhantomData;
use vstd::prelude::*;
use crate::codec::{
    le16, le32, le64, lemma_le_roundtrip, push_bytes, push_u16, push_u32, push_u64, push_u8, push_zeros, read_u16_at,
    read_u32_at, read_u64_at, u16_at, u32_at, u64_at, view_result, zeros,
};
use crate::crc::{compute_crc, spec_crc};
use super::NdbError;
use super::block_id::{AnsiBlockId, UnicodeBlockId};
use super::block_ref::{AnsiBlockRef, BlockRef, UnicodeBlockRef};
use super::node_id::NodeId;
use super::page::{
    ansi_trailer_bytes, lemma_ansi_trailer_roundtrip, lemma_unicode_trailer_roundtrip, parse_ansi_trailer, parse_unicode_trailer, trailer_with_crc, unicode_trailer_bytes,
    AnsiPageTrailer, PageTrailer, PageTrailerModel, PageType, UnicodePageTrailer,
};

verus! {

/// An entry of a BTree page, stored in a fixed number of bytes.
pub trait BTreeEntry: Sized + Copy {
    /// The number of bytes an entry takes.
    spec fn spec_entry_size() -> nat;

    /// Reads an entry from its bytes.
    fn read(b: &[u8]) -> Result<Self, NdbError>
        requires
            b@.len() >= Self::spec_entry_size(),
    ;

    /// Appends the bytes of the entry.
    fn write(&self, out: &mut Vec<u8>);
}

/// BTENTRY:
/// an entry of an intermediate page, which points to the page below that holds the keys
/// from its own key on.
pub trait BTreePageEntry: BTreeEntry {
    type Key;
    type Block;

    fn new(key: Self::Key, block: Self::Block) -> Self;
    /// The key under which a node id is looked up.
    fn extend_key(node: NodeId) -> Self::Key;
    fn key(&self) -> Self::Key;
    fn block(&self) -> Self::Block;
}

/// BBTENTRY:
/// a leaf entry of the block BTree.
pub trait BlockBTreeEntry: BTreeEntry {
    type Block;

    fn new(block: Self::Block, size: u16) -> Self;
    fn block(&self) -> Self::Block;
    fn size(&self) -> u16;
    fn ref_count(&self) -> u16;
}

/// NBTENTRY:
/// a leaf entry of the node BTree.
pub trait NodeBTreeEntry: BTreeEntry {
    type Block;

    fn new(node: NodeId, data: Self::Block, sub_node: Option<Self::Block>, parent: Option<NodeId>) -> Self;
    fn node(&self) -> NodeId;
    fn data(&self) -> Self::Block;
    fn sub_node(&self) -> Option<Self::Block>;
    fn parent(&self) -> Option<NodeId>;
}

/// The raw value of an optional id, 0 standing for none.
pub open spec fn opt_raw64(v: Option<u64>) -> u64 {
    match v {
        Some(x) => x,
        None => 0,
    }
}

/// The raw value of an optional id, 0 standing for none.
pub open spec fn opt_raw32(v: Option<u32>) -> u32 {
    match v {
        Some(x) => x,
        None => 0,
    }
}

/// The optional id stored as `x`: 0 stands for none.
pub open spec fn raw_opt64(x: u64) -> Option<u64> {
    if x == 0 { None } else { Some(x) }
}

/// The optional id stored as `x`: 0 stands for none.
pub open spec fn raw_opt32(x: u32) -> Option<u32> {
    if x == 0 { None } else { Some(x) }
}

// ---------------------------------------------------------------------------
// Intermediate entries

/// An entry of an intermediate page of a Unicode file: a 64-bit key and the
/// reference of the page below.
#[derive(Debug, Clone, Copy, PartialEq, Eq, Structural)]
pub struct UnicodeBTreePageEntry {
    key: UnicodeBlockId,
    block: UnicodeBlockRef,
}

impl View for UnicodeBTreePageEntry {
    /// The raw key and the block reference's view.
    type V = (u64, (u64, u64));

    closed spec fn view(&self) -> (u64, (u64, u64)) {
        (self.key@, self.block@)
    }
}

/// The 24 bytes of a Unicode intermediate entry.
pub open spec fn unicode_btree_page_entry_bytes(e: (u64, (u64, u64))) -> Seq<u8> {
    le64(e.0) + le64(e.1.0) + le64(e.1.1)
}

/// The Unicode intermediate entry held in `s`.
pub open spec fn parse_unicode_btree_page_entry(s: Seq<u8>) -> Result<(u64, (u64, u64)), NdbError> {
    Ok((u64_at(s, 0), (u64_at(s, 8), u64_at(s, 16))))
}

impl BTreeEntry for UnicodeBTreePageEntry {
    open spec fn spec_entry_size() -> nat {
        24
    }

    fn read(b: &[u8]) -> (r: Result<UnicodeBTreePageEntry, NdbError>)
        ensures
            r is Ok,
            view_result(r) == parse_unicode_btree_page_entry(b@),
    {
        let key = UnicodeBlockId::from_raw(read_u64_at(b, 0));
        let block = UnicodeBlockRef::read(&b[8..24]);
        proof {
            assert(u64_at(b@.subrange(8, 24), 0) == u64_at(b@, 8)) by {
                assert(b@.subrange(8, 24).subrange(0, 8) =~= b@.subrange(8, 16));
            }
            assert(u64_at(b@.subrange(8, 24), 8) == u64_at(b@, 16)) by {
                assert(b@.subrange(8, 24).subrange(8, 16) =~= b@.subrange(16, 24));
            }
        }
        Ok(UnicodeBTreePageEntry { key, block })
    }

    fn write(&self, out: &mut Vec<u8>)
        ensures
            final(out)@ == old(out)@ + unicode_btree_page_entry_bytes(self@),
    {
        self.key.write(out);
        self.block.write(out);
        assert(out@ =~= old(out)@ + unicode_btree_page_entry_bytes(self@));
    }
}

impl BTreePageEntry for UnicodeBTreePageEntry {
    type Key = UnicodeBlockId;
    type Block = UnicodeBlockRef;

    fn new(key: UnicodeBlockId, block: UnicodeBlockRef) -> (r: UnicodeBTreePageEntry)
        ensures
            r@ == (key@, block@),
    {
        UnicodeBTreePageEntry { key, block }
    }

    fn extend_key(node: NodeId) -> (r: UnicodeBlockId)
        ensures
            r@ == node@ as u64,
    {
        UnicodeBlockId::from_raw(node.value() as u64)
    }

    fn key(&self) -> (r: UnicodeBlockId)
        ensures
            r@ == self@.0,
    {
        self.key
    }

    fn block(&self) -> (r: UnicodeBlockRef)
        ensures
            r@ == self@.1,
    {
        self.block
    }
}

/// An entry of an intermediate page of an ANSI file: a 32-bit key and the
/// reference of the page below.
#[derive(Debug, Clone, Copy, PartialEq, Eq, Structural)]
pub struct AnsiBTreePageEntry {
    key: AnsiBlockId,
    block: AnsiBlockRef,
}

impl View for AnsiBTreePageEntry {
    /// The raw key and the block reference's view.
    type V = (u32, (u32, u32));

    closed spec fn view(&self) -> (u32, (u32, u32)) {
        (self.key@, self.block@)
    }
}

/// The 12 bytes of an ANSI intermediate entry.
pub open spec fn ansi_btree_page_entry_bytes(e: (u32, (u32, u32))) -> Seq<u8> {
    le32(e.0) + le32(e.1.0) + le32(e.1.1)
}

/// The ANSI intermediate entry held in `s`.
pub open spec fn parse_ansi_btree_page_entry(s: Seq<u8>) -> Result<(u32, (u32, u32)), NdbError> {
    Ok((u32_at(s, 0), (u32_at(s, 4), u32_at(s, 8))))
}

impl BTreeEntry for AnsiBTreePageEntry {
    open spec fn spec_entry_size() -> nat {
        12
    }

    fn read(b: &[u8]) -> (r: Result<AnsiBTreePageEntry, NdbError>)
        ensures
            r is Ok,
            view_result(r) == parse_ansi_btree_page_entry(b@),
    {
        let key = AnsiBlockId::from_raw(read_u32_at(b, 0));
        let block = AnsiBlockRef::read(&b[4..12]);
        proof {
            assert(u32_at(b@.subrange(4, 12), 0) == u32_at(b@, 4)) by {
                assert(b@.subrange(4, 12).subrange(0, 4) =~= b@.subrange(4, 8));
            }
            assert(u32_at(b@.subrange(4, 12), 4) == u32_at(b@, 8)) by {
                assert(b@.subrange(4, 12).subrange(4, 8) =~= b@.subrange(8, 12));
            }
        }
        Ok(AnsiBTreePageEntry { key, block })
    }

    fn write(&self, out: &mut Vec<u8>)
        ensures
            final(out)@ == old(out)@ + ansi_btree_page_entry_bytes(self@),
    {
        self.key.write(out);
        self.block.write(out);
        assert(out@ =~= old(out)@ + ansi_btree_page_entry_bytes(self@));
    }
}

impl BTreePageEntry for AnsiBTreePageEntry {
    type Key = AnsiBlockId;
    type Block = AnsiBlockRef;

    fn new(key: AnsiBlockId, block: AnsiBlockRef) -> (r: AnsiBTreePageEntry)
        ensures
            r@ == (key@, block@),
    {
        AnsiBTreePageEntry { key, block }
    }

    fn extend_key(node: NodeId) -> (r: AnsiBlockId)
        ensures
            r@ == node@,
    {
        AnsiBlockId::from_raw(node.value())
    }

    fn key(&self) -> (r: AnsiBlockId)
        ensures
            r@ == self@.0,
    {
        self.key
    }

    fn block(&self) -> (r: AnsiBlockRef)
        ensures
            r@ == self@.1,
    {
        self.block
    }
}

// ---------------------------------------------------------------------------
// Block BTree leaf entries

/// The fields of a Unicode block BTree entry.
pub struct UnicodeBlockBTreeEntryModel {
    pub block: (u64, u64),
    pub size: u16,
    pub ref_count: u16,
    pub padding: u32,
}

/// A leaf entry of the block BTree of a Unicode file: the block's reference, its
/// size and its reference count.
#[derive(Debug, Clone, Copy, PartialEq, Eq, Structural)]
pub struct UnicodeBlockBTreeEntry {
    block: UnicodeBlockRef,
    size: u16,
    ref_count: u16,
    padding: u32,
}

impl View for UnicodeBlockBTreeEntry {
    type V = UnicodeBlockBTreeEntryModel;

    closed spec fn view(&self) -> UnicodeBlockBTreeEntryModel {
        UnicodeBlockBTreeEntryModel {
            block: self.block@,
            size: self.size,
            ref_count: self.ref_count,
            padding: self.padding,
        }
    }
}

/// The 24 bytes of a Unicode block BTree entry.
pub open spec fn unicode_block_btree_entry_bytes(e: UnicodeBlockBTreeEntryModel) -> Seq<u8> {
    le64(e.block.0) + le64(e.block.1) + le16(e.size) + le16(e.ref_count) + le32(e.padding)
}

/// The Unicode block BTree entry held in `s`.
pub open spec fn parse_unicode_block_btree_entry(s: Seq<u8>) -> Result<UnicodeBlockBTreeEntryModel, NdbError> {
    Ok(UnicodeBlockBTreeEntryModel {
        block: (u64_at(s, 0), u64_at(s, 8)),
        size: u16_at(s, 16),
        ref_count: u16_at(s, 18),
        padding: u32_at(s, 20),
    })
}

impl BTreeEntry for UnicodeBlockBTreeEntry {
    open spec fn spec_entry_size() -> nat {
        24
    }

    fn read(b: &[u8]) -> (r: Result<UnicodeBlockBTreeEntry, NdbError>)
        ensures
            r is Ok,
            view_result(r) == parse_unicode_block_btree_entry(b@),
    {
        let block = UnicodeBlockRef::read(&b[0..16]);
        proof {
            assert(b@.subrange(0, 16).subrange(0, 8) =~= b@.subrange(0, 8));
            assert(b@.subrange(0, 16).subrange(8, 16) =~= b@.subrange(8, 16));
        }
        let size = read_u16_at(b, 16);
        let ref_count = read_u16_at(b, 18);
        let padding = read_u32_at(b, 20);
        Ok(UnicodeBlockBTreeEntry { block, size, ref_count, padding })
    }

    fn write(&self, out: &mut Vec<u8>)
        ensures
            final(out)@ == old(out)@ + unicode_block_btree_entry_bytes(self@),
    {
        self.block.write(out);
        push_u16(out, self.size);
        push_u16(out, self.ref_count);
        push_u32(out, self.padding);
        assert(out@ =~= old(out)@ + unicode_block_btree_entry_bytes(self@));
    }
}

impl BlockBTreeEntry for UnicodeBlockBTreeEntry {
    type Block = UnicodeBlockRef;

    /// The entry of a block of `size` bytes that one reference holds.
    fn new(block: UnicodeBlockRef, size: u16) -> (r: UnicodeBlockBTreeEntry)
        ensures
            r@ == (UnicodeBlockBTreeEntryModel { block: block@, size, ref_count: 1, padding: 0 }),
    {
        UnicodeBlockBTreeEntry { block, size, ref_count: 1, padding: 0 }
    }

    fn block(&self) -> (r: UnicodeBlockRef)
        ensures
            r@ == self@.block,
    {
        self.block
    }

    fn size(&self) -> (r: u16)
        ensures
            r == self@.size,
    {
        self.size
    }

    fn ref_count(&self) -> (r: u16)
        ensures
            r == self@.ref_count,
    {
        self.ref_count
    }
}

/// The fields of an ANSI block BTree entry.
pub struct AnsiBlockBTreeEntryModel {
    pub block: (u32, u32),
    pub size: u16,
    pub ref_count: u16,
}

/// A leaf entry of the block BTree of an ANSI file: the block's reference, its
/// size and its reference count.
#[derive(Debug, Clone, Copy, PartialEq, Eq, Structural)]
pub struct AnsiBlockBTreeEntry {
    block: AnsiBlockRef,
    size: u16,
    ref_count: u16,
}

impl View for AnsiBlockBTreeEntry {
    type V = AnsiBlockBTreeEntryModel;

    closed spec fn view(&self) -> AnsiBlockBTreeEntryModel {
        AnsiBlockBTreeEntryModel { block: self.block@, size: self.size, ref_count: self.ref_count }
    }
}

/// The 12 bytes of an ANSI block BTree entry.
pub open spec fn ansi_block_btree_entry_bytes(e: AnsiBlockBTreeEntryModel) -> Seq<u8> {
    le32(e.block.0) + le32(e.block.1) + le16(e.size) + le16(e.ref_count)
}

/// The ANSI block BTree entry held in `s`.
pub open spec fn parse_ansi_block_btree_entry(s: Seq<u8>) -> Result<AnsiBlockBTreeEntryModel, NdbError> {
    Ok(AnsiBlockBTreeEntryModel { block: (u32_at(s, 0), u32_at(s, 4)), size: u16_at(s, 8), ref_count: u16_at(s, 10) })
}

impl BTreeEntry for AnsiBlockBTreeEntry {
    open spec fn spec_entry_size() -> nat {
        12
    }

    fn read(b: &[u8]) -> (r: Result<AnsiBlockBTreeEntry, NdbError>)
        ensures
            r is Ok,
            view_result(r) == parse_ansi_block_btree_entry(b@),
    {
        let block = AnsiBlockRef::read(&b[0..8]);
        proof {
            assert(b@.subrange(0, 8).subrange(0, 4) =~= b@.subrange(0, 4));
            assert(b@.subrange(0, 8).subrange(4, 8) =~= b@.subrange(4, 8));
        }
        let size = read_u16_at(b, 8);
        let ref_count = read_u16_at(b, 10);
        Ok(AnsiBlockBTreeEntry { block, size, ref_count })
    }

    fn write(&self, out: &mut Vec<u8>)
        ensures
            final(out)@ == old(out)@ + ansi_block_btree_entry_bytes(self@),
    {
        self.block.write(out);
        push_u16(out, self.size);
        push_u16(out, self.ref_count);
        assert(out@ =~= old(out)@ + ansi_block_btree_entry_bytes(self@));
    }
}

impl BlockBTreeEntry for AnsiBlockBTreeEntry {
    type Block = AnsiBlockRef;

    /// The entry of a block of `size` bytes that one reference holds.
    fn new(block: AnsiBlockRef, size: u16) -> (r: AnsiBlockBTreeEntry)
        ensures
            r@ == (AnsiBlockBTreeEntryModel { block: block@, size, ref_count: 1 }),
    {
        AnsiBlockBTreeEntry { block, size, ref_count: 1 }
    }

    fn block(&self) -> (r: AnsiBlockRef)
        ensures
            r@ == self@.block,
    {
        self.block
    }

    fn size(&self) -> (r: u16)
        ensures
            r == self@.size,
    {
        self.size
    }

    fn ref_count(&self) -> (r: u16)
        ensures
            r == self@.ref_count,
    {
        self.ref_count
    }
}

// ---------------------------------------------------------------------------
// Node BTree leaf entries

/// The fields of a Unicode node BTree entry.
pub struct UnicodeNodeBTreeEntryModel {
    pub node: u32,
    pub data: u64,
    pub sub_node: Option<u64>,
    pub parent: Option<u32>,
    pub padding: u32,
}

/// A leaf entry of the node BTree of a Unicode file: the node, its data block,
/// its optional sub-node block and its optional parent.
#[derive(Debug, Clone, Copy, PartialEq, Eq, Structural)]
pub struct UnicodeNodeBTreeEntry {
    node: NodeId,
    data: UnicodeBlockId,
    sub_node: Option<UnicodeBlockId>,
    parent: Option<NodeId>,
    padding: u32,
}

/// The raw value of an optional Unicode block id.
pub open spec fn unicode_block_opt(v: Option<UnicodeBlockId>) -> Option<u64> {
    match v {
        Some(b) => Some(b@),
        None => None,
    }
}

/// The raw value of an optional ANSI block id.
pub open spec fn ansi_block_opt(v: Option<AnsiBlockId>) -> Option<u32> {
    match v {
        Some(b) => Some(b@),
        None => None,
    }
}

/// The raw value of an optional node id.
pub open spec fn node_opt(v: Option<NodeId>) -> Option<u32> {
    match v {
        Some(n) => Some(n@),
        None => None,
    }
}

impl View for UnicodeNodeBTreeEntry {
    type V = UnicodeNodeBTreeEntryModel;

    closed spec fn view(&self) -> UnicodeNodeBTreeEntryModel {
        UnicodeNodeBTreeEntryModel {
            node: self.node@,
            data: self.data@,
            sub_node: unicode_block_opt(self.sub_node),
            parent: node_opt(self.parent),
            padding: self.padding,
        }
    }
}

/// The 32 bytes of a Unicode node BTree entry: the node id widened to 64 bits,
/// the data block, the sub-node block or 0, the parent or 0, and the padding.
pub open spec fn unicode_node_btree_entry_bytes(e: UnicodeNodeBTreeEntryModel) -> Seq<u8> {
    le64(e.node as u64) + le64(e.data) + le64(opt_raw64(e.sub_node)) + le32(opt_raw32(e.parent)) + le32(e.padding)
}

/// The Unicode node BTree entry held in `s`; the node id must fit in 32 bits.
pub open spec fn parse_unicode_node_btree_entry(s: Seq<u8>) -> Result<UnicodeNodeBTreeEntryModel, NdbError> {
    if u64_at(s, 0) > u32::MAX {
        Err(NdbError::InvalidNodeBTreeEntryNodeId(u64_at(s, 0)))
    } else {
        Ok(UnicodeNodeBTreeEntryModel {
            node: u64_at(s, 0) as u32,
            data: u64_at(s, 8),
            sub_node: raw_opt64(u64_at(s, 16)),
            parent: raw_opt32(u32_at(s, 24)),
            padding: u32_at(s, 28),
        })
    }
}

impl BTreeEntry for UnicodeNodeBTreeEntry {
    open spec fn spec_entry_size() -> nat {
        32
    }

    fn read(b: &[u8]) -> (r: Result<UnicodeNodeBTreeEntry, NdbError>)
        ensures
            view_result(r) == parse_unicode_node_btree_entry(b@),
    {
        let node = read_u64_at(b, 0);
        if node > 0xFFFF_FFFF {
            return Err(NdbError::InvalidNodeBTreeEntryNodeId(node));
        }
        let node = NodeId::from_u32(node as u32);
        let data = UnicodeBlockId::from_raw(read_u64_at(b, 8));
        let sub_node = read_u64_at(b, 16);
        let sub_node = if sub_node == 0 { None } else { Some(UnicodeBlockId::from_raw(sub_node)) };
        let parent = read_u32_at(b, 24);
        let parent = if parent == 0 { None } else { Some(NodeId::from_u32(parent)) };
        let padding = read_u32_at(b, 28);
        Ok(UnicodeNodeBTreeEntry { node, data, sub_node, parent, padding })
    }

    fn write(&self, out: &mut Vec<u8>)
        ensures
            final(out)@ == old(out)@ + unicode_node_btree_entry_bytes(self@),
    {
        push_u64(out, self.node.value() as u64);
        self.data.write(out);
        match self.sub_node {
            Some(b) => b.write(out),
            None => push_u64(out, 0),
        }
        match self.parent {
            Some(n) => n.write(out),
            None => push_u32(out, 0),
        }
        push_u32(out, self.padding);
        assert(out@ =~= old(out)@ + unicode_node_btree_entry_bytes(self@));
    }
}

impl NodeBTreeEntry for UnicodeNodeBTreeEntry {
    type Block = UnicodeBlockId;

    fn new(node: NodeId, data: UnicodeBlockId, sub_node: Option<UnicodeBlockId>, parent: Option<NodeId>) -> (r: UnicodeNodeBTreeEntry)
        ensures
            r@ == (UnicodeNodeBTreeEntryModel {
                node: node@,
                data: data@,
                sub_node: unicode_block_opt(sub_node),
                parent: node_opt(parent),
                padding: 0,
            }),
    {
        UnicodeNodeBTreeEntry { node, data, sub_node, parent, padding: 0 }
    }

    fn node(&self) -> (r: NodeId)
        ensures
            r@ == self@.node,
    {
        self.node
    }

    fn data(&self) -> (r: UnicodeBlockId)
        ensures
            r@ == self@.data,
    {
        self.data
    }

    fn sub_node(&self) -> (r: Option<UnicodeBlockId>)
        ensures
            unicode_block_opt(r) == self@.sub_node,
    {
        self.sub_node
    }

    fn parent(&self) -> (r: Option<NodeId>)
        ensures
            node_opt(r) == self@.parent,
    {
        self.parent
    }
}

/// The fields of an ANSI node BTree entry.
pub struct AnsiNodeBTreeEntryModel {
    pub node: u32,
    pub data: u32,
    pub sub_node: Option<u32>,
    pub parent: Option<u32>,
}

/// A leaf entry of the node BTree of an ANSI file: the node, its data block,
/// its optional sub-node block and its optional parent.
#[derive(Debug, Clone, Copy, PartialEq, Eq, Structural)]
pub struct AnsiNodeBTreeEntry {
    node: NodeId,
    data: AnsiBlockId,
    sub_node: Option<AnsiBlockId>,
    parent: Option<NodeId>,
}

impl View for AnsiNodeBTreeEntry {
    type V = AnsiNodeBTreeEntryModel;

    closed spec fn view(&self) -> AnsiNodeBTreeEntryModel {
        AnsiNodeBTreeEntryModel {
            node: self.node@,
            data: self.data@,
            sub_node: ansi_block_opt(self.sub_node),
            parent: node_opt(self.parent),
        }
    }
}

/// The 16 bytes of an ANSI node BTree entry: the node id, the data block, the
/// sub-node block or 0 and the parent or 0.
pub open spec fn ansi_node_btree_entry_bytes(e: AnsiNodeBTreeEntryModel) -> Seq<u8> {
    le32(e.node) + le32(e.data) + le32(opt_raw32(e.sub_node)) + le32(opt_raw32(e.parent))
}

/// The ANSI node BTree entry held in `s`.
pub open spec fn parse_ansi_node_btree_entry(s: Seq<u8>) -> Result<AnsiNodeBTreeEntryModel, NdbError> {
    Ok(AnsiNodeBTreeEntryModel {
        node: u32_at(s, 0),
        data: u32_at(s, 4),
        sub_node: raw_opt32(u32_at(s, 8)),
        parent: raw_opt32(u32_at(s, 12)),
    })
}

impl BTreeEntry for AnsiNodeBTreeEntry {
    open spec fn spec_entry_size() -> nat {
        16
    }

    fn read(b: &[u8]) -> (r: Result<AnsiNodeBTreeEntry, NdbError>)
        ensures
            r is Ok,
            view_result(r) == parse_ansi_node_btree_entry(b@),
    {
        let node = NodeId::from_u32(read_u32_at(b, 0));
        let data = AnsiBlockId::from_raw(read_u32_at(b, 4));
        let sub_node = read_u32_at(b, 8);
        let sub_node = if sub_node == 0 { None } else { Some(AnsiBlockId::from_raw(sub_node)) };
        let parent = read_u32_at(b, 12);
        let parent = if parent == 0 { None } else { Some(NodeId::from_u32(parent)) };
        Ok(AnsiNodeBTreeEntry { node, data, sub_node, parent })
    }

    fn write(&self, out: &mut Vec<u8>)
        ensures
            final(out)@ == old(out)@ + ansi_node_btree_entry_bytes(self@),
    {
        self.node.write(out);
        self.data.write(out);
        match self.sub_node {
            Some(b) => b.write(out),
            None => push_u32(out, 0),
        }
        match self.parent {
            Some(n) => n.write(out),
            None => push_u32(out, 0),
        }
        assert(out@ =~= old(out)@ + ansi_node_btree_entry_bytes(self@));
    }
}

impl NodeBTreeEntry for AnsiNodeBTreeEntry {
    type Block = AnsiBlockId;

    fn new(node: NodeId, data: AnsiBlockId, sub_node: Option<AnsiBlockId>, parent: Option<NodeId>) -> (r: AnsiNodeBTreeEntry)
        ensures
            r@ == (AnsiNodeBTreeEntryModel {
                node: node@,
                data: data@,
                sub_node: ansi_block_opt(sub_node),
                parent: node_opt(parent),
            }),
    {
        AnsiNodeBTreeEntry { node, data, sub_node, parent }
    }

    fn node(&self) -> (r: NodeId)
        ensures
            r@ == self@.node,
    {
        self.node
    }

    fn data(&self) -> (r: AnsiBlockId)
        ensures
            r@ == self@.data,
    {
        self.data
    }

    fn sub_node(&self) -> (r: Option<AnsiBlockId>)
        ensures
            ansi_block_opt(r) == self@.sub_node,
    {
        self.sub_node
    }

    fn parent(&self) -> (r: Option<NodeId>)
        ensures
            node_opt(r) == self@.parent,
    {
        self.parent
    }
}

/// Reading the bytes of a Unicode intermediate entry gives the entry back.
pub proof fn lemma_unicode_btree_page_entry_roundtrip(a: (u64, (u64, u64)))
    ensures
        unicode_btree_page_entry_bytes(a).len() == 24,
        parse_unicode_btree_page_entry(unicode_btree_page_entry_bytes(a)) == Ok::<(u64, (u64, u64)), NdbError>(a),
{
    lemma_le_roundtrip();
    let s = unicode_btree_page_entry_bytes(a);
    assert(s.subrange(0, 8) =~= le64(a.0));
    assert(s.subrange(8, 16) =~= le64(a.1.0));
    assert(s.subrange(16, 24) =~= le64(a.1.1));
}

/// Reading the bytes of an ANSI intermediate entry gives the entry back.
pub proof fn lemma_ansi_btree_page_entry_roundtrip(b: (u32, (u32, u32)))
    ensures
        ansi_btree_page_entry_bytes(b).len() == 12,
        parse_ansi_btree_page_entry(ansi_btree_page_entry_bytes(b)) == Ok::<(u32, (u32, u32)), NdbError>(b),
{
    lemma_le_roundtrip();
    let s = ansi_btree_page_entry_bytes(b);
    assert(s.subrange(0, 4) =~= le32(b.0));
    assert(s.subrange(4, 8) =~= le32(b.1.0));
    assert(s.subrange(8, 12) =~= le32(b.1.1));
}

/// Reading the bytes of a Unicode block BTree entry gives the entry back.
pub proof fn lemma_unicode_block_btree_entry_roundtrip(c: UnicodeBlockBTreeEntryModel)
    ensures
        unicode_block_btree_entry_bytes(c).len() == 24,
        parse_unicode_block_btree_entry(unicode_block_btree_entry_bytes(c)) == Ok::<UnicodeBlockBTreeEntryModel, NdbError>(c),
{
    lemma_le_roundtrip();
    let s = unicode_block_btree_entry_bytes(c);
    assert(s.subrange(0, 8) =~= le64(c.block.0));
    assert(s.subrange(8, 16) =~= le64(c.block.1));
    assert(s.subrange(16, 18) =~= le16(c.size));
    assert(s.subrange(18, 20) =~= le16(c.ref_count));
    assert(s.subrange(20, 24) =~= le32(c.padding));
}

/// Reading the bytes of an ANSI block BTree entry gives the entry back.
pub proof fn lemma_ansi_block_btree_entry_roundtrip(d: AnsiBlockBTreeEntryModel)
    ensures
        ansi_block_btree_entry_bytes(d).len() == 12,
        parse_ansi_block_btree_entry(ansi_block_btree_entry_bytes(d)) == Ok::<AnsiBlockBTreeEntryModel, NdbError>(d),
{
    lemma_le_roundtrip();
    let s = ansi_block_btree_entry_bytes(d);
    assert(s.subrange(0, 4) =~= le32(d.block.0));
    assert(s.subrange(4, 8) =~= le32(d.block.1));
    assert(s.subrange(8, 10) =~= le16(d.size));
    assert(s.subrange(10, 12) =~= le16(d.ref_count));
}

/// Reading the bytes of a Unicode node BTree entry gives the entry back, provided
/// that its optional ids are not present with the value 0 (which stands for none).
pub proof fn lemma_unicode_node_btree_entry_roundtrip(e: UnicodeNodeBTreeEntryModel)
    requires
        e.sub_node != Some(0u64),
        e.parent != Some(0u32),
    ensures
        unicode_node_btree_entry_bytes(e).len() == 32,
        parse_unicode_node_btree_entry(unicode_node_btree_entry_bytes(e)) == Ok::<UnicodeNodeBTreeEntryModel, NdbError>(e),
{
    lemma_le_roundtrip();
    let s = unicode_node_btree_entry_bytes(e);
    assert(s.subrange(0, 8) =~= le64(e.node as u64));
    assert(s.subrange(8, 16) =~= le64(e.data));
    assert(s.subrange(16, 24) =~= le64(opt_raw64(e.sub_node)));
    assert(s.subrange(24, 28) =~= le32(opt_raw32(e.parent)));
    assert(s.subrange(28, 32) =~= le32(e.padding));
}

/// Reading the bytes of an ANSI node BTree entry gives the entry back, provided
/// that its optional ids are not present with the value 0 (which stands for none).
pub proof fn lemma_ansi_node_btree_entry_roundtrip(f: AnsiNodeBTreeEntryModel)
    requires
        f.sub_node != Some(0u32),
        f.parent != Some(0u32),
    ensures
        ansi_node_btree_entry_bytes(f).len() == 16,
        parse_ansi_node_btree_entry(ansi_node_btree_entry_bytes(f)) == Ok::<AnsiNodeBTreeEntryModel, NdbError>(f),
{
    lemma_le_roundtrip();
    let s = ansi_node_btree_entry_bytes(f);
    assert(s.subrange(0, 4) =~= le32(f.node));
    assert(s.subrange(4, 8) =~= le32(f.data));
    assert(s.subrange(8, 12) =~= le32(opt_raw32(f.sub_node)));
    assert(s.subrange(12, 16) =~= le32(opt_raw32(f.parent)));
}


// ---------------------------------------------------------------------------
// Pages

/// The fields of a BTree page: its level (0 for a leaf), its entries and its trailer.
pub struct BTreePageModel<E> {
    pub level: u8,
    pub entries: Seq<E>,
    pub trailer: PageTrailerModel,
}

/// A page of a node or block BTree.
pub trait BTreePage: Sized {
    type Entry: BTreeEntry;
    type Trailer;

    fn new(level: u8, entries: &[Self::Entry], trailer: Self::Trailer) -> Result<Self, NdbError>;
    fn level(&self) -> u8;
    fn entries(&self) -> &[Self::Entry];
    fn trailer(&self) -> &Self::Trailer;
}

/// A BTree page of a Unicode file: 488 bytes of entries, the counts, the level,
/// 4 bytes of padding and a 16-byte trailer.
pub trait UnicodeBTreePage: BTreePage + View {
    /// The page held in 512 bytes.
    spec fn spec_parse(s: Seq<u8>) -> Result<Self::V, NdbError>;

    /// The 512 bytes that `write` produces.
    spec fn spec_bytes(&self) -> Seq<u8>;

    /// Reads the page from the first 512 bytes of `b`.
    fn read(b: &[u8]) -> (r: Result<Self, NdbError>)
        requires
            b@.len() >= 512,
        ensures
            view_result(r) == Self::spec_parse(b@),
    ;

    /// Appends the 512 bytes of the page, with the CRC of its data in the trailer.
    fn write(&self, out: &mut Vec<u8>)
        ensures
            final(out)@ == old(out)@ + self.spec_bytes(),
    ;
}

/// A BTree page of an ANSI file: 496 bytes of entries, the counts, the level and
/// a 12-byte trailer.
pub trait AnsiBTreePage: BTreePage + View {
    /// The page held in 512 bytes.
    spec fn spec_parse(s: Seq<u8>) -> Result<Self::V, NdbError>;

    /// The 512 bytes that `write` produces.
    spec fn spec_bytes(&self) -> Seq<u8>;

    /// Reads the page from the first 512 bytes of `b`.
    fn read(b: &[u8]) -> (r: Result<Self, NdbError>)
        requires
            b@.len() >= 512,
        ensures
            view_result(r) == Self::spec_parse(b@),
    ;

    /// Appends the 512 bytes of the page, with the CRC of its data in the trailer.
    fn write(&self, out: &mut Vec<u8>)
        ensures
            final(out)@ == old(out)@ + self.spec_bytes(),
    ;
}

/// The entries of type `UnicodeBTreePageEntry` stored one after another from the start of `s`; the first
/// entry that cannot be read gives the error.
pub open spec fn parse_unicode_btree_page_entries(s: Seq<u8>, n: nat) -> Result<Seq<(u64, (u64, u64))>, NdbError>
    decreases n,
{
    if n == 0 {
        Ok(Seq::empty())
    } else {
        match parse_unicode_btree_page_entries(s, (n - 1) as nat) {
            Err(e) => Err(e),
            Ok(v) => match parse_unicode_btree_page_entry(s.subrange(24 * (n - 1), 24 * (n as int))) {
                Err(e) => Err(e),
                Ok(x) => Ok(v.push(x)),
            },
        }
    }
}

/// The bytes of the entries, one after another.
pub open spec fn unicode_btree_page_entries_bytes(v: Seq<(u64, (u64, u64))>) -> Seq<u8>
    decreases v.len(),
{
    if v.len() == 0 {
        Seq::empty()
    } else {
        unicode_btree_page_entries_bytes(v.drop_last()) + unicode_btree_page_entry_bytes(v.last())
    }
}

/// Once reading the first `k` entries fails, reading more fails with the same error.
proof fn lemma_unicode_btree_page_entries_err(s: Seq<u8>, k: nat, n: nat)
    requires
        k <= n,
        parse_unicode_btree_page_entries(s, k) is Err,
    ensures
        parse_unicode_btree_page_entries(s, n) == parse_unicode_btree_page_entries(s, k),
    decreases n,
{
    if n > k {
        lemma_unicode_btree_page_entries_err(s, k, (n - 1) as nat);
    }
}

/// BTPAGE:
/// an intermediate page of a Unicode file; at most 20 entries of 24 bytes.
pub struct UnicodeBTreeEntryPage {
    level: u8,
    entries: Vec<UnicodeBTreePageEntry>,
    trailer: UnicodePageTrailer,
}

impl View for UnicodeBTreeEntryPage {
    type V = BTreePageModel<(u64, (u64, u64))>;

    closed spec fn view(&self) -> BTreePageModel<(u64, (u64, u64))> {
        BTreePageModel {
            level: self.level,
            entries: self.entries@.map_values(|e: UnicodeBTreePageEntry| e@),
            trailer: self.trailer@,
        }
    }
}

/// What `new` gives for a level, entries and trailer: the level must be between 1 and 8,
/// at most 20 entries fit, and the trailer must be that of a BTree page.
pub open spec fn unicode_btree_entry_page_new(level: u8, entries: Seq<(u64, (u64, u64))>, t: PageTrailerModel) -> Result<BTreePageModel<(u64, (u64, u64))>, NdbError> {
    if !(1 <= level <= 8) {
        Err(NdbError::InvalidBTreePageLevel(level))
    } else if entries.len() > 20 {
        Err(NdbError::InvalidBTreeEntryCount(entries.len() as usize))
    } else if !(t.page_type == PageType::BlockBTree || t.page_type == PageType::NodeBTree) {
        Err(NdbError::UnexpectedPageType(t.page_type))
    } else {
        Ok(BTreePageModel { level, entries, trailer: t })
    }
}

/// The page held in the 512 bytes of `s`: the counts, level, padding, trailer and
/// CRC are checked before the entries are read and the page is built.
pub open spec fn parse_unicode_btree_entry_page(s: Seq<u8>) -> Result<BTreePageModel<(u64, (u64, u64))>, NdbError> {
    if s[488] > 20 {
        Err(NdbError::InvalidBTreeEntryCount(s[488] as usize))
    } else if s[489] != 20 {
        Err(NdbError::InvalidBTreeEntryMaxCount(s[489]))
    } else if s[490] != 24 {
        Err(NdbError::InvalidBTreeEntrySize(s[490]))
    } else if s[491] > 8 {
        Err(NdbError::InvalidBTreePageLevel(s[491]))
    } else if u32_at(s, 492) != 0 {
        Err(NdbError::InvalidBTreePagePadding(u32_at(s, 492)))
    } else {
        match parse_unicode_trailer(s.subrange(496, 512)) {
            Err(e) => Err(e),
            Ok(t) => if !(t.page_type == PageType::BlockBTree || t.page_type == PageType::NodeBTree) {
                Err(NdbError::UnexpectedPageType(t.page_type))
            } else if spec_crc(0, s.subrange(0, 496)) != t.crc {
                Err(NdbError::InvalidPageCrc(spec_crc(0, s.subrange(0, 496))))
            } else {
                match parse_unicode_btree_page_entries(s, s[488] as nat) {
                    Err(e) => Err(e),
                    Ok(v) => unicode_btree_entry_page_new(s[491], v, t),
                }
            },
        }
    }
}

/// The data part that `write` produces: the entries, zeros up to byte 488, the entry
/// count, the largest count, the entry size and the level, and 4 zero bytes.
pub open spec fn unicode_btree_entry_page_data(m: BTreePageModel<(u64, (u64, u64))>) -> Seq<u8> {
    unicode_btree_page_entries_bytes(m.entries) + zeros((24 * (20 - m.entries.len()) + 8) as nat)
        + seq![m.entries.len() as u8, 20u8, 24u8, m.level] + le32(0)
}

/// The 512 bytes that `write` produces; the trailer carries the CRC of the data.
pub open spec fn unicode_btree_entry_page_bytes(m: BTreePageModel<(u64, (u64, u64))>) -> Seq<u8> {
    unicode_btree_entry_page_data(m) + unicode_trailer_bytes(trailer_with_crc(m.trailer, spec_crc(0, unicode_btree_entry_page_data(m))))
}

impl UnicodeBTreeEntryPage {
    #[verifier::type_invariant]
    spec fn wf(&self) -> bool {
        self.entries@.len() <= 20 && 1 <= self.level <= 8
    }
}

impl BTreePage for UnicodeBTreeEntryPage {
    type Entry = UnicodeBTreePageEntry;
    type Trailer = UnicodePageTrailer;

    fn new(level: u8, entries: &[UnicodeBTreePageEntry], trailer: UnicodePageTrailer) -> (r: Result<UnicodeBTreeEntryPage, NdbError>)
        ensures
            view_result(r) == unicode_btree_entry_page_new(level, entries@.map_values(|e: UnicodeBTreePageEntry| e@), trailer@),
    {
        if level < 1 || level > 8 {
            return Err(NdbError::InvalidBTreePageLevel(level));
        }
        if entries.len() > 20 {
            return Err(NdbError::InvalidBTreeEntryCount(entries.len()));
        }
        if !(trailer.page_type() == PageType::BlockBTree || trailer.page_type() == PageType::NodeBTree) {
            return Err(NdbError::UnexpectedPageType(trailer.page_type()));
        }
        let mut list: Vec<UnicodeBTreePageEntry> = Vec::new();
        let n = entries.len();
        let mut i: usize = 0;
        while i < n
            invariant
                n == entries@.len(),
                i <= n,
                list@ == entries@.subrange(0, i as int),
            decreases n - i,
        {
            list.push(entries[i]);
            i = i + 1;
            assert(list@ =~= entries@.subrange(0, i as int));
        }
        assert(entries@.subrange(0, n as int) =~= entries@);
        assert(list@.map_values(|e: UnicodeBTreePageEntry| e@) =~= entries@.map_values(|e: UnicodeBTreePageEntry| e@));
        Ok(UnicodeBTreeEntryPage { level, entries: list, trailer })
    }

    fn level(&self) -> (r: u8)
        ensures
            r == self@.level,
    {
        self.level
    }

    fn entries(&self) -> (r: &[UnicodeBTreePageEntry])
        ensures
            r@.map_values(|e: UnicodeBTreePageEntry| e@) == self@.entries,
            r@.len() <= 20,
    {
        proof {
            use_type_invariant(self);
        }
        self.entries.as_slice()
    }

    fn trailer(&self) -> (r: &UnicodePageTrailer)
        ensures
            r@ == self@.trailer,
    {
        &self.trailer
    }
}

impl UnicodeBTreePage for UnicodeBTreeEntryPage {
    open spec fn spec_parse(s: Seq<u8>) -> Result<BTreePageModel<(u64, (u64, u64))>, NdbError> {
        parse_unicode_btree_entry_page(s)
    }

    open spec fn spec_bytes(&self) -> Seq<u8> {
        unicode_btree_entry_page_bytes(self@)
    }

    fn read(b: &[u8]) -> (r: Result<UnicodeBTreeEntryPage, NdbError>) {
        let count = b[488];
        if count as usize > 20 {
            return Err(NdbError::InvalidBTreeEntryCount(count as usize));
        }
        let max_entries = b[489];
        if max_entries != 20 {
            return Err(NdbError::InvalidBTreeEntryMaxCount(max_entries));
        }
        let entry_size = b[490];
        if entry_size != 24 {
            return Err(NdbError::InvalidBTreeEntrySize(entry_size));
        }
        let level = b[491];
        if level > 8 {
            return Err(NdbError::InvalidBTreePageLevel(level));
        }
        let padding = read_u32_at(b, 492);
        if padding != 0 {
            return Err(NdbError::InvalidBTreePagePadding(padding));
        }
        let trailer = match UnicodePageTrailer::read(&b[496..512]) {
            Ok(t) => t,
            Err(e) => return Err(e),
        };
        if !(trailer.page_type() == PageType::BlockBTree || trailer.page_type() == PageType::NodeBTree) {
            return Err(NdbError::UnexpectedPageType(trailer.page_type()));
        }
        let crc = compute_crc(0, &b[0..496]);
        if crc != trailer.crc() {
            return Err(NdbError::InvalidPageCrc(crc));
        }
        let n = count as usize;
        let mut entries: Vec<UnicodeBTreePageEntry> = Vec::new();
        let mut i: usize = 0;
        assert(entries@.map_values(|e: UnicodeBTreePageEntry| e@) =~= Seq::<(u64, (u64, u64))>::empty());
        assert(parse_unicode_btree_entry_page(b@) == match parse_unicode_btree_page_entries(b@, n as nat) {
            Err(e) => Err(e),
            Ok(v) => unicode_btree_entry_page_new(level, v, trailer@),
        });
        while i < n
            invariant
                parse_unicode_btree_entry_page(b@) == match parse_unicode_btree_page_entries(b@, n as nat) {
                    Err(e) => Err(e),
                    Ok(v) => unicode_btree_entry_page_new(level, v, trailer@),
                },
                n == b@[488] as usize,
                n <= 20,
                b@.len() >= 512,
                i <= n,
                parse_unicode_btree_page_entries(b@, i as nat) == Ok::<Seq<(u64, (u64, u64))>, NdbError>(entries@.map_values(|e: UnicodeBTreePageEntry| e@)),
            decreases n - i,
        {
            let ghost prev = entries@;
            let e = match UnicodeBTreePageEntry::read(&b[24 * i..24 * (i + 1)]) {
                Ok(e) => e,
                Err(err) => {
                    proof {
                        assert(b@.subrange(24 * i, 24 * (i + 1))
                            =~= b@.subrange(24 * (((i + 1) as nat) - 1), 24 * (((i + 1) as nat) as int)));
                        assert(parse_unicode_btree_page_entries(b@, (i + 1) as nat) == Err::<Seq<(u64, (u64, u64))>, NdbError>(err));
                        lemma_unicode_btree_page_entries_err(b@, (i + 1) as nat, n as nat);
                    }
                    return Err(err);
                },
            };
            entries.push(e);
            assert(entries@.map_values(|e: UnicodeBTreePageEntry| e@) =~= prev.map_values(|e: UnicodeBTreePageEntry| e@).push(e@));
            i = i + 1;
        }
        UnicodeBTreeEntryPage::new(level, entries.as_slice(), trailer)
    }

    fn write(&self, out: &mut Vec<u8>) {
        proof {
            use_type_invariant(self);
        }
        let ghost m = self@;
        let mut buffer: Vec<u8> = Vec::new();
        let n = self.entries.len();
        let mut i: usize = 0;
        while i < n
            invariant
                n == self.entries@.len(),
                m == self@,
                i <= n,
                buffer@ == unicode_btree_page_entries_bytes(m.entries.subrange(0, i as int)),
            decreases n - i,
        {
            self.entries[i].write(&mut buffer);
            assert(m.entries.subrange(0, i + 1).drop_last() =~= m.entries.subrange(0, i as int));
            i = i + 1;
        }
        assert(m.entries.subrange(0, n as int) =~= m.entries);
        push_zeros(&mut buffer, 24 * (20 - n) + 8);
        push_u8(&mut buffer, n as u8);
        push_u8(&mut buffer, 20);
        push_u8(&mut buffer, 24);
        push_u8(&mut buffer, self.level);
        push_u32(&mut buffer, 0);
        assert(buffer@ =~= unicode_btree_entry_page_data(m));
        let crc = compute_crc(0, buffer.as_slice());
        push_bytes(out, buffer.as_slice());
        self.trailer.with_crc(crc).write(out);
        assert(out@ =~= old(out)@ + unicode_btree_entry_page_bytes(m));
    }
}

/// The entries of type `UnicodeBlockBTreeEntry` stored one after another from the start of `s`; the first
/// entry that cannot be read gives the error.
pub open spec fn parse_unicode_block_btree_entries(s: Seq<u8>, n: nat) -> Result<Seq<UnicodeBlockBTreeEntryModel>, NdbError>
    decreases n,
{
    if n == 0 {
        Ok(Seq::empty())
    } else {
        match parse_unicode_block_btree_entries(s, (n - 1) as nat) {
            Err(e) => Err(e),
            Ok(v) => match parse_unicode_block_btree_entry(s.subrange(24 * (n - 1), 24 * (n as int))) {
                Err(e) => Err(e),
                Ok(x) => Ok(v.push(x)),
            },
        }
    }
}

/// The bytes of the entries, one after another.
pub open spec fn unicode_block_btree_entries_bytes(v: Seq<UnicodeBlockBTreeEntryModel>) -> Seq<u8>
    decreases v.len(),
{
    if v.len() == 0 {
        Seq::empty()
    } else {
        unicode_block_btree_entries_bytes(v.drop_last()) + unicode_block_btree_entry_bytes(v.last())
    }
}

/// Once reading the first `k` entries fails, reading more fails with the same error.
proof fn lemma_unicode_block_btree_entries_err(s: Seq<u8>, k: nat, n: nat)
    requires
        k <= n,
        parse_unicode_block_btree_entries(s, k) is Err,
    ensures
        parse_unicode_block_btree_entries(s, n) == parse_unicode_block_btree_entries(s, k),
    decreases n,
{
    if n > k {
        lemma_unicode_block_btree_entries_err(s, k, (n - 1) as nat);
    }
}

/// BTPAGE:
/// a leaf page of the block BTree of a Unicode file; at most 20 entries of 24 bytes.
pub struct UnicodeBlockBTreePage {
    entries: Vec<UnicodeBlockBTreeEntry>,
    trailer: UnicodePageTrailer,
}

impl View for UnicodeBlockBTreePage {
    type V = BTreePageModel<UnicodeBlockBTreeEntryModel>;

    closed spec fn view(&self) -> BTreePageModel<UnicodeBlockBTreeEntryModel> {
        BTreePageModel {
            level: 0,
            entries: self.entries@.map_values(|e: UnicodeBlockBTreeEntry| e@),
            trailer: self.trailer@,
        }
    }
}

/// What `new` gives for a level, entries and trailer: the level must be 0,
/// at most 20 entries fit, and the trailer must be that of a block BTree page.
pub open spec fn unicode_block_btree_page_new(level: u8, entries: Seq<UnicodeBlockBTreeEntryModel>, t: PageTrailerModel) -> Result<BTreePageModel<UnicodeBlockBTreeEntryModel>, NdbError> {
    if level != 0 {
        Err(NdbError::InvalidBTreePageLevel(level))
    } else if entries.len() > 20 {
        Err(NdbError::InvalidBTreeEntryCount(entries.len() as usize))
    } else if !(t.page_type == PageType::BlockBTree) {
        Err(NdbError::UnexpectedPageType(t.page_type))
    } else {
        Ok(BTreePageModel { level, entries, trailer: t })
    }
}

/// The page held in the 512 bytes of `s`: the counts, level, padding, trailer and
/// CRC are checked before the entries are read and the page is built.
pub open spec fn parse_unicode_block_btree_page(s: Seq<u8>) -> Result<BTreePageModel<UnicodeBlockBTreeEntryModel>, NdbError> {
    if s[488] > 20 {
        Err(NdbError::InvalidBTreeEntryCount(s[488] as usize))
    } else if s[489] != 20 {
        Err(NdbError::InvalidBTreeEntryMaxCount(s[489]))
    } else if s[490] != 24 {
        Err(NdbError::InvalidBTreeEntrySize(s[490]))
    } else if s[491] > 8 {
        Err(NdbError::InvalidBTreePageLevel(s[491]))
    } else if u32_at(s, 492) != 0 {
        Err(NdbError::InvalidBTreePagePadding(u32_at(s, 492)))
    } else {
        match parse_unicode_trailer(s.subrange(496, 512)) {
            Err(e) => Err(e),
            Ok(t) => if !(t.page_type == PageType::BlockBTree || t.page_type == PageType::NodeBTree) {
                Err(NdbError::UnexpectedPageType(t.page_type))
            } else if spec_crc(0, s.subrange(0, 496)) != t.crc {
                Err(NdbError::InvalidPageCrc(spec_crc(0, s.subrange(0, 496))))
            } else {
                match parse_unicode_block_btree_entries(s, s[488] as nat) {
                    Err(e) => Err(e),
                    Ok(v) => unicode_block_btree_page_new(s[491], v, t),
                }
            },
        }
    }
}

/// The data part that `write` produces: the entries, zeros up to byte 488, the entry
/// count, the largest count, the entry size and the level, and 4 zero bytes.
pub open spec fn unicode_block_btree_page_data(m: BTreePageModel<UnicodeBlockBTreeEntryModel>) -> Seq<u8> {
    unicode_block_btree_entries_bytes(m.entries) + zeros((24 * (20 - m.entries.len()) + 8) as nat)
        + seq![m.entries.len() as u8, 20u8, 24u8, m.level] + le32(0)
}

/// The 512 bytes that `write` produces; the trailer carries the CRC of the data.
pub open spec fn unicode_block_btree_page_bytes(m: BTreePageModel<UnicodeBlockBTreeEntryModel>) -> Seq<u8> {
    unicode_block_btree_page_data(m) + unicode_trailer_bytes(trailer_with_crc(m.trailer, spec_crc(0, unicode_block_btree_page_data(m))))
}

impl UnicodeBlockBTreePage {
    #[verifier::type_invariant]
    spec fn wf(&self) -> bool {
        self.entries@.len() <= 20
    }
}

impl BTreePage for UnicodeBlockBTreePage {
    type Entry = UnicodeBlockBTreeEntry;
    type Trailer = UnicodePageTrailer;

    fn new(level: u8, entries: &[UnicodeBlockBTreeEntry], trailer: UnicodePageTrailer) -> (r: Result<UnicodeBlockBTreePage, NdbError>)
        ensures
            view_result(r) == unicode_block_btree_page_new(level, entries@.map_values(|e: UnicodeBlockBTreeEntry| e@), trailer@),
    {
        if level != 0 {
            return Err(NdbError::InvalidBTreePageLevel(level));
        }
        if entries.len() > 20 {
            return Err(NdbError::InvalidBTreeEntryCount(entries.len()));
        }
        if !(trailer.page_type() == PageType::BlockBTree) {
            return Err(NdbError::UnexpectedPageType(trailer.page_type()));
        }
        let mut list: Vec<UnicodeBlockBTreeEntry> = Vec::new();
        let n = entries.len();
        let mut i: usize = 0;
        while i < n
            invariant
                n == entries@.len(),
                i <= n,
                list@ == entries@.subrange(0, i as int),
            decreases n - i,
        {
            list.push(entries[i]);
            i = i + 1;
            assert(list@ =~= entries@.subrange(0, i as int));
        }
        assert(entries@.subrange(0, n as int) =~= entries@);
        assert(list@.map_values(|e: UnicodeBlockBTreeEntry| e@) =~= entries@.map_values(|e: UnicodeBlockBTreeEntry| e@));
        Ok(UnicodeBlockBTreePage { entries: list, trailer })
    }

    fn level(&self) -> (r: u8)
        ensures
            r == self@.level,
    {
        0
    }

    fn entries(&self) -> (r: &[UnicodeBlockBTreeEntry])
        ensures
            r@.map_values(|e: UnicodeBlockBTreeEntry| e@) == self@.entries,
            r@.len() <= 20,
    {
        proof {
            use_type_invariant(self);
        }
        self.entries.as_slice()
    }

    fn trailer(&self) -> (r: &UnicodePageTrailer)
        ensures
            r@ == self@.trailer,
    {
        &self.trailer
    }
}

impl UnicodeBTreePage for UnicodeBlockBTreePage {
    open spec fn spec_parse(s: Seq<u8>) -> Result<BTreePageModel<UnicodeBlockBTreeEntryModel>, NdbError> {
        parse_unicode_block_btree_page(s)
    }

    open spec fn spec_bytes(&self) -> Seq<u8> {
        unicode_block_btree_page_bytes(self@)
    }

    fn read(b: &[u8]) -> (r: Result<UnicodeBlockBTreePage, NdbError>) {
        let count = b[488];
        if count as usize > 20 {
            return Err(NdbError::InvalidBTreeEntryCount(count as usize));
        }
        let max_entries = b[489];
        if max_entries != 20 {
            return Err(NdbError::InvalidBTreeEntryMaxCount(max_entries));
        }
        let entry_size = b[490];
        if entry_size != 24 {
            return Err(NdbError::InvalidBTreeEntrySize(entry_size));
        }
        let level = b[491];
        if level > 8 {
            return Err(NdbError::InvalidBTreePageLevel(level));
        }
        let padding = read_u32_at(b, 492);
        if padding != 0 {
            return Err(NdbError::InvalidBTreePagePadding(padding));
        }
        let trailer = match UnicodePageTrailer::read(&b[496..512]) {
            Ok(t) => t,
            Err(e) => return Err(e),
        };
        if !(trailer.page_type() == PageType::BlockBTree || trailer.page_type() == PageType::NodeBTree) {
            return Err(NdbError::UnexpectedPageType(trailer.page_type()));
        }
        let crc = compute_crc(0, &b[0..496]);
        if crc != trailer.crc() {
            return Err(NdbError::InvalidPageCrc(crc));
        }
        let n = count as usize;
        let mut entries: Vec<UnicodeBlockBTreeEntry> = Vec::new();
        let mut i: usize = 0;
        assert(entries@.map_values(|e: UnicodeBlockBTreeEntry| e@) =~= Seq::<UnicodeBlockBTreeEntryModel>::empty());
        assert(parse_unicode_block_btree_page(b@) == match parse_unicode_block_btree_entries(b@, n as nat) {
            Err(e) => Err(e),
            Ok(v) => unicode_block_btree_page_new(level, v, trailer@),
        });
        while i < n
            invariant
                parse_unicode_block_btree_page(b@) == match parse_unicode_block_btree_entries(b@, n as nat) {
                    Err(e) => Err(e),
                    Ok(v) => unicode_block_btree_page_new(level, v, trailer@),
                },
                n == b@[488] as usize,
                n <= 20,
                b@.len() >= 512,
                i <= n,
                parse_unicode_block_btree_entries(b@, i as nat) == Ok::<Seq<UnicodeBlockBTreeEntryModel>, NdbError>(entries@.map_values(|e: UnicodeBlockBTreeEntry| e@)),
            decreases n - i,
        {
            let ghost prev = entries@;
            let e = match UnicodeBlockBTreeEntry::read(&b[24 * i..24 * (i + 1)]) {
                Ok(e) => e,
                Err(err) => {
                    proof {
                        assert(b@.subrange(24 * i, 24 * (i + 1))
                            =~= b@.subrange(24 * (((i + 1) as nat) - 1), 24 * (((i + 1) as nat) as int)));
                        assert(parse_unicode_block_btree_entries(b@, (i + 1) as nat) == Err::<Seq<UnicodeBlockBTreeEntryModel>, NdbError>(err));
                        lemma_unicode_block_btree_entries_err(b@, (i + 1) as nat, n as nat);
                    }
                    return Err(err);
                },
            };
            entries.push(e);
            assert(entries@.map_values(|e: UnicodeBlockBTreeEntry| e@) =~= prev.map_values(|e: UnicodeBlockBTreeEntry| e@).push(e@));
            i = i + 1;
        }
        UnicodeBlockBTreePage::new(level, entries.as_slice(), trailer)
    }

    fn write(&self, out: &mut Vec<u8>) {
        proof {
            use_type_invariant(self);
        }
        let ghost m = self@;
        let mut buffer: Vec<u8> = Vec::new();
        let n = self.entries.len();
        let mut i: usize = 0;
        while i < n
            invariant
                n == self.entries@.len(),
                m == self@,
                i <= n,
                buffer@ == unicode_block_btree_entries_bytes(m.entries.subrange(0, i as int)),
            decreases n - i,
        {
            self.entries[i].write(&mut buffer);
            assert(m.entries.subrange(0, i + 1).drop_last() =~= m.entries.subrange(0, i as int));
            i = i + 1;
        }
        assert(m.entries.subrange(0, n as int) =~= m.entries);
        push_zeros(&mut buffer, 24 * (20 - n) + 8);
        push_u8(&mut buffer, n as u8);
        push_u8(&mut buffer, 20);
        push_u8(&mut buffer, 24);
        push_u8(&mut buffer, 0);
        push_u32(&mut buffer, 0);
        assert(buffer@ =~= unicode_block_btree_page_data(m));
        let crc = compute_crc(0, buffer.as_slice());
        push_bytes(out, buffer.as_slice());
        self.trailer.with_crc(crc).write(out);
        assert(out@ =~= old(out)@ + unicode_block_btree_page_bytes(m));
    }
}

/// The entries of type `UnicodeNodeBTreeEntry` stored one after another from the start of `s`; the first
/// entry that cannot be read gives the error.
pub open spec fn parse_unicode_node_btree_entries(s: Seq<u8>, n: nat) -> Result<Seq<UnicodeNodeBTreeEntryModel>, NdbError>
    decreases n,
{
    if n == 0 {
        Ok(Seq::empty())
    } else {
        match parse_unicode_node_btree_entries(s, (n - 1) as nat) {
            Err(e) => Err(e),
            Ok(v) => match parse_unicode_node_btree_entry(s.subrange(32 * (n - 1), 32 * (n as int))) {
                Err(e) => Err(e),
                Ok(x) => Ok(v.push(x)),
            },
        }
    }
}

/// The bytes of the entries, one after another.
pub open spec fn unicode_node_btree_entries_bytes(v: Seq<UnicodeNodeBTreeEntryModel>) -> Seq<u8>
    decreases v.len(),
{
    if v.len() == 0 {
        Seq::empty()
    } else {
        unicode_node_btree_entries_bytes(v.drop_last()) + unicode_node_btree_entry_bytes(v.last())
    }
}

/// Once reading the first `k` entries fails, reading more fails with the same error.
proof fn lemma_unicode_node_btree_entries_err(s: Seq<u8>, k: nat, n: nat)
    requires
        k <= n,
        parse_unicode_node_btree_entries(s, k) is Err,
    ensures
        parse_unicode_node_btree_entries(s, n) == parse_unicode_node_btree_entries(s, k),
    decreases n,
{
    if n > k {
        lemma_unicode_node_btree_entries_err(s, k, (n - 1) as nat);
    }
}

/// BTPAGE:
/// a leaf page of the node BTree of a Unicode file; at most 15 entries of 32 bytes.
pub struct UnicodeNodeBTreePage {
    entries: Vec<UnicodeNodeBTreeEntry>,
    trailer: UnicodePageTrailer,
}

impl View for UnicodeNodeBTreePage {
    type V = BTreePageModel<UnicodeNodeBTreeEntryModel>;

    closed spec fn view(&self) -> BTreePageModel<UnicodeNodeBTreeEntryModel> {
        BTreePageModel {
            level: 0,
            entries: self.entries@.map_values(|e: UnicodeNodeBTreeEntry| e@),
            trailer: self.trailer@,
        }
    }
}

/// What `new` gives for a level, entries and trailer: the level must be 0,
/// at most 15 entries fit, and the trailer must be that of a node BTree page.
pub open spec fn unicode_node_btree_page_new(level: u8, entries: Seq<UnicodeNodeBTreeEntryModel>, t: PageTrailerModel) -> Result<BTreePageModel<UnicodeNodeBTreeEntryModel>, NdbError> {
    if level != 0 {
        Err(NdbError::InvalidBTreePageLevel(level))
    } else if entries.len() > 15 {
        Err(NdbError::InvalidBTreeEntryCount(entries.len() as usize))
    } else if !(t.page_type == PageType::NodeBTree) {
        Err(NdbError::UnexpectedPageType(t.page_type))
    } else {
        Ok(BTreePageModel { level, entries, trailer: t })
    }
}

/// The page held in the 512 bytes of `s`: the counts, level, padding, trailer and
/// CRC are checked before the entries are read and the page is built.
pub open spec fn parse_unicode_node_btree_page(s: Seq<u8>) -> Result<BTreePageModel<UnicodeNodeBTreeEntryModel>, NdbError> {
    if s[488] > 15 {
        Err(NdbError::InvalidBTreeEntryCount(s[488] as usize))
    } else if s[489] != 15 {
        Err(NdbError::InvalidBTreeEntryMaxCount(s[489]))
    } else if s[490] != 32 {
        Err(NdbError::InvalidBTreeEntrySize(s[490]))
    } else if s[491] > 8 {
        Err(NdbError::InvalidBTreePageLevel(s[491]))
    } else if u32_at(s, 492) != 0 {
        Err(NdbError::InvalidBTreePagePadding(u32_at(s, 492)))
    } else {
        match parse_unicode_trailer(s.subrange(496, 512)) {
            Err(e) => Err(e),
            Ok(t) => if !(t.page_type == PageType::BlockBTree || t.page_type == PageType::NodeBTree) {
                Err(NdbError::UnexpectedPageType(t.page_type))
            } else if spec_crc(0, s.subrange(0, 496)) != t.crc {
                Err(NdbError::InvalidPageCrc(spec_crc(0, s.subrange(0, 496))))
            } else {
                match parse_unicode_node_btree_entries(s, s[488] as nat) {
                    Err(e) => Err(e),
                    Ok(v) => unicode_node_btree_page_new(s[491], v, t),
                }
            },
        }
    }
}

/// The data part that `write` produces: the entries, zeros up to byte 488, the entry
/// count, the largest count, the entry size and the level, and 4 zero bytes.
pub open spec fn unicode_node_btree_page_data(m: BTreePageModel<UnicodeNodeBTreeEntryModel>) -> Seq<u8> {
    unicode_node_btree_entries_bytes(m.entries) + zeros((32 * (15 - m.entries.len()) + 8) as nat)
        + seq![m.entries.len() as u8, 15u8, 32u8, m.level] + le32(0)
}

/// The 512 bytes that `write` produces; the trailer carries the CRC of the data.
pub open spec fn unicode_node_btree_page_bytes(m: BTreePageModel<UnicodeNodeBTreeEntryModel>) -> Seq<u8> {
    unicode_node_btree_page_data(m) + unicode_trailer_bytes(trailer_with_crc(m.trailer, spec_crc(0, unicode_node_btree_page_data(m))))
}

impl UnicodeNodeBTreePage {
    #[verifier::type_invariant]
    spec fn wf(&self) -> bool {
        self.entries@.len() <= 15
    }
}

impl BTreePage for UnicodeNodeBTreePage {
    type Entry = UnicodeNodeBTreeEntry;
    type Trailer = UnicodePageTrailer;

    fn new(level: u8, entries: &[UnicodeNodeBTreeEntry], trailer: UnicodePageTrailer) -> (r: Result<UnicodeNodeBTreePage, NdbError>)
        ensures
            view_result(r) == unicode_node_btree_page_new(level, entries@.map_values(|e: UnicodeNodeBTreeEntry| e@), trailer@),
    {
        if level != 0 {
            return Err(NdbError::InvalidBTreePageLevel(level));
        }
        if entries.len() > 15 {
            return Err(NdbError::InvalidBTreeEntryCount(entries.len()));
        }
        if !(trailer.page_type() == PageType::NodeBTree) {
            return Err(NdbError::UnexpectedPageType(trailer.page_type()));
        }
        let mut list: Vec<UnicodeNodeBTreeEntry> = Vec::new();
        let n = entries.len();
        let mut i: usize = 0;
        while i < n
            invariant
                n == entries@.len(),
                i <= n,
                list@ == entries@.subrange(0, i as int),
            decreases n - i,
        {
            list.push(entries[i]);
            i = i + 1;
            assert(list@ =~= entries@.subrange(0, i as int));
        }
        assert(entries@.subrange(0, n as int) =~= entries@);
        assert(list@.map_values(|e: UnicodeNodeBTreeEntry| e@) =~= entries@.map_values(|e: UnicodeNodeBTreeEntry| e@));
        Ok(UnicodeNodeBTreePage { entries: list, trailer })
    }

    fn level(&self) -> (r: u8)
        ensures
            r == self@.level,
    {
        0
    }

    fn entries(&self) -> (r: &[UnicodeNodeBTreeEntry])
        ensures
            r@.map_values(|e: UnicodeNodeBTreeEntry| e@) == self@.entries,
            r@.len() <= 15,
    {
        proof {
            use_type_invariant(self);
        }
        self.entries.as_slice()
    }

    fn trailer(&self) -> (r: &UnicodePageTrailer)
        ensures
            r@ == self@.trailer,
    {
        &self.trailer
    }
}

impl UnicodeBTreePage for UnicodeNodeBTreePage {
    open spec fn spec_parse(s: Seq<u8>) -> Result<BTreePageModel<UnicodeNodeBTreeEntryModel>, NdbError> {
        parse_unicode_node_btree_page(s)
    }

    open spec fn spec_bytes(&self) -> Seq<u8> {
        unicode_node_btree_page_bytes(self@)
    }

    fn read(b: &[u8]) -> (r: Result<UnicodeNodeBTreePage, NdbError>) {
        let count = b[488];
        if count as usize > 15 {
            return Err(NdbError::InvalidBTreeEntryCount(count as usize));
        }
        let max_entries = b[489];
        if max_entries != 15 {
            return Err(NdbError::InvalidBTreeEntryMaxCount(max_entries));
        }
        let entry_size = b[490];
        if entry_size != 32 {
            return Err(NdbError::InvalidBTreeEntrySize(entry_size));
        }
        let level = b[491];
        if level > 8 {
            return Err(NdbError::InvalidBTreePageLevel(level));
        }
        let padding = read_u32_at(b, 492);
        if padding != 0 {
            return Err(NdbError::InvalidBTreePagePadding(padding));
        }
        let trailer = match UnicodePageTrailer::read(&b[496..512]) {
            Ok(t) => t,
            Err(e) => return Err(e),
        };
        if !(trailer.page_type() == PageType::BlockBTree || trailer.page_type() == PageType::NodeBTree) {
            return Err(NdbError::UnexpectedPageType(trailer.page_type()));
        }
        let crc = compute_crc(0, &b[0..496]);
        if crc != trailer.crc() {
            return Err(NdbError::InvalidPageCrc(crc));
        }
        let n = count as usize;
        let mut entries: Vec<UnicodeNodeBTreeEntry> = Vec::new();
        let mut i: usize = 0;
        assert(entries@.map_values(|e: UnicodeNodeBTreeEntry| e@) =~= Seq::<UnicodeNodeBTreeEntryModel>::empty());
        assert(parse_unicode_node_btree_page(b@) == match parse_unicode_node_btree_entries(b@, n as nat) {
            Err(e) => Err(e),
            Ok(v) => unicode_node_btree_page_new(level, v, trailer@),
        });
        while i < n
            invariant
                parse_unicode_node_btree_page(b@) == match parse_unicode_node_btree_entries(b@, n as nat) {
                    Err(e) => Err(e),
                    Ok(v) => unicode_node_btree_page_new(level, v, trailer@),
                },
                n == b@[488] as usize,
                n <= 15,
                b@.len() >= 512,
                i <= n,
                parse_unicode_node_btree_entries(b@, i as nat) == Ok::<Seq<UnicodeNodeBTreeEntryModel>, NdbError>(entries@.map_values(|e: UnicodeNodeBTreeEntry| e@)),
            decreases n - i,
        {
            let ghost prev = entries@;
            let e = match UnicodeNodeBTreeEntry::read(&b[32 * i..32 * (i + 1)]) {
                Ok(e) => e,
                Err(err) => {
                    proof {
                        assert(b@.subrange(32 * i, 32 * (i + 1))
                            =~= b@.subrange(32 * (((i + 1) as nat) - 1), 32 * (((i + 1) as nat) as int)));
                        assert(parse_unicode_node_btree_entries(b@, (i + 1) as nat) == Err::<Seq<UnicodeNodeBTreeEntryModel>, NdbError>(err));
                        lemma_unicode_node_btree_entries_err(b@, (i + 1) as nat, n as nat);
                    }
                    return Err(err);
                },
            };
            entries.push(e);
            assert(entries@.map_values(|e: UnicodeNodeBTreeEntry| e@) =~= prev.map_values(|e: UnicodeNodeBTreeEntry| e@).push(e@));
            i = i + 1;
        }
        UnicodeNodeBTreePage::new(level, entries.as_slice(), trailer)
    }

    fn write(&self, out: &mut Vec<u8>) {
        proof {
            use_type_invariant(self);
        }
        let ghost m = self@;
        let mut buffer: Vec<u8> = Vec::new();
        let n = self.entries.len();
        let mut i: usize = 0;
        while i < n
            invariant
                n == self.entries@.len(),
                m == self@,
                i <= n,
                buffer@ == unicode_node_btree_entries_bytes(m.entries.subrange(0, i as int)),
            decreases n - i,
        {
            self.entries[i].write(&mut buffer);
            assert(m.entries.subrange(0, i + 1).drop_last() =~= m.entries.subrange(0, i as int));
            i = i + 1;
        }
        assert(m.entries.subrange(0, n as int) =~= m.entries);
        push_zeros(&mut buffer, 32 * (15 - n) + 8);
        push_u8(&mut buffer, n as u8);
        push_u8(&mut buffer, 15);
        push_u8(&mut buffer, 32);
        push_u8(&mut buffer, 0);
        push_u32(&mut buffer, 0);
        assert(buffer@ =~= unicode_node_btree_page_data(m));
        let crc = compute_crc(0, buffer.as_slice());
        push_bytes(out, buffer.as_slice());
        self.trailer.with_crc(crc).write(out);
        assert(out@ =~= old(out)@ + unicode_node_btree_page_bytes(m));
    }
}

/// The entries of type `AnsiBTreePageEntry` stored one after another from the start of `s`; the first
/// entry that cannot be read gives the error.
pub open spec fn parse_ansi_btree_page_entries(s: Seq<u8>, n: nat) -> Result<Seq<(u32, (u32, u32))>, NdbError>
    decreases n,
{
    if n == 0 {
        Ok(Seq::empty())
    } else {
        match parse_ansi_btree_page_entries(s, (n - 1) as nat) {
            Err(e) => Err(e),
            Ok(v) => match parse_ansi_btree_page_entry(s.subrange(12 * (n - 1), 12 * (n as int))) {
                Err(e) => Err(e),
                Ok(x) => Ok(v.push(x)),
            },
        }
    }
}

/// The bytes of the entries, one after another.
pub open spec fn ansi_btree_page_entries_bytes(v: Seq<(u32, (u32, u32))>) -> Seq<u8>
    decreases v.len(),
{
    if v.len() == 0 {
        Seq::empty()
    } else {
        ansi_btree_page_entries_bytes(v.drop_last()) + ansi_btree_page_entry_bytes(v.last())
    }
}

/// Once reading the first `k` entries fails, reading more fails with the same error.
proof fn lemma_ansi_btree_page_entries_err(s: Seq<u8>, k: nat, n: nat)
    requires
        k <= n,
        parse_ansi_btree_page_entries(s, k) is Err,
    ensures
        parse_ansi_btree_page_entries(s, n) == parse_ansi_btree_page_entries(s, k),
    decreases n,
{
    if n > k {
        lemma_ansi_btree_page_entries_err(s, k, (n - 1) as nat);
    }
}

/// BTPAGE:
/// an intermediate page of an ANSI file; at most 41 entries of 12 bytes.
pub struct AnsiBTreeEntryPage {
    level: u8,
    entries: Vec<AnsiBTreePageEntry>,
    trailer: AnsiPageTrailer,
}

impl View for AnsiBTreeEntryPage {
    type V = BTreePageModel<(u32, (u32, u32))>;

    closed spec fn view(&self) -> BTreePageModel<(u32, (u32, u32))> {
        BTreePageModel {
            level: self.level,
            entries: self.entries@.map_values(|e: AnsiBTreePageEntry| e@),
            trailer: self.trailer@,
        }
    }
}

/// What `new` gives for a level, entries and trailer: the level must be between 1 and 8,
/// at most 41 entries fit, and the trailer must be that of a BTree page.
pub open spec fn ansi_btree_entry_page_new(level: u8, entries: Seq<(u32, (u32, u32))>, t: PageTrailerModel) -> Result<BTreePageModel<(u32, (u32, u32))>, NdbError> {
    if !(1 <= level <= 8) {
        Err(NdbError::InvalidBTreePageLevel(level))
    } else if entries.len() > 41 {
        Err(NdbError::InvalidBTreeEntryCount(entries.len() as usize))
    } else if !(t.page_type == PageType::BlockBTree || t.page_type == PageType::NodeBTree) {
        Err(NdbError::UnexpectedPageType(t.page_type))
    } else {
        Ok(BTreePageModel { level, entries, trailer: t })
    }
}

/// The page held in the 512 bytes of `s`: the counts, level, trailer and
/// CRC are checked before the entries are read and the page is built.
pub open spec fn parse_ansi_btree_entry_page(s: Seq<u8>) -> Result<BTreePageModel<(u32, (u32, u32))>, NdbError> {
    if s[496] > 41 {
        Err(NdbError::InvalidBTreeEntryCount(s[496] as usize))
    } else if s[497] != 41 {
        Err(NdbError::InvalidBTreeEntryMaxCount(s[497]))
    } else if s[498] != 12 {
        Err(NdbError::InvalidBTreeEntrySize(s[498]))
    } else if s[499] > 8 {
        Err(NdbError::InvalidBTreePageLevel(s[499]))
    } else {
        match parse_ansi_trailer(s.subrange(500, 512)) {
            Err(e) => Err(e),
            Ok(t) => if !(t.page_type == PageType::BlockBTree || t.page_type == PageType::NodeBTree) {
                Err(NdbError::UnexpectedPageType(t.page_type))
            } else if spec_crc(0, s.subrange(0, 500)) != t.crc {
                Err(NdbError::InvalidPageCrc(spec_crc(0, s.subrange(0, 500))))
            } else {
                match parse_ansi_btree_page_entries(s, s[496] as nat) {
                    Err(e) => Err(e),
                    Ok(v) => ansi_btree_entry_page_new(s[499], v, t),
                }
            },
        }
    }
}

/// The data part that `write` produces: the entries, zeros up to byte 496, the entry
/// count, the largest count, the entry size and the level.
pub open spec fn ansi_btree_entry_page_data(m: BTreePageModel<(u32, (u32, u32))>) -> Seq<u8> {
    ansi_btree_page_entries_bytes(m.entries) + zeros((12 * (41 - m.entries.len()) + 4) as nat)
        + seq![m.entries.len() as u8, 41u8, 12u8, m.level]
}

/// The 512 bytes that `write` produces; the trailer carries the CRC of the data.
pub open spec fn ansi_btree_entry_page_bytes(m: BTreePageModel<(u32, (u32, u32))>) -> Seq<u8> {
    ansi_btree_entry_page_data(m) + ansi_trailer_bytes(trailer_with_crc(m.trailer, spec_crc(0, ansi_btree_entry_page_data(m))))
}

impl AnsiBTreeEntryPage {
    #[verifier::type_invariant]
    spec fn wf(&self) -> bool {
        self.entries@.len() <= 41 && 1 <= self.level <= 8
    }
}

impl BTreePage for AnsiBTreeEntryPage {
    type Entry = AnsiBTreePageEntry;
    type Trailer = AnsiPageTrailer;

    fn new(level: u8, entries: &[AnsiBTreePageEntry], trailer: AnsiPageTrailer) -> (r: Result<AnsiBTreeEntryPage, NdbError>)
        ensures
            view_result(r) == ansi_btree_entry_page_new(level, entries@.map_values(|e: AnsiBTreePageEntry| e@), trailer@),
    {
        if level < 1 || level > 8 {
            return Err(NdbError::InvalidBTreePageLevel(level));
        }
        if entries.len() > 41 {
            return Err(NdbError::InvalidBTreeEntryCount(entries.len()));
        }
        if !(trailer.page_type() == PageType::BlockBTree || trailer.page_type() == PageType::NodeBTree) {
            return Err(NdbError::UnexpectedPageType(trailer.page_type()));
        }
        let mut list: Vec<AnsiBTreePageEntry> = Vec::new();
        let n = entries.len();
        let mut i: usize = 0;
        while i < n
            invariant
                n == entries@.len(),
                i <= n,
                list@ == entries@.subrange(0, i as int),
            decreases n - i,
        {
            list.push(entries[i]);
            i = i + 1;
            assert(list@ =~= entries@.subrange(0, i as int));
        }
        assert(entries@.subrange(0, n as int) =~= entries@);
        assert(list@.map_values(|e: AnsiBTreePageEntry| e@) =~= entries@.map_values(|e: AnsiBTreePageEntry| e@));
        Ok(AnsiBTreeEntryPage { level, entries: list, trailer })
    }

    fn level(&self) -> (r: u8)
        ensures
            r == self@.level,
    {
        self.level
    }

    fn entries(&self) -> (r: &[AnsiBTreePageEntry])
        ensures
            r@.map_values(|e: AnsiBTreePageEntry| e@) == self@.entries,
            r@.len() <= 41,
    {
        proof {
            use_type_invariant(self);
        }
        self.entries.as_slice()
    }

    fn trailer(&self) -> (r: &AnsiPageTrailer)
        ensures
            r@ == self@.trailer,
    {
        &self.trailer
    }
}

impl AnsiBTreePage for AnsiBTreeEntryPage {
    open spec fn spec_parse(s: Seq<u8>) -> Result<BTreePageModel<(u32, (u32, u32))>, NdbError> {
        parse_ansi_btree_entry_page(s)
    }

    open spec fn spec_bytes(&self) -> Seq<u8> {
        ansi_btree_entry_page_bytes(self@)
    }

    fn read(b: &[u8]) -> (r: Result<AnsiBTreeEntryPage, NdbError>) {
        let count = b[496];
        if count as usize > 41 {
            return Err(NdbError::InvalidBTreeEntryCount(count as usize));
        }
        let max_entries = b[497];
        if max_entries != 41 {
            return Err(NdbError::InvalidBTreeEntryMaxCount(max_entries));
        }
        let entry_size = b[498];
        if entry_size != 12 {
            return Err(NdbError::InvalidBTreeEntrySize(entry_size));
        }
        let level = b[499];
        if level > 8 {
            return Err(NdbError::InvalidBTreePageLevel(level));
        }
        let trailer = match AnsiPageTrailer::read(&b[500..512]) {
            Ok(t) => t,
            Err(e) => return Err(e),
        };
        if !(trailer.page_type() == PageType::BlockBTree || trailer.page_type() == PageType::NodeBTree) {
            return Err(NdbError::UnexpectedPageType(trailer.page_type()));
        }
        let crc = compute_crc(0, &b[0..500]);
        if crc != trailer.crc() {
            return Err(NdbError::InvalidPageCrc(crc));
        }
        let n = count as usize;
        let mut entries: Vec<AnsiBTreePageEntry> = Vec::new();
        let mut i: usize = 0;
        assert(entries@.map_values(|e: AnsiBTreePageEntry| e@) =~= Seq::<(u32, (u32, u32))>::empty());
        assert(parse_ansi_btree_entry_page(b@) == match parse_ansi_btree_page_entries(b@, n as nat) {
            Err(e) => Err(e),
            Ok(v) => ansi_btree_entry_page_new(level, v, trailer@),
        });
        while i < n
            invariant
                parse_ansi_btree_entry_page(b@) == match parse_ansi_btree_page_entries(b@, n as nat) {
                    Err(e) => Err(e),
                    Ok(v) => ansi_btree_entry_page_new(level, v, trailer@),
                },
                n == b@[496] as usize,
                n <= 41,
                b@.len() >= 512,
                i <= n,
                parse_ansi_btree_page_entries(b@, i as nat) == Ok::<Seq<(u32, (u32, u32))>, NdbError>(entries@.map_values(|e: AnsiBTreePageEntry| e@)),
            decreases n - i,
        {
            let ghost prev = entries@;
            let e = match AnsiBTreePageEntry::read(&b[12 * i..12 * (i + 1)]) {
                Ok(e) => e,
                Err(err) => {
                    proof {
                        assert(b@.subrange(12 * i, 12 * (i + 1))
                            =~= b@.subrange(12 * (((i + 1) as nat) - 1), 12 * (((i + 1) as nat) as int)));
                        assert(parse_ansi_btree_page_entries(b@, (i + 1) as nat) == Err::<Seq<(u32, (u32, u32))>, NdbError>(err));
                        lemma_ansi_btree_page_entries_err(b@, (i + 1) as nat, n as nat);
                    }
                    return Err(err);
                },
            };
            entries.push(e);
            assert(entries@.map_values(|e: AnsiBTreePageEntry| e@) =~= prev.map_values(|e: AnsiBTreePageEntry| e@).push(e@));
            i = i + 1;
        }
        AnsiBTreeEntryPage::new(level, entries.as_slice(), trailer)
    }

    fn write(&self, out: &mut Vec<u8>) {
        proof {
            use_type_invariant(self);
        }
        let ghost m = self@;
        let mut buffer: Vec<u8> = Vec::new();
        let n = self.entries.len();
        let mut i: usize = 0;
        while i < n
            invariant
                n == self.entries@.len(),
                m == self@,
                i <= n,
                buffer@ == ansi_btree_page_entries_bytes(m.entries.subrange(0, i as int)),
            decreases n - i,
        {
            self.entries[i].write(&mut buffer);
            assert(m.entries.subrange(0, i + 1).drop_last() =~= m.entries.subrange(0, i as int));
            i = i + 1;
        }
        assert(m.entries.subrange(0, n as int) =~= m.entries);
        push_zeros(&mut buffer, 12 * (41 - n) + 4);
        push_u8(&mut buffer, n as u8);
        push_u8(&mut buffer, 41);
        push_u8(&mut buffer, 12);
        push_u8(&mut buffer, self.level);
        assert(buffer@ =~= ansi_btree_entry_page_data(m));
        let crc = compute_crc(0, buffer.as_slice());
        push_bytes(out, buffer.as_slice());
        self.trailer.with_crc(crc).write(out);
        assert(out@ =~= old(out)@ + ansi_btree_entry_page_bytes(m));
    }
}

/// The entries of type `AnsiBlockBTreeEntry` stored one after another from the start of `s`; the first
/// entry that cannot be read gives the error.
pub open spec fn parse_ansi_block_btree_entries(s: Seq<u8>, n: nat) -> Result<Seq<AnsiBlockBTreeEntryModel>, NdbError>
    decreases n,
{
    if n == 0 {
        Ok(Seq::empty())
    } else {
        match parse_ansi_block_btree_entries(s, (n - 1) as nat) {
            Err(e) => Err(e),
            Ok(v) => match parse_ansi_block_btree_entry(s.subrange(12 * (n - 1), 12 * (n as int))) {
                Err(e) => Err(e),
                Ok(x) => Ok(v.push(x)),
            },
        }
    }
}

/// The bytes of the entries, one after another.
pub open spec fn ansi_block_btree_entries_bytes(v: Seq<AnsiBlockBTreeEntryModel>) -> Seq<u8>
    decreases v.len(),
{
    if v.len() == 0 {
        Seq::empty()
    } else {
        ansi_block_btree_entries_bytes(v.drop_last()) + ansi_block_btree_entry_bytes(v.last())
    }
}

/// Once reading the first `k` entries fails, reading more fails with the same error.
proof fn lemma_ansi_block_btree_entries_err(s: Seq<u8>, k: nat, n: nat)
    requires
        k <= n,
        parse_ansi_block_btree_entries(s, k) is Err,
    ensures
        parse_ansi_block_btree_entries(s, n) == parse_ansi_block_btree_entries(s, k),
    decreases n,
{
    if n > k {
        lemma_ansi_block_btree_entries_err(s, k, (n - 1) as nat);
    }
}

/// BTPAGE:
/// a leaf page of the block BTree of an ANSI file; at most 41 entries of 12 bytes.
pub struct AnsiBlockBTreePage {
    entries: Vec<AnsiBlockBTreeEntry>,
    trailer: AnsiPageTrailer,
}

impl View for AnsiBlockBTreePage {
    type V = BTreePageModel<AnsiBlockBTreeEntryModel>;

    closed spec fn view(&self) -> BTreePageModel<AnsiBlockBTreeEntryModel> {
        BTreePageModel {
            level: 0,
            entries: self.entries@.map_values(|e: AnsiBlockBTreeEntry| e@),
            trailer: self.trailer@,
        }
    }
}

/// What `new` gives for a level, entries and trailer: the level must be 0,
/// at most 41 entries fit, and the trailer must be that of a block BTree page.
pub open spec fn ansi_block_btree_page_new(level: u8, entries: Seq<AnsiBlockBTreeEntryModel>, t: PageTrailerModel) -> Result<BTreePageModel<AnsiBlockBTreeEntryModel>, NdbError> {
    if level != 0 {
        Err(NdbError::InvalidBTreePageLevel(level))
    } else if entries.len() > 41 {
        Err(NdbError::InvalidBTreeEntryCount(entries.len() as usize))
    } else if !(t.page_type == PageType::BlockBTree) {
        Err(NdbError::UnexpectedPageType(t.page_type))
    } else {
        Ok(BTreePageModel { level, entries, trailer: t })
    }
}

/// The page held in the 512 bytes of `s`: the counts, level, trailer and
/// CRC are checked before the entries are read and the page is built.
pub open spec fn parse_ansi_block_btree_page(s: Seq<u8>) -> Result<BTreePageModel<AnsiBlockBTreeEntryModel>, NdbError> {
    if s[496] > 41 {
        Err(NdbError::InvalidBTreeEntryCount(s[496] as usize))
    } else if s[497] != 41 {
        Err(NdbError::InvalidBTreeEntryMaxCount(s[497]))
    } else if s[498] != 12 {
        Err(NdbError::InvalidBTreeEntrySize(s[498]))
    } else if s[499] > 8 {
        Err(NdbError::InvalidBTreePageLevel(s[499]))
    } else {
        match parse_ansi_trailer(s.subrange(500, 512)) {
            Err(e) => Err(e),
            Ok(t) => if !(t.page_type == PageType::BlockBTree || t.page_type == PageType::NodeBTree) {
                Err(NdbError::UnexpectedPageType(t.page_type))
            } else if spec_crc(0, s.subrange(0, 500)) != t.crc {
                Err(NdbError::InvalidPageCrc(spec_crc(0, s.subrange(0, 500))))
            } else {
                match parse_ansi_block_btree_entries(s, s[496] as nat) {
                    Err(e) => Err(e),
                    Ok(v) => ansi_block_btree_page_new(s[499], v, t),
                }
            },
        }
    }
}

/// The data part that `write` produces: the entries, zeros up to byte 496, the entry
/// count, the largest count, the entry size and the level.
pub open spec fn ansi_block_btree_page_data(m: BTreePageModel<AnsiBlockBTreeEntryModel>) -> Seq<u8> {
    ansi_block_btree_entries_bytes(m.entries) + zeros((12 * (41 - m.entries.len()) + 4) as nat)
        + seq![m.entries.len() as u8, 41u8, 12u8, m.level]
}

/// The 512 bytes that `write` produces; the trailer carries the CRC of the data.
pub open spec fn ansi_block_btree_page_bytes(m: BTreePageModel<AnsiBlockBTreeEntryModel>) -> Seq<u8> {
    ansi_block_btree_page_data(m) + ansi_trailer_bytes(trailer_with_crc(m.trailer, spec_crc(0, ansi_block_btree_page_data(m))))
}

impl AnsiBlockBTreePage {
    #[verifier::type_invariant]
    spec fn wf(&self) -> bool {
        self.entries@.len() <= 41
    }
}

impl BTreePage for AnsiBlockBTreePage {
    type Entry = AnsiBlockBTreeEntry;
    type Trailer = AnsiPageTrailer;

    fn new(level: u8, entries: &[AnsiBlockBTreeEntry], trailer: AnsiPageTrailer) -> (r: Result<AnsiBlockBTreePage, NdbError>)
        ensures
            view_result(r) == ansi_block_btree_page_new(level, entries@.map_values(|e: AnsiBlockBTreeEntry| e@), trailer@),
    {
        if level != 0 {
            return Err(NdbError::InvalidBTreePageLevel(level));
        }
        if entries.len() > 41 {
            return Err(NdbError::InvalidBTreeEntryCount(entries.len()));
        }
        if !(trailer.page_type() == PageType::BlockBTree) {
            return Err(NdbError::UnexpectedPageType(trailer.page_type()));
        }
        let mut list: Vec<AnsiBlockBTreeEntry> = Vec::new();
        let n = entries.len();
        let mut i: usize = 0;
        while i < n
            invariant
                n == entries@.len(),
                i <= n,
                list@ == entries@.subrange(0, i as int),
            decreases n - i,
        {
            list.push(entries[i]);
            i = i + 1;
            assert(list@ =~= entries@.subrange(0, i as int));
        }
        assert(entries@.subrange(0, n as int) =~= entries@);
        assert(list@.map_values(|e: AnsiBlockBTreeEntry| e@) =~= entries@.map_values(|e: AnsiBlockBTreeEntry| e@));
        Ok(AnsiBlockBTreePage { entries: list, trailer })
    }

    fn level(&self) -> (r: u8)
        ensures
            r == self@.level,
    {
        0
    }

    fn entries(&self) -> (r: &[AnsiBlockBTreeEntry])
        ensures
            r@.map_values(|e: AnsiBlockBTreeEntry| e@) == self@.entries,
            r@.len() <= 41,
    {
        proof {
            use_type_invariant(self);
        }
        self.entries.as_slice()
    }

    fn trailer(&self) -> (r: &AnsiPageTrailer)
        ensures
            r@ == self@.trailer,
    {
        &self.trailer
    }
}

impl AnsiBTreePage for AnsiBlockBTreePage {
    open spec fn spec_parse(s: Seq<u8>) -> Result<BTreePageModel<AnsiBlockBTreeEntryModel>, NdbError> {
        parse_ansi_block_btree_page(s)
    }

    open spec fn spec_bytes(&self) -> Seq<u8> {
        ansi_block_btree_page_bytes(self@)
    }

    fn read(b: &[u8]) -> (r: Result<AnsiBlockBTreePage, NdbError>) {
        let count = b[496];
        if count as usize > 41 {
            return Err(NdbError::InvalidBTreeEntryCount(count as usize));
        }
        let max_entries = b[497];
        if max_entries != 41 {
            return Err(NdbError::InvalidBTreeEntryMaxCount(max_entries));
        }
        let entry_size = b[498];
        if entry_size != 12 {
            return Err(NdbError::InvalidBTreeEntrySize(entry_size));
        }
        let level = b[499];
        if level > 8 {
            return Err(NdbError::InvalidBTreePageLevel(level));
        }
        let trailer = match AnsiPageTrailer::read(&b[500..512]) {
            Ok(t) => t,
            Err(e) => return Err(e),
        };
        if !(trailer.page_type() == PageType::BlockBTree || trailer.page_type() == PageType::NodeBTree) {
            return Err(NdbError::UnexpectedPageType(trailer.page_type()));
        }
        let crc = compute_crc(0, &b[0..500]);
        if crc != trailer.crc() {
            return Err(NdbError::InvalidPageCrc(crc));
        }
        let n = count as usize;
        let mut entries: Vec<AnsiBlockBTreeEntry> = Vec::new();
        let mut i: usize = 0;
        assert(entries@.map_values(|e: AnsiBlockBTreeEntry| e@) =~= Seq::<AnsiBlockBTreeEntryModel>::empty());
        assert(parse_ansi_block_btree_page(b@) == match parse_ansi_block_btree_entries(b@, n as nat) {
            Err(e) => Err(e),
            Ok(v) => ansi_block_btree_page_new(level, v, trailer@),
        });
        while i < n
            invariant
                parse_ansi_block_btree_page(b@) == match parse_ansi_block_btree_entries(b@, n as nat) {
                    Err(e) => Err(e),
                    Ok(v) => ansi_block_btree_page_new(level, v, trailer@),
                },
                n == b@[496] as usize,
                n <= 41,
                b@.len() >= 512,
                i <= n,
                parse_ansi_block_btree_entries(b@, i as nat) == Ok::<Seq<AnsiBlockBTreeEntryModel>, NdbError>(entries@.map_values(|e: AnsiBlockBTreeEntry| e@)),
            decreases n - i,
        {
            let ghost prev = entries@;
            let e = match AnsiBlockBTreeEntry::read(&b[12 * i..12 * (i + 1)]) {
                Ok(e) => e,
                Err(err) => {
                    proof {
                        assert(b@.subrange(12 * i, 12 * (i + 1))
                            =~= b@.subrange(12 * (((i + 1) as nat) - 1), 12 * (((i + 1) as nat) as int)));
                        assert(parse_ansi_block_btree_entries(b@, (i + 1) as nat) == Err::<Seq<AnsiBlockBTreeEntryModel>, NdbError>(err));
                        lemma_ansi_block_btree_entries_err(b@, (i + 1) as nat, n as nat);
                    }
                    return Err(err);
                },
            };
            entries.push(e);
            assert(entries@.map_values(|e: AnsiBlockBTreeEntry| e@) =~= prev.map_values(|e: AnsiBlockBTreeEntry| e@).push(e@));
            i = i + 1;
        }
        AnsiBlockBTreePage::new(level, entries.as_slice(), trailer)
    }

    fn write(&self, out: &mut Vec<u8>) {
        proof {
            use_type_invariant(self);
        }
        let ghost m = self@;
        let mut buffer: Vec<u8> = Vec::new();
        let n = self.entries.len();
        let mut i: usize = 0;
        while i < n
            invariant
                n == self.entries@.len(),
                m == self@,
                i <= n,
                buffer@ == ansi_block_btree_entries_bytes(m.entries.subrange(0, i as int)),
            decreases n - i,
        {
            self.entries[i].write(&mut buffer);
            assert(m.entries.subrange(0, i + 1).drop_last() =~= m.entries.subrange(0, i as int));
            i = i + 1;
        }
        assert(m.entries.subrange(0, n as int) =~= m.entries);
        push_zeros(&mut buffer, 12 * (41 - n) + 4);
        push_u8(&mut buffer, n as u8);
        push_u8(&mut buffer, 41);
        push_u8(&mut buffer, 12);
        push_u8(&mut buffer, 0);
        assert(buffer@ =~= ansi_block_btree_page_data(m));
        let crc = compute_crc(0, buffer.as_slice());
        push_bytes(out, buffer.as_slice());
        self.trailer.with_crc(crc).write(out);
        assert(out@ =~= old(out)@ + ansi_block_btree_page_bytes(m));
    }
}

/// The entries of type `AnsiNodeBTreeEntry` stored one after another from the start of `s`; the first
/// entry that cannot be read gives the error.
pub open spec fn parse_ansi_node_btree_entries(s: Seq<u8>, n: nat) -> Result<Seq<AnsiNodeBTreeEntryModel>, NdbError>
    decreases n,
{
    if n == 0 {
        Ok(Seq::empty())
    } else {
        match parse_ansi_node_btree_entries(s, (n - 1) as nat) {
            Err(e) => Err(e),
            Ok(v) => match parse_ansi_node_btree_entry(s.subrange(16 * (n - 1), 16 * (n as int))) {
                Err(e) => Err(e),
                Ok(x) => Ok(v.push(x)),
            },
        }
    }
}

/// The bytes of the entries, one after another.
pub open spec fn ansi_node_btree_entries_bytes(v: Seq<AnsiNodeBTreeEntryModel>) -> Seq<u8>
    decreases v.len(),
{
    if v.len() == 0 {
        Seq::empty()
    } else {
        ansi_node_btree_entries_bytes(v.drop_last()) + ansi_node_btree_entry_bytes(v.last())
    }
}

/// Once reading the first `k` entries fails, reading more fails with the same error.
proof fn lemma_ansi_node_btree_entries_err(s: Seq<u8>, k: nat, n: nat)
    requires
        k <= n,
        parse_ansi_node_btree_entries(s, k) is Err,
    ensures
        parse_ansi_node_btree_entries(s, n) == parse_ansi_node_btree_entries(s, k),
    decreases n,
{
    if n > k {
        lemma_ansi_node_btree_entries_err(s, k, (n - 1) as nat);
    }
}

/// BTPAGE:
/// a leaf page of the node BTree of an ANSI file; at most 31 entries of 16 bytes.
pub struct AnsiNodeBTreePage {
    entries: Vec<AnsiNodeBTreeEntry>,
    trailer: AnsiPageTrailer,
}

impl View for AnsiNodeBTreePage {
    type V = BTreePageModel<AnsiNodeBTreeEntryModel>;

    closed spec fn view(&self) -> BTreePageModel<AnsiNodeBTreeEntryModel> {
        BTreePageModel {
            level: 0,
            entries: self.entries@.map_values(|e: AnsiNodeBTreeEntry| e@),
            trailer: self.trailer@,
        }
    }
}

/// What `new` gives for a level, entries and trailer: the level must be 0,
/// at most 31 entries fit, and the trailer must be that of a node BTree page.
pub open spec fn ansi_node_btree_page_new(level: u8, entries: Seq<AnsiNodeBTreeEntryModel>, t: PageTrailerModel) -> Result<BTreePageModel<AnsiNodeBTreeEntryModel>, NdbError> {
    if level != 0 {
        Err(NdbError::InvalidBTreePageLevel(level))
    } else if entries.len() > 31 {
        Err(NdbError::InvalidBTreeEntryCount(entries.len() as usize))
    } else if !(t.page_type == PageType::NodeBTree) {
        Err(NdbError::UnexpectedPageType(t.page_type))
    } else {
        Ok(BTreePageModel { level, entries, trailer: t })
    }
}

/// The page held in the 512 bytes of `s`: the counts, level, trailer and
/// CRC are checked before the entries are read and the page is built.
pub open spec fn parse_ansi_node_btree_page(s: Seq<u8>) -> Result<BTreePageModel<AnsiNodeBTreeEntryModel>, NdbError> {
    if s[496] > 31 {
        Err(NdbError::InvalidBTreeEntryCount(s[496] as usize))
    } else if s[497] != 31 {
        Err(NdbError::InvalidBTreeEntryMaxCount(s[497]))
    } else if s[498] != 16 {
        Err(NdbError::InvalidBTreeEntrySize(s[498]))
    } else if s[499] > 8 {
        Err(NdbError::InvalidBTreePageLevel(s[499]))
    } else {
        match parse_ansi_trailer(s.subrange(500, 512)) {
            Err(e) => Err(e),
            Ok(t) => if !(t.page_type == PageType::BlockBTree || t.page_type == PageType::NodeBTree) {
                Err(NdbError::UnexpectedPageType(t.page_type))
            } else if spec_crc(0, s.subrange(0, 500)) != t.crc {
                Err(NdbError::InvalidPageCrc(spec_crc(0, s.subrange(0, 500))))
            } else {
                match parse_ansi_node_btree_entries(s, s[496] as nat) {
                    Err(e) => Err(e),
                    Ok(v) => ansi_node_btree_page_new(s[499], v, t),
                }
            },
        }
    }
}

/// The data part that `write` produces: the entries, zeros up to byte 496, the entry
/// count, the largest count, the entry size and the level.
pub open spec fn ansi_node_btree_page_data(m: BTreePageModel<AnsiNodeBTreeEntryModel>) -> Seq<u8> {
    ansi_node_btree_entries_bytes(m.entries) + zeros((16 * (31 - m.entries.len())) as nat)
        + seq![m.entries.len() as u8, 31u8, 16u8, m.level] + zeros(0)
}

/// The 512 bytes that `write` produces; the trailer carries the CRC of the data.
pub open spec fn ansi_node_btree_page_bytes(m: BTreePageModel<AnsiNodeBTreeEntryModel>) -> Seq<u8> {
    ansi_node_btree_page_data(m) + ansi_trailer_bytes(trailer_with_crc(m.trailer, spec_crc(0, ansi_node_btree_page_data(m))))
}

impl AnsiNodeBTreePage {
    #[verifier::type_invariant]
    spec fn wf(&self) -> bool {
        self.entries@.len() <= 31
    }
}

impl BTreePage for AnsiNodeBTreePage {
    type Entry = AnsiNodeBTreeEntry;
    type Trailer = AnsiPageTrailer;

    fn new(level: u8, entries: &[AnsiNodeBTreeEntry], trailer: AnsiPageTrailer) -> (r: Result<AnsiNodeBTreePage, NdbError>)
        ensures
            view_result(r) == ansi_node_btree_page_new(level, entries@.map_values(|e: AnsiNodeBTreeEntry| e@), trailer@),
    {
        if level != 0 {
            return Err(NdbError::InvalidBTreePageLevel(level));
        }
        if entries.len() > 31 {
            return Err(NdbError::InvalidBTreeEntryCount(entries.len()));
        }
        if !(trailer.page_type() == PageType::NodeBTree) {
            return Err(NdbError::UnexpectedPageType(trailer.page_type()));
        }
        let mut list: Vec<AnsiNodeBTreeEntry> = Vec::new();
        let n = entries.len();
        let mut i: usize = 0;
        while i < n
            invariant
                n == entries@.len(),
                i <= n,
                list@ == entries@.subrange(0, i as int),
            decreases n - i,
        {
            list.push(entries[i]);
            i = i + 1;
            assert(list@ =~= entries@.subrange(0, i as int));
        }
        assert(entries@.subrange(0, n as int) =~= entries@);
        assert(list@.map_values(|e: AnsiNodeBTreeEntry| e@) =~= entries@.map_values(|e: AnsiNodeBTreeEntry| e@));
        Ok(AnsiNodeBTreePage { entries: list, trailer })
    }

    fn level(&self) -> (r: u8)
        ensures
            r == self@.level,
    {
        0
    }

    fn entries(&self) -> (r: &[AnsiNodeBTreeEntry])
        ensures
            r@.map_values(|e: AnsiNodeBTreeEntry| e@) == self@.entries,
            r@.len() <= 31,
    {
        proof {
            use_type_invariant(self);
        }
        self.entries.as_slice()
    }

    fn trailer(&self) -> (r: &AnsiPageTrailer)
        ensures
            r@ == self@.trailer,
    {
        &self.trailer
    }
}

impl AnsiBTreePage for AnsiNodeBTreePage {
    open spec fn spec_parse(s: Seq<u8>) -> Result<BTreePageModel<AnsiNodeBTreeEntryModel>, NdbError> {
        parse_ansi_node_btree_page(s)
    }

    open spec fn spec_bytes(&self) -> Seq<u8> {
        ansi_node_btree_page_bytes(self@)
    }

    fn read(b: &[u8]) -> (r: Result<AnsiNodeBTreePage, NdbError>) {
        let count = b[496];
        if count as usize > 31 {
            return Err(NdbError::InvalidBTreeEntryCount(count as usize));
        }
        let max_entries = b[497];
        if max_entries != 31 {
            return Err(NdbError::InvalidBTreeEntryMaxCount(max_entries));
        }
        let entry_size = b[498];
        if entry_size != 16 {
            return Err(NdbError::InvalidBTreeEntrySize(entry_size));
        }
        let level = b[499];
        if level > 8 {
            return Err(NdbError::InvalidBTreePageLevel(level));
        }
        let trailer = match AnsiPageTrailer::read(&b[500..512]) {
            Ok(t) => t,
            Err(e) => return Err(e),
        };
        if !(trailer.page_type() == PageType::BlockBTree || trailer.page_type() == PageType::NodeBTree) {
            return Err(NdbError::UnexpectedPageType(trailer.page_type()));
        }
        let crc = compute_crc(0, &b[0..500]);
        if crc != trailer.crc() {
            return Err(NdbError::InvalidPageCrc(crc));
        }
        let n = count as usize;
        let mut entries: Vec<AnsiNodeBTreeEntry> = Vec::new();
        let mut i: usize = 0;
        assert(entries@.map_values(|e: AnsiNodeBTreeEntry| e@) =~= Seq::<AnsiNodeBTreeEntryModel>::empty());
        assert(parse_ansi_node_btree_page(b@) == match parse_ansi_node_btree_entries(b@, n as nat) {
            Err(e) => Err(e),
            Ok(v) => ansi_node_btree_page_new(level, v, trailer@),
        });
        while i < n
            invariant
                parse_ansi_node_btree_page(b@) == match parse_ansi_node_btree_entries(b@, n as nat) {
                    Err(e) => Err(e),
                    Ok(v) => ansi_node_btree_page_new(level, v, trailer@),
                },
                n == b@[496] as usize,
                n <= 31,
                b@.len() >= 512,
                i <= n,
                parse_ansi_node_btree_entries(b@, i as nat) == Ok::<Seq<AnsiNodeBTreeEntryModel>, NdbError>(entries@.map_values(|e: AnsiNodeBTreeEntry| e@)),
            decreases n - i,
        {
            let ghost prev = entries@;
            let e = match AnsiNodeBTreeEntry::read(&b[16 * i..16 * (i + 1)]) {
                Ok(e) => e,
                Err(err) => {
                    proof {
                        assert(b@.subrange(16 * i, 16 * (i + 1))
                            =~= b@.subrange(16 * (((i + 1) as nat) - 1), 16 * (((i + 1) as nat) as int)));
                        assert(parse_ansi_node_btree_entries(b@, (i + 1) as nat) == Err::<Seq<AnsiNodeBTreeEntryModel>, NdbError>(err));
                        lemma_ansi_node_btree_entries_err(b@, (i + 1) as nat, n as nat);
                    }
                    return Err(err);
                },
            };
            entries.push(e);
            assert(entries@.map_values(|e: AnsiNodeBTreeEntry| e@) =~= prev.map_values(|e: AnsiNodeBTreeEntry| e@).push(e@));
            i = i + 1;
        }
        AnsiNodeBTreePage::new(level, entries.as_slice(), trailer)
    }

    fn write(&self, out: &mut Vec<u8>) {
        proof {
            use_type_invariant(self);
        }
        let ghost m = self@;
        let mut buffer: Vec<u8> = Vec::new();
        let n = self.entries.len();
        let mut i: usize = 0;
        while i < n
            invariant
                n == self.entries@.len(),
                m == self@,
                i <= n,
                buffer@ == ansi_node_btree_entries_bytes(m.entries.subrange(0, i as int)),
            decreases n - i,
        {
            self.entries[i].write(&mut buffer);
            assert(m.entries.subrange(0, i + 1).drop_last() =~= m.entries.subrange(0, i as int));
            i = i + 1;
        }
        assert(m.entries.subrange(0, n as int) =~= m.entries);
        push_zeros(&mut buffer, 16 * (31 - n));
        push_u8(&mut buffer, n as u8);
        push_u8(&mut buffer, 31);
        push_u8(&mut buffer, 16);
        push_u8(&mut buffer, 0);
        push_zeros(&mut buffer, 0);
        assert(buffer@ =~= ansi_node_btree_page_data(m));
        let crc = compute_crc(0, buffer.as_slice());
        push_bytes(out, buffer.as_slice());
        self.trailer.with_crc(crc).write(out);
        assert(out@ =~= old(out)@ + ansi_node_btree_page_bytes(m));
    }
}

// ---------------------------------------------------------------------------
// Trees

/// A page of a BTree of a Unicode file: an intermediate page, or a leaf page of
/// type `LeafPage`, told apart by the level byte.
#[verifier::reject_recursive_types(Entry)]
pub enum UnicodeBTree<LeafPage, Entry>
where
    LeafPage: UnicodeBTreePage + BTreePage<Entry = Entry>,
    Entry: BTreeEntry,
{
    Intermediate(Box<UnicodeBTreeEntryPage>),
    Leaf(Box<LeafPage>, PhantomData<Entry>),
}

impl<LeafPage, Entry> UnicodeBTree<LeafPage, Entry>
where
    LeafPage: UnicodeBTreePage + BTreePage<Entry = Entry>,
    Entry: BTreeEntry,
{
    /// The 512 bytes that `write` produces.
    pub open spec fn spec_bytes(&self) -> Seq<u8> {
        match self {
            UnicodeBTree::Intermediate(p) => unicode_btree_entry_page_bytes(p@),
            UnicodeBTree::Leaf(p, _) => p.spec_bytes(),
        }
    }

    /// Reads the page held in the first 512 bytes of `b`: a leaf page when the level byte (offset 491)
    /// is 0, an intermediate page otherwise.
    pub fn read(b: &[u8]) -> (r: Result<Self, NdbError>)
        requires
            b@.len() >= 512,
        ensures
            b@[491] == 0 ==> match r {
                Ok(UnicodeBTree::Leaf(p, _)) => LeafPage::spec_parse(b@) == Ok::<LeafPage::V, NdbError>(p@),
                Ok(UnicodeBTree::Intermediate(_)) => false,
                Err(e) => LeafPage::spec_parse(b@) == Err::<LeafPage::V, NdbError>(e),
            },
            b@[491] != 0 ==> match r {
                Ok(UnicodeBTree::Intermediate(p)) => parse_unicode_btree_entry_page(b@)
                    == Ok::<BTreePageModel<(u64, (u64, u64))>, NdbError>(p@),
                Ok(UnicodeBTree::Leaf(_, _)) => false,
                Err(e) => parse_unicode_btree_entry_page(b@) == Err::<BTreePageModel<(u64, (u64, u64))>, NdbError>(e),
            },
    {
        if b[491] == 0 {
            match LeafPage::read(b) {
                Ok(p) => Ok(UnicodeBTree::Leaf(Box::new(p), PhantomData)),
                Err(e) => Err(e),
            }
        } else {
            match UnicodeBTreeEntryPage::read(b) {
                Ok(p) => Ok(UnicodeBTree::Intermediate(Box::new(p))),
                Err(e) => Err(e),
            }
        }
    }

    /// Appends the 512 bytes of the page.
    pub fn write(&self, out: &mut Vec<u8>)
        ensures
            final(out)@ == old(out)@ + self.spec_bytes(),
    {
        match self {
            UnicodeBTree::Intermediate(p) => p.write(out),
            UnicodeBTree::Leaf(p, _) => p.write(out),
        }
    }
}

/// A page of the block BTree of a Unicode file.
pub type UnicodeBlockBTree = UnicodeBTree<UnicodeBlockBTreePage, UnicodeBlockBTreeEntry>;
/// A page of the node BTree of a Unicode file.
pub type UnicodeNodeBTree = UnicodeBTree<UnicodeNodeBTreePage, UnicodeNodeBTreeEntry>;

/// A page of a BTree of an ANSI file: an intermediate page, or a leaf page of
/// type `LeafPage`, told apart by the level byte.
#[verifier::reject_recursive_types(Entry)]
pub enum AnsiBTree<LeafPage, Entry>
where
    LeafPage: AnsiBTreePage + BTreePage<Entry = Entry>,
    Entry: BTreeEntry,
{
    Intermediate(Box<AnsiBTreeEntryPage>),
    Leaf(Box<LeafPage>, PhantomData<Entry>),
}

impl<LeafPage, Entry> AnsiBTree<LeafPage, Entry>
where
    LeafPage: AnsiBTreePage + BTreePage<Entry = Entry>,
    Entry: BTreeEntry,
{
    /// The 512 bytes that `write` produces.
    pub open spec fn spec_bytes(&self) -> Seq<u8> {
        match self {
            AnsiBTree::Intermediate(p) => ansi_btree_entry_page_bytes(p@),
            AnsiBTree::Leaf(p, _) => p.spec_bytes(),
        }
    }

    /// Reads the page held in the first 512 bytes of `b`: a leaf page when the level byte (offset 499)
    /// is 0, an intermediate page otherwise.
    pub fn read(b: &[u8]) -> (r: Result<Self, NdbError>)
        requires
            b@.len() >= 512,
        ensures
            b@[499] == 0 ==> match r {
                Ok(AnsiBTree::Leaf(p, _)) => LeafPage::spec_parse(b@) == Ok::<LeafPage::V, NdbError>(p@),
                Ok(AnsiBTree::Intermediate(_)) => false,
                Err(e) => LeafPage::spec_parse(b@) == Err::<LeafPage::V, NdbError>(e),
            },
            b@[499] != 0 ==> match r {
                Ok(AnsiBTree::Intermediate(p)) => parse_ansi_btree_entry_page(b@)
                    == Ok::<BTreePageModel<(u32, (u32, u32))>, NdbError>(p@),
                Ok(AnsiBTree::Leaf(_, _)) => false,
                Err(e) => parse_ansi_btree_entry_page(b@) == Err::<BTreePageModel<(u32, (u32, u32))>, NdbError>(e),
            },
    {
        if b[499] == 0 {
            match LeafPage::read(b) {
                Ok(p) => Ok(AnsiBTree::Leaf(Box::new(p), PhantomData)),
                Err(e) => Err(e),
            }
        } else {
            match AnsiBTreeEntryPage::read(b) {
                Ok(p) => Ok(AnsiBTree::Intermediate(Box::new(p))),
                Err(e) => Err(e),
            }
        }
    }

    /// Appends the 512 bytes of the page.
    pub fn write(&self, out: &mut Vec<u8>)
        ensures
            final(out)@ == old(out)@ + self.spec_bytes(),
    {
        match self {
            AnsiBTree::Intermediate(p) => p.write(out),
            AnsiBTree::Leaf(p, _) => p.write(out),
        }
    }
}

/// A page of the block BTree of an ANSI file.
pub type AnsiBlockBTree = AnsiBTree<AnsiBlockBTreePage, AnsiBlockBTreeEntry>;
/// A page of the node BTree of an ANSI file.
pub type AnsiNodeBTree = AnsiBTree<AnsiNodeBTreePage, AnsiNodeBTreeEntry>;

/// Writing ANSI node BTree entries one after another and reading them back gives
/// them again, whatever follows them.
proof fn lemma_ansi_node_btree_entries_roundtrip(v: Seq<AnsiNodeBTreeEntryModel>, rest: Seq<u8>)
    requires
        forall|i: int| 0 <= i < v.len() ==> v[i].sub_node != Some(0u32) && v[i].parent != Some(0u32),
    ensures
        ansi_node_btree_entries_bytes(v).len() == 16 * v.len(),
        parse_ansi_node_btree_entries(ansi_node_btree_entries_bytes(v) + rest, v.len())
            == Ok::<Seq<AnsiNodeBTreeEntryModel>, NdbError>(v),
    decreases v.len(),
{
    if v.len() > 0 {
        let w = v.drop_last();
        let x = v.last();
        let gx = ansi_node_btree_entry_bytes(x);
        lemma_ansi_node_btree_entry_roundtrip(x);
        lemma_ansi_node_btree_entries_roundtrip(w, gx + rest);
        let s = ansi_node_btree_entries_bytes(v) + rest;
        assert(s =~= ansi_node_btree_entries_bytes(w) + (gx + rest));
        assert(s.subrange(16 * (v.len() - 1), 16 * (v.len() as int)) =~= gx);
        assert(w.push(x) =~= v);
    } else {
        assert(parse_ansi_node_btree_entries(ansi_node_btree_entries_bytes(v) + rest, v.len())
            == Ok::<Seq<AnsiNodeBTreeEntryModel>, NdbError>(Seq::empty()));
        assert(v =~= Seq::<AnsiNodeBTreeEntryModel>::empty());
    }
}

/// Reading back a written ANSI node BTree leaf page gives the same page, its
/// trailer carrying the CRC of the data; optional ids must not be present with
/// the value 0, which stands for none.
pub proof fn lemma_ansi_node_btree_page_roundtrip(m: BTreePageModel<AnsiNodeBTreeEntryModel>)
    requires
        m.level == 0,
        m.entries.len() <= 31,
        m.trailer.page_type == PageType::NodeBTree,
        m.trailer.block_id <= u32::MAX,
        forall|i: int| 0 <= i < m.entries.len() ==> m.entries[i].sub_node != Some(0u32) && m.entries[i].parent != Some(0u32),
    ensures
        ansi_node_btree_page_bytes(m).len() == 512,
        parse_ansi_node_btree_page(ansi_node_btree_page_bytes(m)) == Ok::<BTreePageModel<AnsiNodeBTreeEntryModel>, NdbError>(
            BTreePageModel {
                level: 0,
                entries: m.entries,
                trailer: trailer_with_crc(m.trailer, spec_crc(0, ansi_node_btree_page_data(m))),
            }),
{
    let data = ansi_node_btree_page_data(m);
    let t = trailer_with_crc(m.trailer, spec_crc(0, data));
    let s = ansi_node_btree_page_bytes(m);
    let rest = zeros((16 * (31 - m.entries.len())) as nat) + seq![m.entries.len() as u8, 31u8, 16u8, m.level]
        + zeros(0) + ansi_trailer_bytes(t);
    lemma_ansi_node_btree_entries_roundtrip(m.entries, rest);
    lemma_ansi_trailer_roundtrip(t);
    assert(s =~= ansi_node_btree_entries_bytes(m.entries) + rest);
    assert(data.len() == 500);
    assert(s.subrange(0, 500) =~= data);
    assert(s.subrange(500, 512) =~= ansi_trailer_bytes(t));
    assert(s[496] == m.entries.len() as u8);
    assert(s[497] == 31u8);
    assert(s[498] == 16u8);
    assert(s[499] == 0u8);
}
/// Writing the entries one after another and reading them back gives them again,
/// whatever follows them.
proof fn lemma_unicode_btree_page_entries_roundtrip(v: Seq<(u64, (u64, u64))>, rest: Seq<u8>)
    ensures
        unicode_btree_page_entries_bytes(v).len() == 24 * v.len(),
        parse_unicode_btree_page_entries(unicode_btree_page_entries_bytes(v) + rest, v.len())
            == Ok::<Seq<(u64, (u64, u64))>, NdbError>(v),
    decreases v.len(),
{
    if v.len() > 0 {
        let w = v.drop_last();
        let x = v.last();
        let gx = unicode_btree_page_entry_bytes(x);
        lemma_unicode_btree_page_entry_roundtrip(x);
        lemma_unicode_btree_page_entries_roundtrip(w, gx + rest);
        let s = unicode_btree_page_entries_bytes(v) + rest;
        assert(s =~= unicode_btree_page_entries_bytes(w) + (gx + rest));
        assert(s.subrange(24 * (v.len() - 1), 24 * (v.len() as int)) =~= gx);
        assert(w.push(x) =~= v);
    } else {
        assert(parse_unicode_btree_page_entries(unicode_btree_page_entries_bytes(v) + rest, v.len())
            == Ok::<Seq<(u64, (u64, u64))>, NdbError>(Seq::empty()));
        assert(v =~= Seq::<(u64, (u64, u64))>::empty());
    }
}

/// Reading back a written Unicode BTree intermediate page gives the same page, its trailer carrying the CRC
/// of the data.
pub proof fn lemma_unicode_btree_entry_page_roundtrip(m: BTreePageModel<(u64, (u64, u64))>)
    requires
        1 <= m.level <= 8,
        m.entries.len() <= 20,
        m.trailer.page_type == PageType::BlockBTree || m.trailer.page_type == PageType::NodeBTree,
    ensures
        unicode_btree_entry_page_bytes(m).len() == 512,
        parse_unicode_btree_entry_page(unicode_btree_entry_page_bytes(m)) == Ok::<BTreePageModel<(u64, (u64, u64))>, NdbError>(
            BTreePageModel {
                level: m.level,
                entries: m.entries,
                trailer: trailer_with_crc(m.trailer, spec_crc(0, unicode_btree_entry_page_data(m))),
            }),
{
    let data = unicode_btree_entry_page_data(m);
    let t = trailer_with_crc(m.trailer, spec_crc(0, data));
    let s = unicode_btree_entry_page_bytes(m);
    let rest = zeros((24 * (20 - m.entries.len()) + 8) as nat) + seq![m.entries.len() as u8, 20u8, 24u8, m.level] + le32(0) + unicode_trailer_bytes(t);
    lemma_unicode_btree_page_entries_roundtrip(m.entries, rest);
    lemma_unicode_trailer_roundtrip(t);
    lemma_le_roundtrip();
    assert(s =~= unicode_btree_page_entries_bytes(m.entries) + rest);
    assert(data.len() == 496);
    assert(s.subrange(0, 496) =~= data);
    assert(s.subrange(496, 512) =~= unicode_trailer_bytes(t));
    assert(s.subrange(492, 496) =~= le32(0));
    assert(s[488] == m.entries.len() as u8);
    assert(s[489] == 20u8);
    assert(s[490] == 24u8);
    assert(s[491] == m.level);
}

/// Writing the entries one after another and reading them back gives them again,
/// whatever follows them.
proof fn lemma_unicode_block_btree_entries_roundtrip(v: Seq<UnicodeBlockBTreeEntryModel>, rest: Seq<u8>)
    ensures
        unicode_block_btree_entries_bytes(v).len() == 24 * v.len(),
        parse_unicode_block_btree_entries(unicode_block_btree_entries_bytes(v) + rest, v.len())
            == Ok::<Seq<UnicodeBlockBTreeEntryModel>, NdbError>(v),
    decreases v.len(),
{
    if v.len() > 0 {
        let w = v.drop_last();
        let x = v.last();
        let gx = unicode_block_btree_entry_bytes(x);
        lemma_unicode_block_btree_entry_roundtrip(x);
        lemma_unicode_block_btree_entries_roundtrip(w, gx + rest);
        let s = unicode_block_btree_entries_bytes(v) + rest;
        assert(s =~= unicode_block_btree_entries_bytes(w) + (gx + rest));
        assert(s.subrange(24 * (v.len() - 1), 24 * (v.len() as int)) =~= gx);
        assert(w.push(x) =~= v);
    } else {
        assert(parse_unicode_block_btree_entries(unicode_block_btree_entries_bytes(v) + rest, v.len())
            == Ok::<Seq<UnicodeBlockBTreeEntryModel>, NdbError>(Seq::empty()));
        assert(v =~= Seq::<UnicodeBlockBTreeEntryModel>::empty());
    }
}

/// Reading back a written Unicode block BTree leaf page gives the same page, its trailer carrying the CRC
/// of the data.
pub proof fn lemma_unicode_block_btree_page_roundtrip(m: BTreePageModel<UnicodeBlockBTreeEntryModel>)
    requires
        m.level == 0,
        m.entries.len() <= 20,
        m.trailer.page_type == PageType::BlockBTree,
    ensures
        unicode_block_btree_page_bytes(m).len() == 512,
        parse_unicode_block_btree_page(unicode_block_btree_page_bytes(m)) == Ok::<BTreePageModel<UnicodeBlockBTreeEntryModel>, NdbError>(
            BTreePageModel {
                level: m.level,
                entries: m.entries,
                trailer: trailer_with_crc(m.trailer, spec_crc(0, unicode_block_btree_page_data(m))),
            }),
{
    let data = unicode_block_btree_page_data(m);
    let t = trailer_with_crc(m.trailer, spec_crc(0, data));
    let s = unicode_block_btree_page_bytes(m);
    let rest = zeros((24 * (20 - m.entries.len()) + 8) as nat) + seq![m.entries.len() as u8, 20u8, 24u8, m.level] + le32(0) + unicode_trailer_bytes(t);
    lemma_unicode_block_btree_entries_roundtrip(m.entries, rest);
    lemma_unicode_trailer_roundtrip(t);
    lemma_le_roundtrip();
    assert(s =~= unicode_block_btree_entries_bytes(m.entries) + rest);
    assert(data.len() == 496);
    assert(s.subrange(0, 496) =~= data);
    assert(s.subrange(496, 512) =~= unicode_trailer_bytes(t));
    assert(s.subrange(492, 496) =~= le32(0));
    assert(s[488] == m.entries.len() as u8);
    assert(s[489] == 20u8);
    assert(s[490] == 24u8);
    assert(s[491] == m.level);
}

/// Writing the entries one after another and reading them back gives them again,
/// whatever follows them.
proof fn lemma_unicode_node_btree_entries_roundtrip(v: Seq<UnicodeNodeBTreeEntryModel>, rest: Seq<u8>)
    requires
        forall|i: int| 0 <= i < v.len() ==> v[i].sub_node != Some(0u64) && v[i].parent != Some(0u32),
    ensures
        unicode_node_btree_entries_bytes(v).len() == 32 * v.len(),
        parse_unicode_node_btree_entries(unicode_node_btree_entries_bytes(v) + rest, v.len())
            == Ok::<Seq<UnicodeNodeBTreeEntryModel>, NdbError>(v),
    decreases v.len(),
{
    if v.len() > 0 {
        let w = v.drop_last();
        let x = v.last();
        let gx = unicode_node_btree_entry_bytes(x);
        lemma_unicode_node_btree_entry_roundtrip(x);
        lemma_unicode_node_btree_entries_roundtrip(w, gx + rest);
        let s = unicode_node_btree_entries_bytes(v) + rest;
        assert(s =~= unicode_node_btree_entries_bytes(w) + (gx + rest));
        assert(s.subrange(32 * (v.len() - 1), 32 * (v.len() as int)) =~= gx);
        assert(w.push(x) =~= v);
    } else {
        assert(parse_unicode_node_btree_entries(unicode_node_btree_entries_bytes(v) + rest, v.len())
            == Ok::<Seq<UnicodeNodeBTreeEntryModel>, NdbError>(Seq::empty()));
        assert(v =~= Seq::<UnicodeNodeBTreeEntryModel>::empty());
    }
}

/// Reading back a written Unicode node BTree leaf page gives the same page, its trailer carrying the CRC
/// of the data.
pub proof fn lemma_unicode_node_btree_page_roundtrip(m: BTreePageModel<UnicodeNodeBTreeEntryModel>)
    requires
        m.level == 0,
        m.entries.len() <= 15,
        m.trailer.page_type == PageType::NodeBTree,
        forall|i: int| 0 <= i < m.entries.len() ==> m.entries[i].sub_node != Some(0u64) && m.entries[i].parent != Some(0u32),
    ensures
        unicode_node_btree_page_bytes(m).len() == 512,
        parse_unicode_node_btree_page(unicode_node_btree_page_bytes(m)) == Ok::<BTreePageModel<UnicodeNodeBTreeEntryModel>, NdbError>(
            BTreePageModel {
                level: m.level,
                entries: m.entries,
                trailer: trailer_with_crc(m.trailer, spec_crc(0, unicode_node_btree_page_data(m))),
            }),
{
    let data = unicode_node_btree_page_data(m);
    let t = trailer_with_crc(m.trailer, spec_crc(0, data));
    let s = unicode_node_btree_page_bytes(m);
    let rest = zeros((32 * (15 - m.entries.len()) + 8) as nat) + seq![m.entries.len() as u8, 15u8, 32u8, m.level] + le32(0) + unicode_trailer_bytes(t);
    lemma_unicode_node_btree_entries_roundtrip(m.entries, rest);
    lemma_unicode_trailer_roundtrip(t);
    lemma_le_roundtrip();
    assert(s =~= unicode_node_btree_entries_bytes(m.entries) + rest);
    assert(data.len() == 496);
    assert(s.subrange(0, 496) =~= data);
    assert(s.subrange(496, 512) =~= unicode_trailer_bytes(t));
    assert(s.subrange(492, 496) =~= le32(0));
    assert(s[488] == m.entries.len() as u8);
    assert(s[489] == 15u8);
    assert(s[490] == 32u8);
    assert(s[491] == m.level);
}

/// Writing the entries one after another and reading them back gives them again,
/// whatever follows them.
proof fn lemma_ansi_btree_page_entries_roundtrip(v: Seq<(u32, (u32, u32))>, rest: Seq<u8>)
    ensures
        ansi_btree_page_entries_bytes(v).len() == 12 * v.len(),
        parse_ansi_btree_page_entries(ansi_btree_page_entries_bytes(v) + rest, v.len())
            == Ok::<Seq<(u32, (u32, u32))>, NdbError>(v),
    decreases v.len(),
{
    if v.len() > 0 {
        let w = v.drop_last();
        let x = v.last();
        let gx = ansi_btree_page_entry_bytes(x);
        lemma_ansi_btree_page_entry_roundtrip(x);
        lemma_ansi_btree_page_entries_roundtrip(w, gx + rest);
        let s = ansi_btree_page_entries_bytes(v) + rest;
        assert(s =~= ansi_btree_page_entries_bytes(w) + (gx + rest));
        assert(s.subrange(12 * (v.len() - 1), 12 * (v.len() as int)) =~= gx);
        assert(w.push(x) =~= v);
    } else {
        assert(parse_ansi_btree_page_entries(ansi_btree_page_entries_bytes(v) + rest, v.len())
            == Ok::<Seq<(u32, (u32, u32))>, NdbError>(Seq::empty()));
        assert(v =~= Seq::<(u32, (u32, u32))>::empty());
    }
}

/// Reading back a written ANSI BTree intermediate page gives the same page, its trailer carrying the CRC
/// of the data.
pub proof fn lemma_ansi_btree_entry_page_roundtrip(m: BTreePageModel<(u32, (u32, u32))>)
    requires
        1 <= m.level <= 8,
        m.entries.len() <= 41,
        m.trailer.page_type == PageType::BlockBTree || m.trailer.page_type == PageType::NodeBTree,
        m.trailer.block_id <= u32::MAX,
    ensures
        ansi_btree_entry_page_bytes(m).len() == 512,
        parse_ansi_btree_entry_page(ansi_btree_entry_page_bytes(m)) == Ok::<BTreePageModel<(u32, (u32, u32))>, NdbError>(
            BTreePageModel {
                level: m.level,
                entries: m.entries,
                trailer: trailer_with_crc(m.trailer, spec_crc(0, ansi_btree_entry_page_data(m))),
            }),
{
    let data = ansi_btree_entry_page_data(m);
    let t = trailer_with_crc(m.trailer, spec_crc(0, data));
    let s = ansi_btree_entry_page_bytes(m);
    let rest = zeros((12 * (41 - m.entries.len()) + 4) as nat) + seq![m.entries.len() as u8, 41u8, 12u8, m.level] + ansi_trailer_bytes(t);
    lemma_ansi_btree_page_entries_roundtrip(m.entries, rest);
    lemma_ansi_trailer_roundtrip(t);
    lemma_le_roundtrip();
    assert(s =~= ansi_btree_page_entries_bytes(m.entries) + rest);
    assert(data.len() == 500);
    assert(s.subrange(0, 500) =~= data);
    assert(s.subrange(500, 512) =~= ansi_trailer_bytes(t));
    assert(s[496] == m.entries.len() as u8);
    assert(s[497] == 41u8);
    assert(s[498] == 12u8);
    assert(s[499] == m.level);
}

/// Writing the entries one after another and reading them back gives them again,
/// whatever follows them.
proof fn lemma_ansi_block_btree_entries_roundtrip(v: Seq<AnsiBlockBTreeEntryModel>, rest: Seq<u8>)
    ensures
        ansi_block_btree_entries_bytes(v).len() == 12 * v.len(),
        parse_ansi_block_btree_entries(ansi_block_btree_entries_bytes(v) + rest, v.len())
            == Ok::<Seq<AnsiBlockBTreeEntryModel>, NdbError>(v),
    decreases v.len(),
{
    if v.len() > 0 {
        let w = v.drop_last();
        let x = v.last();
        let gx = ansi_block_btree_entry_bytes(x);
        lemma_ansi_block_btree_entry_roundtrip(x);
        lemma_ansi_block_btree_entries_roundtrip(w, gx + rest);
        let s = ansi_block_btree_entries_bytes(v) + rest;
        assert(s =~= ansi_block_btree_entries_bytes(w) + (gx + rest));
        assert(s.subrange(12 * (v.len() - 1), 12 * (v.len() as int)) =~= gx);
        assert(w.push(x) =~= v);
    } else {
        assert(parse_ansi_block_btree_entries(ansi_block_btree_entries_bytes(v) + rest, v.len())
            == Ok::<Seq<AnsiBlockBTreeEntryModel>, NdbError>(Seq::empty()));
        assert(v =~= Seq::<AnsiBlockBTreeEntryModel>::empty());
    }
}

/// Reading back a written ANSI block BTree leaf page gives the same page, its trailer carrying the CRC
/// of the data.
pub proof fn lemma_ansi_block_btree_page_roundtrip(m: BTreePageModel<AnsiBlockBTreeEntryModel>)
    requires
        m.level == 0,
        m.entries.len() <= 41,
        m.trailer.page_type == PageType::BlockBTree,
        m.trailer.block_id <= u32::MAX,
    ensures
        ansi_block_btree_page_bytes(m).len() == 512,
        parse_ansi_block_btree_page(ansi_block_btree_page_bytes(m)) == Ok::<BTreePageModel<AnsiBlockBTreeEntryModel>, NdbError>(
            BTreePageModel {
                level: m.level,
                entries: m.entries,
                trailer: trailer_with_crc(m.trailer, spec_crc(0, ansi_block_btree_page_data(m))),
            }),
{
    let data = ansi_block_btree_page_data(m);
    let t = trailer_with_crc(m.trailer, spec_crc(0, data));
    let s = ansi_block_btree_page_bytes(m);
    let rest = zeros((12 * (41 - m.entries.len()) + 4) as nat) + seq![m.entries.len() as u8, 41u8, 12u8, m.level] + ansi_trailer_bytes(t);
    lemma_ansi_block_btree_entries_roundtrip(m.entries, rest);
    lemma_ansi_trailer_roundtrip(t);
    lemma_le_roundtrip();
    assert(s =~= ansi_block_btree_entries_bytes(m.entries) + rest);
    assert(data.len() == 500);
    assert(s.subrange(0, 500) =~= data);
    assert(s.subrange(500, 512) =~= ansi_trailer_bytes(t));
    assert(s[496] == m.entries.len() as u8);
    assert(s[497] == 41u8);
    assert(s[498] == 12u8);
    assert(s[499] == m.level);
}


/// How many entries of an intermediate page, from entry `i` on, come before the first
/// whose key is greater than `key`, counted from the start of the page.
pub open spec fn unicode_keys_up_to(entries: Seq<(u64, (u64, u64))>, key: u64, i: nat) -> nat
    decreases entries.len() - i,
{
    if i >= entries.len() || entries[i as int].0 > key {
        i
    } else {
        unicode_keys_up_to(entries, key, i + 1)
    }
}

/// The page below an intermediate page of a Unicode file that holds `key`: that of the
/// last entry before the first one with a greater key; none when the first key is
/// already greater.
pub open spec fn unicode_child_for(entries: Seq<(u64, (u64, u64))>, key: u64) -> Option<(u64, u64)> {
    let j = unicode_keys_up_to(entries, key, 0);
    if j == 0 { None } else { Some(entries[j - 1].1) }
}

/// The keys of the entries increase from one entry to the next.
pub open spec fn unicode_keys_increase(entries: Seq<(u64, (u64, u64))>) -> bool {
    forall|a: int, b: int| 0 <= a < b < entries.len() ==> entries[a].0 < entries[b].0
}

/// Counting the entries with keys up to `key` from entry `i` on stays between `i` and
/// the end; all counted have such keys, and the next one (if any) a greater key.
proof fn lemma_unicode_keys_up_to(entries: Seq<(u64, (u64, u64))>, key: u64, i: nat)
    requires
        i <= entries.len(),
    ensures
        i <= unicode_keys_up_to(entries, key, i) <= entries.len(),
        forall|k: int| i <= k < unicode_keys_up_to(entries, key, i) ==> entries[k].0 <= key,
        unicode_keys_up_to(entries, key, i) < entries.len()
            ==> entries[unicode_keys_up_to(entries, key, i) as int].0 > key,
    decreases entries.len() - i,
{
    if !(i >= entries.len() || entries[i as int].0 > key) {
        lemma_unicode_keys_up_to(entries, key, i + 1);
    }
}

/// Lookup by key in an intermediate page whose keys increase: the page below is that
/// of the entry with the greatest key not above `key`, and there is none exactly when
/// every key is above `key`.
pub proof fn lemma_unicode_child_for(entries: Seq<(u64, (u64, u64))>, key: u64)
    requires
        unicode_keys_increase(entries),
    ensures
        unicode_child_for(entries, key) is None <==> (forall|k: int| 0 <= k < entries.len() ==> entries[k].0 > key),
        unicode_child_for(entries, key) matches Some(c) ==> exists|i: int| {
            &&& 0 <= i < entries.len()
            &&& entries[i].0 <= key
            &&& entries[i].1 == c
            &&& forall|k: int| 0 <= k < entries.len() && #[trigger] entries[k].0 <= key ==> k <= i
        },
{
    lemma_unicode_keys_up_to(entries, key, 0);
    let j = unicode_keys_up_to(entries, key, 0);
    if j > 0 {
        let i = j - 1;
        assert(entries[i].0 <= key);
        assert forall|k: int| 0 <= k < entries.len() && #[trigger] entries[k].0 <= key implies k <= i by {
            if k > i && k != j {
                assert(entries[j as int].0 < entries[k].0);
            }
        }
    } else if entries.len() > 0 {
        assert forall|k: int| 0 <= k < entries.len() implies entries[k].0 > key by {
            if k > 0 {
                assert(entries[0].0 < entries[k].0);
            }
        }
    }
}

impl UnicodeBTreeEntryPage {
    /// Lookup by key: the reference of the page below that holds `key`, that of the
    /// last entry before the first one with a greater key.
    pub fn find_child(&self, key: u64) -> (r: Option<UnicodeBlockRef>)
        ensures
            r matches Some(b) ==> unicode_child_for(self@.entries, key) == Some(b@),
            r is None ==> unicode_child_for(self@.entries, key) is None,
    {
        let entries = self.entries();
        let ghost es = self@.entries;
        let mut i: usize = 0;
        while i < entries.len() && entries[i].key().value() <= key
            invariant
                i <= entries@.len(),
                entries@.map_values(|e: UnicodeBTreePageEntry| e@) == es,
                unicode_keys_up_to(es, key, 0) == unicode_keys_up_to(es, key, i as nat),
            decreases entries@.len() - i,
        {
            assert(es[i as int] == entries@[i as int]@);
            i = i + 1;
        }
        proof {
            if i < entries.len() {
                assert(es[i as int] == entries@[i as int]@);
            }
        }
        if i == 0 {
            None
        } else {
            assert(es[i - 1] == entries@[i - 1]@);
            Some(entries[i - 1].block())
        }
    }
}

/// How many entries of an intermediate page, from entry `i` on, come before the first
/// whose key is greater than `key`, counted from the start of the page.
pub open spec fn ansi_keys_up_to(entries: Seq<(u32, (u32, u32))>, key: u32, i: nat) -> nat
    decreases entries.len() - i,
{
    if i >= entries.len() || entries[i as int].0 > key {
        i
    } else {
        ansi_keys_up_to(entries, key, i + 1)
    }
}

/// The page below an intermediate page of an ANSI file that holds `key`: that of the
/// last entry before the first one with a greater key; none when the first key is
/// already greater.
pub open spec fn ansi_child_for(entries: Seq<(u32, (u32, u32))>, key: u32) -> Option<(u32, u32)> {
    let j = ansi_keys_up_to(entries, key, 0);
    if j == 0 { None } else { Some(entries[j - 1].1) }
}

/// The keys of the entries increase from one entry to the next.
pub open spec fn ansi_keys_increase(entries: Seq<(u32, (u32, u32))>) -> bool {
    forall|a: int, b: int| 0 <= a < b < entries.len() ==> entries[a].0 < entries[b].0
}

/// Counting the entries with keys up to `key` from entry `i` on stays between `i` and
/// the end; all counted have such keys, and the next one (if any) a greater key.
proof fn lemma_ansi_keys_up_to(entries: Seq<(u32, (u32, u32))>, key: u32, i: nat)
    requires
        i <= entries.len(),
    ensures
        i <= ansi_keys_up_to(entries, key, i) <= entries.len(),
        forall|k: int| i <= k < ansi_keys_up_to(entries, key, i) ==> entries[k].0 <= key,
        ansi_keys_up_to(entries, key, i) < entries.len()
            ==> entries[ansi_keys_up_to(entries, key, i) as int].0 > key,
    decreases entries.len() - i,
{
    if !(i >= entries.len() || entries[i as int].0 > key) {
        lemma_ansi_keys_up_to(entries, key, i + 1);
    }
}

/// Lookup by key in an intermediate page whose keys increase: the page below is that
/// of the entry with the greatest key not above `key`, and there is none exactly when
/// every key is above `key`.
pub proof fn lemma_ansi_child_for(entries: Seq<(u32, (u32, u32))>, key: u32)
    requires
        ansi_keys_increase(entries),
    ensures
        ansi_child_for(entries, key) is None <==> (forall|k: int| 0 <= k < entries.len() ==> entries[k].0 > key),
        ansi_child_for(entries, key) matches Some(c) ==> exists|i: int| {
            &&& 0 <= i < entries.len()
            &&& entries[i].0 <= key
            &&& entries[i].1 == c
            &&& forall|k: int| 0 <= k < entries.len() && #[trigger] entries[k].0 <= key ==> k <= i
        },
{
    lemma_ansi_keys_up_to(entries, key, 0);
    let j = ansi_keys_up_to(entries, key, 0);
    if j > 0 {
        let i = j - 1;
        assert(entries[i].0 <= key);
        assert forall|k: int| 0 <= k < entries.len() && #[trigger] entries[k].0 <= key implies k <= i by {
            if k > i && k != j {
                assert(entries[j as int].0 < entries[k].0);
            }
        }
    } else if entries.len() > 0 {
        assert forall|k: int| 0 <= k < entries.len() implies entries[k].0 > key by {
            if k > 0 {
                assert(entries[0].0 < entries[k].0);
            }
        }
    }
}

impl AnsiBTreeEntryPage {
    /// Lookup by key: the reference of the page below that holds `key`, that of the
    /// last entry before the first one with a greater key.
    pub fn find_child(&self, key: u32) -> (r: Option<AnsiBlockRef>)
        ensures
            r matches Some(b) ==> ansi_child_for(self@.entries, key) == Some(b@),
            r is None ==> ansi_child_for(self@.entries, key) is None,
    {
        let entries = self.entries();
        let ghost es = self@.entries;
        let mut i: usize = 0;
        while i < entries.len() && entries[i].key().value() <= key
            invariant
                i <= entries@.len(),
                entries@.map_values(|e: AnsiBTreePageEntry| e@) == es,
                ansi_keys_up_to(es, key, 0) == ansi_keys_up_to(es, key, i as nat),
            decreases entries@.len() - i,
        {
            assert(es[i as int] == entries@[i as int]@);
            i = i + 1;
        }
        proof {
            if i < entries.len() {
                assert(es[i as int] == entries@[i as int]@);
            }
        }
        if i == 0 {
            None
        } else {
            assert(es[i - 1] == entries@[i - 1]@);
            Some(entries[i - 1].block())
        }
    }
}


/// The first entry, from entry `i` on, of which `f` holds.
pub open spec fn first_index<T>(s: Seq<T>, f: spec_fn(T) -> bool, i: nat) -> Option<nat>
    decreases s.len() - i,
{
    if i >= s.len() {
        None
    } else if f(s[i as int]) {
        Some(i)
    } else {
        first_index(s, f, i + 1)
    }
}

/// The first entry from entry `i` on of which `f` holds is one, and none before it is;
/// there is none exactly when `f` holds of no entry from `i` on.
pub proof fn lemma_first_index<T>(s: Seq<T>, f: spec_fn(T) -> bool, i: nat)
    requires
        i <= s.len(),
    ensures
        match first_index(s, f, i) {
            Some(k) => i <= k < s.len() && f(s[k as int]) && forall|j: int| i <= j < k ==> !f(#[trigger] s[j]),
            None => forall|j: int| i <= j < s.len() ==> !f(#[trigger] s[j]),
        },
    decreases s.len() - i,
{
    if i < s.len() && !f(s[i as int]) {
        lemma_first_index(s, f, i + 1);
    }
}

/// The leaf entry of the node BTree of a Unicode file for node `node`.
pub open spec fn unicode_node_is(node: u32) -> spec_fn(UnicodeNodeBTreeEntryModel) -> bool {
    |m: UnicodeNodeBTreeEntryModel| m.node == node
}

/// The leaf entry of the node BTree of an ANSI file for node `node`.
pub open spec fn ansi_node_is(node: u32) -> spec_fn(AnsiNodeBTreeEntryModel) -> bool {
    |m: AnsiNodeBTreeEntryModel| m.node == node
}

/// The leaf entry of the block BTree of a Unicode file for block `block`.
pub open spec fn unicode_block_is(block: u64) -> spec_fn(UnicodeBlockBTreeEntryModel) -> bool {
    |m: UnicodeBlockBTreeEntryModel| m.block.0 == block
}

/// The leaf entry of the block BTree of an ANSI file for block `block`.
pub open spec fn ansi_block_is(block: u32) -> spec_fn(AnsiBlockBTreeEntryModel) -> bool {
    |m: AnsiBlockBTreeEntryModel| m.block.0 == block
}

impl UnicodeNodeBTreePage {
    /// Lookup by key: the first entry of the page for node `node`, if any.
    pub fn entry_for(&self, node: NodeId) -> (r: Option<UnicodeNodeBTreeEntry>)
        ensures
            r matches Some(e) ==> first_index(self@.entries, unicode_node_is(node@), 0) matches Some(k)
                && e@ == self@.entries[k as int],
            r is None ==> first_index(self@.entries, unicode_node_is(node@), 0) is None,
    {
        let ghost es = self@.entries;
        let mut i: usize = 0;
        while i < self.entries.len()
            invariant
                i <= self.entries@.len(),
                es == self.entries@.map_values(|e: UnicodeNodeBTreeEntry| e@),
                first_index(es, unicode_node_is(node@), 0) == first_index(es, unicode_node_is(node@), i as nat),
            decreases self.entries@.len() - i,
        {
            let e = self.entries[i];
            assert(es[i as int] == e@);
            if e.node().value() == node.value() {
                return Some(e);
            }
            i = i + 1;
        }
        None
    }
}

impl AnsiNodeBTreePage {
    /// Lookup by key: the first entry of the page for node `node`, if any.
    pub fn entry_for(&self, node: NodeId) -> (r: Option<AnsiNodeBTreeEntry>)
        ensures
            r matches Some(e) ==> first_index(self@.entries, ansi_node_is(node@), 0) matches Some(k)
                && e@ == self@.entries[k as int],
            r is None ==> first_index(self@.entries, ansi_node_is(node@), 0) is None,
    {
        let ghost es = self@.entries;
        let mut i: usize = 0;
        while i < self.entries.len()
            invariant
                i <= self.entries@.len(),
                es == self.entries@.map_values(|e: AnsiNodeBTreeEntry| e@),
                first_index(es, ansi_node_is(node@), 0) == first_index(es, ansi_node_is(node@), i as nat),
            decreases self.entries@.len() - i,
        {
            let e = self.entries[i];
            assert(es[i as int] == e@);
            if e.node().value() == node.value() {
                return Some(e);
            }
            i = i + 1;
        }
        None
    }
}

impl UnicodeBlockBTreePage {
    /// Lookup by key: the first entry of the page for block `block`, if any.
    pub fn entry_for(&self, block: UnicodeBlockId) -> (r: Option<UnicodeBlockBTreeEntry>)
        ensures
            r matches Some(e) ==> first_index(self@.entries, unicode_block_is(block@), 0) matches Some(k)
                && e@ == self@.entries[k as int],
            r is None ==> first_index(self@.entries, unicode_block_is(block@), 0) is None,
    {
        let ghost es = self@.entries;
        let mut i: usize = 0;
        while i < self.entries.len()
            invariant
                i <= self.entries@.len(),
                es == self.entries@.map_values(|e: UnicodeBlockBTreeEntry| e@),
                first_index(es, unicode_block_is(block@), 0) == first_index(es, unicode_block_is(block@), i as nat),
            decreases self.entries@.len() - i,
        {
            let e = self.entries[i];
            assert(es[i as int] == e@);
            if e.block().block().value() == block.value() {
                return Some(e);
            }
            i = i + 1;
        }
        None
    }
}

impl AnsiBlockBTreePage {
    /// Lookup by key: the first entry of the page for block `block`, if any.
    pub fn entry_for(&self, block: AnsiBlockId) -> (r: Option<AnsiBlockBTreeEntry>)
        ensures
            r matches Some(e) ==> first_index(self@.entries, ansi_block_is(block@), 0) matches Some(k)
                && e@ == self@.entries[k as int],
            r is None ==> first_index(self@.entries, ansi_block_is(block@), 0) is None,
    {
        let ghost es = self@.entries;
        let mut i: usize = 0;
        while i < self.entries.len()
            invariant
                i <= self.entries@.len(),
                es == self.entries@.map_values(|e: AnsiBlockBTreeEntry| e@),
                first_index(es, ansi_block_is(block@), 0) == first_index(es, ansi_block_is(block@), i as nat),
            decreases self.entries@.len() - i,
        {
            let e = self.entries[i];
            assert(es[i as int] == e@);
            if e.block().block().value() == block.value() {
                return Some(e);
            }
            i = i + 1;
        }
        None
    }
}

} // verus!
