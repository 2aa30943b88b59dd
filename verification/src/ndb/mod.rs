//! The Node Database (NDB) layer: node and block identifiers, the file
//! header, pages, blocks and the allocation maps.

pub mod node_id;
pub mod block_id;
pub mod byte_index;
pub mod block_ref;
pub mod page;
pub mod root;
pub mod header;
pub mod block;
pub mod btree;

use vstd::prelude::*;
use page::PageType;

verus! {

/// Errors found while reading or building NDB structures.
#[derive(Debug, Clone, Copy, PartialEq, Eq, Structural)]
pub enum NdbError {
    InvalidNodeIdType(u8),
    InvalidNodeIndex(u32),
    InvalidUnicodeBlockIndex(u64),
    InvalidAnsiBlockIndex(u32),
    InvalidAmapStatus(u8),
    InvalidNdbVersion(u16),
    InvalidNdbCryptMethod(u8),
    InvalidNdbHeaderMagicValue(u32),
    InvalidNdbHeaderPartialCrc(u32),
    InvalidNdbHeaderMagicClientValue(u16),
    InvalidNdbHeaderFullCrc(u32),
    AnsiPstVersion(u16),
    InvalidNdbHeaderClientVersion(u16),
    InvalidNdbHeaderPlatformCreate(u8),
    InvalidNdbHeaderPlatformAccess(u8),
    InvalidNdbHeaderUnusedValue(u64),
    InvalidNdbHeaderAlignValue(u32),
    InvalidNdbHeaderSentinelValue(u8),
    InvalidNdbHeaderReservedValue(u16),
    UnicodePstVersion(u16),
    InvalidNdbHeaderAnsiReservedBytes,
    MismatchPageTypeRepeat(u8, u8),
    InvalidPageType(u8),
    UnexpectedPageType(PageType),
    InvalidPageCrc(u32),
    InvalidAnsiMapPagePadding(u32),
    InvalidDensityListEntryPageNumber(u32),
    InvalidDensityListEntryFreeSlots(u16),
    InvalidDensityListEntryCount(usize),
    InvalidDensityListPadding,
    InvalidBTreePageLevel(u8),
    InvalidBTreeEntryCount(usize),
    InvalidBTreeEntryMaxCount(u8),
    InvalidBTreeEntrySize(u8),
    InvalidBTreePagePadding(u32),
    InvalidNodeBTreeEntryNodeId(u64),
    InvalidBlockSize(u16),
    InvalidBlockCrc(u32),
    InvalidUnicodeBlockTrailerId(u64),
    InvalidAnsiBlockTrailerId(u32),
    /// The data ended before a structure was complete.
    UnexpectedEndOfData,
}

} // verus!
