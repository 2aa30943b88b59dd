//! Lists, Tables, and Properties (LTP) Layer

pub mod prop_type;
pub mod heap;
pub mod prop_context;
pub mod read_write;
pub mod table_context;
pub mod tree;

use vstd::prelude::*;
use crate::ndb::NdbError;
use crate::ndb::node_id::NodeIdType;
use heap::HeapNodeType;
use prop_type::PropertyType;

verus! {

/// Errors found while reading or building LTP structures.
#[derive(Debug, Clone, Copy, PartialEq, Eq, Structural)]
pub enum LtpError {
    NodeDatabaseError(NdbError),
    InvalidHeapIndex(u16),
    InvalidHeapNodeType(NodeIdType),
    InvalidHeapNodeSignature(u8),
    InvalidHeapClientSignature(u8),
    InvalidHeapFillLevel(u8),
    HeapPageOutOfSpace,
    EmptyHeapPageAlloc,
    InvalidHeapPageAllocOffset(u16),
    InvalidHeapPageAllocCount(u16),
    InvalidHeapPageFreeCount(u16),
    InvalidPropertyType(u16),
    InvalidVariableLengthPropertyType(PropertyType),
    StringNotNullTerminated(usize),
    InvalidMultiValuePropertyOffset(usize),
    InvalidMultiValuePropertyCount(usize),
    PropertySubNodeValueNotFound(u32),
    InvalidHeapTreeNodeType(HeapNodeType),
    InvalidHeapTreeKeySize(u8),
    InvalidHeapTreeDataSize(u8),
    InvalidTableContextHeapTreeNodeType(HeapNodeType),
    InvalidTableContextColumnCount(usize),
    InvalidTableContext4ByteOffset(u16),
    InvalidTableContext2ByteOffset(u16),
    InvalidTableContext1ByteOffset(u16),
    InvalidTableContextBitmaskOffset(u16),
    InvalidTableContextRowIdColumn(u16, PropertyType),
    InvalidTableColumnPropertyType(PropertyType),
    InvalidTableColumnOffset(u16),
    InvalidTableColumnSize(u8),
    InvalidTableColumnBitmaskOffset(u8),
    InvalidTableColumnBooleanValue(u8),
    TableRowIdNotFound(u32),
    /// The data ended before a value was complete.
    UnexpectedEndOfData,
}

} // verus!
