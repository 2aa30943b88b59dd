//! Heap-on-Node (HN):
//! heap ids and the client signatures of heap nodes.

use vstd::prelude::*;
use crate::codec::{le32, lemma_le_roundtrip, push_u32, read_u32_at, u32_at};
use crate::ndb::NdbError;
use crate::ndb::node_id::{nid_type_code, NodeIdType};
use super::LtpError;
use super::read_write::HeapIdReadWrite;

verus! {

/// `bClientSig`: what a heap node holds.
#[derive(Debug, Clone, Copy, PartialEq, Eq, Structural)]
pub enum HeapNodeType {
    /// `bTypeTC`: a table context
    Table,
    /// `bTypeBTH`: a BTree-on-Heap
    Tree,
    /// `bTypePC`: a property context
    Properties,
}

impl HeapNodeType {
    /// The byte code of each heap node type.
    pub open spec fn spec_code(self) -> u8 {
        match self {
            HeapNodeType::Table => 0x7C,
            HeapNodeType::Tree => 0xB5,
            HeapNodeType::Properties => 0xBC,
        }
    }

    /// The heap node type whose code is `value`, if any.
    pub open spec fn spec_from_code(value: u8) -> Option<HeapNodeType> {
        if value == 0x7C {
            Some(HeapNodeType::Table)
        } else if value == 0xB5 {
            Some(HeapNodeType::Tree)
        } else if value == 0xBC {
            Some(HeapNodeType::Properties)
        } else {
            None
        }
    }

    /// The byte code of this heap node type.
    pub fn code(self) -> (r: u8)
        ensures
            r == self.spec_code(),
    {
        match self {
            HeapNodeType::Table => 0x7C,
            HeapNodeType::Tree => 0xB5,
            HeapNodeType::Properties => 0xBC,
        }
    }

    /// The heap node type whose code is `value`.
    pub fn try_from_u8(value: u8) -> (r: Result<HeapNodeType, LtpError>)
        ensures
            r == (match Self::spec_from_code(value) {
                Some(t) => Ok(t),
                None => Err(LtpError::InvalidHeapNodeSignature(value)),
            }),
    {
        match value {
            0x7C => Ok(HeapNodeType::Table),
            0xB5 => Ok(HeapNodeType::Tree),
            0xBC => Ok(HeapNodeType::Properties),
            _ => Err(LtpError::InvalidHeapNodeSignature(value)),
        }
    }
}

/// Every `HeapNodeType` has a code, and the code converts back to the same value.
pub proof fn lemma_heap_node_type_code_roundtrip(t: HeapNodeType)
    ensures
        HeapNodeType::spec_from_code(t.spec_code()) == Some(t),
{
}

/// The largest `hidIndex` of a heap id: it occupies 11 bits.
pub const MAX_HEAP_INDEX: u16 = 0x07FF;

/// HID:
/// a 5-bit `hidType` of 0, an 11-bit `hidIndex` and a 16-bit `hidBlockIndex`.
#[derive(Debug, Clone, Copy, PartialEq, Eq, Structural)]
pub struct HeapId(u32);

impl View for HeapId {
    type V = u32;

    closed spec fn view(&self) -> u32 {
        self.0
    }
}

/// The `hidIndex` of a raw heap id.
pub open spec fn hid_index(v: u32) -> u16 {
    ((v >> 5) & 0x7FF) as u16
}

/// The `hidBlockIndex` of a raw heap id.
pub open spec fn hid_block_index(v: u32) -> u16 {
    (v >> 16) as u16
}

impl HeapId {
    /// The heap id with raw value `value`.
    pub fn from_u32(value: u32) -> (r: HeapId)
        ensures
            r@ == value,
    {
        HeapId(value)
    }

    /// The raw value of the heap id.
    pub fn value(&self) -> (r: u32)
        ensures
            r == self@,
    {
        self.0
    }

    /// The `hidIndex`.
    pub fn index(&self) -> (r: u16)
        ensures
            r == hid_index(self@),
    {
        ((self.0 >> 5) & 0x7FF) as u16
    }

    /// The `hidBlockIndex`.
    pub fn block_index(&self) -> (r: u16)
        ensures
            r == hid_block_index(self@),
    {
        (self.0 >> 16) as u16
    }
}

impl HeapIdReadWrite for HeapId {
    /// The heap id of item `index` of block `block_index`; the index must fit in 11 bits.
    fn new(index: u16, block_index: u16) -> (r: Result<HeapId, LtpError>)
        ensures
            r is Ok <==> index <= MAX_HEAP_INDEX,
            r matches Ok(h) ==> h@ == block_index * 0x10000 + index * 32,
            r matches Ok(h) ==> hid_index(h@) == index && hid_block_index(h@) == block_index && nid_type_code(h@) == 0,
            r is Err ==> r == Err::<HeapId, LtpError>(LtpError::InvalidHeapIndex(index)),
    {
        if index > MAX_HEAP_INDEX {
            return Err(LtpError::InvalidHeapIndex(index));
        }
        let i = index as u32;
        let b = block_index as u32;
        proof {
            assert(i <= 0x7FF && b <= 0xFFFF ==> {
                &&& (b << 16) | (i << 5) == b * 0x10000 + i * 32
                &&& ((((b << 16) | (i << 5)) >> 5) & 0x7FF) as u16 == i as u16
                &&& (((b << 16) | (i << 5)) >> 16) as u16 == b as u16
                &&& ((((b << 16) | (i << 5)) & 0x1F) as u8) == 0
            }) by (bit_vector);
        }
        Ok(HeapId((b << 16) | (i << 5)))
    }

    /// Reads a heap id from the first four bytes of `b`; its `hidType` must be that of
    /// a heap node.
    fn read(b: &[u8]) -> (r: Result<HeapId, LtpError>)
        ensures
            b@.len() < 4 ==> r == Err::<HeapId, LtpError>(LtpError::UnexpectedEndOfData),
            b@.len() >= 4 ==> crate::codec::view_result(r) == parse_heap_id(b@.subrange(0, 4)),
    {
        if b.len() < 4 {
            return Err(LtpError::UnexpectedEndOfData);
        }
        assert(b@.subrange(0, 4).subrange(0, 4) =~= b@.subrange(0, 4));
        let value = read_u32_at(b, 0);
        let code = (value & 0x1F) as u8;
        match NodeIdType::try_from_u8(code) {
            Ok(NodeIdType::HeapNode) => Ok(HeapId(value)),
            Ok(t) => Err(LtpError::InvalidHeapNodeType(t)),
            Err(e) => Err(LtpError::NodeDatabaseError(e)),
        }
    }

    /// Appends the four bytes of the heap id.
    fn write(&self, out: &mut Vec<u8>)
        ensures
            final(out)@ == old(out)@ + le32(self@),
    {
        push_u32(out, self.0);
    }
}

/// The heap id held in `s`: its `hidType` must be that of a heap node.
pub open spec fn parse_heap_id(s: Seq<u8>) -> Result<u32, LtpError> {
    let v = u32_at(s, 0);
    match NodeIdType::spec_from_code(nid_type_code(v)) {
        Some(NodeIdType::HeapNode) => Ok(v),
        Some(t) => Err(LtpError::InvalidHeapNodeType(t)),
        None => Err(LtpError::NodeDatabaseError(NdbError::InvalidNodeIdType(nid_type_code(v)))),
    }
}

/// Reading the 4 bytes that `write` produced gives the heap id back exactly when its
/// type bits are those of a heap node, as they are for every id that `new` built.
pub proof fn lemma_heap_id_roundtrip(v: u32)
    ensures
        nid_type_code(v) == 0 ==> parse_heap_id(le32(v)) == Ok::<u32, LtpError>(v),
        nid_type_code(v) != 0 ==> parse_heap_id(le32(v)) is Err,
{
    lemma_le_roundtrip();
    assert(le32(v).subrange(0, 4) =~= le32(v));
}

} // verus!
