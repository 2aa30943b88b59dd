//! NID (Node ID)

use vstd::prelude::*;
use crate::codec::{le32, push_u32, read_u32_at, u32_at, lemma_le_roundtrip};
use super::NdbError;

verus! {

/// `nidType`: the kind of object a node holds.
#[derive(Debug, Clone, Copy, PartialEq, Eq, Structural)]
pub enum NodeIdType {
    /// `NID_TYPE_HID`: Heap node
    HeapNode,
    /// `NID_TYPE_INTERNAL`: Internal node
    Internal,
    /// `NID_TYPE_NORMAL_FOLDER`: Normal Folder object (PC)
    NormalFolder,
    /// `NID_TYPE_SEARCH_FOLDER`: Search Folder object (PC)
    SearchFolder,
    /// `NID_TYPE_NORMAL_MESSAGE`: Normal Message object (PC)
    NormalMessage,
    /// `NID_TYPE_ATTACHMENT`: Attachment object (PC)
    Attachment,
    /// `NID_TYPE_SEARCH_UPDATE_QUEUE`: Queue of changed objects for search Folder objects
    SearchUpdateQueue,
    /// `NID_TYPE_SEARCH_CRITERIA_OBJECT`: Defines the search criteria for a search Folder object
    SearchCriteria,
    /// `NID_TYPE_ASSOC_MESSAGE`: Folder associated information (FAI) Message object (PC)
    AssociatedMessage,
    /// `NID_TYPE_CONTENTS_TABLE_INDEX`: Internal, persisted view-related
    ContentsTableIndex,
    /// `NID_TYPE_RECEIVE_FOLDER_TABLE`: Receive Folder object (Inbox)
    ReceiveFolderTable,
    /// `NID_TYPE_OUTGOING_QUEUE_TABLE`: Outbound queue (Outbox)
    OutgoingQueueTable,
    /// `NID_TYPE_HIERARCHY_TABLE`: Hierarchy table (TC)
    HierarchyTable,
    /// `NID_TYPE_CONTENTS_TABLE`: Contents table (TC)
    ContentsTable,
    /// `NID_TYPE_ASSOC_CONTENTS_TABLE`: FAI contents table (TC)
    AssociatedContentsTable,
    /// `NID_TYPE_SEARCH_CONTENTS_TABLE`: Contents table (TC) of a search Folder object
    SearchContentsTable,
    /// `NID_TYPE_ATTACHMENT_TABLE`: Attachment table (TC)
    AttachmentTable,
    /// `NID_TYPE_RECIPIENT_TABLE`: Recipient table (TC)
    RecipientTable,
    /// `NID_TYPE_SEARCH_TABLE_INDEX`: Internal, persisted view-related
    SearchTableIndex,
    /// `NID_TYPE_LTP`: Lists, tables and properties
    ListsTablesProperties,
}

impl NodeIdType {
    /// The 5-bit code of each node type.
    pub open spec fn spec_code(self) -> u8 {
        match self {
            NodeIdType::HeapNode => 0x00,
            NodeIdType::Internal => 0x01,
            NodeIdType::NormalFolder => 0x02,
            NodeIdType::SearchFolder => 0x03,
            NodeIdType::NormalMessage => 0x04,
            NodeIdType::Attachment => 0x05,
            NodeIdType::SearchUpdateQueue => 0x06,
            NodeIdType::SearchCriteria => 0x07,
            NodeIdType::AssociatedMessage => 0x08,
            NodeIdType::ContentsTableIndex => 0x0A,
            NodeIdType::ReceiveFolderTable => 0x0B,
            NodeIdType::OutgoingQueueTable => 0x0C,
            NodeIdType::HierarchyTable => 0x0D,
            NodeIdType::ContentsTable => 0x0E,
            NodeIdType::AssociatedContentsTable => 0x0F,
            NodeIdType::SearchContentsTable => 0x10,
            NodeIdType::AttachmentTable => 0x11,
            NodeIdType::RecipientTable => 0x12,
            NodeIdType::SearchTableIndex => 0x13,
            NodeIdType::ListsTablesProperties => 0x1F,
        }
    }

    /// The node type whose code is `value`, if any.
    pub open spec fn spec_from_code(value: u8) -> Option<NodeIdType> {
        if value == 0x00 { Some(NodeIdType::HeapNode) }
        else if value == 0x01 { Some(NodeIdType::Internal) }
        else if value == 0x02 { Some(NodeIdType::NormalFolder) }
        else if value == 0x03 { Some(NodeIdType::SearchFolder) }
        else if value == 0x04 { Some(NodeIdType::NormalMessage) }
        else if value == 0x05 { Some(NodeIdType::Attachment) }
        else if value == 0x06 { Some(NodeIdType::SearchUpdateQueue) }
        else if value == 0x07 { Some(NodeIdType::SearchCriteria) }
        else if value == 0x08 { Some(NodeIdType::AssociatedMessage) }
        else if value == 0x0A { Some(NodeIdType::ContentsTableIndex) }
        else if value == 0x0B { Some(NodeIdType::ReceiveFolderTable) }
        else if value == 0x0C { Some(NodeIdType::OutgoingQueueTable) }
        else if value == 0x0D { Some(NodeIdType::HierarchyTable) }
        else if value == 0x0E { Some(NodeIdType::ContentsTable) }
        else if value == 0x0F { Some(NodeIdType::AssociatedContentsTable) }
        else if value == 0x10 { Some(NodeIdType::SearchContentsTable) }
        else if value == 0x11 { Some(NodeIdType::AttachmentTable) }
        else if value == 0x12 { Some(NodeIdType::RecipientTable) }
        else if value == 0x13 { Some(NodeIdType::SearchTableIndex) }
        else if value == 0x1F { Some(NodeIdType::ListsTablesProperties) }
        else { None }
    }

    /// The 5-bit code of this node type.
    pub fn code(self) -> (r: u8)
        ensures
            r == self.spec_code(),
    {
        match self {
            NodeIdType::HeapNode => 0x00,
            NodeIdType::Internal => 0x01,
            NodeIdType::NormalFolder => 0x02,
            NodeIdType::SearchFolder => 0x03,
            NodeIdType::NormalMessage => 0x04,
            NodeIdType::Attachment => 0x05,
            NodeIdType::SearchUpdateQueue => 0x06,
            NodeIdType::SearchCriteria => 0x07,
            NodeIdType::AssociatedMessage => 0x08,
            NodeIdType::ContentsTableIndex => 0x0A,
            NodeIdType::ReceiveFolderTable => 0x0B,
            NodeIdType::OutgoingQueueTable => 0x0C,
            NodeIdType::HierarchyTable => 0x0D,
            NodeIdType::ContentsTable => 0x0E,
            NodeIdType::AssociatedContentsTable => 0x0F,
            NodeIdType::SearchContentsTable => 0x10,
            NodeIdType::AttachmentTable => 0x11,
            NodeIdType::RecipientTable => 0x12,
            NodeIdType::SearchTableIndex => 0x13,
            NodeIdType::ListsTablesProperties => 0x1F,
        }
    }

    /// The node type with code `value`, or `InvalidNodeIdType(value)`.
    pub fn try_from_u8(value: u8) -> (r: Result<NodeIdType, NdbError>)
        ensures
            r == (match Self::spec_from_code(value) {
                Some(t) => Ok(t),
                None => Err(NdbError::InvalidNodeIdType(value)),
            }),
    {
        match value {
            0x00 => Ok(NodeIdType::HeapNode),
            0x01 => Ok(NodeIdType::Internal),
            0x02 => Ok(NodeIdType::NormalFolder),
            0x03 => Ok(NodeIdType::SearchFolder),
            0x04 => Ok(NodeIdType::NormalMessage),
            0x05 => Ok(NodeIdType::Attachment),
            0x06 => Ok(NodeIdType::SearchUpdateQueue),
            0x07 => Ok(NodeIdType::SearchCriteria),
            0x08 => Ok(NodeIdType::AssociatedMessage),
            0x0A => Ok(NodeIdType::ContentsTableIndex),
            0x0B => Ok(NodeIdType::ReceiveFolderTable),
            0x0C => Ok(NodeIdType::OutgoingQueueTable),
            0x0D => Ok(NodeIdType::HierarchyTable),
            0x0E => Ok(NodeIdType::ContentsTable),
            0x0F => Ok(NodeIdType::AssociatedContentsTable),
            0x10 => Ok(NodeIdType::SearchContentsTable),
            0x11 => Ok(NodeIdType::AttachmentTable),
            0x12 => Ok(NodeIdType::RecipientTable),
            0x13 => Ok(NodeIdType::SearchTableIndex),
            0x1F => Ok(NodeIdType::ListsTablesProperties),
            _ => Err(NdbError::InvalidNodeIdType(value)),
        }
    }
}

/// Every node type has a 5-bit code, and the code converts back to the same type.
pub proof fn lemma_node_id_type_code_roundtrip(t: NodeIdType)
    ensures
        t.spec_code() < 32,
        NodeIdType::spec_from_code(t.spec_code()) == Some(t),
{
}

/// The largest `nidIndex`: the index occupies the 27 bits above the type.
pub const MAX_NODE_INDEX: u32 = 0x07FF_FFFF;

/// NID (Node ID):
/// a 5-bit `nidType` below a 27-bit `nidIndex`.
#[derive(Debug, Clone, Copy, PartialEq, Eq, Structural)]
pub struct NodeId(u32);

impl View for NodeId {
    type V = u32;

    closed spec fn view(&self) -> u32 {
        self.0
    }
}

/// The `nidIndex` field of a raw node id.
pub open spec fn nid_index(v: u32) -> u32 {
    v >> 5
}

/// The `nidType` field of a raw node id.
pub open spec fn nid_type_code(v: u32) -> u8 {
    (v & 0x1F) as u8
}

proof fn lemma_nid_pack(index: u32, code: u8)
    requires
        index <= MAX_NODE_INDEX,
        code < 32,
    ensures
        (index << 5) | (code as u32) == index * 32 + code,
        ((index << 5) | (code as u32)) >> 5 == index,
        (((index << 5) | (code as u32)) & 0x1F) as u8 == code,
{
    assert(index <= 0x07FF_FFFF && code < 32 ==> {
        &&& (index << 5) | (code as u32) == index * 32 + code
        &&& ((index << 5) | (code as u32)) >> 5 == index
        &&& (((index << 5) | (code as u32)) & 0x1F) as u8 == code
    }) by (bit_vector);
}

impl NodeId {
    /// Builds the node id of type `id_type` and index `index`; the index must fit in 27 bits.
    pub fn new(id_type: NodeIdType, index: u32) -> (r: Result<NodeId, NdbError>)
        ensures
            r is Ok <==> index <= MAX_NODE_INDEX,
            r matches Ok(n) ==> n@ == index * 32 + id_type.spec_code(),
            r matches Ok(n) ==> nid_index(n@) == index && nid_type_code(n@) == id_type.spec_code(),
            r is Err ==> r == Err::<NodeId, NdbError>(NdbError::InvalidNodeIndex(index)),
    {
        let code = id_type.code();
        if code >= 32 {
            return Err(NdbError::InvalidNodeIdType(code));
        }
        if index > MAX_NODE_INDEX {
            return Err(NdbError::InvalidNodeIndex(index));
        }
        proof {
            lemma_nid_pack(index, code);
        }
        Ok(NodeId((index << 5) | (code as u32)))
    }

    /// The node id with raw value `value`.
    pub fn from_u32(value: u32) -> (r: NodeId)
        ensures
            r@ == value,
    {
        NodeId(value)
    }

    /// The raw value of the node id.
    pub fn value(&self) -> (r: u32)
        ensures
            r == self@,
    {
        self.0
    }

    /// The `nidType` of the node id, if it is a known type.
    pub fn id_type(&self) -> (r: Result<NodeIdType, NdbError>)
        ensures
            r == (match NodeIdType::spec_from_code(nid_type_code(self@)) {
                Some(t) => Ok(t),
                None => Err(NdbError::InvalidNodeIdType(nid_type_code(self@))),
            }),
    {
        NodeIdType::try_from_u8((self.0 & 0x1F) as u8)
    }

    /// The `nidIndex` of the node id.
    pub fn index(&self) -> (r: u32)
        ensures
            r == nid_index(self@),
    {
        self.0 >> 5
    }

    /// Reads a node id from the first four bytes of `b`, low byte first.
    pub fn read(b: &[u8]) -> (r: Result<NodeId, NdbError>)
        ensures
            b@.len() < 4 ==> r == Err::<NodeId, NdbError>(NdbError::UnexpectedEndOfData),
            b@.len() >= 4 ==> (r matches Ok(n) && n@ == u32_at(b@, 0)),
    {
        if b.len() < 4 {
            return Err(NdbError::UnexpectedEndOfData);
        }
        Ok(NodeId(read_u32_at(b, 0)))
    }

    /// Appends the four little-endian bytes of the node id.
    pub fn write(&self, out: &mut Vec<u8>)
        ensures
            final(out)@ == old(out)@ + le32(self@),
    {
        push_u32(out, self.0);
    }
}

/// A node id built from a type and an index gives both back.
pub proof fn lemma_node_id_fields(id_type: NodeIdType, index: u32)
    requires
        index <= MAX_NODE_INDEX,
    ensures
        nid_index((index * 32 + id_type.spec_code()) as u32) == index,
        NodeIdType::spec_from_code(nid_type_code((index * 32 + id_type.spec_code()) as u32))
            == Some(id_type),
{
    lemma_nid_pack(index, id_type.spec_code());
}

/// Reading the bytes that `write` produced gives the same node id.
pub proof fn lemma_node_id_roundtrip(n: NodeId)
    ensures
        u32_at(le32(n@), 0) == n@,
{
    lemma_le_roundtrip();
    assert(le32(n@).subrange(0, 4) =~= le32(n@));
}

} // verus!
