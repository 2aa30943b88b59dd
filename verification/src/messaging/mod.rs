//! Messaging Layer

pub mod search;
pub mod objects;
pub mod properties;

use vstd::prelude::*;
use crate::ltp::LtpError;
use crate::ltp::prop_type::PropertyType;
use crate::ndb::NdbError;
use crate::ndb::node_id::{NodeId, NodeIdType};

verus! {

/// Errors found while reading messaging objects.
#[derive(Debug, Clone, Copy, PartialEq, Eq, Structural)]
pub enum MessagingError {
    NodeDatabaseError(NdbError),
    ListsTablesPropertiesError(LtpError),
    FailedToLockFile,
    InvalidEntryIdFlags(u32),
    StoreRecordKeyNotFound,
    InvalidStoreRecordKey(PropertyType),
    InvalidStoreRecordKeySize(usize),
    StoreDisplayNameNotFound,
    InvalidStoreDisplayName(PropertyType),
    StoreIpmSubTreeEntryIdNotFound,
    InvalidStoreIpmSubTreeEntryId(PropertyType),
    StoreIpmWastebasketEntryIdNotFound,
    InvalidStoreIpmWastebasketEntryId(PropertyType),
    StoreFinderEntryIdNotFound,
    InvalidStoreFinderEntryId(PropertyType),
    EntryIdWrongStore,
    FolderDisplayNameNotFound,
    InvalidFolderDisplayName(PropertyType),
    FolderContentCountNotFound,
    InvalidFolderContentCount(PropertyType),
    FolderUnreadCountNotFound,
    InvalidFolderUnreadCount(PropertyType),
    FolderHasSubfoldersNotFound,
    InvalidFolderHasSubfolders(PropertyType),
    InvalidFolderEntryIdType(NodeIdType),
    MessageClassNotFound,
    InvalidMessageClass(PropertyType),
    MessageFlagsNotFound,
    InvalidMessageFlags(PropertyType),
    MessageSizeNotFound,
    InvalidMessageSize(PropertyType),
    MessageStatusNotFound,
    InvalidMessageStatus(PropertyType),
    MessageCreationTimeNotFound,
    InvalidMessageCreationTime(PropertyType),
    MessageLastModificationTimeNotFound,
    InvalidMessageLastModificationTime(PropertyType),
    MessageSearchKeyNotFound,
    InvalidMessageSearchKey(PropertyType),
    InvalidMessageEntryIdType(NodeIdType),
    MessageSubNodeTreeNotFound,
    MessageRecipientTableNotFound,
    MultipleMessageRecipientTables,
    MultipleMessageAttachmentTables,
    InvalidMessageObjectData(PropertyType),
    AttachmentSizeNotFound,
    InvalidAttachmentSize(PropertyType),
    AttachmentMethodNotFound,
    InvalidAttachmentMethod(PropertyType),
    UnknownAttachmentMethod(i32),
    AttachmentRenderingPositionNotFound,
    InvalidAttachmentRenderingPosition(PropertyType),
    InvalidAttachmentNodeIdType(NodeIdType),
    AttachmentSubNodeNotFound(NodeId),
    AttachmentMessageObjectDataNotFound,
    InvalidSearchUpdateType(u16),
    InvalidSearchUpdateQueueOffset(u32),
    InvalidSearchUpdateQueueSize(usize),
    /// The data ended before a structure was complete.
    UnexpectedEndOfData,
}

} // verus!
