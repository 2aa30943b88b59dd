//! Search:
//! search update records and the search update queue.

use vstd::prelude::*;
use crate::codec::{le16, le32, lemma_le_roundtrip, push_u16, push_u32, push_zeros, read_u16_at, read_u32_at, u16_at, u32_at, view_result, zeros};
use crate::ndb::node_id::NodeId;
use super::MessagingError;

verus! {

/// `wFlags` of a search update.
#[derive(Debug, Clone, Copy, PartialEq, Eq, Structural)]
pub enum SearchUpdateFlags {
    /// No flag is set.
    NoFlag,
    /// `SUDF_PRIORITY_LOW`: Change search Folder object priority to foreground.
    PriorityLow,
    /// `SUDF_PRIORITY_HIGH`: Change search Folder object priority to background.
    PriorityHigh,
    /// `SUDF_SEARCH_RESTART`: Request full rebuild of search Folder object contents.
    SearchRestart,
    /// `SUDF_NAME_CHANGED`: Display Name of Folder object changed.
    NameChanged,
    /// `SUDF_MOVE_OUT_TO_IN`: Move from non-SDO domain to SDO domain.
    MoveOutToIn,
    /// `SUDF_MOVE_IN_TO_IN`: Move from SDO domain to SDO domain.
    MoveInToIn,
    /// `SUDF_MOVE_IN_TO_OUT`: Move from SDO domain to non-SDO domain.
    MoveInToOut,
    /// `SUDF_MOVE_OUT_TO_OUT`: Move between non-SDO domains.
    MoveOutToOut,
    /// `SUDF_SPAM_CHECK_SERVER`: Make sure spam Message object deleted on server.
    SpamCheckServer,
    /// `SUDF_SET_DEL_NAME`: Delegate Root Name of Folder object changed.
    SetDelegateRootName,
    /// `SUDF_SRCH_DONE`: Search is finished for associated object.
    SearchDone,
    /// `SUDF_DOMAIN_CHECKED`: Object is validated against the SDO.
    DomainChecked,
}

impl SearchUpdateFlags {
    /// The bit of each flag.
    pub open spec fn spec_code(self) -> u16 {
        match self {
            SearchUpdateFlags::NoFlag => 0x0000,
            SearchUpdateFlags::PriorityLow => 0x0001,
            SearchUpdateFlags::PriorityHigh => 0x0002,
            SearchUpdateFlags::SearchRestart => 0x0004,
            SearchUpdateFlags::NameChanged => 0x0008,
            SearchUpdateFlags::MoveOutToIn => 0x0010,
            SearchUpdateFlags::MoveInToIn => 0x0020,
            SearchUpdateFlags::MoveInToOut => 0x0040,
            SearchUpdateFlags::MoveOutToOut => 0x0080,
            SearchUpdateFlags::SpamCheckServer => 0x0100,
            SearchUpdateFlags::SetDelegateRootName => 0x0200,
            SearchUpdateFlags::SearchDone => 0x0400,
            SearchUpdateFlags::DomainChecked => 0x8000,
        }
    }

    /// The bit of this flag.
    pub fn code(self) -> (r: u16)
        ensures
            r == self.spec_code(),
    {
        match self {
            SearchUpdateFlags::NoFlag => 0x0000,
            SearchUpdateFlags::PriorityLow => 0x0001,
            SearchUpdateFlags::PriorityHigh => 0x0002,
            SearchUpdateFlags::SearchRestart => 0x0004,
            SearchUpdateFlags::NameChanged => 0x0008,
            SearchUpdateFlags::MoveOutToIn => 0x0010,
            SearchUpdateFlags::MoveInToIn => 0x0020,
            SearchUpdateFlags::MoveInToOut => 0x0040,
            SearchUpdateFlags::MoveOutToOut => 0x0080,
            SearchUpdateFlags::SpamCheckServer => 0x0100,
            SearchUpdateFlags::SetDelegateRootName => 0x0200,
            SearchUpdateFlags::SearchDone => 0x0400,
            SearchUpdateFlags::DomainChecked => 0x8000,
        }
    }
}

/// `wSUDType`: the kind of a search update.
#[derive(Debug, Clone, Copy, PartialEq, Eq, Structural)]
pub enum SearchUpdateType {
    /// `SUDT_NULL`: Invalid SUD Type.
    Null,
    /// `SUDT_MSG_ADD`: Message added.
    MessageAdded,
    /// `SUDT_MSG_MOD`: Message modified.
    MessageModified,
    /// `SUDT_MSG_DEL`: Message deleted.
    MessageDeleted,
    /// `SUDT_MSG_MOV`: Message moved.
    MessageMoved,
    /// `SUDT_FLD_ADD`: Folder object added.
    FolderAdded,
    /// `SUDT_FLD_MOD`: Folder object modified.
    FolderModified,
    /// `SUDT_FLD_DEL`: Folder object deleted.
    FolderDeleted,
    /// `SUDT_FLD_MOV`: Folder object moved.
    FolderMoved,
    /// `SUDT_SRCH_ADD`: Search Folder object added.
    SearchFolderAdded,
    /// `SUDT_SRCH_MOD`: Search Folder object modified.
    SearchFolderModified,
    /// `SUDT_SRCH_DEL`: Search Folder object deleted.
    SearchFolderDeleted,
    /// `SUDT_MSG_ROW_MOD`: Message modified, contents table affected.
    MessageRowModified,
    /// `SUDT_MSG_SPAM`: Message identified as spam.
    MessageSpam,
    /// `SUDT_IDX_MSG_DEL`: Content-indexed Message object deleted.
    IndexedMessageDeleted,
    /// `SUDT_MSG_IDX`: Message has been indexed.
    MessageIndexed,
}

impl SearchUpdateType {
    /// The code of each kind.
    pub open spec fn spec_code(self) -> u16 {
        match self {
            SearchUpdateType::Null => 0x0000,
            SearchUpdateType::MessageAdded => 0x0001,
            SearchUpdateType::MessageModified => 0x0002,
            SearchUpdateType::MessageDeleted => 0x0003,
            SearchUpdateType::MessageMoved => 0x0004,
            SearchUpdateType::FolderAdded => 0x0005,
            SearchUpdateType::FolderModified => 0x0006,
            SearchUpdateType::FolderDeleted => 0x0007,
            SearchUpdateType::FolderMoved => 0x0008,
            SearchUpdateType::SearchFolderAdded => 0x0009,
            SearchUpdateType::SearchFolderModified => 0x000A,
            SearchUpdateType::SearchFolderDeleted => 0x000B,
            SearchUpdateType::MessageRowModified => 0x000C,
            SearchUpdateType::MessageSpam => 0x000D,
            SearchUpdateType::IndexedMessageDeleted => 0x000E,
            SearchUpdateType::MessageIndexed => 0x000F,
        }
    }

    /// The kind whose code is `value`, if any.
    pub open spec fn spec_from_code(value: u16) -> Option<SearchUpdateType> {
        if value == 0x0000 { Some(SearchUpdateType::Null) }
        else if value == 0x0001 { Some(SearchUpdateType::MessageAdded) }
        else if value == 0x0002 { Some(SearchUpdateType::MessageModified) }
        else if value == 0x0003 { Some(SearchUpdateType::MessageDeleted) }
        else if value == 0x0004 { Some(SearchUpdateType::MessageMoved) }
        else if value == 0x0005 { Some(SearchUpdateType::FolderAdded) }
        else if value == 0x0006 { Some(SearchUpdateType::FolderModified) }
        else if value == 0x0007 { Some(SearchUpdateType::FolderDeleted) }
        else if value == 0x0008 { Some(SearchUpdateType::FolderMoved) }
        else if value == 0x0009 { Some(SearchUpdateType::SearchFolderAdded) }
        else if value == 0x000A { Some(SearchUpdateType::SearchFolderModified) }
        else if value == 0x000B { Some(SearchUpdateType::SearchFolderDeleted) }
        else if value == 0x000C { Some(SearchUpdateType::MessageRowModified) }
        else if value == 0x000D { Some(SearchUpdateType::MessageSpam) }
        else if value == 0x000E { Some(SearchUpdateType::IndexedMessageDeleted) }
        else if value == 0x000F { Some(SearchUpdateType::MessageIndexed) }
        else { None }
    }

    /// The code of this kind.
    pub fn code(self) -> (r: u16)
        ensures
            r == self.spec_code(),
    {
        match self {
            SearchUpdateType::Null => 0x0000,
            SearchUpdateType::MessageAdded => 0x0001,
            SearchUpdateType::MessageModified => 0x0002,
            SearchUpdateType::MessageDeleted => 0x0003,
            SearchUpdateType::MessageMoved => 0x0004,
            SearchUpdateType::FolderAdded => 0x0005,
            SearchUpdateType::FolderModified => 0x0006,
            SearchUpdateType::FolderDeleted => 0x0007,
            SearchUpdateType::FolderMoved => 0x0008,
            SearchUpdateType::SearchFolderAdded => 0x0009,
            SearchUpdateType::SearchFolderModified => 0x000A,
            SearchUpdateType::SearchFolderDeleted => 0x000B,
            SearchUpdateType::MessageRowModified => 0x000C,
            SearchUpdateType::MessageSpam => 0x000D,
            SearchUpdateType::IndexedMessageDeleted => 0x000E,
            SearchUpdateType::MessageIndexed => 0x000F,
        }
    }

    /// The kind whose code is `value`.
    pub fn try_from_u16(value: u16) -> (r: Result<SearchUpdateType, MessagingError>)
        ensures
            r == (match Self::spec_from_code(value) {
                Some(t) => Ok(t),
                None => Err(MessagingError::InvalidSearchUpdateType(value)),
            }),
    {
        match value {
            0x0000 => Ok(SearchUpdateType::Null),
            0x0001 => Ok(SearchUpdateType::MessageAdded),
            0x0002 => Ok(SearchUpdateType::MessageModified),
            0x0003 => Ok(SearchUpdateType::MessageDeleted),
            0x0004 => Ok(SearchUpdateType::MessageMoved),
            0x0005 => Ok(SearchUpdateType::FolderAdded),
            0x0006 => Ok(SearchUpdateType::FolderModified),
            0x0007 => Ok(SearchUpdateType::FolderDeleted),
            0x0008 => Ok(SearchUpdateType::FolderMoved),
            0x0009 => Ok(SearchUpdateType::SearchFolderAdded),
            0x000A => Ok(SearchUpdateType::SearchFolderModified),
            0x000B => Ok(SearchUpdateType::SearchFolderDeleted),
            0x000C => Ok(SearchUpdateType::MessageRowModified),
            0x000D => Ok(SearchUpdateType::MessageSpam),
            0x000E => Ok(SearchUpdateType::IndexedMessageDeleted),
            0x000F => Ok(SearchUpdateType::MessageIndexed),
            _ => Err(MessagingError::InvalidSearchUpdateType(value)),
        }
    }
}

/// Every `SearchUpdateType` has a code, and the code converts back to the same value.
pub proof fn lemma_search_update_type_code_roundtrip(t: SearchUpdateType)
    ensures
        SearchUpdateType::spec_from_code(t.spec_code()) == Some(t),
{
}

/// The view of the data of a search update: node ids and reserved values as raw 32-bit values.
pub enum SearchUpdateDataModel {
    MessageAdded { parent: u32, message: u32 },
    MessageModified { parent: u32, message: u32 },
    MessageDeleted { parent: u32, message: u32 },
    MessageMoved { new_parent: u32, message: u32, old_parent: u32 },
    FolderAdded { parent: u32, folder: u32, reserved1: u32, reserved2: u32 },
    FolderModified { folder: u32, reserved: u32 },
    FolderDeleted { folder: u32, reserved: u32 },
    FolderMoved { parent: u32, folder: u32, reserved1: u32, reserved2: u32 },
    SearchFolderAdded { search_folder: u32 },
    SearchFolderModified { search_folder: u32, reserved: u32 },
    SearchFolderDeleted { search_folder: u32 },
    MessageRowModified { parent: u32, message: u32 },
    MessageSpam { parent: u32, message: u32 },
    IndexedMessageDeleted { parent: u32, message: u32 },
    MessageIndexed { message: u32 },
}

/// SUDData Structures:
/// the data of a search update.
#[derive(Debug, Clone, Copy, PartialEq, Eq, Structural)]
pub enum SearchUpdateData {
    /// `SUDT_MSG_ADD`: Message added.
    MessageAdded { parent: NodeId, message: NodeId },
    /// `SUDT_MSG_MOD`: Message modified.
    MessageModified { parent: NodeId, message: NodeId },
    /// `SUDT_MSG_DEL`: Message deleted.
    MessageDeleted { parent: NodeId, message: NodeId },
    /// `SUDT_MSG_MOV`: Message moved.
    MessageMoved { new_parent: NodeId, message: NodeId, old_parent: NodeId },
    /// `SUDT_FLD_ADD`: Folder object added.
    FolderAdded { parent: NodeId, folder: NodeId, reserved1: u32, reserved2: u32 },
    /// `SUDT_FLD_MOD`: Folder object modified.
    FolderModified { folder: NodeId, reserved: u32 },
    /// `SUDT_FLD_DEL`: Folder object deleted.
    FolderDeleted { folder: NodeId, reserved: u32 },
    /// `SUDT_FLD_MOV`: Folder object moved.
    FolderMoved { parent: NodeId, folder: NodeId, reserved1: u32, reserved2: u32 },
    /// `SUDT_SRCH_ADD`: Search Folder object added.
    SearchFolderAdded { search_folder: NodeId },
    /// `SUDT_SRCH_MOD`: Search Folder object modified.
    SearchFolderModified { search_folder: NodeId, reserved: u32 },
    /// `SUDT_SRCH_DEL`: Search Folder object deleted.
    SearchFolderDeleted { search_folder: NodeId },
    /// `SUDT_MSG_ROW_MOD`: Message modified, contents table affected.
    MessageRowModified { parent: NodeId, message: NodeId },
    /// `SUDT_MSG_SPAM`: Message identified as spam.
    MessageSpam { parent: NodeId, message: NodeId },
    /// `SUDT_IDX_MSG_DEL`: Content-indexed Message object deleted.
    IndexedMessageDeleted { parent: NodeId, message: NodeId },
    /// `SUDT_MSG_IDX`: Message has been indexed.
    MessageIndexed { message: NodeId },
}

impl View for SearchUpdateData {
    type V = SearchUpdateDataModel;

    open spec fn view(&self) -> SearchUpdateDataModel {
        match *self {
            SearchUpdateData::MessageAdded { parent, message } => SearchUpdateDataModel::MessageAdded { parent: parent@, message: message@ },
            SearchUpdateData::MessageModified { parent, message } => SearchUpdateDataModel::MessageModified { parent: parent@, message: message@ },
            SearchUpdateData::MessageDeleted { parent, message } => SearchUpdateDataModel::MessageDeleted { parent: parent@, message: message@ },
            SearchUpdateData::MessageMoved { new_parent, message, old_parent } => SearchUpdateDataModel::MessageMoved { new_parent: new_parent@, message: message@, old_parent: old_parent@ },
            SearchUpdateData::FolderAdded { parent, folder, reserved1, reserved2 } => SearchUpdateDataModel::FolderAdded { parent: parent@, folder: folder@, reserved1: reserved1, reserved2: reserved2 },
            SearchUpdateData::FolderModified { folder, reserved } => SearchUpdateDataModel::FolderModified { folder: folder@, reserved: reserved },
            SearchUpdateData::FolderDeleted { folder, reserved } => SearchUpdateDataModel::FolderDeleted { folder: folder@, reserved: reserved },
            SearchUpdateData::FolderMoved { parent, folder, reserved1, reserved2 } => SearchUpdateDataModel::FolderMoved { parent: parent@, folder: folder@, reserved1: reserved1, reserved2: reserved2 },
            SearchUpdateData::SearchFolderAdded { search_folder } => SearchUpdateDataModel::SearchFolderAdded { search_folder: search_folder@ },
            SearchUpdateData::SearchFolderModified { search_folder, reserved } => SearchUpdateDataModel::SearchFolderModified { search_folder: search_folder@, reserved: reserved },
            SearchUpdateData::SearchFolderDeleted { search_folder } => SearchUpdateDataModel::SearchFolderDeleted { search_folder: search_folder@ },
            SearchUpdateData::MessageRowModified { parent, message } => SearchUpdateDataModel::MessageRowModified { parent: parent@, message: message@ },
            SearchUpdateData::MessageSpam { parent, message } => SearchUpdateDataModel::MessageSpam { parent: parent@, message: message@ },
            SearchUpdateData::IndexedMessageDeleted { parent, message } => SearchUpdateDataModel::IndexedMessageDeleted { parent: parent@, message: message@ },
            SearchUpdateData::MessageIndexed { message } => SearchUpdateDataModel::MessageIndexed { message: message@ },
        }
    }
}

/// The kind of the data of a search update.
pub open spec fn data_type(d: SearchUpdateDataModel) -> SearchUpdateType {
    match d {
        SearchUpdateDataModel::MessageAdded { .. } => SearchUpdateType::MessageAdded,
        SearchUpdateDataModel::MessageModified { .. } => SearchUpdateType::MessageModified,
        SearchUpdateDataModel::MessageDeleted { .. } => SearchUpdateType::MessageDeleted,
        SearchUpdateDataModel::MessageMoved { .. } => SearchUpdateType::MessageMoved,
        SearchUpdateDataModel::FolderAdded { .. } => SearchUpdateType::FolderAdded,
        SearchUpdateDataModel::FolderModified { .. } => SearchUpdateType::FolderModified,
        SearchUpdateDataModel::FolderDeleted { .. } => SearchUpdateType::FolderDeleted,
        SearchUpdateDataModel::FolderMoved { .. } => SearchUpdateType::FolderMoved,
        SearchUpdateDataModel::SearchFolderAdded { .. } => SearchUpdateType::SearchFolderAdded,
        SearchUpdateDataModel::SearchFolderModified { .. } => SearchUpdateType::SearchFolderModified,
        SearchUpdateDataModel::SearchFolderDeleted { .. } => SearchUpdateType::SearchFolderDeleted,
        SearchUpdateDataModel::MessageRowModified { .. } => SearchUpdateType::MessageRowModified,
        SearchUpdateDataModel::MessageSpam { .. } => SearchUpdateType::MessageSpam,
        SearchUpdateDataModel::IndexedMessageDeleted { .. } => SearchUpdateType::IndexedMessageDeleted,
        SearchUpdateDataModel::MessageIndexed { .. } => SearchUpdateType::MessageIndexed,
    }
}

/// The data of kind `t` stored in the 16 bytes from offset 4 of `s`.
pub open spec fn search_data_at(t: SearchUpdateType, s: Seq<u8>) -> Option<SearchUpdateDataModel> {
    match t {
        SearchUpdateType::Null => None,
        SearchUpdateType::MessageAdded => Some(SearchUpdateDataModel::MessageAdded { parent: u32_at(s, 4), message: u32_at(s, 8) }),
        SearchUpdateType::MessageModified => Some(SearchUpdateDataModel::MessageModified { parent: u32_at(s, 4), message: u32_at(s, 8) }),
        SearchUpdateType::MessageDeleted => Some(SearchUpdateDataModel::MessageDeleted { parent: u32_at(s, 4), message: u32_at(s, 8) }),
        SearchUpdateType::MessageMoved => Some(SearchUpdateDataModel::MessageMoved { new_parent: u32_at(s, 4), message: u32_at(s, 8), old_parent: u32_at(s, 12) }),
        SearchUpdateType::FolderAdded => Some(SearchUpdateDataModel::FolderAdded { parent: u32_at(s, 4), folder: u32_at(s, 8), reserved1: u32_at(s, 12), reserved2: u32_at(s, 16) }),
        SearchUpdateType::FolderModified => Some(SearchUpdateDataModel::FolderModified { folder: u32_at(s, 4), reserved: u32_at(s, 8) }),
        SearchUpdateType::FolderDeleted => Some(SearchUpdateDataModel::FolderDeleted { folder: u32_at(s, 4), reserved: u32_at(s, 8) }),
        SearchUpdateType::FolderMoved => Some(SearchUpdateDataModel::FolderMoved { parent: u32_at(s, 4), folder: u32_at(s, 8), reserved1: u32_at(s, 12), reserved2: u32_at(s, 16) }),
        SearchUpdateType::SearchFolderAdded => Some(SearchUpdateDataModel::SearchFolderAdded { search_folder: u32_at(s, 4) }),
        SearchUpdateType::SearchFolderModified => Some(SearchUpdateDataModel::SearchFolderModified { search_folder: u32_at(s, 4), reserved: u32_at(s, 8) }),
        SearchUpdateType::SearchFolderDeleted => Some(SearchUpdateDataModel::SearchFolderDeleted { search_folder: u32_at(s, 4) }),
        SearchUpdateType::MessageRowModified => Some(SearchUpdateDataModel::MessageRowModified { parent: u32_at(s, 4), message: u32_at(s, 8) }),
        SearchUpdateType::MessageSpam => Some(SearchUpdateDataModel::MessageSpam { parent: u32_at(s, 4), message: u32_at(s, 8) }),
        SearchUpdateType::IndexedMessageDeleted => Some(SearchUpdateDataModel::IndexedMessageDeleted { parent: u32_at(s, 4), message: u32_at(s, 8) }),
        SearchUpdateType::MessageIndexed => Some(SearchUpdateDataModel::MessageIndexed { message: u32_at(s, 4) }),
    }
}

/// The 16 bytes of the data of a search update: its fields, then zeros.
pub open spec fn search_data_bytes(d: Option<SearchUpdateDataModel>) -> Seq<u8> {
    match d {
        None => zeros(16),
        Some(SearchUpdateDataModel::MessageAdded { parent, message }) => le32(parent) + le32(message) + zeros(8),
        Some(SearchUpdateDataModel::MessageModified { parent, message }) => le32(parent) + le32(message) + zeros(8),
        Some(SearchUpdateDataModel::MessageDeleted { parent, message }) => le32(parent) + le32(message) + zeros(8),
        Some(SearchUpdateDataModel::MessageMoved { new_parent, message, old_parent }) => le32(new_parent) + le32(message) + le32(old_parent) + zeros(4),
        Some(SearchUpdateDataModel::FolderAdded { parent, folder, reserved1, reserved2 }) => le32(parent) + le32(folder) + le32(reserved1) + le32(reserved2) + zeros(0),
        Some(SearchUpdateDataModel::FolderModified { folder, reserved }) => le32(folder) + le32(reserved) + zeros(8),
        Some(SearchUpdateDataModel::FolderDeleted { folder, reserved }) => le32(folder) + le32(reserved) + zeros(8),
        Some(SearchUpdateDataModel::FolderMoved { parent, folder, reserved1, reserved2 }) => le32(parent) + le32(folder) + le32(reserved1) + le32(reserved2) + zeros(0),
        Some(SearchUpdateDataModel::SearchFolderAdded { search_folder }) => le32(search_folder) + zeros(12),
        Some(SearchUpdateDataModel::SearchFolderModified { search_folder, reserved }) => le32(search_folder) + le32(reserved) + zeros(8),
        Some(SearchUpdateDataModel::SearchFolderDeleted { search_folder }) => le32(search_folder) + zeros(12),
        Some(SearchUpdateDataModel::MessageRowModified { parent, message }) => le32(parent) + le32(message) + zeros(8),
        Some(SearchUpdateDataModel::MessageSpam { parent, message }) => le32(parent) + le32(message) + zeros(8),
        Some(SearchUpdateDataModel::IndexedMessageDeleted { parent, message }) => le32(parent) + le32(message) + zeros(8),
        Some(SearchUpdateDataModel::MessageIndexed { message }) => le32(message) + zeros(12),
    }
}

/// The fields of a search update.
pub struct SearchUpdateModel {
    pub flags: u16,
    pub data: Option<SearchUpdateDataModel>,
}

/// SUD Structure:
/// the flags of a search update and its data.
#[derive(Debug, Clone, Copy, PartialEq, Eq, Structural)]
pub struct SearchUpdate {
    flags: u16,
    data: Option<SearchUpdateData>,
}

/// The view of optional search update data.
pub open spec fn data_view(d: Option<SearchUpdateData>) -> Option<SearchUpdateDataModel> {
    match d {
        Some(x) => Some(x@),
        None => None,
    }
}

impl View for SearchUpdate {
    type V = SearchUpdateModel;

    closed spec fn view(&self) -> SearchUpdateModel {
        SearchUpdateModel { flags: self.flags, data: data_view(self.data) }
    }
}

/// The search update held in the 20 bytes of `s`: its flags, its kind and 16 bytes of data.
pub open spec fn parse_search_update(s: Seq<u8>) -> Result<SearchUpdateModel, MessagingError> {
    match SearchUpdateType::spec_from_code(u16_at(s, 2)) {
        None => Err(MessagingError::InvalidSearchUpdateType(u16_at(s, 2))),
        Some(t) => Ok(SearchUpdateModel { flags: u16_at(s, 0), data: search_data_at(t, s) }),
    }
}

/// The kind of optional search update data; none is `Null`.
pub open spec fn opt_data_type(d: Option<SearchUpdateDataModel>) -> SearchUpdateType {
    match d {
        Some(x) => data_type(x),
        None => SearchUpdateType::Null,
    }
}

/// The 20 bytes of a search update.
pub open spec fn search_update_bytes(m: SearchUpdateModel) -> Seq<u8> {
    le16(m.flags) + le16(opt_data_type(m.data).spec_code()) + search_data_bytes(m.data)
}

/// Reading the 20 bytes of a search update gives it back.
pub proof fn lemma_search_update_roundtrip(m: SearchUpdateModel)
    ensures
        search_update_bytes(m).len() == 20,
        parse_search_update(search_update_bytes(m)) == Ok::<SearchUpdateModel, MessagingError>(m),
{
    lemma_le_roundtrip();
    let s = search_update_bytes(m);
    assert(s.subrange(0, 2) =~= le16(m.flags));
    assert(s.subrange(2, 4) =~= le16(opt_data_type(m.data).spec_code()));
    match m.data {
        None => {},
        Some(SearchUpdateDataModel::MessageAdded { parent, message }) => {
            assert(s.subrange(4, 8) =~= le32(parent));
            assert(s.subrange(8, 12) =~= le32(message));
        },
        Some(SearchUpdateDataModel::MessageModified { parent, message }) => {
            assert(s.subrange(4, 8) =~= le32(parent));
            assert(s.subrange(8, 12) =~= le32(message));
        },
        Some(SearchUpdateDataModel::MessageDeleted { parent, message }) => {
            assert(s.subrange(4, 8) =~= le32(parent));
            assert(s.subrange(8, 12) =~= le32(message));
        },
        Some(SearchUpdateDataModel::MessageMoved { new_parent, message, old_parent }) => {
            assert(s.subrange(4, 8) =~= le32(new_parent));
            assert(s.subrange(8, 12) =~= le32(message));
            assert(s.subrange(12, 16) =~= le32(old_parent));
        },
        Some(SearchUpdateDataModel::FolderAdded { parent, folder, reserved1, reserved2 }) => {
            assert(s.subrange(4, 8) =~= le32(parent));
            assert(s.subrange(8, 12) =~= le32(folder));
            assert(s.subrange(12, 16) =~= le32(reserved1));
            assert(s.subrange(16, 20) =~= le32(reserved2));
        },
        Some(SearchUpdateDataModel::FolderModified { folder, reserved }) => {
            assert(s.subrange(4, 8) =~= le32(folder));
            assert(s.subrange(8, 12) =~= le32(reserved));
        },
        Some(SearchUpdateDataModel::FolderDeleted { folder, reserved }) => {
            assert(s.subrange(4, 8) =~= le32(folder));
            assert(s.subrange(8, 12) =~= le32(reserved));
        },
        Some(SearchUpdateDataModel::FolderMoved { parent, folder, reserved1, reserved2 }) => {
            assert(s.subrange(4, 8) =~= le32(parent));
            assert(s.subrange(8, 12) =~= le32(folder));
            assert(s.subrange(12, 16) =~= le32(reserved1));
            assert(s.subrange(16, 20) =~= le32(reserved2));
        },
        Some(SearchUpdateDataModel::SearchFolderAdded { search_folder }) => {
            assert(s.subrange(4, 8) =~= le32(search_folder));
        },
        Some(SearchUpdateDataModel::SearchFolderModified { search_folder, reserved }) => {
            assert(s.subrange(4, 8) =~= le32(search_folder));
            assert(s.subrange(8, 12) =~= le32(reserved));
        },
        Some(SearchUpdateDataModel::SearchFolderDeleted { search_folder }) => {
            assert(s.subrange(4, 8) =~= le32(search_folder));
        },
        Some(SearchUpdateDataModel::MessageRowModified { parent, message }) => {
            assert(s.subrange(4, 8) =~= le32(parent));
            assert(s.subrange(8, 12) =~= le32(message));
        },
        Some(SearchUpdateDataModel::MessageSpam { parent, message }) => {
            assert(s.subrange(4, 8) =~= le32(parent));
            assert(s.subrange(8, 12) =~= le32(message));
        },
        Some(SearchUpdateDataModel::IndexedMessageDeleted { parent, message }) => {
            assert(s.subrange(4, 8) =~= le32(parent));
            assert(s.subrange(8, 12) =~= le32(message));
        },
        Some(SearchUpdateDataModel::MessageIndexed { message }) => {
            assert(s.subrange(4, 8) =~= le32(message));
        },
    }
}

impl SearchUpdateData {
    /// The kind of the data.
    pub fn update_type(&self) -> (r: SearchUpdateType)
        ensures
            r == data_type(self@),
    {
        match self {
            SearchUpdateData::MessageAdded { .. } => SearchUpdateType::MessageAdded,
            SearchUpdateData::MessageModified { .. } => SearchUpdateType::MessageModified,
            SearchUpdateData::MessageDeleted { .. } => SearchUpdateType::MessageDeleted,
            SearchUpdateData::MessageMoved { .. } => SearchUpdateType::MessageMoved,
            SearchUpdateData::FolderAdded { .. } => SearchUpdateType::FolderAdded,
            SearchUpdateData::FolderModified { .. } => SearchUpdateType::FolderModified,
            SearchUpdateData::FolderDeleted { .. } => SearchUpdateType::FolderDeleted,
            SearchUpdateData::FolderMoved { .. } => SearchUpdateType::FolderMoved,
            SearchUpdateData::SearchFolderAdded { .. } => SearchUpdateType::SearchFolderAdded,
            SearchUpdateData::SearchFolderModified { .. } => SearchUpdateType::SearchFolderModified,
            SearchUpdateData::SearchFolderDeleted { .. } => SearchUpdateType::SearchFolderDeleted,
            SearchUpdateData::MessageRowModified { .. } => SearchUpdateType::MessageRowModified,
            SearchUpdateData::MessageSpam { .. } => SearchUpdateType::MessageSpam,
            SearchUpdateData::IndexedMessageDeleted { .. } => SearchUpdateType::IndexedMessageDeleted,
            SearchUpdateData::MessageIndexed { .. } => SearchUpdateType::MessageIndexed,
        }
    }
}

impl SearchUpdate {
    /// The update with the given flags and data.
    pub fn new(flags: u16, data: Option<SearchUpdateData>) -> (r: SearchUpdate)
        ensures
            r@ == (SearchUpdateModel { flags, data: data_view(data) }),
    {
        SearchUpdate { flags, data }
    }

    /// The flags.
    pub fn flags(&self) -> (r: u16)
        ensures
            r == self@.flags,
    {
        self.flags
    }

    /// The data, if any.
    pub fn data(&self) -> (r: Option<SearchUpdateData>)
        ensures
            data_view(r) == self@.data,
    {
        self.data
    }

    /// Reads a search update from the first 20 bytes of `b`; the kind must be known.
    pub fn read(b: &[u8]) -> (r: Result<SearchUpdate, MessagingError>)
        ensures
            b@.len() < 20 ==> r == Err::<SearchUpdate, MessagingError>(MessagingError::UnexpectedEndOfData),
            b@.len() >= 20 ==> view_result(r) == parse_search_update(b@.subrange(0, 20)),
    {
        if b.len() < 20 {
            return Err(MessagingError::UnexpectedEndOfData);
        }
        let b = &b[0..20];
        let flags = read_u16_at(b, 0);
        let data_type = match SearchUpdateType::try_from_u16(read_u16_at(b, 2)) {
            Ok(t) => t,
            Err(e) => return Err(e),
        };
        let data = match data_type {
            SearchUpdateType::Null => None,
            SearchUpdateType::MessageAdded => Some(SearchUpdateData::MessageAdded { parent: NodeId::from_u32(read_u32_at(b, 4)), message: NodeId::from_u32(read_u32_at(b, 8)) }),
            SearchUpdateType::MessageModified => Some(SearchUpdateData::MessageModified { parent: NodeId::from_u32(read_u32_at(b, 4)), message: NodeId::from_u32(read_u32_at(b, 8)) }),
            SearchUpdateType::MessageDeleted => Some(SearchUpdateData::MessageDeleted { parent: NodeId::from_u32(read_u32_at(b, 4)), message: NodeId::from_u32(read_u32_at(b, 8)) }),
            SearchUpdateType::MessageMoved => Some(SearchUpdateData::MessageMoved { new_parent: NodeId::from_u32(read_u32_at(b, 4)), message: NodeId::from_u32(read_u32_at(b, 8)), old_parent: NodeId::from_u32(read_u32_at(b, 12)) }),
            SearchUpdateType::FolderAdded => Some(SearchUpdateData::FolderAdded { parent: NodeId::from_u32(read_u32_at(b, 4)), folder: NodeId::from_u32(read_u32_at(b, 8)), reserved1: read_u32_at(b, 12), reserved2: read_u32_at(b, 16) }),
            SearchUpdateType::FolderModified => Some(SearchUpdateData::FolderModified { folder: NodeId::from_u32(read_u32_at(b, 4)), reserved: read_u32_at(b, 8) }),
            SearchUpdateType::FolderDeleted => Some(SearchUpdateData::FolderDeleted { folder: NodeId::from_u32(read_u32_at(b, 4)), reserved: read_u32_at(b, 8) }),
            SearchUpdateType::FolderMoved => Some(SearchUpdateData::FolderMoved { parent: NodeId::from_u32(read_u32_at(b, 4)), folder: NodeId::from_u32(read_u32_at(b, 8)), reserved1: read_u32_at(b, 12), reserved2: read_u32_at(b, 16) }),
            SearchUpdateType::SearchFolderAdded => Some(SearchUpdateData::SearchFolderAdded { search_folder: NodeId::from_u32(read_u32_at(b, 4)) }),
            SearchUpdateType::SearchFolderModified => Some(SearchUpdateData::SearchFolderModified { search_folder: NodeId::from_u32(read_u32_at(b, 4)), reserved: read_u32_at(b, 8) }),
            SearchUpdateType::SearchFolderDeleted => Some(SearchUpdateData::SearchFolderDeleted { search_folder: NodeId::from_u32(read_u32_at(b, 4)) }),
            SearchUpdateType::MessageRowModified => Some(SearchUpdateData::MessageRowModified { parent: NodeId::from_u32(read_u32_at(b, 4)), message: NodeId::from_u32(read_u32_at(b, 8)) }),
            SearchUpdateType::MessageSpam => Some(SearchUpdateData::MessageSpam { parent: NodeId::from_u32(read_u32_at(b, 4)), message: NodeId::from_u32(read_u32_at(b, 8)) }),
            SearchUpdateType::IndexedMessageDeleted => Some(SearchUpdateData::IndexedMessageDeleted { parent: NodeId::from_u32(read_u32_at(b, 4)), message: NodeId::from_u32(read_u32_at(b, 8)) }),
            SearchUpdateType::MessageIndexed => Some(SearchUpdateData::MessageIndexed { message: NodeId::from_u32(read_u32_at(b, 4)) }),
        };
        Ok(SearchUpdate { flags, data })
    }

    /// Appends the 20 bytes of the search update.
    pub fn write(&self, out: &mut Vec<u8>)
        ensures
            final(out)@ == old(out)@ + search_update_bytes(self@),
    {
        push_u16(out, self.flags);
        let data_type = match &self.data {
            Some(d) => d.update_type(),
            None => SearchUpdateType::Null,
        };
        push_u16(out, data_type.code());
        match self.data {
            None => push_zeros(out, 16),
            Some(SearchUpdateData::MessageAdded { parent, message }) => { push_u32(out, parent.value()); push_u32(out, message.value()); push_zeros(out, 8); },
            Some(SearchUpdateData::MessageModified { parent, message }) => { push_u32(out, parent.value()); push_u32(out, message.value()); push_zeros(out, 8); },
            Some(SearchUpdateData::MessageDeleted { parent, message }) => { push_u32(out, parent.value()); push_u32(out, message.value()); push_zeros(out, 8); },
            Some(SearchUpdateData::MessageMoved { new_parent, message, old_parent }) => { push_u32(out, new_parent.value()); push_u32(out, message.value()); push_u32(out, old_parent.value()); push_zeros(out, 4); },
            Some(SearchUpdateData::FolderAdded { parent, folder, reserved1, reserved2 }) => { push_u32(out, parent.value()); push_u32(out, folder.value()); push_u32(out, reserved1); push_u32(out, reserved2); push_zeros(out, 0); },
            Some(SearchUpdateData::FolderModified { folder, reserved }) => { push_u32(out, folder.value()); push_u32(out, reserved); push_zeros(out, 8); },
            Some(SearchUpdateData::FolderDeleted { folder, reserved }) => { push_u32(out, folder.value()); push_u32(out, reserved); push_zeros(out, 8); },
            Some(SearchUpdateData::FolderMoved { parent, folder, reserved1, reserved2 }) => { push_u32(out, parent.value()); push_u32(out, folder.value()); push_u32(out, reserved1); push_u32(out, reserved2); push_zeros(out, 0); },
            Some(SearchUpdateData::SearchFolderAdded { search_folder }) => { push_u32(out, search_folder.value()); push_zeros(out, 12); },
            Some(SearchUpdateData::SearchFolderModified { search_folder, reserved }) => { push_u32(out, search_folder.value()); push_u32(out, reserved); push_zeros(out, 8); },
            Some(SearchUpdateData::SearchFolderDeleted { search_folder }) => { push_u32(out, search_folder.value()); push_zeros(out, 12); },
            Some(SearchUpdateData::MessageRowModified { parent, message }) => { push_u32(out, parent.value()); push_u32(out, message.value()); push_zeros(out, 8); },
            Some(SearchUpdateData::MessageSpam { parent, message }) => { push_u32(out, parent.value()); push_u32(out, message.value()); push_zeros(out, 8); },
            Some(SearchUpdateData::IndexedMessageDeleted { parent, message }) => { push_u32(out, parent.value()); push_u32(out, message.value()); push_zeros(out, 8); },
            Some(SearchUpdateData::MessageIndexed { message }) => { push_u32(out, message.value()); push_zeros(out, 12); },
        }
        assert(out@ =~= old(out)@ + search_update_bytes(self@));
    }
}

/// The offset where the queue of a node starts: its parent id, which must be a
/// multiple of 20 that fits in 16 bits; none is 0.
pub open spec fn spec_queue_start(parent: Option<u32>) -> Result<u16, MessagingError> {
    let start: u32 = match parent {
        Some(p) => p,
        None => 0,
    };
    if start % 20 != 0 || start > u16::MAX {
        Err(MessagingError::InvalidSearchUpdateQueueOffset(start))
    } else {
        Ok(start as u16)
    }
}

/// The offset where the search update queue of a node starts in its data: the node's
/// parent id field, which must be a multiple of 20 that fits in 16 bits.
pub fn search_update_queue_start(parent: Option<NodeId>) -> (r: Result<u16, MessagingError>)
    ensures
        r == spec_queue_start(match parent {
            Some(p) => Some(p@),
            None => None,
        }),
{
    let start = match parent {
        Some(p) => p.value(),
        None => 0,
    };
    if start % 20 != 0 || start > 0xFFFF {
        return Err(MessagingError::InvalidSearchUpdateQueueOffset(start));
    }
    Ok(start as u16)
}

/// The search updates stored from update `i` on: each 20 bytes, up to the first one
/// whose kind is unknown or that is cut short.
pub open spec fn updates_from(s: Seq<u8>, i: nat) -> Seq<SearchUpdateModel>
    decreases s.len() - 20 * i,
{
    if 20 * (i + 1) > s.len() {
        Seq::empty()
    } else {
        match parse_search_update(s.subrange(20 * (i as int), 20 * (i + 1) as int)) {
            Err(_) => Seq::empty(),
            Ok(u) => seq![u] + updates_from(s, i + 1),
        }
    }
}

/// The part of the queue data from offset `start` on; empty when `start` is past the end.
pub open spec fn queue_tail(data: Seq<u8>, start: u16) -> Seq<u8> {
    if start > data.len() {
        Seq::empty()
    } else {
        data.subrange(start as int, data.len() as int)
    }
}

/// The search updates of a queue whose data is `data` and which starts at `start`:
/// the data past `start` must be a whole number of updates.
pub open spec fn parse_queue(data: Seq<u8>, start: u16) -> Result<Seq<SearchUpdateModel>, MessagingError> {
    let s = queue_tail(data, start);
    if s.len() % 20 != 0 {
        Err(MessagingError::InvalidSearchUpdateQueueSize(s.len() as usize))
    } else {
        Ok(updates_from(s, 0))
    }
}

/// The views of a list of search updates.
pub open spec fn update_models(v: Seq<SearchUpdate>) -> Seq<SearchUpdateModel> {
    v.map_values(|u: SearchUpdate| u@)
}

/// Reads the search updates of a queue from its data.
fn read_updates(data: &[u8], start: u16) -> (r: Result<Vec<SearchUpdate>, MessagingError>)
    ensures
        match r {
            Ok(v) => parse_queue(data@, start) == Ok::<Seq<SearchUpdateModel>, MessagingError>(update_models(v@)),
            Err(e) => parse_queue(data@, start) == Err::<Seq<SearchUpdateModel>, MessagingError>(e),
        },
{
    let len = data.len();
    let begin = if (start as usize) > len { len } else { start as usize };
    let s = &data[begin..len];
    assert(s@ =~= queue_tail(data@, start));
    let size = s.len();
    if size % 20 != 0 {
        return Err(MessagingError::InvalidSearchUpdateQueueSize(size));
    }
    let mut updates: Vec<SearchUpdate> = Vec::new();
    let mut i: usize = 0;
    assert(update_models(updates@) =~= Seq::<SearchUpdateModel>::empty());
    while 20 * i < size
        invariant
            size == s@.len(),
            size % 20 == 0,
            parse_queue(data@, start) == Ok::<Seq<SearchUpdateModel>, MessagingError>(updates_from(s@, 0)),
            20 * i <= size,
            updates_from(s@, 0) == update_models(updates@) + updates_from(s@, i as nat),
        decreases size - 20 * i,
    {
        let record = &s[20 * i..20 * (i + 1)];
        assert(record@.subrange(0, 20) =~= record@);
        match SearchUpdate::read(record) {
            Ok(u) => {
                let ghost prev = updates@;
                updates.push(u);
                assert(update_models(updates@) =~= update_models(prev).push(u@));
                assert(update_models(prev) + (seq![u@] + updates_from(s@, (i + 1) as nat))
                    =~= update_models(updates@) + updates_from(s@, (i + 1) as nat));
            },
            Err(_) => {
                assert(update_models(updates@) + Seq::<SearchUpdateModel>::empty() =~= update_models(updates@));
                return Ok(updates);
            },
        }
        i = i + 1;
    }
    assert(update_models(updates@) + Seq::<SearchUpdateModel>::empty() =~= update_models(updates@));
    Ok(updates)
}

/// The search update queue of a Unicode file.
pub struct UnicodeSearchUpdateQueue {
    updates: Vec<SearchUpdate>,
}

impl View for UnicodeSearchUpdateQueue {
    type V = Seq<SearchUpdateModel>;

    closed spec fn view(&self) -> Seq<SearchUpdateModel> {
        update_models(self.updates@)
    }
}

impl UnicodeSearchUpdateQueue {
    /// The queue held in `data` from offset `start` on (see `search_update_queue_start`):
    /// the data past `start` must be a whole number of updates, and the updates are
    /// read up to the first one whose kind is unknown. A node without data has the
    /// empty queue: pass no data.
    pub fn from_data(data: &[u8], start: u16) -> (r: Result<UnicodeSearchUpdateQueue, MessagingError>)
        ensures
            view_result(r) == parse_queue(data@, start),
    {
        match read_updates(data, start) {
            Ok(updates) => Ok(UnicodeSearchUpdateQueue { updates }),
            Err(e) => Err(e),
        }
    }

    /// The updates, in order.
    pub fn updates(&self) -> (r: &[SearchUpdate])
        ensures
            update_models(r@) == self@,
    {
        self.updates.as_slice()
    }
}

/// The search update queue of an ANSI file.
pub struct AnsiSearchUpdateQueue {
    updates: Vec<SearchUpdate>,
}

impl View for AnsiSearchUpdateQueue {
    type V = Seq<SearchUpdateModel>;

    closed spec fn view(&self) -> Seq<SearchUpdateModel> {
        update_models(self.updates@)
    }
}

impl AnsiSearchUpdateQueue {
    /// The queue held in `data` from offset `start` on (see `search_update_queue_start`):
    /// the data past `start` must be a whole number of updates, and the updates are
    /// read up to the first one whose kind is unknown. A node without data has the
    /// empty queue: pass no data.
    pub fn from_data(data: &[u8], start: u16) -> (r: Result<AnsiSearchUpdateQueue, MessagingError>)
        ensures
            view_result(r) == parse_queue(data@, start),
    {
        match read_updates(data, start) {
            Ok(updates) => Ok(AnsiSearchUpdateQueue { updates }),
            Err(e) => Err(e),
        }
    }

    /// The updates, in order.
    pub fn updates(&self) -> (r: &[SearchUpdate])
        ensures
            update_models(r@) == self@,
    {
        self.updates.as_slice()
    }
}

/// The bytes of a list of search updates, one after another.
pub open spec fn search_updates_bytes(v: Seq<SearchUpdateModel>) -> Seq<u8>
    decreases v.len(),
{
    if v.len() == 0 {
        Seq::empty()
    } else {
        search_updates_bytes(v.drop_last()) + search_update_bytes(v.last())
    }
}

/// The updates of a list take 20 bytes each, update `i` at offset `20 * i`.
proof fn lemma_search_updates_bytes(v: Seq<SearchUpdateModel>)
    ensures
        search_updates_bytes(v).len() == 20 * v.len(),
        forall|i: int| 0 <= i < v.len() ==> #[trigger] search_updates_bytes(v).subrange(20 * i, 20 * i + 20)
            == search_update_bytes(v[i]),
    decreases v.len(),
{
    if v.len() > 0 {
        let p = v.drop_last();
        lemma_search_updates_bytes(p);
        lemma_search_update_roundtrip(v.last());
        assert forall|i: int| 0 <= i < v.len() implies #[trigger] search_updates_bytes(v).subrange(20 * i, 20 * i + 20)
            == search_update_bytes(v[i]) by {
            if i < v.len() - 1 {
                assert(search_updates_bytes(v).subrange(20 * i, 20 * i + 20)
                    =~= search_updates_bytes(p).subrange(20 * i, 20 * i + 20));
            } else {
                assert(search_updates_bytes(v).subrange(20 * i, 20 * i + 20) =~= search_update_bytes(v.last()));
            }
        }
    }
}

/// Reading the updates stored from update `i` on gives the rest of the list.
proof fn lemma_updates_from(v: Seq<SearchUpdateModel>, i: nat)
    requires
        i <= v.len(),
    ensures
        updates_from(search_updates_bytes(v), i) == v.subrange(i as int, v.len() as int),
    decreases v.len() - i,
{
    let s = search_updates_bytes(v);
    lemma_search_updates_bytes(v);
    if i < v.len() {
        lemma_updates_from(v, i + 1);
        let k = i as int;
        assert(s.subrange(20 * k, 20 * k + 20) == search_update_bytes(v[k]));
        assert(s.subrange(20 * k, 20 * (i + 1) as int) == search_update_bytes(v[k]));
        lemma_search_update_roundtrip(v[i as int]);
        assert(seq![v[i as int]] + v.subrange(i + 1int, v.len() as int) =~= v.subrange(i as int, v.len() as int));
    } else {
        assert(v.subrange(i as int, v.len() as int) =~= Seq::<SearchUpdateModel>::empty());
    }
}

/// The updates read from update `k` on are the records from `k` on, in order, each read
/// from its 20 bytes, up to the end of the data or the first record that is not an
/// update.
proof fn lemma_updates_from_records(s: Seq<u8>, k: nat)
    ensures
        ({
            let u = updates_from(s, k);
            &&& 20 * (k + u.len()) <= s.len() || u.len() == 0
            &&& forall|i: int| 0 <= i < u.len() ==> parse_search_update(
                #[trigger] s.subrange(20 * (k + i), 20 * (k + i + 1))) == Ok::<SearchUpdateModel, MessagingError>(u[i])
            &&& 20 * (k + u.len() + 1) <= s.len() ==> parse_search_update(
                s.subrange(20 * (k + u.len()) as int, 20 * (k + u.len() + 1) as int)) is Err
        }),
    decreases s.len() - 20 * k,
{
    if 20 * (k + 1) <= s.len() {
        lemma_updates_from_records(s, k + 1);
        let r = parse_search_update(s.subrange(20 * (k as int), 20 * (k + 1) as int));
        if let Ok(x) = r {
            let u = updates_from(s, k);
            let t = updates_from(s, k + 1);
            assert(u == seq![x] + t);
            assert forall|i: int| 0 <= i < u.len() implies parse_search_update(
                #[trigger] s.subrange(20 * (k + i), 20 * (k + i + 1))) == Ok::<SearchUpdateModel, MessagingError>(u[i]) by {
                if i > 0 {
                    assert(u[i] == t[i - 1]);
                    assert(s.subrange(20 * (k + i), 20 * (k + i + 1)) == s.subrange(20 * ((k + 1) + (i - 1)), 20 * ((k + 1) + (i - 1) + 1)));
                }
            }
        }
    }
}

/// A queue that reads holds the records of its data in order, one for each 20 bytes
/// up to the first record that is not an update: when every record is an update,
/// there is one update for each 20 bytes.
pub proof fn lemma_queue_records(data: Seq<u8>, start: u16)
    requires
        parse_queue(data, start) is Ok,
    ensures
        ({
            let s = queue_tail(data, start);
            let u = parse_queue(data, start)->Ok_0;
            &&& u.len() <= s.len() / 20
            &&& forall|i: int| 0 <= i < u.len() ==> parse_search_update(
                #[trigger] s.subrange(20 * i, 20 * (i + 1))) == Ok::<SearchUpdateModel, MessagingError>(u[i])
            &&& u.len() < s.len() / 20 ==> parse_search_update(s.subrange(20 * u.len() as int, 20 * (u.len() + 1) as int)) is Err
            &&& (forall|j: int| 0 <= j < s.len() / 20 ==> #[trigger] parse_search_update(s.subrange(20 * j, 20 * (j + 1))) is Ok)
                ==> u.len() == s.len() / 20
        }),
{
    let s = queue_tail(data, start);
    lemma_updates_from_records(s, 0);
    let u = updates_from(s, 0);
    assert forall|i: int| 0 <= i < u.len() implies parse_search_update(
        #[trigger] s.subrange(20 * i, 20 * (i + 1))) == Ok::<SearchUpdateModel, MessagingError>(u[i]) by {
        assert(s.subrange(20 * i, 20 * (i + 1)) == s.subrange(20 * (0 + i), 20 * (0 + i + 1)));
    }
    if u.len() < s.len() / 20 {
        assert(20 * (u.len() + 1) <= s.len());
        assert(s.subrange(20 * u.len() as int, 20 * (u.len() + 1) as int) == s.subrange(20 * (0 + u.len()) as int, 20 * (0 + u.len() + 1) as int));
    }
}

/// A queue whose data is the bytes of a list of search updates, written one after
/// another, holds those updates.
pub proof fn lemma_search_queue_roundtrip(v: Seq<SearchUpdateModel>)
    ensures
        parse_queue(search_updates_bytes(v), 0) == Ok::<Seq<SearchUpdateModel>, MessagingError>(v),
{
    let s = search_updates_bytes(v);
    lemma_search_updates_bytes(v);
    assert(queue_tail(s, 0) =~= s);
    lemma_updates_from(v, 0);
    assert(v.subrange(0, v.len() as int) =~= v);
}

} // verus!
