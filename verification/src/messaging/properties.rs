//! Property lookups of attachments, folders and messages.

use vstd::prelude::*;
use crate::ltp::prop_context::{value_type, PropertyValue, PropertyValueModel};
use super::MessagingError;

verus! {

/// PidTagAttachMethod
#[derive(Debug, Clone, Copy, PartialEq, Eq, Structural)]
pub enum AttachmentMethod {
    /// `afNone`: The attachment has just been created.
    NoMethod,
    /// `afByValue`: The `PidTagAttachDataBinary` property contains the attachment data.
    ByValue,
    /// `afByReference`: The `PidTagAttachLongPathname` property contains a fully qualified path
    /// identifying the attachment To recipients with access to a common file server.
    ByReference,
    /// `afByReferenceOnly`: The `PidTagAttachLongPathname` property contains a fully qualified
    /// path identifying the attachment.
    ByReferenceOnly,
    /// `afEmbeddedMessage`: The attachment is an embedded message.
    EmbeddedMessage,
    /// `afStorage`: The `PidTagAttachDataObject` property contains data in an application-specific format.
    Storage,
    /// `afByWebReference`: The `PidTagAttachLongPathname` property contains a fully qualified path
    /// identifying the attachment, reached through a web service.
    ByWebReference,
}

impl AttachmentMethod {
    /// The value of each method.
    pub open spec fn spec_code(self) -> i32 {
        match self {
            AttachmentMethod::NoMethod => 0,
            AttachmentMethod::ByValue => 1,
            AttachmentMethod::ByReference => 2,
            AttachmentMethod::ByReferenceOnly => 4,
            AttachmentMethod::EmbeddedMessage => 5,
            AttachmentMethod::Storage => 6,
            AttachmentMethod::ByWebReference => 7,
        }
    }

    /// The method whose value is `value`, if any.
    pub open spec fn spec_from_code(value: i32) -> Option<AttachmentMethod> {
        if value == 0 { Some(AttachmentMethod::NoMethod) }
        else if value == 1 { Some(AttachmentMethod::ByValue) }
        else if value == 2 { Some(AttachmentMethod::ByReference) }
        else if value == 4 { Some(AttachmentMethod::ByReferenceOnly) }
        else if value == 5 { Some(AttachmentMethod::EmbeddedMessage) }
        else if value == 6 { Some(AttachmentMethod::Storage) }
        else if value == 7 { Some(AttachmentMethod::ByWebReference) }
        else { None }
    }

    /// The value of this method.
    pub fn code(self) -> (r: i32)
        ensures
            r == self.spec_code(),
    {
        match self {
            AttachmentMethod::NoMethod => 0,
            AttachmentMethod::ByValue => 1,
            AttachmentMethod::ByReference => 2,
            AttachmentMethod::ByReferenceOnly => 4,
            AttachmentMethod::EmbeddedMessage => 5,
            AttachmentMethod::Storage => 6,
            AttachmentMethod::ByWebReference => 7,
        }
    }

    /// The method whose value is `value`.
    pub fn try_from_i32(value: i32) -> (r: Result<AttachmentMethod, MessagingError>)
        ensures
            r == (match Self::spec_from_code(value) {
                Some(m) => Ok(m),
                None => Err(MessagingError::UnknownAttachmentMethod(value)),
            }),
    {
        match value {
            0 => Ok(AttachmentMethod::NoMethod),
            1 => Ok(AttachmentMethod::ByValue),
            2 => Ok(AttachmentMethod::ByReference),
            4 => Ok(AttachmentMethod::ByReferenceOnly),
            5 => Ok(AttachmentMethod::EmbeddedMessage),
            6 => Ok(AttachmentMethod::Storage),
            7 => Ok(AttachmentMethod::ByWebReference),
            _ => Err(MessagingError::UnknownAttachmentMethod(value)),
        }
    }
}

/// Every `AttachmentMethod` has a code, and the code converts back to the same value.
pub proof fn lemma_attachment_method_code_roundtrip(t: AttachmentMethod)
    ensures
        AttachmentMethod::spec_from_code(t.spec_code()) == Some(t),
{
}

/// The value of property `id` among `props`: the last entry for `id` wins, as when the
/// entries are collected into a map.
pub open spec fn property_lookup(props: Seq<(u16, PropertyValueModel)>, id: u16) -> Option<PropertyValueModel>
    decreases props.len(),
{
    if props.len() == 0 {
        None
    } else if props.last().0 == id {
        Some(props.last().1)
    } else {
        property_lookup(props.drop_last(), id)
    }
}

/// The views of a list of properties.
pub open spec fn property_models(v: Seq<(u16, PropertyValue)>) -> Seq<(u16, PropertyValueModel)> {
    v.map_values(|e: (u16, PropertyValue)| (e.0, e.1@))
}

/// Finds the value of property `id`; the last entry for `id` wins.
fn find_property(props: &Vec<(u16, PropertyValue)>, id: u16) -> (r: Option<&PropertyValue>)
    ensures
        match r {
            Some(v) => property_lookup(property_models(props@), id) == Some(v@),
            None => property_lookup(property_models(props@), id) is None,
        },
{
    let ghost entries = property_models(props@);
    let mut k = props.len();
    assert(entries.subrange(0, k as int) =~= entries);
    while k > 0
        invariant
            k <= props@.len(),
            entries == property_models(props@),
            property_lookup(entries, id) == property_lookup(entries.subrange(0, k as int), id),
        decreases k,
    {
        assert(entries[k - 1] == (props@[k - 1].0, props@[k - 1].1@));
        assert(entries.subrange(0, k as int).drop_last() =~= entries.subrange(0, k - 1));
        assert(entries.subrange(0, k as int).last() == entries[k - 1]);
        if props[k - 1].0 == id {
            return Some(&props[k - 1].1);
        }
        k = k - 1;
    }
    None
}

/// The properties of an attachment, by property id.
#[derive(Debug)]
pub struct AttachmentProperties {
    properties: Vec<(u16, PropertyValue)>,
}

impl View for AttachmentProperties {
    type V = Seq<(u16, PropertyValueModel)>;

    closed spec fn view(&self) -> Seq<(u16, PropertyValueModel)> {
        property_models(self.properties@)
    }
}

impl AttachmentProperties {
    /// The properties with the given ids and values; a later entry for the same id
    /// replaces an earlier one.
    pub fn new(properties: Vec<(u16, PropertyValue)>) -> (r: AttachmentProperties)
        ensures
            r@ == property_models(properties@),
    {
        AttachmentProperties { properties }
    }

    /// The value of property `id`, if present.
    pub fn get(&self, id: u16) -> (r: Option<&PropertyValue>)
        ensures
            match r {
                Some(v) => property_lookup(self@, id) == Some(v@),
                None => property_lookup(self@, id) is None,
            },
    {
        find_property(&self.properties, id)
    }

    /// The size of the attachment (`PidTagAttachSize`).
    pub fn attachment_size(&self) -> (r: Result<i32, MessagingError>)
        ensures
            r == match property_lookup(self@, 0x0E20) {
                None => Err(MessagingError::AttachmentSizeNotFound),
                Some(PropertyValueModel::Integer32(v)) => Ok(v),
                Some(other) => Err(MessagingError::InvalidAttachmentSize(value_type(other))),
            },
    {
        match find_property(&self.properties, 0x0E20) {
            None => Err(MessagingError::AttachmentSizeNotFound),
            Some(PropertyValue::Integer32(v)) => Ok(*v),
            Some(other) => Err(MessagingError::InvalidAttachmentSize(other.prop_type())),
        }
    }

    /// The attachment method (`PidTagAttachMethod`).
    pub fn attachment_method(&self) -> (r: Result<i32, MessagingError>)
        ensures
            r == match property_lookup(self@, 0x3705) {
                None => Err(MessagingError::AttachmentMethodNotFound),
                Some(PropertyValueModel::Integer32(v)) => Ok(v),
                Some(other) => Err(MessagingError::InvalidAttachmentMethod(value_type(other))),
            },
    {
        match find_property(&self.properties, 0x3705) {
            None => Err(MessagingError::AttachmentMethodNotFound),
            Some(PropertyValue::Integer32(v)) => Ok(*v),
            Some(other) => Err(MessagingError::InvalidAttachmentMethod(other.prop_type())),
        }
    }

    /// Where the attachment is rendered (`PidTagRenderingPosition`).
    pub fn rendering_position(&self) -> (r: Result<i32, MessagingError>)
        ensures
            r == match property_lookup(self@, 0x370B) {
                None => Err(MessagingError::AttachmentRenderingPositionNotFound),
                Some(PropertyValueModel::Integer32(v)) => Ok(v),
                Some(other) => Err(MessagingError::InvalidAttachmentRenderingPosition(value_type(other))),
            },
    {
        match find_property(&self.properties, 0x370B) {
            None => Err(MessagingError::AttachmentRenderingPositionNotFound),
            Some(PropertyValue::Integer32(v)) => Ok(*v),
            Some(other) => Err(MessagingError::InvalidAttachmentRenderingPosition(other.prop_type())),
        }
    }
}

/// The properties of a folder, by property id.
#[derive(Debug)]
pub struct FolderProperties {
    properties: Vec<(u16, PropertyValue)>,
}

impl View for FolderProperties {
    type V = Seq<(u16, PropertyValueModel)>;

    closed spec fn view(&self) -> Seq<(u16, PropertyValueModel)> {
        property_models(self.properties@)
    }
}

impl FolderProperties {
    /// The properties with the given ids and values; a later entry for the same id
    /// replaces an earlier one.
    pub fn new(properties: Vec<(u16, PropertyValue)>) -> (r: FolderProperties)
        ensures
            r@ == property_models(properties@),
    {
        FolderProperties { properties }
    }

    /// The value of property `id`, if present.
    pub fn get(&self, id: u16) -> (r: Option<&PropertyValue>)
        ensures
            match r {
                Some(v) => property_lookup(self@, id) == Some(v@),
                None => property_lookup(self@, id) is None,
            },
    {
        find_property(&self.properties, id)
    }

    /// The number of messages in the folder (`PidTagContentCount`).
    pub fn content_count(&self) -> (r: Result<i32, MessagingError>)
        ensures
            r == match property_lookup(self@, 0x3602) {
                None => Err(MessagingError::FolderContentCountNotFound),
                Some(PropertyValueModel::Integer32(v)) => Ok(v),
                Some(other) => Err(MessagingError::InvalidFolderContentCount(value_type(other))),
            },
    {
        match find_property(&self.properties, 0x3602) {
            None => Err(MessagingError::FolderContentCountNotFound),
            Some(PropertyValue::Integer32(v)) => Ok(*v),
            Some(other) => Err(MessagingError::InvalidFolderContentCount(other.prop_type())),
        }
    }

    /// The number of unread messages (`PidTagContentUnreadCount`).
    pub fn unread_count(&self) -> (r: Result<i32, MessagingError>)
        ensures
            r == match property_lookup(self@, 0x3603) {
                None => Err(MessagingError::FolderUnreadCountNotFound),
                Some(PropertyValueModel::Integer32(v)) => Ok(v),
                Some(other) => Err(MessagingError::InvalidFolderUnreadCount(value_type(other))),
            },
    {
        match find_property(&self.properties, 0x3603) {
            None => Err(MessagingError::FolderUnreadCountNotFound),
            Some(PropertyValue::Integer32(v)) => Ok(*v),
            Some(other) => Err(MessagingError::InvalidFolderUnreadCount(other.prop_type())),
        }
    }

    /// Whether the folder has sub-folders (`PidTagSubfolders`).
    pub fn has_sub_folders(&self) -> (r: Result<bool, MessagingError>)
        ensures
            r == match property_lookup(self@, 0x360A) {
                None => Err(MessagingError::FolderHasSubfoldersNotFound),
                Some(PropertyValueModel::Boolean(v)) => Ok(v),
                Some(other) => Err(MessagingError::InvalidFolderHasSubfolders(value_type(other))),
            },
    {
        match find_property(&self.properties, 0x360A) {
            None => Err(MessagingError::FolderHasSubfoldersNotFound),
            Some(PropertyValue::Boolean(v)) => Ok(*v),
            Some(other) => Err(MessagingError::InvalidFolderHasSubfolders(other.prop_type())),
        }
    }
}

/// The properties of a message, by property id.
#[derive(Debug)]
pub struct MessageProperties {
    properties: Vec<(u16, PropertyValue)>,
}

impl View for MessageProperties {
    type V = Seq<(u16, PropertyValueModel)>;

    closed spec fn view(&self) -> Seq<(u16, PropertyValueModel)> {
        property_models(self.properties@)
    }
}

impl MessageProperties {
    /// The properties with the given ids and values; a later entry for the same id
    /// replaces an earlier one.
    pub fn new(properties: Vec<(u16, PropertyValue)>) -> (r: MessageProperties)
        ensures
            r@ == property_models(properties@),
    {
        MessageProperties { properties }
    }

    /// The value of property `id`, if present.
    pub fn get(&self, id: u16) -> (r: Option<&PropertyValue>)
        ensures
            match r {
                Some(v) => property_lookup(self@, id) == Some(v@),
                None => property_lookup(self@, id) is None,
            },
    {
        find_property(&self.properties, id)
    }

    /// The message flags (`PidTagMessageFlags`).
    pub fn message_flags(&self) -> (r: Result<i32, MessagingError>)
        ensures
            r == match property_lookup(self@, 0x0E07) {
                None => Err(MessagingError::MessageFlagsNotFound),
                Some(PropertyValueModel::Integer32(v)) => Ok(v),
                Some(other) => Err(MessagingError::InvalidMessageFlags(value_type(other))),
            },
    {
        match find_property(&self.properties, 0x0E07) {
            None => Err(MessagingError::MessageFlagsNotFound),
            Some(PropertyValue::Integer32(v)) => Ok(*v),
            Some(other) => Err(MessagingError::InvalidMessageFlags(other.prop_type())),
        }
    }

    /// The size of the message (`PidTagMessageSize`).
    pub fn message_size(&self) -> (r: Result<i32, MessagingError>)
        ensures
            r == match property_lookup(self@, 0x0E08) {
                None => Err(MessagingError::MessageSizeNotFound),
                Some(PropertyValueModel::Integer32(v)) => Ok(v),
                Some(other) => Err(MessagingError::InvalidMessageSize(value_type(other))),
            },
    {
        match find_property(&self.properties, 0x0E08) {
            None => Err(MessagingError::MessageSizeNotFound),
            Some(PropertyValue::Integer32(v)) => Ok(*v),
            Some(other) => Err(MessagingError::InvalidMessageSize(other.prop_type())),
        }
    }

    /// The message status (`PidTagMessageStatus`).
    pub fn message_status(&self) -> (r: Result<i32, MessagingError>)
        ensures
            r == match property_lookup(self@, 0x0E17) {
                None => Err(MessagingError::MessageStatusNotFound),
                Some(PropertyValueModel::Integer32(v)) => Ok(v),
                Some(other) => Err(MessagingError::InvalidMessageStatus(value_type(other))),
            },
    {
        match find_property(&self.properties, 0x0E17) {
            None => Err(MessagingError::MessageStatusNotFound),
            Some(PropertyValue::Integer32(v)) => Ok(*v),
            Some(other) => Err(MessagingError::InvalidMessageStatus(other.prop_type())),
        }
    }

    /// When the message was created (`PidTagCreationTime`).
    pub fn creation_time(&self) -> (r: Result<i64, MessagingError>)
        ensures
            r == match property_lookup(self@, 0x3007) {
                None => Err(MessagingError::MessageCreationTimeNotFound),
                Some(PropertyValueModel::Time(v)) => Ok(v),
                Some(other) => Err(MessagingError::InvalidMessageCreationTime(value_type(other))),
            },
    {
        match find_property(&self.properties, 0x3007) {
            None => Err(MessagingError::MessageCreationTimeNotFound),
            Some(PropertyValue::Time(v)) => Ok(*v),
            Some(other) => Err(MessagingError::InvalidMessageCreationTime(other.prop_type())),
        }
    }

    /// When the message was last changed (`PidTagLastModificationTime`).
    pub fn last_modification_time(&self) -> (r: Result<i64, MessagingError>)
        ensures
            r == match property_lookup(self@, 0x3008) {
                None => Err(MessagingError::MessageLastModificationTimeNotFound),
                Some(PropertyValueModel::Time(v)) => Ok(v),
                Some(other) => Err(MessagingError::InvalidMessageLastModificationTime(value_type(other))),
            },
    {
        match find_property(&self.properties, 0x3008) {
            None => Err(MessagingError::MessageLastModificationTimeNotFound),
            Some(PropertyValue::Time(v)) => Ok(*v),
            Some(other) => Err(MessagingError::InvalidMessageLastModificationTime(other.prop_type())),
        }
    }

    /// The search key of the message (`PidTagSearchKey`).
    pub fn search_key(&self) -> (r: Result<&[u8], MessagingError>)
        ensures
            match property_lookup(self@, 0x300B) {
                None => r == Err::<&[u8], MessagingError>(MessagingError::MessageSearchKeyNotFound),
                Some(PropertyValueModel::Binary(v)) => r matches Ok(k) && k@ == v,
                Some(other) => r == Err::<&[u8], MessagingError>(MessagingError::InvalidMessageSearchKey(value_type(other))),
            },
    {
        match find_property(&self.properties, 0x300B) {
            None => Err(MessagingError::MessageSearchKeyNotFound),
            Some(PropertyValue::Binary(v)) => Ok(v.as_slice()),
            Some(other) => Err(MessagingError::InvalidMessageSearchKey(other.prop_type())),
        }
    }
}

} // verus!
