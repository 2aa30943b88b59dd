use outlook_pst::ltp::prop_type::PropertyType;
use outlook_pst::ltp::prop_context::PropertyValue;
use outlook_pst::messaging::properties::{
    AttachmentMethod, AttachmentProperties, FolderProperties, MessageProperties,
};
use outlook_pst::messaging::search::{
    search_update_queue_start, AnsiSearchUpdateQueue, SearchUpdate, SearchUpdateData,
    SearchUpdateFlags, SearchUpdateType, UnicodeSearchUpdateQueue,
};
use outlook_pst::messaging::MessagingError;
use outlook_pst::ndb::node_id::NodeId;

fn nid(v: u32) -> NodeId {
    NodeId::from_u32(v)
}

#[test]
fn search_update_roundtrip() {
    let update = SearchUpdate::new(
        SearchUpdateFlags::PriorityHigh.code(),
        Some(SearchUpdateData::MessageMoved {
            new_parent: nid(0x122),
            message: nid(0x200024),
            old_parent: nid(0x8022),
        }),
    );
    let mut out = Vec::new();
    update.write(&mut out);
    assert_eq!(out.len(), 20);
    assert_eq!(&out[0..4], &[0x02, 0x00, 0x04, 0x00]);
    assert_eq!(&out[4..8], &[0x22, 0x01, 0x00, 0x00]);
    assert_eq!(&out[16..20], &[0, 0, 0, 0]);
    assert_eq!(SearchUpdate::read(&out), Ok(update));
    assert_eq!(update.flags(), 2);
    assert_eq!(update.data().unwrap().update_type(), SearchUpdateType::MessageMoved);

    let empty = SearchUpdate::new(0, None);
    let mut out = Vec::new();
    empty.write(&mut out);
    assert_eq!(out, vec![0u8; 20]);
    assert_eq!(SearchUpdate::read(&out), Ok(empty));
    assert_eq!(SearchUpdate::read(&out[..19]), Err(MessagingError::UnexpectedEndOfData));
    let mut two = Vec::new();
    update.write(&mut two);
    empty.write(&mut two);
    assert_eq!(SearchUpdate::read(&two), Ok(update));
}

#[test]
fn search_update_kinds() {
    assert_eq!(SearchUpdateType::try_from_u16(0x000F), Ok(SearchUpdateType::MessageIndexed));
    assert_eq!(SearchUpdateType::try_from_u16(0x0010), Err(MessagingError::InvalidSearchUpdateType(0x0010)));
    assert_eq!(SearchUpdateType::FolderAdded.code(), 0x0005);
    assert_eq!(SearchUpdateFlags::DomainChecked.code(), 0x8000);
    let mut bad = vec![0u8; 20];
    bad[2] = 0x20;
    assert_eq!(SearchUpdate::read(&bad), Err(MessagingError::InvalidSearchUpdateType(0x20)));
}

#[test]
fn search_update_queues() {
    let a = SearchUpdate::new(1, Some(SearchUpdateData::MessageAdded { parent: nid(0x122), message: nid(0x24) }));
    let b = SearchUpdate::new(0, Some(SearchUpdateData::FolderDeleted { folder: nid(0x8022), reserved: 0 }));
    let mut data = vec![0xEEu8; 20];
    a.write(&mut data);
    b.write(&mut data);

    let queue = UnicodeSearchUpdateQueue::from_data(&data, 20).unwrap();
    assert_eq!(queue.updates(), &[a, b]);
    let queue = AnsiSearchUpdateQueue::from_data(&data, 40).unwrap();
    assert_eq!(queue.updates(), &[b]);
    let queue = UnicodeSearchUpdateQueue::from_data(&data, 100).unwrap();
    assert!(queue.updates().is_empty());
    let queue = UnicodeSearchUpdateQueue::from_data(&[], 0).unwrap();
    assert!(queue.updates().is_empty());

    assert!(matches!(
        UnicodeSearchUpdateQueue::from_data(&data, 30),
        Err(MessagingError::InvalidSearchUpdateQueueSize(30))
    ));

    // Reading stops at the first update of an unknown kind.
    let mut stopped = Vec::new();
    a.write(&mut stopped);
    stopped.extend_from_slice(&[0, 0, 0x77, 0]);
    stopped.extend_from_slice(&[0u8; 16]);
    b.write(&mut stopped);
    let queue = UnicodeSearchUpdateQueue::from_data(&stopped, 0).unwrap();
    assert_eq!(queue.updates(), &[a]);
}

#[test]
fn queue_start_offsets() {
    assert_eq!(search_update_queue_start(None), Ok(0));
    assert_eq!(search_update_queue_start(Some(nid(40))), Ok(40));
    assert_eq!(
        search_update_queue_start(Some(nid(41))),
        Err(MessagingError::InvalidSearchUpdateQueueOffset(41))
    );
    assert_eq!(
        search_update_queue_start(Some(nid(0x10004))),
        Err(MessagingError::InvalidSearchUpdateQueueOffset(0x10004))
    );
}

#[test]
fn attachment_properties() {
    let props = AttachmentProperties::new(vec![
        (0x0E20, PropertyValue::Integer32(1024)),
        (0x3705, PropertyValue::Integer32(1)),
        (0x370B, PropertyValue::Integer16(3)),
        (0x3705, PropertyValue::Integer32(5)),
    ]);
    assert_eq!(props.attachment_size(), Ok(1024));
    assert_eq!(props.attachment_method(), Ok(5));
    assert_eq!(
        props.rendering_position(),
        Err(MessagingError::InvalidAttachmentRenderingPosition(PropertyType::Integer16))
    );
    assert!(matches!(props.get(0x3705), Some(PropertyValue::Integer32(5))));
    assert!(props.get(0x1234).is_none());
    let empty = AttachmentProperties::new(Vec::new());
    assert_eq!(empty.attachment_size(), Err(MessagingError::AttachmentSizeNotFound));
    assert_eq!(empty.attachment_method(), Err(MessagingError::AttachmentMethodNotFound));
}

#[test]
fn attachment_methods() {
    assert_eq!(AttachmentMethod::try_from_i32(5), Ok(AttachmentMethod::EmbeddedMessage));
    assert_eq!(AttachmentMethod::try_from_i32(0), Ok(AttachmentMethod::NoMethod));
    assert_eq!(AttachmentMethod::try_from_i32(3), Err(MessagingError::UnknownAttachmentMethod(3)));
    assert_eq!(AttachmentMethod::ByWebReference.code(), 7);
}

#[test]
fn folder_properties() {
    let props = FolderProperties::new(vec![
        (0x3602, PropertyValue::Integer32(12)),
        (0x3603, PropertyValue::Integer32(2)),
        (0x360A, PropertyValue::Boolean(true)),
    ]);
    assert_eq!(props.content_count(), Ok(12));
    assert_eq!(props.unread_count(), Ok(2));
    assert_eq!(props.has_sub_folders(), Ok(true));
    let wrong = FolderProperties::new(vec![(0x360A, PropertyValue::Integer32(1))]);
    assert_eq!(
        wrong.has_sub_folders(),
        Err(MessagingError::InvalidFolderHasSubfolders(PropertyType::Integer32))
    );
    assert_eq!(wrong.content_count(), Err(MessagingError::FolderContentCountNotFound));
}

#[test]
fn message_properties() {
    let props = MessageProperties::new(vec![
        (0x0E07, PropertyValue::Integer32(1)),
        (0x0E08, PropertyValue::Integer32(4096)),
        (0x0E17, PropertyValue::Integer32(0)),
        (0x3007, PropertyValue::Time(132_000_000_000_000_000)),
        (0x3008, PropertyValue::Time(132_000_000_000_000_001)),
        (0x300B, PropertyValue::Binary(vec![1, 2, 3, 4])),
    ]);
    assert_eq!(props.message_flags(), Ok(1));
    assert_eq!(props.message_size(), Ok(4096));
    assert_eq!(props.message_status(), Ok(0));
    assert_eq!(props.creation_time(), Ok(132_000_000_000_000_000));
    assert_eq!(props.last_modification_time(), Ok(132_000_000_000_000_001));
    assert_eq!(props.search_key(), Ok(&[1u8, 2, 3, 4][..]));
    let empty = MessageProperties::new(Vec::new());
    assert_eq!(empty.search_key(), Err(MessagingError::MessageSearchKeyNotFound));
    assert_eq!(empty.creation_time(), Err(MessagingError::MessageCreationTimeNotFound));
    let wrong = MessageProperties::new(vec![(0x3007, PropertyValue::Integer64(5))]);
    assert_eq!(
        wrong.creation_time(),
        Err(MessagingError::InvalidMessageCreationTime(PropertyType::Integer64))
    );
}

use outlook_pst::ltp::prop_context::ObjectValue;
use outlook_pst::messaging::objects::{
    attachment_data, check_attachment_node, check_folder_node, check_message_node,
    filter_properties, folder_table_nodes, message_tables, AttachmentDataSource,
};
use outlook_pst::ndb::node_id::NodeIdType;
use outlook_pst::ndb::NdbError;

#[test]
fn node_type_checks() {
    assert_eq!(check_folder_node(nid(0x122)), Ok(NodeIdType::NormalFolder));
    assert_eq!(check_folder_node(nid(0x123)), Ok(NodeIdType::SearchFolder));
    assert_eq!(
        check_folder_node(nid(0x124)),
        Err(MessagingError::InvalidFolderEntryIdType(NodeIdType::NormalMessage))
    );
    assert_eq!(
        check_folder_node(nid(0x129)),
        Err(MessagingError::NodeDatabaseError(NdbError::InvalidNodeIdType(0x09)))
    );
    assert_eq!(check_message_node(nid(0x200024)), Ok(NodeIdType::NormalMessage));
    assert_eq!(check_message_node(nid(0x28)), Ok(NodeIdType::AssociatedMessage));
    assert_eq!(check_message_node(nid(0x25)), Ok(NodeIdType::Attachment));
    assert_eq!(
        check_message_node(nid(0x22)),
        Err(MessagingError::InvalidMessageEntryIdType(NodeIdType::NormalFolder))
    );
    assert_eq!(check_attachment_node(nid(0x8025)), Ok(NodeIdType::Attachment));
    assert_eq!(
        check_attachment_node(nid(0x8024)),
        Err(MessagingError::InvalidAttachmentNodeIdType(NodeIdType::NormalMessage))
    );
}

#[test]
fn folder_tables_share_the_folder_index() {
    let (hierarchy, contents, associated) = folder_table_nodes(nid(0x122));
    assert_eq!(hierarchy.value(), 0x12D);
    assert_eq!(contents.value(), 0x12E);
    assert_eq!(associated.value(), 0x12F);
    assert_eq!(hierarchy.index(), 9);
}

#[test]
fn property_filtering() {
    let props = vec![
        (0x0E07, PropertyValue::Integer32(1)),
        (0x3007, PropertyValue::Time(5)),
        (0x0E08, PropertyValue::Integer32(2)),
    ];
    let all = filter_properties(props.clone(), None);
    assert_eq!(all.iter().map(|p| p.0).collect::<Vec<_>>(), vec![0x0E07, 0x3007, 0x0E08]);
    let some = filter_properties(props.clone(), Some(&[0x0E08, 0x0E07]));
    assert_eq!(some.iter().map(|p| p.0).collect::<Vec<_>>(), vec![0x0E07, 0x0E08]);
    let none = filter_properties(props, Some(&[]));
    assert!(none.is_empty());
}

#[test]
fn message_table_nodes() {
    let recipients = nid(0x692);
    let attachments = nid(0x671);
    let other = nid(0x8025);
    assert_eq!(message_tables(&[other, recipients]), Ok((recipients, None)));
    assert_eq!(message_tables(&[attachments, recipients]), Ok((recipients, Some(attachments))));
    assert_eq!(message_tables(&[attachments]), Err(MessagingError::MessageRecipientTableNotFound));
    assert_eq!(
        message_tables(&[recipients, nid(0x6B2)]),
        Err(MessagingError::MultipleMessageRecipientTables)
    );
    assert_eq!(
        message_tables(&[recipients, attachments, nid(0x691)]),
        Err(MessagingError::MultipleMessageAttachmentTables)
    );
}

#[test]
fn attachment_data_sources() {
    let by_value = AttachmentProperties::new(vec![
        (0x3705, PropertyValue::Integer32(1)),
        (0x3701, PropertyValue::Binary(vec![7, 8, 9])),
    ]);
    assert!(matches!(
        attachment_data(&by_value),
        Ok(Some(AttachmentDataSource::Binary(v))) if v == vec![7, 8, 9]
    ));
    let embedded = AttachmentProperties::new(vec![
        (0x3705, PropertyValue::Integer32(5)),
        (0x3701, PropertyValue::Object(ObjectValue::new(nid(0x8041), 100))),
    ]);
    assert!(matches!(
        attachment_data(&embedded),
        Ok(Some(AttachmentDataSource::Message(n))) if n.value() == 0x8041
    ));
    let storage = AttachmentProperties::new(vec![
        (0x3705, PropertyValue::Integer32(6)),
        (0x3701, PropertyValue::Object(ObjectValue::new(nid(0x8061), 100))),
    ]);
    assert!(matches!(
        attachment_data(&storage),
        Ok(Some(AttachmentDataSource::Storage(n))) if n.value() == 0x8061
    ));
    let by_reference = AttachmentProperties::new(vec![(0x3705, PropertyValue::Integer32(2))]);
    assert!(matches!(attachment_data(&by_reference), Ok(None)));
    let missing = AttachmentProperties::new(vec![(0x3705, PropertyValue::Integer32(1))]);
    assert!(matches!(
        attachment_data(&missing),
        Err(MessagingError::AttachmentMessageObjectDataNotFound)
    ));
    let wrong = AttachmentProperties::new(vec![
        (0x3705, PropertyValue::Integer32(5)),
        (0x3701, PropertyValue::Binary(vec![1])),
    ]);
    assert!(matches!(
        attachment_data(&wrong),
        Err(MessagingError::InvalidMessageObjectData(PropertyType::Binary))
    ));
    let unknown = AttachmentProperties::new(vec![(0x3705, PropertyValue::Integer32(3))]);
    assert!(matches!(attachment_data(&unknown), Err(MessagingError::UnknownAttachmentMethod(3))));
    let no_method = AttachmentProperties::new(Vec::new());
    assert!(matches!(attachment_data(&no_method), Err(MessagingError::AttachmentMethodNotFound)));
}
