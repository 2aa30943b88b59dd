//! The checks and choices the messaging layer makes when it opens a folder, a message
//! or an attachment: which node ids are acceptable, which tables a message has, which
//! properties are kept, and where an attachment's data is.

use vstd::prelude::*;
use crate::codec::copy_range;
use crate::ltp::prop_context::{PropertyValue, PropertyValueModel, value_type};
use crate::ndb::node_id::{nid_index, nid_type_code, NodeId, NodeIdType, MAX_NODE_INDEX};
use crate::ndb::NdbError;
use super::MessagingError;
use super::properties::{property_lookup, property_models, AttachmentMethod, AttachmentProperties};

verus! {

/// The type of a raw node id; an unknown type is an error of the node database layer.
pub open spec fn spec_node_type(n: u32) -> Result<NodeIdType, MessagingError> {
    match NodeIdType::spec_from_code(nid_type_code(n)) {
        Some(t) => Ok(t),
        None => Err(MessagingError::NodeDatabaseError(NdbError::InvalidNodeIdType(nid_type_code(n)))),
    }
}

/// The type of a node id.
fn node_type(node_id: NodeId) -> (r: Result<NodeIdType, MessagingError>)
    ensures
        r == spec_node_type(node_id@),
{
    match node_id.id_type() {
        Ok(t) => Ok(t),
        Err(e) => Err(MessagingError::NodeDatabaseError(e)),
    }
}

/// Checks that the node id of a folder's entry id names a folder: a normal folder or a
/// search folder.
pub fn check_folder_node(node_id: NodeId) -> (r: Result<NodeIdType, MessagingError>)
    ensures
        r == match spec_node_type(node_id@) {
            Ok(t) => if t == NodeIdType::NormalFolder || t == NodeIdType::SearchFolder {
                Ok(t)
            } else {
                Err(MessagingError::InvalidFolderEntryIdType(t))
            },
            Err(e) => Err(e),
        },
{
    let t = match node_type(node_id) {
        Ok(t) => t,
        Err(e) => return Err(e),
    };
    match t {
        NodeIdType::NormalFolder | NodeIdType::SearchFolder => Ok(t),
        _ => Err(MessagingError::InvalidFolderEntryIdType(t)),
    }
}

/// Checks that the node id of a message's entry id names a message: a normal message,
/// an associated message or an attachment.
pub fn check_message_node(node_id: NodeId) -> (r: Result<NodeIdType, MessagingError>)
    ensures
        r == match spec_node_type(node_id@) {
            Ok(t) => if t == NodeIdType::NormalMessage || t == NodeIdType::AssociatedMessage
                || t == NodeIdType::Attachment {
                Ok(t)
            } else {
                Err(MessagingError::InvalidMessageEntryIdType(t))
            },
            Err(e) => Err(e),
        },
{
    let t = match node_type(node_id) {
        Ok(t) => t,
        Err(e) => return Err(e),
    };
    match t {
        NodeIdType::NormalMessage | NodeIdType::AssociatedMessage | NodeIdType::Attachment => Ok(t),
        _ => Err(MessagingError::InvalidMessageEntryIdType(t)),
    }
}

/// Checks that the sub-node of an attachment has the attachment type.
pub fn check_attachment_node(node_id: NodeId) -> (r: Result<NodeIdType, MessagingError>)
    ensures
        r == match spec_node_type(node_id@) {
            Ok(t) => if t == NodeIdType::Attachment {
                Ok(t)
            } else {
                Err(MessagingError::InvalidAttachmentNodeIdType(t))
            },
            Err(e) => Err(e),
        },
{
    let t = match node_type(node_id) {
        Ok(t) => t,
        Err(e) => return Err(e),
    };
    match t {
        NodeIdType::Attachment => Ok(t),
        _ => Err(MessagingError::InvalidAttachmentNodeIdType(t)),
    }
}

/// The raw node id of type `t` with index `index`.
pub open spec fn spec_node_id(t: NodeIdType, index: u32) -> u32 {
    (index * 32 + t.spec_code()) as u32
}

/// The node ids of a folder's hierarchy, contents and associated contents tables: the
/// folder's index with each table's type.
pub fn folder_table_nodes(node_id: NodeId) -> (r: (NodeId, NodeId, NodeId))
    ensures
        r.0@ == spec_node_id(NodeIdType::HierarchyTable, nid_index(node_id@)),
        r.1@ == spec_node_id(NodeIdType::ContentsTable, nid_index(node_id@)),
        r.2@ == spec_node_id(NodeIdType::AssociatedContentsTable, nid_index(node_id@)),
{
    let index = node_id.index();
    let ghost raw = node_id@;
    assert(index <= MAX_NODE_INDEX) by (bit_vector)
        requires
            index == raw >> 5,
    ;
    let hierarchy = match NodeId::new(NodeIdType::HierarchyTable, index) {
        Ok(n) => n,
        Err(_) => vstd::pervasive::unreached(),
    };
    let contents = match NodeId::new(NodeIdType::ContentsTable, index) {
        Ok(n) => n,
        Err(_) => vstd::pervasive::unreached(),
    };
    let associated = match NodeId::new(NodeIdType::AssociatedContentsTable, index) {
        Ok(n) => n,
        Err(_) => vstd::pervasive::unreached(),
    };
    (hierarchy, contents, associated)
}

/// Whether property `id` is kept when only the properties in `prop_ids` are asked for;
/// all are kept when none are named.
pub open spec fn property_wanted(id: u16, prop_ids: Option<Seq<u16>>) -> bool {
    match prop_ids {
        Some(ids) => ids.contains(id),
        None => true,
    }
}

/// The properties of `props` that are wanted, in order.
pub open spec fn wanted_properties(
    props: Seq<(u16, PropertyValueModel)>,
    prop_ids: Option<Seq<u16>>,
) -> Seq<(u16, PropertyValueModel)> {
    props.filter(|e: (u16, PropertyValueModel)| property_wanted(e.0, prop_ids))
}

/// Whether `ids` contains `id`.
fn contains_id(ids: &[u16], id: u16) -> (r: bool)
    ensures
        r == ids@.contains(id),
{
    let mut i: usize = 0;
    while i < ids.len()
        invariant
            i <= ids@.len(),
            forall|j: int| 0 <= j < i ==> ids@[j] != id,
        decreases ids@.len() - i,
    {
        if ids[i] == id {
            assert(ids@[i as int] == id);
            return true;
        }
        i = i + 1;
    }
    false
}

/// Keeps the properties whose ids are in `prop_ids`, in order; all of them when
/// `prop_ids` is none.
pub fn filter_properties(
    props: Vec<(u16, PropertyValue)>,
    prop_ids: Option<&[u16]>,
) -> (r: Vec<(u16, PropertyValue)>)
    ensures
        property_models(r@) == wanted_properties(property_models(props@), match prop_ids {
            Some(ids) => Some(ids@),
            None => None,
        }),
{
    let ghost wanted = match prop_ids {
        Some(ids) => Some(ids@),
        None => None::<Seq<u16>>,
    };
    let ghost models = property_models(props@);
    let ghost f = |x: (u16, PropertyValueModel)| property_wanted(x.0, wanted);
    let ghost n = props@.len();
    let mut kept: Vec<(u16, PropertyValue)> = Vec::new();
    let mut rest = props;
    let ghost all = rest@;
    proof {
        assert(models.subrange(0, 0) =~= Seq::<(u16, PropertyValueModel)>::empty());
        assert(property_models(kept@) =~= Seq::<(u16, PropertyValueModel)>::empty());
    }
    while rest.len() > 0
        invariant
            n == all.len(),
            models == property_models(all),
            rest@.len() <= n,
            rest@ == all.subrange(n - rest@.len(), n as int),
            property_models(kept@) == models.subrange(0, n - rest@.len()).filter(f),
            f == (|x: (u16, PropertyValueModel)| property_wanted(x.0, wanted)),
            wanted == match prop_ids {
                Some(ids) => Some(ids@),
                None => None::<Seq<u16>>,
            },
        decreases rest@.len(),
    {
        let ghost done = n - rest@.len();
        let e = rest.remove(0);
        assert(e == all[done]);
        let keep = match prop_ids {
            Some(ids) => contains_id(ids, e.0),
            None => true,
        };
        proof {
            let m = (e.0, e.1@);
            assert(models[done] == m);
            assert(models.subrange(0, done).push(m) =~= models.subrange(0, done + 1));
            models.subrange(0, done).lemma_filter_push(m, f);
            assert(keep == f(m));
            assert(rest@ =~= all.subrange(n - rest@.len(), n as int));
        }
        if keep {
            let ghost before = kept@;
            kept.push(e);
            proof {
                assert(property_models(kept@) =~= property_models(before).push((e.0, e.1@)));
            }
        }
    }
    proof {
        assert(models.subrange(0, n as int) =~= models);
    }
    kept
}

/// Among the sub-nodes of a message, those of type `t`, in order.
pub open spec fn nodes_of_type(nodes: Seq<NodeId>, t: NodeIdType) -> Seq<NodeId> {
    nodes.filter(|n: NodeId| spec_node_type(n@) == Ok::<NodeIdType, MessagingError>(t))
}

/// The sub-nodes of type `t`, in order.
fn find_nodes_of_type(nodes: &[NodeId], t: NodeIdType) -> (r: Vec<NodeId>)
    ensures
        r@ == nodes_of_type(nodes@, t),
{
    let mut found: Vec<NodeId> = Vec::new();
    let mut i: usize = 0;
    while i < nodes.len()
        invariant
            i <= nodes@.len(),
            found@ == nodes_of_type(nodes@.subrange(0, i as int), t),
        decreases nodes@.len() - i,
    {
        let n = nodes[i];
        proof {
            let f = |m: NodeId| spec_node_type(m@) == Ok::<NodeIdType, MessagingError>(t);
            nodes@.subrange(0, i as int).lemma_filter_push(n, f);
            assert(nodes@.subrange(0, i as int).push(n) =~= nodes@.subrange(0, i + 1));
        }
        let matches = match node_type(n) {
            Ok(u) => u == t,
            Err(_) => false,
        };
        if matches {
            found.push(n);
        }
        i = i + 1;
    }
    assert(nodes@.subrange(0, i as int) =~= nodes@);
    found
}

/// The recipient table and the attachment table of a message, among the node ids of its
/// sub-nodes: exactly one recipient table and at most one attachment table.
pub open spec fn spec_message_tables(nodes: Seq<NodeId>) -> Result<(NodeId, Option<NodeId>), MessagingError> {
    let recipients = nodes_of_type(nodes, NodeIdType::RecipientTable);
    let attachments = nodes_of_type(nodes, NodeIdType::AttachmentTable);
    if recipients.len() == 0 {
        Err(MessagingError::MessageRecipientTableNotFound)
    } else if recipients.len() > 1 {
        Err(MessagingError::MultipleMessageRecipientTables)
    } else if attachments.len() > 1 {
        Err(MessagingError::MultipleMessageAttachmentTables)
    } else {
        Ok((recipients[0], if attachments.len() == 1 { Some(attachments[0]) } else { None }))
    }
}

/// Finds the recipient table and the attachment table of a message among the node ids
/// of its sub-nodes.
pub fn message_tables(sub_nodes: &[NodeId]) -> (r: Result<(NodeId, Option<NodeId>), MessagingError>)
    ensures
        r == spec_message_tables(sub_nodes@),
{
    let recipients = find_nodes_of_type(sub_nodes, NodeIdType::RecipientTable);
    let attachments = find_nodes_of_type(sub_nodes, NodeIdType::AttachmentTable);
    if recipients.len() == 0 {
        return Err(MessagingError::MessageRecipientTableNotFound);
    }
    if recipients.len() > 1 {
        return Err(MessagingError::MultipleMessageRecipientTables);
    }
    if attachments.len() > 1 {
        return Err(MessagingError::MultipleMessageAttachmentTables);
    }
    let attachment = if attachments.len() == 1 { Some(attachments[0]) } else { None };
    Ok((recipients[0], attachment))
}

/// Where the data of an attachment is.
#[derive(Debug)]
pub enum AttachmentDataSource {
    /// The data itself, stored in the attachment's properties.
    Binary(Vec<u8>),
    /// The sub-node that holds an embedded message.
    Message(NodeId),
    /// The sub-node whose block holds data in an application's own format.
    Storage(NodeId),
}

/// The view of where an attachment's data is.
pub enum DataSourceModel {
    Binary(Seq<u8>),
    Message(u32),
    Storage(u32),
}

impl View for AttachmentDataSource {
    type V = DataSourceModel;

    open spec fn view(&self) -> DataSourceModel {
        match self {
            AttachmentDataSource::Binary(v) => DataSourceModel::Binary(v@),
            AttachmentDataSource::Message(n) => DataSourceModel::Message(n@),
            AttachmentDataSource::Storage(n) => DataSourceModel::Storage(n@),
        }
    }
}

/// The property that holds an attachment's data or the node of it (`PidTagAttachDataBinary`
/// and `PidTagAttachDataObject` share the id).
pub const ATTACH_DATA_PROP_ID: u16 = 0x3701;

/// Where the data of an attachment with the properties `props` is: its bytes for an
/// attachment by value, the node of the message for an embedded message, the node of
/// the data for storage, and none for the other methods.
pub open spec fn spec_attachment_data(props: Seq<(u16, PropertyValueModel)>) -> Result<Option<DataSourceModel>, MessagingError> {
    match property_lookup(props, 0x3705) {
        None => Err(MessagingError::AttachmentMethodNotFound),
        Some(PropertyValueModel::Integer32(m)) => match AttachmentMethod::spec_from_code(m) {
            None => Err(MessagingError::UnknownAttachmentMethod(m)),
            Some(AttachmentMethod::ByValue) => match property_lookup(props, ATTACH_DATA_PROP_ID) {
                None => Err(MessagingError::AttachmentMessageObjectDataNotFound),
                Some(PropertyValueModel::Binary(v)) => Ok(Some(DataSourceModel::Binary(v))),
                Some(other) => Err(MessagingError::InvalidMessageObjectData(value_type(other))),
            },
            Some(AttachmentMethod::EmbeddedMessage) => match property_lookup(props, ATTACH_DATA_PROP_ID) {
                None => Err(MessagingError::AttachmentMessageObjectDataNotFound),
                Some(PropertyValueModel::Object(o)) => Ok(Some(DataSourceModel::Message(o.0))),
                Some(other) => Err(MessagingError::InvalidMessageObjectData(value_type(other))),
            },
            Some(AttachmentMethod::Storage) => match property_lookup(props, ATTACH_DATA_PROP_ID) {
                None => Err(MessagingError::AttachmentMessageObjectDataNotFound),
                Some(PropertyValueModel::Object(o)) => Ok(Some(DataSourceModel::Storage(o.0))),
                Some(other) => Err(MessagingError::InvalidMessageObjectData(value_type(other))),
            },
            Some(_) => Ok(None),
        },
        Some(other) => Err(MessagingError::InvalidAttachmentMethod(value_type(other))),
    }
}

/// Finds where the data of an attachment is, from its properties.
pub fn attachment_data(props: &AttachmentProperties) -> (r: Result<Option<AttachmentDataSource>, MessagingError>)
    ensures
        match r {
            Ok(Some(d)) => spec_attachment_data(props@) == Ok::<Option<DataSourceModel>, MessagingError>(Some(d@)),
            Ok(None) => spec_attachment_data(props@) == Ok::<Option<DataSourceModel>, MessagingError>(None),
            Err(e) => spec_attachment_data(props@) == Err::<Option<DataSourceModel>, MessagingError>(e),
        },
{
    let code = match props.attachment_method() {
        Ok(m) => m,
        Err(e) => return Err(e),
    };
    let method = match AttachmentMethod::try_from_i32(code) {
        Ok(m) => m,
        Err(e) => return Err(e),
    };
    match method {
        AttachmentMethod::ByValue => match props.get(ATTACH_DATA_PROP_ID) {
            None => Err(MessagingError::AttachmentMessageObjectDataNotFound),
            Some(PropertyValue::Binary(v)) => {
                let data = copy_range(v.as_slice(), 0, v.len());
                assert(v@.subrange(0, v@.len() as int) =~= v@);
                Ok(Some(AttachmentDataSource::Binary(data)))
            },
            Some(other) => Err(MessagingError::InvalidMessageObjectData(other.prop_type())),
        },
        AttachmentMethod::EmbeddedMessage => match props.get(ATTACH_DATA_PROP_ID) {
            None => Err(MessagingError::AttachmentMessageObjectDataNotFound),
            Some(PropertyValue::Object(o)) => Ok(Some(AttachmentDataSource::Message(o.node()))),
            Some(other) => Err(MessagingError::InvalidMessageObjectData(other.prop_type())),
        },
        AttachmentMethod::Storage => match props.get(ATTACH_DATA_PROP_ID) {
            None => Err(MessagingError::AttachmentMessageObjectDataNotFound),
            Some(PropertyValue::Object(o)) => Ok(Some(AttachmentDataSource::Storage(o.node()))),
            Some(other) => Err(MessagingError::InvalidMessageObjectData(other.prop_type())),
        },
        _ => Ok(None),
    }
}

} // verus!
