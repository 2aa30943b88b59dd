//! Property Context (PC):
//! the records of a property context and the encoding of property values.
//!
//! Floating-point values are held as their IEEE 754 bit patterns.

use vstd::prelude::*;
use crate::codec::{
    copy_range, le16, le32, le64, lemma_le_roundtrip, push_bytes, push_i16s, push_i32s, push_i64s, push_u16, push_u16s,
    push_u32, push_u32s, push_u64, push_u64s, read_i16s_at, read_i32s_at, read_i64s_at, read_u16_at, read_u16s_at,
    read_u32_at, read_u32s_at, read_u64_at, read_u64s_at, u16_at, u16s_at, u16s_bytes, u32_at, u32s_at, u32s_bytes,
    u64_at, u64s_at, u64s_bytes, i16s_at, i16s_bytes, i32s_at, i32s_bytes, i64s_at, i64s_bytes, view_result,
    lemma_i16s_roundtrip, lemma_i32s_roundtrip, lemma_u16s_at, lemma_u16s_bytes, lemma_i64s_roundtrip, lemma_u16s_roundtrip, lemma_u32s_at,
    lemma_u32s_bytes, lemma_u64s_roundtrip,
};
use crate::ndb::node_id::{nid_type_code, NodeId};
use super::LtpError;
use super::read_write::{PropertyTreeRecordReadWrite, PropertyValueReadWrite};
use super::heap::HeapId;
use super::prop_type::PropertyType;

verus! {

/// The view of a `dwValueHnid`: which kind of value it is and its raw 32 bits.
pub enum ValueRecordModel {
    Small(u32),
    Heap(u32),
    Node(u32),
}

/// `dwValueHnid`: a value small enough to be stored in place, the heap id of the
/// value, or the id of the sub-node that holds it.
#[derive(Debug, Clone, Copy, PartialEq, Eq, Structural)]
pub enum PropertyValueRecord {
    Small(u32),
    Heap(HeapId),
    Node(NodeId),
}

impl View for PropertyValueRecord {
    type V = ValueRecordModel;

    open spec fn view(&self) -> ValueRecordModel {
        match self {
            PropertyValueRecord::Small(v) => ValueRecordModel::Small(*v),
            PropertyValueRecord::Heap(h) => ValueRecordModel::Heap(h@),
            PropertyValueRecord::Node(n) => ValueRecordModel::Node(n@),
        }
    }
}

/// The raw 32 bits of a value record.
pub open spec fn record_raw(m: ValueRecordModel) -> u32 {
    match m {
        ValueRecordModel::Small(v) => v,
        ValueRecordModel::Heap(v) => v,
        ValueRecordModel::Node(v) => v,
    }
}

impl PropertyValueRecord {
    /// The raw 32 bits of the record.
    pub fn raw_value(&self) -> (r: u32)
        ensures
            r == record_raw(self@),
    {
        match self {
            PropertyValueRecord::Small(v) => *v,
            PropertyValueRecord::Heap(h) => h.value(),
            PropertyValueRecord::Node(n) => n.value(),
        }
    }
}

/// How the raw value `v` of a property of type `t` is read: fixed values of at most
/// 4 bytes are stored in place, fixed values of 8 or more bytes in the heap, and
/// variable-size values in the heap when `v` is a heap id, else in a sub-node.
pub open spec fn classify_record(t: PropertyType, v: u32) -> ValueRecordModel {
    match t {
        PropertyType::Null | PropertyType::Integer16 | PropertyType::Integer32 | PropertyType::Floating32
        | PropertyType::ErrorCode | PropertyType::Boolean => ValueRecordModel::Small(v),
        PropertyType::Floating64 | PropertyType::Currency | PropertyType::FloatingTime | PropertyType::Integer64
        | PropertyType::Time | PropertyType::Guid | PropertyType::Object => ValueRecordModel::Heap(v),
        _ => if nid_type_code(v) == 0 {
            ValueRecordModel::Heap(v)
        } else {
            ValueRecordModel::Node(v)
        },
    }
}

/// Where a property record keeps its value: in place exactly for the fixed types of
/// at most 4 bytes (Null, Integer16, Integer32, Floating32, ErrorCode, Boolean), in
/// the heap, under the record's heap id, for every fixed type of 8 or more bytes
/// (Floating64, Currency, FloatingTime, Integer64, Time, Guid, Object); a value in
/// place is the record's raw value. A variable-size value is in the heap when the raw
/// value is a heap id (its node type bits are 0), else in a sub-node.
pub proof fn lemma_classify_record_placement(t: PropertyType, v: u32)
    ensures
        (classify_record(t, v) is Small) <==> (t == PropertyType::Null || t == PropertyType::Integer16
            || t == PropertyType::Integer32 || t == PropertyType::Floating32 || t == PropertyType::ErrorCode
            || t == PropertyType::Boolean),
        (t == PropertyType::Floating64 || t == PropertyType::Currency || t == PropertyType::FloatingTime
            || t == PropertyType::Integer64 || t == PropertyType::Time || t == PropertyType::Guid
            || t == PropertyType::Object) ==> classify_record(t, v) == ValueRecordModel::Heap(v),
        classify_record(t, v) matches ValueRecordModel::Small(x) ==> x == v,
        !(t == PropertyType::Null || t == PropertyType::Integer16 || t == PropertyType::Integer32
            || t == PropertyType::Floating32 || t == PropertyType::ErrorCode || t == PropertyType::Boolean
            || t == PropertyType::Floating64 || t == PropertyType::Currency || t == PropertyType::FloatingTime
            || t == PropertyType::Integer64 || t == PropertyType::Time || t == PropertyType::Guid
            || t == PropertyType::Object) ==> classify_record(t, v) == (if crate::ndb::node_id::nid_type_code(v) == 0 {
                ValueRecordModel::Heap(v)
            } else {
                ValueRecordModel::Node(v)
            }),
{
}

/// The record of type `t` for the raw value `v`.
fn classify(t: PropertyType, v: u32) -> (r: PropertyValueRecord)
    ensures
        r@ == classify_record(t, v),
{
    match t {
        PropertyType::Null | PropertyType::Integer16 | PropertyType::Integer32 | PropertyType::Floating32
        | PropertyType::ErrorCode | PropertyType::Boolean => PropertyValueRecord::Small(v),
        PropertyType::Floating64 | PropertyType::Currency | PropertyType::FloatingTime | PropertyType::Integer64
        | PropertyType::Time | PropertyType::Guid | PropertyType::Object => PropertyValueRecord::Heap(HeapId::from_u32(v)),
        _ => if (v & 0x1F) as u8 == 0 {
            PropertyValueRecord::Heap(HeapId::from_u32(v))
        } else {
            PropertyValueRecord::Node(NodeId::from_u32(v))
        },
    }
}

/// The fields of a property record.
pub struct PropertyTreeRecordModel {
    pub prop_id: u16,
    pub prop_type: PropertyType,
    pub value: ValueRecordModel,
}

/// PC BTH Record:
/// a property id, its type and where its value is.
#[derive(Debug, Clone, Copy, PartialEq, Eq, Structural)]
pub struct PropertyTreeRecord {
    prop_id: u16,
    prop_type: PropertyType,
    value: PropertyValueRecord,
}

impl View for PropertyTreeRecord {
    type V = PropertyTreeRecordModel;

    closed spec fn view(&self) -> PropertyTreeRecordModel {
        PropertyTreeRecordModel { prop_id: self.prop_id, prop_type: self.prop_type, value: self.value@ }
    }
}

/// The property record held in the 8 bytes of `s`: `wPropId`, `wPropType` and `dwValueHnid`.
pub open spec fn parse_property_tree_record(s: Seq<u8>) -> Result<PropertyTreeRecordModel, LtpError> {
    match PropertyType::spec_from_code(u16_at(s, 2)) {
        None => Err(LtpError::InvalidPropertyType(u16_at(s, 2))),
        Some(t) => Ok(PropertyTreeRecordModel { prop_id: u16_at(s, 0), prop_type: t, value: classify_record(t, u32_at(s, 4)) }),
    }
}

/// The 8 bytes of a property record.
pub open spec fn property_tree_record_bytes(m: PropertyTreeRecordModel) -> Seq<u8> {
    le16(m.prop_id) + le16(m.prop_type.spec_code()) + le32(record_raw(m.value))
}

impl PropertyTreeRecord {
    /// The property id.
    pub fn prop_id(&self) -> (r: u16)
        ensures
            r == self@.prop_id,
    {
        self.prop_id
    }

    /// The property type.
    pub fn prop_type(&self) -> (r: PropertyType)
        ensures
            r == self@.prop_type,
    {
        self.prop_type
    }

    /// Where the value is.
    pub fn value(&self) -> (r: PropertyValueRecord)
        ensures
            r@ == self@.value,
    {
        self.value
    }
}

impl PropertyTreeRecordReadWrite for PropertyTreeRecord {
    /// Reads a record from the first 8 bytes of `b`; the property type must be known.
    fn read(b: &[u8]) -> (r: Result<PropertyTreeRecord, LtpError>)
        ensures
            b@.len() < 8 ==> r == Err::<PropertyTreeRecord, LtpError>(LtpError::UnexpectedEndOfData),
            b@.len() >= 8 ==> view_result(r) == parse_property_tree_record(b@.subrange(0, 8)),
    {
        if b.len() < 8 {
            return Err(LtpError::UnexpectedEndOfData);
        }
        let ghost s = b@.subrange(0, 8);
        assert(s.subrange(0, 2) =~= b@.subrange(0, 2));
        assert(s.subrange(2, 4) =~= b@.subrange(2, 4));
        assert(s.subrange(4, 8) =~= b@.subrange(4, 8));
        let prop_id = read_u16_at(b, 0);
        let prop_type = match PropertyType::try_from_u16(read_u16_at(b, 2)) {
            Ok(t) => t,
            Err(e) => return Err(e),
        };
        let value = classify(prop_type, read_u32_at(b, 4));
        Ok(PropertyTreeRecord { prop_id, prop_type, value })
    }

    /// Appends the 8 bytes of the record.
    fn write(&self, out: &mut Vec<u8>)
        ensures
            final(out)@ == old(out)@ + property_tree_record_bytes(self@),
    {
        push_u16(out, self.prop_id);
        push_u16(out, self.prop_type.code());
        push_u32(out, self.value.raw_value());
        assert(out@ =~= old(out)@ + property_tree_record_bytes(self@));
    }
}

/// Reading the bytes of a record gives it back, when its value is where the
/// property type puts it (as for every record that was read).
pub proof fn lemma_property_tree_record_roundtrip(m: PropertyTreeRecordModel)
    requires
        m.value == classify_record(m.prop_type, record_raw(m.value)),
    ensures
        property_tree_record_bytes(m).len() == 8,
        parse_property_tree_record(property_tree_record_bytes(m)) == Ok::<PropertyTreeRecordModel, LtpError>(m),
{
    lemma_le_roundtrip();
    let s = property_tree_record_bytes(m);
    assert(s.subrange(0, 2) =~= le16(m.prop_id));
    assert(s.subrange(2, 4) =~= le16(m.prop_type.spec_code()));
    assert(s.subrange(4, 8) =~= le32(record_raw(m.value)));
    super::prop_type::lemma_property_type_code_roundtrip(m.prop_type);
}

/// The fields of a GUID.
pub struct GuidModel {
    pub data1: u32,
    pub data2: u16,
    pub data3: u16,
    pub data4: Seq<u8>,
}

/// A GUID: `Data1`, `Data2` and `Data3` in little-endian order, then the 8 bytes of `Data4`.
#[derive(Debug, Clone, Copy, PartialEq, Eq)]
pub struct GuidValue {
    data1: u32,
    data2: u16,
    data3: u16,
    data4: [u8; 8],
}

impl View for GuidValue {
    type V = GuidModel;

    closed spec fn view(&self) -> GuidModel {
        GuidModel { data1: self.data1, data2: self.data2, data3: self.data3, data4: self.data4@ }
    }
}

/// The GUID stored at offset `off` of `s`.
pub open spec fn guid_at(s: Seq<u8>, off: int) -> GuidModel {
    GuidModel {
        data1: u32_at(s, off),
        data2: u16_at(s, off + 4),
        data3: u16_at(s, off + 6),
        data4: s.subrange(off + 8, off + 16),
    }
}

/// The 16 bytes of a GUID.
pub open spec fn guid_bytes(g: GuidModel) -> Seq<u8> {
    le32(g.data1) + le16(g.data2) + le16(g.data3) + g.data4
}

impl GuidValue {
    /// The GUID with the given fields.
    pub fn new(data1: u32, data2: u16, data3: u16, data4: [u8; 8]) -> (r: GuidValue)
        ensures
            r@ == (GuidModel { data1, data2, data3, data4: data4@ }),
    {
        GuidValue { data1, data2, data3, data4 }
    }

    /// `Data1`.
    pub fn data1(&self) -> (r: u32)
        ensures
            r == self@.data1,
    {
        self.data1
    }

    /// `Data2`.
    pub fn data2(&self) -> (r: u16)
        ensures
            r == self@.data2,
    {
        self.data2
    }

    /// `Data3`.
    pub fn data3(&self) -> (r: u16)
        ensures
            r == self@.data3,
    {
        self.data3
    }

    /// `Data4`.
    pub fn data4(&self) -> (r: &[u8; 8])
        ensures
            r@ == self@.data4,
    {
        &self.data4
    }

    /// Reads the GUID stored at offset `off`.
    pub fn read_at(b: &[u8], off: usize) -> (r: GuidValue)
        requires
            off + 16 <= b@.len(),
        ensures
            r@ == guid_at(b@, off as int),
    {
        let len = b.len();
        assert(off + 16 <= len);
        let data1 = read_u32_at(b, off);
        let data2 = read_u16_at(b, off + 4);
        let data3 = read_u16_at(b, off + 6);
        let data4 = [
            b[off + 8], b[off + 9], b[off + 10], b[off + 11], b[off + 12], b[off + 13], b[off + 14], b[off + 15],
        ];
        assert(data4@ =~= b@.subrange(off + 8, off + 16));
        GuidValue { data1, data2, data3, data4 }
    }

    /// Appends the 16 bytes of the GUID.
    pub fn write(&self, out: &mut Vec<u8>)
        ensures
            final(out)@ == old(out)@ + guid_bytes(self@),
    {
        push_u32(out, self.data1);
        push_u16(out, self.data2);
        push_u16(out, self.data3);
        push_bytes(out, &self.data4);
        assert(out@ =~= old(out)@ + guid_bytes(self@));
    }
}

/// An object value: the node that holds the object and its size.
#[derive(Debug, Clone, Copy, PartialEq, Eq, Structural)]
pub struct ObjectValue {
    node_id: NodeId,
    size: u32,
}

impl View for ObjectValue {
    /// The raw node id and the size.
    type V = (u32, u32);

    closed spec fn view(&self) -> (u32, u32) {
        (self.node_id@, self.size)
    }
}

impl ObjectValue {
    /// The object held by node `node_id`, of `size` bytes.
    pub fn new(node_id: NodeId, size: u32) -> (r: ObjectValue)
        ensures
            r@ == (node_id@, size),
    {
        ObjectValue { node_id, size }
    }

    /// The node that holds the object.
    pub fn node(&self) -> (r: NodeId)
        ensures
            r@ == self@.0,
    {
        self.node_id
    }

    /// The size of the object.
    pub fn size(&self) -> (r: u32)
        ensures
            r == self@.1,
    {
        self.size
    }
}


/// The view of a property value; floating-point values are their bit patterns.
pub enum PropertyValueModel {
    Null,
    Integer16(i16),
    Integer32(i32),
    Floating32(u32),
    Floating64(u64),
    Currency(i64),
    FloatingTime(u64),
    ErrorCode(i32),
    Boolean(bool),
    Integer64(i64),
    String8(Seq<u8>),
    Unicode(Seq<u16>),
    Time(i64),
    Guid(GuidModel),
    Binary(Seq<u8>),
    Object((u32, u32)),
    MultipleInteger16(Seq<i16>),
    MultipleInteger32(Seq<i32>),
    MultipleFloating32(Seq<u32>),
    MultipleFloating64(Seq<u64>),
    MultipleCurrency(Seq<i64>),
    MultipleFloatingTime(Seq<u64>),
    MultipleInteger64(Seq<i64>),
    MultipleString8(Seq<Seq<u8>>),
    MultipleUnicode(Seq<Seq<u16>>),
    MultipleTime(Seq<i64>),
    MultipleGuid(Seq<GuidModel>),
    MultipleBinary(Seq<Seq<u8>>),
}

/// A property value. `Floating32`, `Floating64` and `FloatingTime` values, and the
/// lists of them, hold the IEEE 754 bit patterns of the numbers.
#[derive(Debug, Clone)]
pub enum PropertyValue {
    /// `PtypNull`: a placeholder
    Null,
    /// `PtypInteger16`: a 16-bit integer
    Integer16(i16),
    /// `PtypInteger32`: a 32-bit integer
    Integer32(i32),
    /// `PtypFloating32`: the bits of a 32-bit floating-point number
    Floating32(u32),
    /// `PtypFloating64`: the bits of a 64-bit floating-point number
    Floating64(u64),
    /// `PtypCurrency`: a 64-bit signed, scaled integer with four decimal places
    Currency(i64),
    /// `PtypFloatingTime`: the bits of a 64-bit floating-point number of days since December 30, 1899
    FloatingTime(u64),
    /// `PtypErrorCode`: a 32-bit error code
    ErrorCode(i32),
    /// `PtypBoolean`: 0 or 1
    Boolean(bool),
    /// `PtypInteger64`: a 64-bit integer
    Integer64(i64),
    /// `PtypString8`: multibyte characters ending with a 0 byte
    String8(Vec<u8>),
    /// `PtypString`: UTF-16LE characters ending with 0x0000
    Unicode(Vec<u16>),
    /// `PtypTime`: 100-nanosecond intervals since January 1, 1601
    Time(i64),
    /// `PtypGuid`: a GUID
    Guid(GuidValue),
    /// `PtypBinary`: bytes
    Binary(Vec<u8>),
    /// `PtypObject`: an object held by a node
    Object(ObjectValue),
    /// `PtypMultipleInteger16`
    MultipleInteger16(Vec<i16>),
    /// `PtypMultipleInteger32`
    MultipleInteger32(Vec<i32>),
    /// `PtypMultipleFloating32`
    MultipleFloating32(Vec<u32>),
    /// `PtypMultipleFloating64`
    MultipleFloating64(Vec<u64>),
    /// `PtypMultipleCurrency`
    MultipleCurrency(Vec<i64>),
    /// `PtypMultipleFloatingTime`
    MultipleFloatingTime(Vec<u64>),
    /// `PtypMultipleInteger64`
    MultipleInteger64(Vec<i64>),
    /// `PtypMultipleString8`
    MultipleString8(Vec<Vec<u8>>),
    /// `PtypMultipleString`
    MultipleUnicode(Vec<Vec<u16>>),
    /// `PtypMultipleTime`
    MultipleTime(Vec<i64>),
    /// `PtypMultipleGuid`
    MultipleGuid(Vec<GuidValue>),
    /// `PtypMultipleBinary`
    MultipleBinary(Vec<Vec<u8>>),
}

/// The views of a list of byte strings.
pub open spec fn byte_items(v: Seq<Vec<u8>>) -> Seq<Seq<u8>> {
    v.map_values(|x: Vec<u8>| x@)
}

/// The views of a list of UTF-16 strings.
pub open spec fn unicode_items(v: Seq<Vec<u16>>) -> Seq<Seq<u16>> {
    v.map_values(|x: Vec<u16>| x@)
}

/// The views of a list of GUIDs.
pub open spec fn guid_items(v: Seq<GuidValue>) -> Seq<GuidModel> {
    v.map_values(|x: GuidValue| x@)
}

impl View for PropertyValue {
    type V = PropertyValueModel;

    open spec fn view(&self) -> PropertyValueModel {
        match self {
            PropertyValue::Null => PropertyValueModel::Null,
            PropertyValue::Integer16(v) => PropertyValueModel::Integer16(*v),
            PropertyValue::Integer32(v) => PropertyValueModel::Integer32(*v),
            PropertyValue::Floating32(v) => PropertyValueModel::Floating32(*v),
            PropertyValue::Floating64(v) => PropertyValueModel::Floating64(*v),
            PropertyValue::Currency(v) => PropertyValueModel::Currency(*v),
            PropertyValue::FloatingTime(v) => PropertyValueModel::FloatingTime(*v),
            PropertyValue::ErrorCode(v) => PropertyValueModel::ErrorCode(*v),
            PropertyValue::Boolean(v) => PropertyValueModel::Boolean(*v),
            PropertyValue::Integer64(v) => PropertyValueModel::Integer64(*v),
            PropertyValue::String8(v) => PropertyValueModel::String8(v@),
            PropertyValue::Unicode(v) => PropertyValueModel::Unicode(v@),
            PropertyValue::Time(v) => PropertyValueModel::Time(*v),
            PropertyValue::Guid(v) => PropertyValueModel::Guid(v@),
            PropertyValue::Binary(v) => PropertyValueModel::Binary(v@),
            PropertyValue::Object(v) => PropertyValueModel::Object(v@),
            PropertyValue::MultipleInteger16(v) => PropertyValueModel::MultipleInteger16(v@),
            PropertyValue::MultipleInteger32(v) => PropertyValueModel::MultipleInteger32(v@),
            PropertyValue::MultipleFloating32(v) => PropertyValueModel::MultipleFloating32(v@),
            PropertyValue::MultipleFloating64(v) => PropertyValueModel::MultipleFloating64(v@),
            PropertyValue::MultipleCurrency(v) => PropertyValueModel::MultipleCurrency(v@),
            PropertyValue::MultipleFloatingTime(v) => PropertyValueModel::MultipleFloatingTime(v@),
            PropertyValue::MultipleInteger64(v) => PropertyValueModel::MultipleInteger64(v@),
            PropertyValue::MultipleString8(v) => PropertyValueModel::MultipleString8(byte_items(v@)),
            PropertyValue::MultipleUnicode(v) => PropertyValueModel::MultipleUnicode(unicode_items(v@)),
            PropertyValue::MultipleTime(v) => PropertyValueModel::MultipleTime(v@),
            PropertyValue::MultipleGuid(v) => PropertyValueModel::MultipleGuid(guid_items(v@)),
            PropertyValue::MultipleBinary(v) => PropertyValueModel::MultipleBinary(byte_items(v@)),
        }
    }
}

/// The property type of each kind of value.
pub open spec fn value_type(m: PropertyValueModel) -> PropertyType {
    match m {
        PropertyValueModel::Null => PropertyType::Null,
        PropertyValueModel::Integer16(_) => PropertyType::Integer16,
        PropertyValueModel::Integer32(_) => PropertyType::Integer32,
        PropertyValueModel::Floating32(_) => PropertyType::Floating32,
        PropertyValueModel::Floating64(_) => PropertyType::Floating64,
        PropertyValueModel::Currency(_) => PropertyType::Currency,
        PropertyValueModel::FloatingTime(_) => PropertyType::FloatingTime,
        PropertyValueModel::ErrorCode(_) => PropertyType::ErrorCode,
        PropertyValueModel::Boolean(_) => PropertyType::Boolean,
        PropertyValueModel::Integer64(_) => PropertyType::Integer64,
        PropertyValueModel::String8(_) => PropertyType::String8,
        PropertyValueModel::Unicode(_) => PropertyType::Unicode,
        PropertyValueModel::Time(_) => PropertyType::Time,
        PropertyValueModel::Guid(_) => PropertyType::Guid,
        PropertyValueModel::Binary(_) => PropertyType::Binary,
        PropertyValueModel::Object(_) => PropertyType::Object,
        PropertyValueModel::MultipleInteger16(_) => PropertyType::MultipleInteger16,
        PropertyValueModel::MultipleInteger32(_) => PropertyType::MultipleInteger32,
        PropertyValueModel::MultipleFloating32(_) => PropertyType::MultipleFloating32,
        PropertyValueModel::MultipleFloating64(_) => PropertyType::MultipleFloating64,
        PropertyValueModel::MultipleCurrency(_) => PropertyType::MultipleCurrency,
        PropertyValueModel::MultipleFloatingTime(_) => PropertyType::MultipleFloatingTime,
        PropertyValueModel::MultipleInteger64(_) => PropertyType::MultipleInteger64,
        PropertyValueModel::MultipleString8(_) => PropertyType::MultipleString8,
        PropertyValueModel::MultipleUnicode(_) => PropertyType::MultipleUnicode,
        PropertyValueModel::MultipleTime(_) => PropertyType::MultipleTime,
        PropertyValueModel::MultipleGuid(_) => PropertyType::MultipleGuid,
        PropertyValueModel::MultipleBinary(_) => PropertyType::MultipleBinary,
    }
}

/// Whether `v` ends with a 0.
pub open spec fn null_terminated<T>(v: Seq<T>, zero: T) -> bool {
    v.len() > 0 && v.last() == zero
}

/// The items of a multi-valued string or binary property from item `i` on, item `i`
/// starting at `start`: each offset must be the end of the item before, offsets must
/// grow, and the last item runs to the end of the data. With `terminated`, every
/// item must end with a 0 byte.
pub open spec fn parse_multi_bytes(s: Seq<u8>, offsets: Seq<u32>, i: nat, start: int, terminated: bool) -> Result<Seq<Seq<u8>>, LtpError>
    decreases offsets.len() - i,
{
    if i >= offsets.len() {
        Ok(Seq::empty())
    } else if offsets[i as int] != start {
        Err(LtpError::InvalidMultiValuePropertyOffset(offsets[i as int] as usize))
    } else if i + 1 < offsets.len() {
        let next = offsets[i + 1int] as int;
        if next <= start {
            Err(LtpError::InvalidMultiValuePropertyOffset(next as usize))
        } else if next > s.len() {
            Err(LtpError::UnexpectedEndOfData)
        } else {
            let item = s.subrange(start, next);
            if terminated && !null_terminated(item, 0u8) {
                Err(LtpError::StringNotNullTerminated(item.len() as usize))
            } else {
                match parse_multi_bytes(s, offsets, i + 1, next, terminated) {
                    Err(e) => Err(e),
                    Ok(rest) => Ok(seq![item] + rest),
                }
            }
        }
    } else {
        let item = s.subrange(start, s.len() as int);
        if terminated && !null_terminated(item, 0u8) {
            Err(LtpError::StringNotNullTerminated(item.len() as usize))
        } else {
            Ok(seq![item])
        }
    }
}

/// The items of a multi-valued Unicode property from item `i` on, item `i` starting at
/// `start`: as for bytes, but items are read two bytes at a time, so an item of odd
/// length reads one byte past the next offset; every item must end with 0x0000.
pub open spec fn parse_multi_unicode(s: Seq<u8>, offsets: Seq<u32>, i: nat, start: int) -> Result<Seq<Seq<u16>>, LtpError>
    decreases offsets.len() - i,
{
    if i >= offsets.len() {
        Ok(Seq::empty())
    } else if offsets[i as int] != start {
        Err(LtpError::InvalidMultiValuePropertyOffset(offsets[i as int] as usize))
    } else if i + 1 < offsets.len() {
        let next = offsets[i + 1int] as int;
        if next <= start {
            Err(LtpError::InvalidMultiValuePropertyOffset(next as usize))
        } else {
            let k = (next - start + 1) / 2;
            if start + 2 * k > s.len() {
                Err(LtpError::UnexpectedEndOfData)
            } else {
                let item = u16s_at(s, start, k as nat);
                if !null_terminated(item, 0u16) {
                    Err(LtpError::StringNotNullTerminated(item.len() as usize))
                } else {
                    match parse_multi_unicode(s, offsets, i + 1, start + 2 * k) {
                        Err(e) => Err(e),
                        Ok(rest) => Ok(seq![item] + rest),
                    }
                }
            }
        }
    } else {
        let item = u16s_at(s, start, ((s.len() - start) / 2) as nat);
        if !null_terminated(item, 0u16) {
            Err(LtpError::StringNotNullTerminated(item.len() as usize))
        } else {
            Ok(seq![item])
        }
    }
}

/// The count, then the offsets, then the items of a multi-valued variable-size property.
pub open spec fn multi_count_ok(s: Seq<u8>) -> bool {
    s.len() >= 4 && 4 + 4 * u32_at(s, 0) <= s.len()
}

/// The value of type `t` held in the bytes `s` of a heap item or sub-node.
pub open spec fn parse_property_value(s: Seq<u8>, t: PropertyType) -> Result<PropertyValueModel, LtpError> {
    let eof = Err(LtpError::UnexpectedEndOfData);
    match t {
        PropertyType::Floating64 => if s.len() < 8 { eof } else { Ok(PropertyValueModel::Floating64(u64_at(s, 0))) },
        PropertyType::Currency => if s.len() < 8 { eof } else { Ok(PropertyValueModel::Currency(u64_at(s, 0) as i64)) },
        PropertyType::FloatingTime => if s.len() < 8 { eof } else { Ok(PropertyValueModel::FloatingTime(u64_at(s, 0))) },
        PropertyType::Integer64 => if s.len() < 8 { eof } else { Ok(PropertyValueModel::Integer64(u64_at(s, 0) as i64)) },
        PropertyType::String8 => if null_terminated(s, 0u8) {
            Ok(PropertyValueModel::String8(s))
        } else {
            Err(LtpError::StringNotNullTerminated(s.len() as usize))
        },
        PropertyType::Unicode => {
            let v = u16s_at(s, 0, s.len() / 2);
            if null_terminated(v, 0u16) {
                Ok(PropertyValueModel::Unicode(v))
            } else {
                Err(LtpError::StringNotNullTerminated(v.len() as usize))
            }
        },
        PropertyType::Time => if s.len() < 8 { eof } else { Ok(PropertyValueModel::Time(u64_at(s, 0) as i64)) },
        PropertyType::Guid => if s.len() < 16 { eof } else { Ok(PropertyValueModel::Guid(guid_at(s, 0))) },
        PropertyType::Binary => Ok(PropertyValueModel::Binary(s)),
        PropertyType::Object => if s.len() < 8 { eof } else { Ok(PropertyValueModel::Object((u32_at(s, 0), u32_at(s, 4)))) },
        PropertyType::MultipleInteger16 => Ok(PropertyValueModel::MultipleInteger16(i16s_at(s, 0, s.len() / 2))),
        PropertyType::MultipleInteger32 => Ok(PropertyValueModel::MultipleInteger32(i32s_at(s, 0, s.len() / 4))),
        PropertyType::MultipleFloating32 => Ok(PropertyValueModel::MultipleFloating32(u32s_at(s, 0, s.len() / 4))),
        PropertyType::MultipleFloating64 => Ok(PropertyValueModel::MultipleFloating64(u64s_at(s, 0, s.len() / 8))),
        PropertyType::MultipleCurrency => Ok(PropertyValueModel::MultipleCurrency(i64s_at(s, 0, s.len() / 8))),
        PropertyType::MultipleFloatingTime => Ok(PropertyValueModel::MultipleFloatingTime(u64s_at(s, 0, s.len() / 8))),
        PropertyType::MultipleInteger64 => Ok(PropertyValueModel::MultipleInteger64(i64s_at(s, 0, s.len() / 8))),
        PropertyType::MultipleString8 => if !multi_count_ok(s) { eof } else {
            match parse_multi_bytes(s, u32s_at(s, 4, u32_at(s, 0) as nat), 0, 4 + 4 * u32_at(s, 0), true) {
                Err(e) => Err(e),
                Ok(v) => Ok(PropertyValueModel::MultipleString8(v)),
            }
        },
        PropertyType::MultipleUnicode => if !multi_count_ok(s) { eof } else {
            match parse_multi_unicode(s, u32s_at(s, 4, u32_at(s, 0) as nat), 0, 4 + 4 * u32_at(s, 0)) {
                Err(e) => Err(e),
                Ok(v) => Ok(PropertyValueModel::MultipleUnicode(v)),
            }
        },
        PropertyType::MultipleTime => Ok(PropertyValueModel::MultipleTime(i64s_at(s, 0, s.len() / 8))),
        PropertyType::MultipleGuid => if s.len() < 4 || s.len() < 4 + 16 * u32_at(s, 0) { eof } else {
            Ok(PropertyValueModel::MultipleGuid(Seq::new(u32_at(s, 0) as nat, |i: int| guid_at(s, 4 + 16 * i))))
        },
        PropertyType::MultipleBinary => if !multi_count_ok(s) { eof } else {
            match parse_multi_bytes(s, u32s_at(s, 4, u32_at(s, 0) as nat), 0, 4 + 4 * u32_at(s, 0), false) {
                Err(e) => Err(e),
                Ok(v) => Ok(PropertyValueModel::MultipleBinary(v)),
            }
        },
        _ => Err(LtpError::InvalidVariableLengthPropertyType(t)),
    }
}

/// Reads the items of a multi-valued string or binary property.
fn read_multi_bytes(b: &[u8], terminated: bool) -> (r: Result<Vec<Vec<u8>>, LtpError>)
    requires
        multi_count_ok(b@),
    ensures
        match r {
            Ok(v) => parse_multi_bytes(b@, u32s_at(b@, 4, u32_at(b@, 0) as nat), 0, 4 + 4 * u32_at(b@, 0), terminated)
                == Ok::<Seq<Seq<u8>>, LtpError>(byte_items(v@)),
            Err(e) => parse_multi_bytes(b@, u32s_at(b@, 4, u32_at(b@, 0) as nat), 0, 4 + 4 * u32_at(b@, 0), terminated)
                == Err::<Seq<Seq<u8>>, LtpError>(e),
        },
{
    let len = b.len();
    let count = read_u32_at(b, 0) as usize;
    let offsets = read_u32s_at(b, 4, count);
    let ghost offs = offsets@;
    let ghost start0 = 4 + 4 * count;
    let mut start: usize = 4 + 4 * count;
    let mut values: Vec<Vec<u8>> = Vec::new();
    let mut i: usize = 0;
    assert(byte_items(values@) =~= Seq::<Seq<u8>>::empty());
    while i < count
        invariant
            len == b@.len(),
            count == offs.len(),
            offs == offsets@,
            offs == u32s_at(b@, 4, u32_at(b@, 0) as nat),
            start0 == 4 + 4 * u32_at(b@, 0),
            i <= count,
            start <= len,
            parse_multi_bytes(b@, offs, 0, start0, terminated) == match parse_multi_bytes(b@, offs, i as nat, start as int, terminated) {
                Err(e) => Err(e),
                Ok(rest) => Ok(byte_items(values@) + rest),
            },
        decreases count - i,
    {
        let ghost prev = values@;
        let next = offsets[i] as usize;
        if next != start {
            return Err(LtpError::InvalidMultiValuePropertyOffset(next));
        }
        let item;
        let ghost next_start: int;
        if i + 1 < count {
            let next2 = offsets[i + 1] as usize;
            if next2 <= start {
                return Err(LtpError::InvalidMultiValuePropertyOffset(next2));
            }
            if next2 > len {
                return Err(LtpError::UnexpectedEndOfData);
            }
            item = copy_range(b, start, next2);
            proof { next_start = next2 as int; }
            start = next2;
        } else {
            item = copy_range(b, start, len);
            proof { next_start = len as int; }
            start = len;
        }
        if terminated && !(item.len() > 0 && item[item.len() - 1] == 0) {
            return Err(LtpError::StringNotNullTerminated(item.len()));
        }
        let ghost iv = item@;
        values.push(item);
        assert(byte_items(values@) =~= byte_items(prev).push(iv));
        proof {
            if i + 1 >= count {
                assert(parse_multi_bytes(b@, offs, (i + 1) as nat, next_start, terminated) == Ok::<Seq<Seq<u8>>, LtpError>(Seq::empty()));
                assert(seq![iv] =~= seq![iv] + Seq::<Seq<u8>>::empty());
            }
        }
        i = i + 1;
        assert(forall|rest: Seq<Seq<u8>>| #![auto] byte_items(prev) + (seq![iv] + rest) =~= byte_items(values@) + rest);
    }
    assert(byte_items(values@) + Seq::<Seq<u8>>::empty() =~= byte_items(values@));
    Ok(values)
}


/// Reads the items of a multi-valued Unicode property.
fn read_multi_unicode(b: &[u8]) -> (r: Result<Vec<Vec<u16>>, LtpError>)
    requires
        multi_count_ok(b@),
    ensures
        match r {
            Ok(v) => parse_multi_unicode(b@, u32s_at(b@, 4, u32_at(b@, 0) as nat), 0, 4 + 4 * u32_at(b@, 0))
                == Ok::<Seq<Seq<u16>>, LtpError>(unicode_items(v@)),
            Err(e) => parse_multi_unicode(b@, u32s_at(b@, 4, u32_at(b@, 0) as nat), 0, 4 + 4 * u32_at(b@, 0))
                == Err::<Seq<Seq<u16>>, LtpError>(e),
        },
{
    let len = b.len();
    let count = read_u32_at(b, 0) as usize;
    let offsets = read_u32s_at(b, 4, count);
    let ghost offs = offsets@;
    let ghost start0 = 4 + 4 * count;
    let mut start: usize = 4 + 4 * count;
    let mut values: Vec<Vec<u16>> = Vec::new();
    let mut i: usize = 0;
    assert(unicode_items(values@) =~= Seq::<Seq<u16>>::empty());
    while i < count
        invariant
            len == b@.len(),
            count == offs.len(),
            offs == offsets@,
            offs == u32s_at(b@, 4, u32_at(b@, 0) as nat),
            start0 == 4 + 4 * u32_at(b@, 0),
            i <= count,
            start <= len,
            parse_multi_unicode(b@, offs, 0, start0) == match parse_multi_unicode(b@, offs, i as nat, start as int) {
                Err(e) => Err(e),
                Ok(rest) => Ok(unicode_items(values@) + rest),
            },
        decreases count - i,
    {
        let ghost prev = values@;
        let next = offsets[i] as usize;
        if next != start {
            return Err(LtpError::InvalidMultiValuePropertyOffset(next));
        }
        let item;
        let ghost next_start: int;
        if i + 1 < count {
            let next2 = offsets[i + 1] as usize;
            if next2 <= start {
                return Err(LtpError::InvalidMultiValuePropertyOffset(next2));
            }
            let k = (next2 - start) / 2 + (next2 - start) % 2;
            if k > (len - start) / 2 {
                return Err(LtpError::UnexpectedEndOfData);
            }
            item = read_u16s_at(b, start, k);
            proof { next_start = start + 2 * k; }
            start = start + 2 * k;
        } else {
            item = read_u16s_at(b, start, (len - start) / 2);
            proof { next_start = len as int; }
            start = len;
        }
        if !(item.len() > 0 && item[item.len() - 1] == 0) {
            return Err(LtpError::StringNotNullTerminated(item.len()));
        }
        let ghost iv = item@;
        values.push(item);
        assert(unicode_items(values@) =~= unicode_items(prev).push(iv));
        proof {
            if i + 1 >= count {
                assert(parse_multi_unicode(b@, offs, (i + 1) as nat, next_start) == Ok::<Seq<Seq<u16>>, LtpError>(Seq::empty()));
                assert(seq![iv] =~= seq![iv] + Seq::<Seq<u16>>::empty());
            }
        }
        i = i + 1;
        assert(forall|rest: Seq<Seq<u16>>| #![auto] unicode_items(prev) + (seq![iv] + rest) =~= unicode_items(values@) + rest);
    }
    assert(unicode_items(values@) + Seq::<Seq<u16>>::empty() =~= unicode_items(values@));
    Ok(values)
}

/// Reads the GUIDs of a multi-valued GUID property: a count, then the GUIDs.
fn read_multi_guid(b: &[u8]) -> (r: Vec<GuidValue>)
    requires
        b@.len() >= 4,
        b@.len() >= 4 + 16 * u32_at(b@, 0),
    ensures
        guid_items(r@) == Seq::new(u32_at(b@, 0) as nat, |i: int| guid_at(b@, 4 + 16 * i)),
{
    let len = b.len();
    let count = read_u32_at(b, 0) as usize;
    let mut values: Vec<GuidValue> = Vec::new();
    let mut i: usize = 0;
    while i < count
        invariant
            len == b@.len(),
            count == u32_at(b@, 0),
            4 + 16 * count <= len,
            i <= count,
            guid_items(values@) == Seq::new(i as nat, |j: int| guid_at(b@, 4 + 16 * j)),
        decreases count - i,
    {
        let g = GuidValue::read_at(b, 4 + 16 * i);
        let ghost prev = values@;
        values.push(g);
        assert(guid_items(values@) =~= guid_items(prev).push(g@));
        i = i + 1;
        assert(guid_items(values@) =~= Seq::new(i as nat, |j: int| guid_at(b@, 4 + 16 * j)));
    }
    values
}

impl PropertyValue {
    /// The property type of the value.
    pub fn prop_type(&self) -> (r: PropertyType)
        ensures
            r == value_type(self@),
    {
        match self {
            PropertyValue::Null => PropertyType::Null,
            PropertyValue::Integer16(_) => PropertyType::Integer16,
            PropertyValue::Integer32(_) => PropertyType::Integer32,
            PropertyValue::Floating32(_) => PropertyType::Floating32,
            PropertyValue::Floating64(_) => PropertyType::Floating64,
            PropertyValue::Currency(_) => PropertyType::Currency,
            PropertyValue::FloatingTime(_) => PropertyType::FloatingTime,
            PropertyValue::ErrorCode(_) => PropertyType::ErrorCode,
            PropertyValue::Boolean(_) => PropertyType::Boolean,
            PropertyValue::Integer64(_) => PropertyType::Integer64,
            PropertyValue::String8(_) => PropertyType::String8,
            PropertyValue::Unicode(_) => PropertyType::Unicode,
            PropertyValue::Time(_) => PropertyType::Time,
            PropertyValue::Guid(_) => PropertyType::Guid,
            PropertyValue::Binary(_) => PropertyType::Binary,
            PropertyValue::Object(_) => PropertyType::Object,
            PropertyValue::MultipleInteger16(_) => PropertyType::MultipleInteger16,
            PropertyValue::MultipleInteger32(_) => PropertyType::MultipleInteger32,
            PropertyValue::MultipleFloating32(_) => PropertyType::MultipleFloating32,
            PropertyValue::MultipleFloating64(_) => PropertyType::MultipleFloating64,
            PropertyValue::MultipleCurrency(_) => PropertyType::MultipleCurrency,
            PropertyValue::MultipleFloatingTime(_) => PropertyType::MultipleFloatingTime,
            PropertyValue::MultipleInteger64(_) => PropertyType::MultipleInteger64,
            PropertyValue::MultipleString8(_) => PropertyType::MultipleString8,
            PropertyValue::MultipleUnicode(_) => PropertyType::MultipleUnicode,
            PropertyValue::MultipleTime(_) => PropertyType::MultipleTime,
            PropertyValue::MultipleGuid(_) => PropertyType::MultipleGuid,
            PropertyValue::MultipleBinary(_) => PropertyType::MultipleBinary,
        }
    }
}

/// The offsets written for the items of a multi-valued property from item `k` on,
/// item `k` starting at `start`, and the error that stops the writing when an
/// offset does not fit in 32 bits.
pub open spec fn multi_offsets_write(lens: Seq<int>, k: nat, start: int) -> (Seq<u8>, Option<LtpError>)
    decreases lens.len() - k,
{
    if k >= lens.len() {
        (Seq::empty(), None)
    } else if start > u32::MAX {
        (Seq::empty(), Some(LtpError::InvalidMultiValuePropertyOffset(start as usize)))
    } else {
        let r = multi_offsets_write(lens, k + 1, start + lens[k as int]);
        (le32(start as u32) + r.0, r.1)
    }
}

/// The sum of the lengths.
pub open spec fn lens_sum(lens: Seq<int>) -> int
    decreases lens.len(),
{
    if lens.len() == 0 {
        0
    } else {
        lens_sum(lens.drop_last()) + lens.last()
    }
}

/// What writing a multi-valued property with items of byte lengths `lens` and data
/// `data` produces: the count, the offsets and the data, or the bytes written before
/// the error when the count or an offset does not fit in 32 bits.
pub open spec fn multi_write(lens: Seq<int>, data: Seq<u8>) -> (Seq<u8>, Option<LtpError>) {
    if lens.len() > u32::MAX {
        (Seq::empty(), Some(LtpError::InvalidMultiValuePropertyCount(lens.len() as usize)))
    } else {
        let o = multi_offsets_write(lens, 0, 4 * (lens.len() + 1) as int);
        match o.1 {
            Some(e) => (le32(lens.len() as u32) + o.0, Some(e)),
            None => (le32(lens.len() as u32) + o.0 + data, None),
        }
    }
}

/// The byte lengths of byte strings.
pub open spec fn byte_lens(items: Seq<Seq<u8>>) -> Seq<int> {
    items.map_values(|x: Seq<u8>| x.len() as int)
}

/// The byte lengths of UTF-16 strings.
pub open spec fn unicode_lens(items: Seq<Seq<u16>>) -> Seq<int> {
    items.map_values(|x: Seq<u16>| 2 * x.len() as int)
}

/// The byte strings one after another.
pub open spec fn flatten_bytes(items: Seq<Seq<u8>>) -> Seq<u8>
    decreases items.len(),
{
    if items.len() == 0 {
        Seq::empty()
    } else {
        flatten_bytes(items.drop_last()) + items.last()
    }
}

/// The UTF-16LE encodings of the strings one after another.
pub open spec fn flatten_unicode(items: Seq<Seq<u16>>) -> Seq<u8>
    decreases items.len(),
{
    if items.len() == 0 {
        Seq::empty()
    } else {
        flatten_unicode(items.drop_last()) + u16s_bytes(items.last())
    }
}

/// The GUIDs one after another.
pub open spec fn guids_bytes(v: Seq<GuidModel>) -> Seq<u8>
    decreases v.len(),
{
    if v.len() == 0 {
        Seq::empty()
    } else {
        guids_bytes(v.drop_last()) + guid_bytes(v.last())
    }
}

/// What writing a value produces: its bytes, or the bytes written before the error.
/// Values stored in place cannot be written this way.
pub open spec fn property_value_write(m: PropertyValueModel) -> (Seq<u8>, Option<LtpError>) {
    match m {
        PropertyValueModel::Floating64(x) => (le64(x), None),
        PropertyValueModel::Currency(x) => (le64(x as u64), None),
        PropertyValueModel::FloatingTime(x) => (le64(x), None),
        PropertyValueModel::Integer64(x) => (le64(x as u64), None),
        PropertyValueModel::String8(v) => (v, None),
        PropertyValueModel::Unicode(v) => (u16s_bytes(v), None),
        PropertyValueModel::Time(x) => (le64(x as u64), None),
        PropertyValueModel::Guid(g) => (guid_bytes(g), None),
        PropertyValueModel::Binary(v) => (v, None),
        PropertyValueModel::Object(o) => (le32(o.0) + le32(o.1), None),
        PropertyValueModel::MultipleInteger16(v) => (i16s_bytes(v), None),
        PropertyValueModel::MultipleInteger32(v) => (i32s_bytes(v), None),
        PropertyValueModel::MultipleFloating32(v) => (u32s_bytes(v), None),
        PropertyValueModel::MultipleFloating64(v) => (u64s_bytes(v), None),
        PropertyValueModel::MultipleCurrency(v) => (i64s_bytes(v), None),
        PropertyValueModel::MultipleFloatingTime(v) => (u64s_bytes(v), None),
        PropertyValueModel::MultipleInteger64(v) => (i64s_bytes(v), None),
        PropertyValueModel::MultipleString8(v) => multi_write(byte_lens(v), flatten_bytes(v)),
        PropertyValueModel::MultipleUnicode(v) => multi_write(unicode_lens(v), flatten_unicode(v)),
        PropertyValueModel::MultipleTime(v) => (i64s_bytes(v), None),
        PropertyValueModel::MultipleGuid(v) => if v.len() > u32::MAX {
            (Seq::empty(), Some(LtpError::InvalidMultiValuePropertyCount(v.len() as usize)))
        } else {
            (le32(v.len() as u32) + guids_bytes(v), None)
        },
        PropertyValueModel::MultipleBinary(v) => multi_write(byte_lens(v), flatten_bytes(v)),
        _ => (Seq::empty(), Some(LtpError::InvalidVariableLengthPropertyType(value_type(m)))),
    }
}

/// Whether the offsets of a multi-valued property fit in the machine's integers.
pub open spec fn multi_fits(lens: Seq<int>) -> bool {
    4 * (lens.len() + 1) + lens_sum(lens) <= usize::MAX
}

/// Whether writing the value keeps its offsets within the machine's integers.
pub open spec fn property_value_fits(m: PropertyValueModel) -> bool {
    match m {
        PropertyValueModel::MultipleString8(v) => multi_fits(byte_lens(v)),
        PropertyValueModel::MultipleUnicode(v) => multi_fits(unicode_lens(v)),
        PropertyValueModel::MultipleBinary(v) => multi_fits(byte_lens(v)),
        _ => true,
    }
}

/// The lengths are not negative and a prefix sums to at most the whole.
proof fn lemma_lens_sum_prefix(lens: Seq<int>, k: int)
    requires
        0 <= k <= lens.len(),
        forall|i: int| 0 <= i < lens.len() ==> lens[i] >= 0,
    ensures
        0 <= lens_sum(lens.subrange(0, k)) <= lens_sum(lens),
    decreases lens.len(),
{
    if k < lens.len() {
        assert(lens.drop_last().subrange(0, k) =~= lens.subrange(0, k));
        lemma_lens_sum_prefix(lens.drop_last(), k);
    } else {
        assert(lens.subrange(0, k) =~= lens);
        if lens.len() > 0 {
            lemma_lens_sum_prefix(lens.drop_last(), k - 1);
            assert(lens.drop_last().subrange(0, k - 1) =~= lens.drop_last());
        }
    }
}

/// Writes the count and the offsets of a multi-valued property whose items have
/// byte lengths `lens`; on success, returns nothing more to check.
fn write_multi_offsets(out: &mut Vec<u8>, lens: &Vec<usize>) -> (r: Result<(), LtpError>)
    requires
        lens@.len() <= u32::MAX,
        multi_fits(lens@.map_values(|x: usize| x as int)),
    ensures
        ({
            let l = lens@.map_values(|x: usize| x as int);
            let o = multi_offsets_write(l, 0, 4 * (l.len() + 1) as int);
            &&& final(out)@ == old(out)@ + le32(l.len() as u32) + o.0
            &&& r == match o.1 {
                Some(e) => Err::<(), LtpError>(e),
                None => Ok(()),
            }
        }),
{
    let ghost l = lens@.map_values(|x: usize| x as int);
    let n = lens.len();
    proof {
        lemma_lens_sum_prefix(l, l.len() as int);
        assert(l.subrange(0, l.len() as int) =~= l);
    }
    push_u32(out, n as u32);
    let ghost base = out@;
    let mut start: usize = 4 * (n + 1);
    let ghost s0 = start as int;
    let mut k: usize = 0;
    proof {
        assert(l.subrange(0, 0) =~= Seq::<int>::empty());
    }
    while k < n
        invariant
            n == lens@.len(),
            l == lens@.map_values(|x: usize| x as int),
            multi_fits(l),
            s0 == 4 * (l.len() + 1),
            k <= n,
            start == s0 + lens_sum(l.subrange(0, k as int)),
            base == old(out)@ + le32(n as u32),
            multi_offsets_write(l, 0, s0).0 == out@.subrange(base.len() as int, out@.len() as int) + multi_offsets_write(l, k as nat, start as int).0,
            multi_offsets_write(l, 0, s0).1 == multi_offsets_write(l, k as nat, start as int).1,
            out@.subrange(0, base.len() as int) == base,
            base.len() <= out@.len(),
        decreases n - k,
    {
        if start > 0xFFFF_FFFF {
            assert(out@ =~= base + out@.subrange(base.len() as int, out@.len() as int));
            return Err(LtpError::InvalidMultiValuePropertyOffset(start));
        }
        let ghost before = out@;
        push_u32(out, start as u32);
        proof {
            assert(forall|i: int| 0 <= i < l.len() ==> l[i] >= 0);
            lemma_lens_sum_prefix(l, k + 1);
            assert(l.subrange(0, k + 1).drop_last() =~= l.subrange(0, k as int));
            assert(out@.subrange(base.len() as int, out@.len() as int) =~= before.subrange(base.len() as int, before.len() as int) + le32(start as u32));
            assert(out@.subrange(0, base.len() as int) =~= before.subrange(0, base.len() as int));
        }
        start = start + lens[k];
        k = k + 1;
    }
    assert(out@ =~= base + out@.subrange(base.len() as int, out@.len() as int));
    Ok(())
}


/// Writes a multi-valued string or binary property.
fn write_multi_bytes(out: &mut Vec<u8>, values: &Vec<Vec<u8>>) -> (r: Result<(), LtpError>)
    requires
        multi_fits(byte_lens(byte_items(values@))),
    ensures
        ({
            let w = multi_write(byte_lens(byte_items(values@)), flatten_bytes(byte_items(values@)));
            &&& final(out)@ == old(out)@ + w.0
            &&& r == match w.1 {
                Some(e) => Err::<(), LtpError>(e),
                None => Ok(()),
            }
        }),
{
    let ghost items = byte_items(values@);
    let n = values.len();
    if n > 0xFFFF_FFFF {
        return Err(LtpError::InvalidMultiValuePropertyCount(n));
    }
    let mut lens: Vec<usize> = Vec::new();
    let mut i: usize = 0;
    while i < n
        invariant
            n == values@.len(),
            items == byte_items(values@),
            i <= n,
            lens@.len() == i,
            forall|k: int| 0 <= k < i ==> lens@[k] as int == byte_lens(items)[k],
        decreases n - i,
    {
        assert(byte_lens(items)[i as int] == values@[i as int]@.len());
        lens.push(values[i].len());
        i = i + 1;
    }
    assert(lens@.map_values(|x: usize| x as int) =~= byte_lens(items));
    match write_multi_offsets(out, &lens) {
        Ok(()) => {},
        Err(e) => return Err(e),
    }
    let ghost base = out@;
    let mut j: usize = 0;
    while j < n
        invariant
            n == values@.len(),
            items == byte_items(values@),
            j <= n,
            out@ == base + flatten_bytes(items.subrange(0, j as int)),
        decreases n - j,
    {
        push_bytes(out, values[j].as_slice());
        assert(items.subrange(0, j + 1).drop_last() =~= items.subrange(0, j as int));
        j = j + 1;
    }
    assert(items.subrange(0, n as int) =~= items);
    Ok(())
}

/// Writes a multi-valued Unicode property.
fn write_multi_unicode(out: &mut Vec<u8>, values: &Vec<Vec<u16>>) -> (r: Result<(), LtpError>)
    requires
        multi_fits(unicode_lens(unicode_items(values@))),
    ensures
        ({
            let w = multi_write(unicode_lens(unicode_items(values@)), flatten_unicode(unicode_items(values@)));
            &&& final(out)@ == old(out)@ + w.0
            &&& r == match w.1 {
                Some(e) => Err::<(), LtpError>(e),
                None => Ok(()),
            }
        }),
{
    let ghost items = unicode_items(values@);
    let ghost l = unicode_lens(items);
    let n = values.len();
    if n > 0xFFFF_FFFF {
        return Err(LtpError::InvalidMultiValuePropertyCount(n));
    }
    let mut lens: Vec<usize> = Vec::new();
    let mut i: usize = 0;
    while i < n
        invariant
            n == values@.len(),
            items == unicode_items(values@),
            l == unicode_lens(items),
            multi_fits(l),
            i <= n,
            lens@.len() == i,
            forall|k: int| 0 <= k < i ==> lens@[k] as int == l[k],
        decreases n - i,
    {
        proof {
            assert(forall|k: int| 0 <= k < l.len() ==> l[k] >= 0);
            lemma_lens_sum_prefix(l, i as int);
            lemma_lens_sum_prefix(l, i + 1);
            assert(l.subrange(0, i + 1).drop_last() =~= l.subrange(0, i as int));
        }
        assert(l[i as int] == 2 * values@[i as int]@.len());
        lens.push(2 * values[i].len());
        i = i + 1;
    }
    assert(lens@.map_values(|x: usize| x as int) =~= l);
    match write_multi_offsets(out, &lens) {
        Ok(()) => {},
        Err(e) => return Err(e),
    }
    let ghost base = out@;
    let mut j: usize = 0;
    while j < n
        invariant
            n == values@.len(),
            items == unicode_items(values@),
            j <= n,
            out@ == base + flatten_unicode(items.subrange(0, j as int)),
        decreases n - j,
    {
        push_u16s(out, values[j].as_slice());
        assert(items.subrange(0, j + 1).drop_last() =~= items.subrange(0, j as int));
        j = j + 1;
    }
    assert(items.subrange(0, n as int) =~= items);
    Ok(())
}

impl PropertyValueReadWrite for PropertyValue {
    /// Writing the value keeps its offsets within the machine's integers.
    open spec fn fits(&self) -> bool {
        property_value_fits(self@)
    }

    /// Reads a value of type `prop_type` from all the bytes of a heap item or sub-node.
    /// Only types whose values are not stored in place can be read.
    fn read(b: &[u8], prop_type: PropertyType) -> (r: Result<PropertyValue, LtpError>)
        ensures
            view_result(r) == parse_property_value(b@, prop_type),
    {
        let len = b.len();
        assert(b@.subrange(0, len as int) =~= b@);
        match prop_type {
            PropertyType::Floating64 => {
                if len < 8 {
                    return Err(LtpError::UnexpectedEndOfData);
                }
                Ok(PropertyValue::Floating64(read_u64_at(b, 0)))
            },
            PropertyType::Currency => {
                if len < 8 {
                    return Err(LtpError::UnexpectedEndOfData);
                }
                Ok(PropertyValue::Currency(#[verifier::truncate] (read_u64_at(b, 0) as i64)))
            },
            PropertyType::FloatingTime => {
                if len < 8 {
                    return Err(LtpError::UnexpectedEndOfData);
                }
                Ok(PropertyValue::FloatingTime(read_u64_at(b, 0)))
            },
            PropertyType::Integer64 => {
                if len < 8 {
                    return Err(LtpError::UnexpectedEndOfData);
                }
                Ok(PropertyValue::Integer64(#[verifier::truncate] (read_u64_at(b, 0) as i64)))
            },
            PropertyType::String8 => {
                if len > 0 && b[len - 1] == 0 {
                    Ok(PropertyValue::String8(copy_range(b, 0, len)))
                } else {
                    Err(LtpError::StringNotNullTerminated(len))
                }
            },
            PropertyType::Unicode => {
                let v = read_u16s_at(b, 0, len / 2);
                if v.len() > 0 && v[v.len() - 1] == 0 {
                    Ok(PropertyValue::Unicode(v))
                } else {
                    Err(LtpError::StringNotNullTerminated(v.len()))
                }
            },
            PropertyType::Time => {
                if len < 8 {
                    return Err(LtpError::UnexpectedEndOfData);
                }
                Ok(PropertyValue::Time(#[verifier::truncate] (read_u64_at(b, 0) as i64)))
            },
            PropertyType::Guid => {
                if len < 16 {
                    return Err(LtpError::UnexpectedEndOfData);
                }
                Ok(PropertyValue::Guid(GuidValue::read_at(b, 0)))
            },
            PropertyType::Binary => Ok(PropertyValue::Binary(copy_range(b, 0, len))),
            PropertyType::Object => {
                if len < 8 {
                    return Err(LtpError::UnexpectedEndOfData);
                }
                let node_id = NodeId::from_u32(read_u32_at(b, 0));
                let size = read_u32_at(b, 4);
                Ok(PropertyValue::Object(ObjectValue { node_id, size }))
            },
            PropertyType::MultipleInteger16 => Ok(PropertyValue::MultipleInteger16(read_i16s_at(b, 0, len / 2))),
            PropertyType::MultipleInteger32 => Ok(PropertyValue::MultipleInteger32(read_i32s_at(b, 0, len / 4))),
            PropertyType::MultipleFloating32 => Ok(PropertyValue::MultipleFloating32(read_u32s_at(b, 0, len / 4))),
            PropertyType::MultipleFloating64 => Ok(PropertyValue::MultipleFloating64(read_u64s_at(b, 0, len / 8))),
            PropertyType::MultipleCurrency => Ok(PropertyValue::MultipleCurrency(read_i64s_at(b, 0, len / 8))),
            PropertyType::MultipleFloatingTime => Ok(PropertyValue::MultipleFloatingTime(read_u64s_at(b, 0, len / 8))),
            PropertyType::MultipleInteger64 => Ok(PropertyValue::MultipleInteger64(read_i64s_at(b, 0, len / 8))),
            PropertyType::MultipleString8 => {
                if len < 4 || (len - 4) / 4 < read_u32_at(b, 0) as usize {
                    return Err(LtpError::UnexpectedEndOfData);
                }
                match read_multi_bytes(b, true) {
                    Ok(v) => Ok(PropertyValue::MultipleString8(v)),
                    Err(e) => Err(e),
                }
            },
            PropertyType::MultipleUnicode => {
                if len < 4 || (len - 4) / 4 < read_u32_at(b, 0) as usize {
                    return Err(LtpError::UnexpectedEndOfData);
                }
                match read_multi_unicode(b) {
                    Ok(v) => Ok(PropertyValue::MultipleUnicode(v)),
                    Err(e) => Err(e),
                }
            },
            PropertyType::MultipleTime => Ok(PropertyValue::MultipleTime(read_i64s_at(b, 0, len / 8))),
            PropertyType::MultipleGuid => {
                if len < 4 || (len - 4) / 16 < read_u32_at(b, 0) as usize {
                    return Err(LtpError::UnexpectedEndOfData);
                }
                Ok(PropertyValue::MultipleGuid(read_multi_guid(b)))
            },
            PropertyType::MultipleBinary => {
                if len < 4 || (len - 4) / 4 < read_u32_at(b, 0) as usize {
                    return Err(LtpError::UnexpectedEndOfData);
                }
                match read_multi_bytes(b, false) {
                    Ok(v) => Ok(PropertyValue::MultipleBinary(v)),
                    Err(e) => Err(e),
                }
            },
            _ => Err(LtpError::InvalidVariableLengthPropertyType(prop_type)),
        }
    }

    /// Appends the bytes of the value. Values stored in place (null, 16- and 32-bit
    /// integers, 32-bit floats, error codes and booleans) cannot be written this way,
    /// and a count or an offset of a multi-valued property that does not fit in 32 bits
    /// stops the writing with an error, after the bytes before it.
    fn write(&self, out: &mut Vec<u8>) -> (r: Result<(), LtpError>)
        ensures
            final(out)@ == old(out)@ + property_value_write(self@).0,
            r == match property_value_write(self@).1 {
                Some(e) => Err::<(), LtpError>(e),
                None => Ok(()),
            },
    {
        match self {
            PropertyValue::Floating64(x) => push_u64(out, *x),
            PropertyValue::Currency(x) => push_u64(out, #[verifier::truncate] (*x as u64)),
            PropertyValue::FloatingTime(x) => push_u64(out, *x),
            PropertyValue::Integer64(x) => push_u64(out, #[verifier::truncate] (*x as u64)),
            PropertyValue::String8(v) => push_bytes(out, v.as_slice()),
            PropertyValue::Unicode(v) => push_u16s(out, v.as_slice()),
            PropertyValue::Time(x) => push_u64(out, #[verifier::truncate] (*x as u64)),
            PropertyValue::Guid(g) => g.write(out),
            PropertyValue::Binary(v) => push_bytes(out, v.as_slice()),
            PropertyValue::Object(o) => {
                o.node_id.write(out);
                push_u32(out, o.size);
                assert(out@ =~= old(out)@ + property_value_write(self@).0);
            },
            PropertyValue::MultipleInteger16(v) => push_i16s(out, v.as_slice()),
            PropertyValue::MultipleInteger32(v) => push_i32s(out, v.as_slice()),
            PropertyValue::MultipleFloating32(v) => push_u32s(out, v.as_slice()),
            PropertyValue::MultipleFloating64(v) => push_u64s(out, v.as_slice()),
            PropertyValue::MultipleCurrency(v) => push_i64s(out, v.as_slice()),
            PropertyValue::MultipleFloatingTime(v) => push_u64s(out, v.as_slice()),
            PropertyValue::MultipleInteger64(v) => push_i64s(out, v.as_slice()),
            PropertyValue::MultipleString8(v) => return write_multi_bytes(out, v),
            PropertyValue::MultipleUnicode(v) => return write_multi_unicode(out, v),
            PropertyValue::MultipleTime(v) => push_i64s(out, v.as_slice()),
            PropertyValue::MultipleGuid(v) => {
                let ghost items = guid_items(v@);
                let n = v.len();
                if n > u32::MAX as usize {
                    assert(out@ =~= old(out)@ + Seq::<u8>::empty());
                    return Err(LtpError::InvalidMultiValuePropertyCount(n));
                }
                push_u32(out, n as u32);
                let mut j: usize = 0;
                while j < n
                    invariant
                        n == v@.len(),
                        n <= u32::MAX,
                        items == guid_items(v@),
                        j <= n,
                        out@ == old(out)@ + le32(n as u32) + guids_bytes(items.subrange(0, j as int)),
                    decreases n - j,
                {
                    v[j].write(out);
                    assert(items.subrange(0, j + 1).drop_last() =~= items.subrange(0, j as int));
                    j = j + 1;
                }
                assert(items.subrange(0, n as int) =~= items);
            },
            PropertyValue::MultipleBinary(v) => return write_multi_bytes(out, v),
            _ => {
                assert(out@ =~= old(out)@ + Seq::<u8>::empty());
                return Err(LtpError::InvalidVariableLengthPropertyType(self.prop_type()));
            },
        }
        Ok(())
    }
}

/// The values that read back as written: every value that `write` writes, as long as
/// its strings end with their terminating zero, a list of binaries has no empty item
/// before its last, a GUID has its 8 bytes of `Data4`, and the count and offsets of a
/// list fit in 32 bits.
pub open spec fn property_value_roundtrips(m: PropertyValueModel) -> bool {
    match m {
        PropertyValueModel::MultipleString8(v) => property_value_write(m).1 is None
            && forall|j: int| 0 <= j < v.len() ==> null_terminated(#[trigger] v[j], 0u8),
        PropertyValueModel::MultipleUnicode(v) => property_value_write(m).1 is None
            && forall|j: int| 0 <= j < v.len() ==> null_terminated(#[trigger] v[j], 0u16),
        PropertyValueModel::MultipleBinary(v) => property_value_write(m).1 is None
            && forall|j: int| 0 <= j < v.len() - 1 ==> (#[trigger] v[j]).len() > 0,
        PropertyValueModel::Floating64(_) | PropertyValueModel::Currency(_) | PropertyValueModel::FloatingTime(_)
        | PropertyValueModel::Integer64(_) | PropertyValueModel::Time(_) | PropertyValueModel::Binary(_)
        | PropertyValueModel::Object(_) | PropertyValueModel::MultipleInteger16(_)
        | PropertyValueModel::MultipleInteger32(_) | PropertyValueModel::MultipleFloating32(_)
        | PropertyValueModel::MultipleFloating64(_) | PropertyValueModel::MultipleCurrency(_)
        | PropertyValueModel::MultipleFloatingTime(_) | PropertyValueModel::MultipleInteger64(_)
        | PropertyValueModel::MultipleTime(_) => true,
        PropertyValueModel::String8(v) => null_terminated(v, 0u8),
        PropertyValueModel::Unicode(v) => null_terminated(v, 0u16),
        PropertyValueModel::Guid(g) => g.data4.len() == 8,
        PropertyValueModel::MultipleGuid(v) => v.len() <= u32::MAX
            && forall|j: int| 0 <= j < v.len() ==> (#[trigger] v[j]).data4.len() == 8,
        _ => false,
    }
}

/// Reading the bytes that `write` produced for a value, as a value of its own type,
/// gives the value back.
pub proof fn lemma_property_value_roundtrip(m: PropertyValueModel)
    requires
        property_value_roundtrips(m),
    ensures
        property_value_write(m).1 is None,
        parse_property_value(property_value_write(m).0, value_type(m)) == Ok::<PropertyValueModel, LtpError>(m),
{
    lemma_le_roundtrip();
    assert(forall|x: i64| #[trigger] ((x as u64) as i64) == x) by (bit_vector);
    match m {
        PropertyValueModel::Floating64(x) => assert(le64(x).subrange(0, 8) =~= le64(x)),
        PropertyValueModel::Currency(x) => assert(le64(x as u64).subrange(0, 8) =~= le64(x as u64)),
        PropertyValueModel::FloatingTime(x) => assert(le64(x).subrange(0, 8) =~= le64(x)),
        PropertyValueModel::Integer64(x) => assert(le64(x as u64).subrange(0, 8) =~= le64(x as u64)),
        PropertyValueModel::Time(x) => assert(le64(x as u64).subrange(0, 8) =~= le64(x as u64)),
        PropertyValueModel::Unicode(v) => lemma_u16s_roundtrip(v),
        PropertyValueModel::Guid(g) => {
            let b = guid_bytes(g);
            assert(b.subrange(0, 4) =~= le32(g.data1));
            assert(b.subrange(4, 6) =~= le16(g.data2));
            assert(b.subrange(6, 8) =~= le16(g.data3));
            assert(b.subrange(8, 16) =~= g.data4);
        },
        PropertyValueModel::Object(o) => {
            let b = le32(o.0) + le32(o.1);
            assert(b.subrange(0, 4) =~= le32(o.0));
            assert(b.subrange(4, 8) =~= le32(o.1));
        },
        PropertyValueModel::MultipleInteger16(v) => lemma_i16s_roundtrip(v),
        PropertyValueModel::MultipleInteger32(v) => lemma_i32s_roundtrip(v),
        PropertyValueModel::MultipleFloating32(v) => {
            lemma_u32s_bytes(v);
            assert(u32s_bytes(v).subrange(0, 4 * (v.len() as int)) =~= u32s_bytes(v));
            lemma_u32s_at(u32s_bytes(v), 0, v);
        },
        PropertyValueModel::MultipleFloating64(v) => lemma_u64s_roundtrip(v),
        PropertyValueModel::MultipleCurrency(v) => lemma_i64s_roundtrip(v),
        PropertyValueModel::MultipleFloatingTime(v) => lemma_u64s_roundtrip(v),
        PropertyValueModel::MultipleInteger64(v) => lemma_i64s_roundtrip(v),
        PropertyValueModel::MultipleTime(v) => lemma_i64s_roundtrip(v),
        PropertyValueModel::MultipleString8(v) => {
            assert forall|j: int| 0 <= j < v.len() - 1 implies (#[trigger] v[j]).len() > 0 by {
                assert(null_terminated(v[j], 0u8));
            }
            lemma_multi_bytes_roundtrip(v, true);
        },
        PropertyValueModel::MultipleUnicode(v) => lemma_multi_unicode_roundtrip(v),
        PropertyValueModel::MultipleBinary(v) => lemma_multi_bytes_roundtrip(v, false),
        PropertyValueModel::MultipleGuid(v) => {
            let n = v.len() as u32;
            let s = le32(n) + guids_bytes(v);
            lemma_guids_bytes(v);
            assert(s.subrange(0, 4) =~= le32(n));
            assert forall|i: int| 0 <= i < v.len() implies guid_at(s, 4 + 16 * i) == v[i] by {
                assert(s.subrange(4 + 16 * i, 4 + 16 * i + 16) =~= guids_bytes(v).subrange(16 * i, 16 * i + 16));
                lemma_guid_at_bytes(s, 4 + 16 * i, v[i]);
            }
            assert(Seq::new(n as nat, |i: int| guid_at(s, 4 + 16 * i)) =~= v);
        },
        _ => {},
    }
}

/// The bytes of a list of GUIDs are 16 for each, one after another.
proof fn lemma_guids_bytes(v: Seq<GuidModel>)
    requires
        forall|j: int| 0 <= j < v.len() ==> (#[trigger] v[j]).data4.len() == 8,
    ensures
        guids_bytes(v).len() == 16 * v.len(),
        forall|i: int| 0 <= i < v.len() ==> guids_bytes(v).subrange(16 * i, 16 * i + 16) == guid_bytes(#[trigger] v[i]),
    decreases v.len(),
{
    lemma_le_roundtrip();
    if v.len() > 0 {
        let d = v.drop_last();
        assert forall|j: int| 0 <= j < d.len() implies (#[trigger] d[j]).data4.len() == 8 by {
            assert(d[j] == v[j]);
        }
        lemma_guids_bytes(d);
        let p = guids_bytes(d);
        let g = guid_bytes(v.last());
        assert(guids_bytes(v) == p + g);
        assert forall|i: int| 0 <= i < v.len() implies guids_bytes(v).subrange(16 * i, 16 * i + 16) == guid_bytes(#[trigger] v[i]) by {
            if i < v.len() - 1 {
                assert(d[i] == v[i]);
                assert((p + g).subrange(16 * i, 16 * i + 16) =~= p.subrange(16 * i, 16 * i + 16));
            } else {
                assert((p + g).subrange(16 * i, 16 * i + 16) =~= g);
            }
        }
    }
}

/// The GUID read where the bytes of a GUID are stored is that GUID.
proof fn lemma_guid_at_bytes(s: Seq<u8>, off: int, g: GuidModel)
    requires
        0 <= off,
        off + 16 <= s.len(),
        g.data4.len() == 8,
        s.subrange(off, off + 16) == guid_bytes(g),
    ensures
        guid_at(s, off) == g,
{
    lemma_le_roundtrip();
    let b = guid_bytes(g);
    assert(s.subrange(off, off + 4) =~= b.subrange(0, 4));
    assert(s.subrange(off + 4, off + 6) =~= b.subrange(4, 6));
    assert(s.subrange(off + 6, off + 8) =~= b.subrange(6, 8));
    assert(s.subrange(off + 8, off + 16) =~= b.subrange(8, 16));
    assert(b.subrange(0, 4) =~= le32(g.data1));
    assert(b.subrange(4, 6) =~= le16(g.data2));
    assert(b.subrange(6, 8) =~= le16(g.data3));
    assert(b.subrange(8, 16) =~= g.data4);
}

/// A sum of lengths is its first length plus the sum of the others.
proof fn lemma_lens_sum_first(lens: Seq<int>)
    requires
        lens.len() > 0,
    ensures
        lens_sum(lens) == lens[0] + lens_sum(lens.subrange(1, lens.len() as int)),
    decreases lens.len(),
{
    let t = lens.subrange(1, lens.len() as int);
    if lens.len() > 1 {
        let d = lens.drop_last();
        lemma_lens_sum_first(d);
        assert(d.subrange(1, d.len() as int) =~= t.drop_last());
        assert(t.last() == lens.last());
        assert(d[0] == lens[0]);
        assert(lens_sum(t) == lens_sum(t.drop_last()) + t.last());
    } else {
        assert(lens.drop_last() =~= Seq::<int>::empty());
        assert(t =~= Seq::<int>::empty());
        assert(lens_sum(lens) == lens_sum(lens.drop_last()) + lens.last());
    }
}

/// The offsets that writing items of lengths `lens` from item `k` on, the first at
/// `start`, produces: one 4-byte offset per item, item `k + j` at `start` plus the
/// lengths of the items before it.
proof fn lemma_multi_offsets(lens: Seq<int>, k: nat, start: int)
    requires
        k <= lens.len(),
        multi_offsets_write(lens, k, start).1 is None,
    ensures
        multi_offsets_write(lens, k, start).0.len() == 4 * (lens.len() - k),
        forall|j: int|
            #![trigger multi_offsets_write(lens, k, start).0.subrange(4 * j, 4 * j + 4)]
            #![trigger lens_sum(lens.subrange(k as int, k + j))]
            0 <= j < lens.len() - k ==> {
                &&& start + lens_sum(lens.subrange(k as int, k + j)) <= u32::MAX
                &&& multi_offsets_write(lens, k, start).0.subrange(4 * j, 4 * j + 4)
                    == le32((start + lens_sum(lens.subrange(k as int, k + j))) as u32)
            },
    decreases lens.len() - k,
{
    lemma_le_roundtrip();
    if k < lens.len() {
        let next = start + lens[k as int];
        lemma_multi_offsets(lens, k + 1, next);
        let o = multi_offsets_write(lens, k, start).0;
        let r = multi_offsets_write(lens, k + 1, next).0;
        assert(start <= u32::MAX);
        assert(o == le32(start as u32) + r);
        assert forall|j: int|
            #![trigger o.subrange(4 * j, 4 * j + 4)]
            #![trigger lens_sum(lens.subrange(k as int, k + j))]
            0 <= j < lens.len() - k implies {
                &&& start + lens_sum(lens.subrange(k as int, k + j)) <= u32::MAX
                &&& o.subrange(4 * j, 4 * j + 4) == le32((start + lens_sum(lens.subrange(k as int, k + j))) as u32)
            } by {
            if j == 0 {
                assert(lens.subrange(k as int, k as int) =~= Seq::<int>::empty());
                assert(o.subrange(0, 4) =~= le32(start as u32));
            } else {
                let t = lens.subrange(k as int, k + j);
                lemma_lens_sum_first(t);
                assert(t.subrange(1, t.len() as int) =~= lens.subrange(k + 1int, k + 1 + (j - 1)));
                assert(o.subrange(4 * j, 4 * j + 4) =~= r.subrange(4 * (j - 1), 4 * (j - 1) + 4));
            }
        }
    }
}

/// The byte strings one after another: item `i` sits between the sums of the lengths
/// of the items before it and up to it.
proof fn lemma_flatten_bytes(items: Seq<Seq<u8>>)
    ensures
        flatten_bytes(items).len() == lens_sum(byte_lens(items)),
        forall|i: int| 0 <= i < items.len() ==> #[trigger] flatten_bytes(items).subrange(
            lens_sum(byte_lens(items).subrange(0, i)), lens_sum(byte_lens(items).subrange(0, i + 1))) == items[i],
    decreases items.len(),
{
    if items.len() > 0 {
        let p = items.drop_last();
        lemma_flatten_bytes(p);
        let l = byte_lens(items);
        assert(byte_lens(p) =~= l.drop_last());
        assert forall|i: int| 0 <= i < items.len() implies #[trigger] flatten_bytes(items).subrange(
            lens_sum(l.subrange(0, i)), lens_sum(l.subrange(0, i + 1))) == items[i] by {
            if i < items.len() - 1 {
                assert(l.subrange(0, i) =~= byte_lens(p).subrange(0, i));
                assert(l.subrange(0, i + 1) =~= byte_lens(p).subrange(0, i + 1));
                lemma_lens_sum_prefix(byte_lens(p), i + 1);
                lemma_lens_sum_prefix(byte_lens(p).subrange(0, i + 1), i);
                assert(byte_lens(p).subrange(0, i + 1).subrange(0, i) =~= byte_lens(p).subrange(0, i));
                assert(flatten_bytes(items).subrange(lens_sum(l.subrange(0, i)), lens_sum(l.subrange(0, i + 1)))
                    =~= flatten_bytes(p).subrange(lens_sum(l.subrange(0, i)), lens_sum(l.subrange(0, i + 1))));
            } else {
                assert(l.subrange(0, i) =~= byte_lens(p));
                assert(l.subrange(0, i + 1) =~= l);
                assert(byte_lens(p).subrange(0, p.len() as int) =~= byte_lens(p));
            }
        }
    } else {
        assert(byte_lens(items) =~= Seq::<int>::empty());
    }
}

/// The sum of the first `j` lengths.
pub open spec fn prefix_sum(lens: Seq<int>, j: int) -> int {
    lens_sum(lens.subrange(0, j))
}

/// Each prefix sum adds the next length to the one before, and none passes the whole.
proof fn lemma_prefix_sums(lens: Seq<int>)
    requires
        forall|i: int| 0 <= i < lens.len() ==> lens[i] >= 0,
    ensures
        prefix_sum(lens, 0) == 0,
        prefix_sum(lens, lens.len() as int) == lens_sum(lens),
        forall|j: int| 0 <= j < lens.len() ==> #[trigger] prefix_sum(lens, j + 1) == prefix_sum(lens, j) + lens[j],
        forall|j: int| 0 <= j <= lens.len() ==> 0 <= #[trigger] prefix_sum(lens, j) <= lens_sum(lens),
{
    assert(lens.subrange(0, 0) =~= Seq::<int>::empty());
    assert(lens.subrange(0, lens.len() as int) =~= lens);
    assert forall|j: int| 0 <= j < lens.len() implies #[trigger] prefix_sum(lens, j + 1) == prefix_sum(lens, j) + lens[j] by {
        assert(lens.subrange(0, j + 1).drop_last() =~= lens.subrange(0, j));
    }
    assert forall|j: int| 0 <= j <= lens.len() implies 0 <= #[trigger] prefix_sum(lens, j) <= lens_sum(lens) by {
        lemma_lens_sum_prefix(lens, j);
    }
}

/// Reading items from item `i` on, where item `j` is stored at `base` plus the lengths
/// before it and every offset says so, gives the items back.
proof fn lemma_parse_multi_bytes_from(
    s: Seq<u8>,
    offsets: Seq<u32>,
    items: Seq<Seq<u8>>,
    base: int,
    i: nat,
    terminated: bool,
)
    requires
        i <= items.len(),
        offsets.len() == items.len(),
        forall|j: int| 0 <= j < items.len() ==> #[trigger] offsets[j] == base + prefix_sum(byte_lens(items), j),
        s.len() == base + lens_sum(byte_lens(items)),
        forall|j: int| 0 <= j < items.len() ==> #[trigger] s.subrange(
            base + prefix_sum(byte_lens(items), j), base + prefix_sum(byte_lens(items), j + 1)) == items[j],
        forall|j: int| 0 <= j < items.len() - 1 ==> (#[trigger] items[j]).len() > 0,
        terminated ==> forall|j: int| 0 <= j < items.len() ==> null_terminated(#[trigger] items[j], 0u8),
    ensures
        parse_multi_bytes(s, offsets, i, base + prefix_sum(byte_lens(items), i as int), terminated)
            == Ok::<Seq<Seq<u8>>, LtpError>(items.subrange(i as int, items.len() as int)),
    decreases items.len() - i,
{
    let l = byte_lens(items);
    let n = items.len() as int;
    lemma_prefix_sums(l);
    if i < n {
        let start = base + prefix_sum(l, i as int);
        assert(offsets[i as int] == start);
        if i + 1 < n {
            lemma_parse_multi_bytes_from(s, offsets, items, base, i + 1, terminated);
            assert(prefix_sum(l, i + 1int) == prefix_sum(l, i as int) + items[i as int].len());
            assert(s.subrange(start, offsets[i + 1int] as int) == items[i as int]);
            assert(seq![items[i as int]] + items.subrange(i + 1int, n) =~= items.subrange(i as int, n));
        } else {
            assert(s.subrange(start, s.len() as int) == items[i as int]);
            assert(seq![items[i as int]] =~= items.subrange(i as int, n));
        }
    } else {
        assert(items.subrange(i as int, n) =~= Seq::<Seq<u8>>::empty());
    }
}

/// The bytes written for a multi-valued string or binary property read back as its
/// items, when every item but the last is non-empty (and, for strings, every item ends
/// with its terminating zero) and the offsets fit in 32 bits.
proof fn lemma_multi_bytes_roundtrip(items: Seq<Seq<u8>>, terminated: bool)
    requires
        multi_write(byte_lens(items), flatten_bytes(items)).1 is None,
        forall|j: int| 0 <= j < items.len() - 1 ==> (#[trigger] items[j]).len() > 0,
        terminated ==> forall|j: int| 0 <= j < items.len() ==> null_terminated(#[trigger] items[j], 0u8),
    ensures
        multi_count_ok(multi_write(byte_lens(items), flatten_bytes(items)).0),
        ({
            let s = multi_write(byte_lens(items), flatten_bytes(items)).0;
            parse_multi_bytes(s, u32s_at(s, 4, u32_at(s, 0) as nat), 0, 4 + 4 * u32_at(s, 0), terminated)
                == Ok::<Seq<Seq<u8>>, LtpError>(items)
        }),
{
    lemma_le_roundtrip();
    let l = byte_lens(items);
    let n = items.len() as int;
    let base = 4 * (n + 1);
    let o = multi_offsets_write(l, 0, base);
    let d = flatten_bytes(items);
    let s = multi_write(l, d).0;
    lemma_multi_offsets(l, 0, base);
    lemma_flatten_bytes(items);
    lemma_prefix_sums(l);
    assert(s == le32(n as u32) + o.0 + d);
    assert(s.subrange(0, 4) =~= le32(n as u32));
    let offsets = u32s_at(s, 4, n as nat);
    assert forall|j: int| 0 <= j < n implies #[trigger] offsets[j] == base + prefix_sum(l, j) by {
        assert(l.subrange(0, 0 + j) =~= l.subrange(0, j));
        assert(s.subrange(4 + 4 * j, 4 + 4 * j + 4) =~= o.0.subrange(4 * j, 4 * j + 4));
    }
    assert forall|j: int| 0 <= j < n implies #[trigger] s.subrange(base + prefix_sum(l, j), base + prefix_sum(l, j + 1))
        == items[j] by {
        assert(s.subrange(base + prefix_sum(l, j), base + prefix_sum(l, j + 1))
            =~= d.subrange(prefix_sum(l, j), prefix_sum(l, j + 1)));
    }
    lemma_parse_multi_bytes_from(s, offsets, items, base, 0, terminated);
    assert(items.subrange(0, n) =~= items);
}

/// The UTF-16LE encodings one after another: item `i` sits between the sums of the
/// byte lengths of the items before it and up to it.
proof fn lemma_flatten_unicode(items: Seq<Seq<u16>>)
    ensures
        flatten_unicode(items).len() == lens_sum(unicode_lens(items)),
        forall|i: int| 0 <= i < items.len() ==> #[trigger] flatten_unicode(items).subrange(
            lens_sum(unicode_lens(items).subrange(0, i)), lens_sum(unicode_lens(items).subrange(0, i + 1)))
            == u16s_bytes(items[i]),
    decreases items.len(),
{
    if items.len() > 0 {
        let p = items.drop_last();
        lemma_flatten_unicode(p);
        lemma_u16s_bytes(items.last());
        let l = unicode_lens(items);
        assert(unicode_lens(p) =~= l.drop_last());
        assert forall|i: int| 0 <= i < items.len() implies #[trigger] flatten_unicode(items).subrange(
            lens_sum(l.subrange(0, i)), lens_sum(l.subrange(0, i + 1))) == u16s_bytes(items[i]) by {
            if i < items.len() - 1 {
                assert(l.subrange(0, i) =~= unicode_lens(p).subrange(0, i));
                assert(l.subrange(0, i + 1) =~= unicode_lens(p).subrange(0, i + 1));
                lemma_lens_sum_prefix(unicode_lens(p), i + 1);
                lemma_lens_sum_prefix(unicode_lens(p).subrange(0, i + 1), i);
                assert(unicode_lens(p).subrange(0, i + 1).subrange(0, i) =~= unicode_lens(p).subrange(0, i));
                assert(flatten_unicode(items).subrange(lens_sum(l.subrange(0, i)), lens_sum(l.subrange(0, i + 1)))
                    =~= flatten_unicode(p).subrange(lens_sum(l.subrange(0, i)), lens_sum(l.subrange(0, i + 1))));
            } else {
                assert(l.subrange(0, i) =~= unicode_lens(p));
                assert(l.subrange(0, i + 1) =~= l);
                assert(unicode_lens(p).subrange(0, p.len() as int) =~= unicode_lens(p));
            }
        }
    } else {
        assert(unicode_lens(items) =~= Seq::<int>::empty());
    }
}

/// Reading UTF-16 items from item `i` on, where item `j` is stored at `base` plus the
/// byte lengths before it and every offset says so, gives the items back.
proof fn lemma_parse_multi_unicode_from(
    s: Seq<u8>,
    offsets: Seq<u32>,
    items: Seq<Seq<u16>>,
    base: int,
    i: nat,
)
    requires
        i <= items.len(),
        base >= 0,
        offsets.len() == items.len(),
        forall|j: int| 0 <= j < items.len() ==> #[trigger] offsets[j] == base + prefix_sum(unicode_lens(items), j),
        s.len() == base + lens_sum(unicode_lens(items)),
        forall|j: int| 0 <= j < items.len() ==> #[trigger] s.subrange(
            base + prefix_sum(unicode_lens(items), j), base + prefix_sum(unicode_lens(items), j + 1))
            == u16s_bytes(items[j]),
        forall|j: int| 0 <= j < items.len() ==> null_terminated(#[trigger] items[j], 0u16),
    ensures
        parse_multi_unicode(s, offsets, i, base + prefix_sum(unicode_lens(items), i as int))
            == Ok::<Seq<Seq<u16>>, LtpError>(items.subrange(i as int, items.len() as int)),
    decreases items.len() - i,
{
    let l = unicode_lens(items);
    let n = items.len() as int;
    lemma_prefix_sums(l);
    if i < n {
        let start = base + prefix_sum(l, i as int);
        let item = items[i as int];
        assert(offsets[i as int] == start);
        assert(prefix_sum(l, i + 1int) == start - base + 2 * item.len());
        lemma_u16s_bytes(item);
        assert(s.subrange(start, start + 2 * item.len()) == u16s_bytes(item));
        lemma_u16s_at(s, start, item);
        if i + 1 < n {
            lemma_parse_multi_unicode_from(s, offsets, items, base, i + 1);
            assert((offsets[i + 1int] as int - start + 1) / 2 == item.len());
            assert(seq![item] + items.subrange(i + 1int, n) =~= items.subrange(i as int, n));
        } else {
            assert((s.len() - start) / 2 == item.len());
            assert(seq![item] =~= items.subrange(i as int, n));
        }
    } else {
        assert(items.subrange(i as int, n) =~= Seq::<Seq<u16>>::empty());
    }
}

/// The bytes written for a multi-valued UTF-16 string property read back as its items,
/// when every item ends with its terminating zero and the offsets fit in 32 bits.
proof fn lemma_multi_unicode_roundtrip(items: Seq<Seq<u16>>)
    requires
        multi_write(unicode_lens(items), flatten_unicode(items)).1 is None,
        forall|j: int| 0 <= j < items.len() ==> null_terminated(#[trigger] items[j], 0u16),
    ensures
        multi_count_ok(multi_write(unicode_lens(items), flatten_unicode(items)).0),
        ({
            let s = multi_write(unicode_lens(items), flatten_unicode(items)).0;
            parse_multi_unicode(s, u32s_at(s, 4, u32_at(s, 0) as nat), 0, 4 + 4 * u32_at(s, 0))
                == Ok::<Seq<Seq<u16>>, LtpError>(items)
        }),
{
    lemma_le_roundtrip();
    let l = unicode_lens(items);
    let n = items.len() as int;
    let base = 4 * (n + 1);
    let o = multi_offsets_write(l, 0, base);
    let d = flatten_unicode(items);
    let s = multi_write(l, d).0;
    lemma_multi_offsets(l, 0, base);
    lemma_flatten_unicode(items);
    lemma_prefix_sums(l);
    assert(s == le32(n as u32) + o.0 + d);
    assert(s.subrange(0, 4) =~= le32(n as u32));
    let offsets = u32s_at(s, 4, n as nat);
    assert forall|j: int| 0 <= j < n implies #[trigger] offsets[j] == base + prefix_sum(l, j) by {
        assert(l.subrange(0, 0 + j) =~= l.subrange(0, j));
        assert(s.subrange(4 + 4 * j, 4 + 4 * j + 4) =~= o.0.subrange(4 * j, 4 * j + 4));
    }
    assert forall|j: int| 0 <= j < n implies #[trigger] s.subrange(base + prefix_sum(l, j), base + prefix_sum(l, j + 1))
        == u16s_bytes(items[j]) by {
        assert(s.subrange(base + prefix_sum(l, j), base + prefix_sum(l, j + 1))
            =~= d.subrange(prefix_sum(l, j), prefix_sum(l, j + 1)));
    }
    lemma_parse_multi_unicode_from(s, offsets, items, base, 0);
    assert(items.subrange(0, n) =~= items);
}

} // verus!
