//! Table Context (TC):
//! the description of a table's columns and the layout of its rows.

use vstd::prelude::*;
use vstd::std_specs::cmp::PartialOrdSpecImpl;
use std::cmp::Ordering;
use crate::codec::{
    le16, le32, lemma_le_roundtrip, push_bytes, push_u16, push_u32, push_u8, read_u16_at, read_u32_at, read_u64_at, u16_at, u32_at, u64_at,
    view_result,
};
use crate::ndb::node_id::{nid_type_code, NodeId};
use super::LtpError;
use super::read_write::{HeapIdReadWrite, HeapNodeReadWrite, TableContextReadWrite, TableRowReadWrite};
use super::heap::{lemma_heap_id_roundtrip, parse_heap_id, HeapId, HeapNodeType};
use super::prop_context::{PropertyValue, PropertyValueModel};
use super::prop_type::{lemma_property_type_code_roundtrip, PropertyType};
use super::tree::HeapTreeEntryValue;
use crate::ndb::btree::{AnsiNodeBTreeEntry, AnsiNodeBTreeEntryModel, UnicodeNodeBTreeEntry, UnicodeNodeBTreeEntryModel};

verus! {

/// The property id of the row id column.
pub const LTP_ROW_ID_PROP_ID: u16 = 0x67F2;
/// The property id of the row version column.
pub const LTP_ROW_VERSION_PROP_ID: u16 = 0x67F3;

/// The bytes of an existence bitmap of `column_count` bits: one bit per column, rounded up.
pub open spec fn spec_existence_bitmap_size(column_count: int) -> int {
    column_count / 8 + if column_count % 8 == 0 { 0int } else { 1int }
}

/// The bytes of an existence bitmap of `column_count` bits: one bit per column, rounded up.
pub fn existence_bitmap_size(column_count: usize) -> (r: usize)
    ensures
        r == spec_existence_bitmap_size(column_count as int),
{
    column_count / 8 + if column_count % 8 == 0 { 0 } else { 1 }
}

/// Bit `column` of an existence bitmap, the most significant bit of each byte first.
pub open spec fn existence_bit(bitmap: Seq<u8>, column: int) -> bool {
    bitmap[column / 8] & (1u8 << ((7 - column % 8) as u8)) != 0
}

/// Whether the bit of `column` is set in the existence bitmap; the column must be
/// within the bitmap.
pub fn check_existence_bitmap(column: usize, existence_bitmap: &[u8]) -> (r: Result<bool, LtpError>)
    requires
        existence_bitmap@.len() * 8 <= usize::MAX,
    ensures
        column >= existence_bitmap@.len() * 8 ==> r == Err::<bool, LtpError>(LtpError::InvalidTableContextColumnCount(column)),
        column < existence_bitmap@.len() * 8 ==> r == Ok::<bool, LtpError>(existence_bit(existence_bitmap@, column as int)),
{
    if column >= existence_bitmap.len() * 8 {
        return Err(LtpError::InvalidTableContextColumnCount(column));
    }
    Ok(existence_bitmap[column / 8] & (1u8 << ((7 - column % 8) as u8)) != 0)
}

/// The fields of a column description.
pub struct ColumnModel {
    pub prop_type: PropertyType,
    pub prop_id: u16,
    pub offset: u16,
    pub size: u8,
    pub existence_bitmap_index: u8,
}

/// TCOLDESC:
/// a column's property, where its value sits in a row, its size and its bit in the
/// existence bitmap.
#[derive(Debug, Clone, Copy, PartialEq, Eq, Structural)]
pub struct TableColumnDescriptor {
    prop_type: PropertyType,
    prop_id: u16,
    offset: u16,
    size: u8,
    existence_bitmap_index: u8,
}

impl View for TableColumnDescriptor {
    type V = ColumnModel;

    closed spec fn view(&self) -> ColumnModel {
        ColumnModel {
            prop_type: self.prop_type,
            prop_id: self.prop_id,
            offset: self.offset,
            size: self.size,
            existence_bitmap_index: self.existence_bitmap_index,
        }
    }
}

/// The column description held in the 8 bytes of `s`.
pub open spec fn parse_column(s: Seq<u8>) -> Result<ColumnModel, LtpError> {
    match PropertyType::spec_from_code(u16_at(s, 0)) {
        None => Err(LtpError::InvalidPropertyType(u16_at(s, 0))),
        Some(t) => Ok(ColumnModel {
            prop_type: t,
            prop_id: u16_at(s, 2),
            offset: u16_at(s, 4),
            size: s[6],
            existence_bitmap_index: s[7],
        }),
    }
}

/// The 8 bytes of a column description.
pub open spec fn column_bytes(c: ColumnModel) -> Seq<u8> {
    le16(c.prop_type.spec_code()) + le16(c.prop_id) + le16(c.offset) + seq![c.size, c.existence_bitmap_index]
}

impl TableColumnDescriptor {
    /// The column with the given fields.
    pub fn new(prop_type: PropertyType, prop_id: u16, offset: u16, size: u8, existence_bitmap_index: u8) -> (r: TableColumnDescriptor)
        ensures
            r@ == (ColumnModel { prop_type, prop_id, offset, size, existence_bitmap_index }),
    {
        TableColumnDescriptor { prop_type, prop_id, offset, size, existence_bitmap_index }
    }

    /// The property type.
    pub fn prop_type(&self) -> (r: PropertyType)
        ensures
            r == self@.prop_type,
    {
        self.prop_type
    }

    /// The property id.
    pub fn prop_id(&self) -> (r: u16)
        ensures
            r == self@.prop_id,
    {
        self.prop_id
    }

    /// The offset of the value in a row.
    pub fn offset(&self) -> (r: u16)
        ensures
            r == self@.offset,
    {
        self.offset
    }

    /// The size of the value in a row.
    pub fn size(&self) -> (r: u8)
        ensures
            r == self@.size,
    {
        self.size
    }

    /// The column's bit in the existence bitmap.
    pub fn existence_bitmap_index(&self) -> (r: u8)
        ensures
            r == self@.existence_bitmap_index,
    {
        self.existence_bitmap_index
    }
}

impl TableContextReadWrite for TableColumnDescriptor {
    open spec fn readable(s: Seq<u8>) -> bool {
        true
    }

    /// Reads a column description from the first 8 bytes of `b`; the property type must
    /// be known.
    fn read(b: &[u8]) -> (r: Result<TableColumnDescriptor, LtpError>)
        ensures
            b@.len() < 8 ==> r == Err::<TableColumnDescriptor, LtpError>(LtpError::UnexpectedEndOfData),
            b@.len() >= 8 ==> view_result(r) == parse_column(b@.subrange(0, 8)),
    {
        if b.len() < 8 {
            return Err(LtpError::UnexpectedEndOfData);
        }
        let ghost s = b@.subrange(0, 8);
        assert(s.subrange(0, 2) =~= b@.subrange(0, 2));
        assert(s.subrange(2, 4) =~= b@.subrange(2, 4));
        assert(s.subrange(4, 6) =~= b@.subrange(4, 6));
        let prop_type = match PropertyType::try_from_u16(read_u16_at(b, 0)) {
            Ok(t) => t,
            Err(e) => return Err(e),
        };
        let prop_id = read_u16_at(b, 2);
        let offset = read_u16_at(b, 4);
        Ok(TableColumnDescriptor { prop_type, prop_id, offset, size: b[6], existence_bitmap_index: b[7] })
    }

    /// Appends the 8 bytes of the column description.
    fn write(&self, out: &mut Vec<u8>) -> (r: Result<(), LtpError>)
        ensures
            r is Ok,
            final(out)@ == old(out)@ + column_bytes(self@),
    {
        push_u16(out, self.prop_type.code());
        push_u16(out, self.prop_id);
        push_u16(out, self.offset);
        push_u8(out, self.size);
        push_u8(out, self.existence_bitmap_index);
        assert(out@ =~= old(out)@ + column_bytes(self@));
        Ok(())
    }
}

/// The views of a list of columns.
pub open spec fn column_models(v: Seq<TableColumnDescriptor>) -> Seq<ColumnModel> {
    v.map_values(|c: TableColumnDescriptor| c@)
}

/// Whether values of the type take 4 bytes of a row, or the 4-byte id of where they are.
pub open spec fn is_4byte_type(t: PropertyType) -> bool {
    match t {
        PropertyType::Integer32 | PropertyType::Floating32 | PropertyType::ErrorCode | PropertyType::String8
        | PropertyType::Unicode | PropertyType::Guid | PropertyType::Binary | PropertyType::Object
        | PropertyType::MultipleInteger16 | PropertyType::MultipleInteger32 | PropertyType::MultipleFloating32
        | PropertyType::MultipleFloating64 | PropertyType::MultipleCurrency | PropertyType::MultipleFloatingTime
        | PropertyType::MultipleInteger64 | PropertyType::MultipleString8 | PropertyType::MultipleUnicode
        | PropertyType::MultipleTime | PropertyType::MultipleGuid | PropertyType::MultipleBinary => true,
        _ => false,
    }
}

/// The outcome of checking a column: it passes, it fails with an error, or the check
/// of its offset overflows 16 bits.
pub enum ColumnCheck {
    Pass,
    Fail(LtpError),
    Overflow,
}

/// The checks of one column against the row layout `e4`, `e2`, `e1` of a table of
/// `n` columns: the row id and row version columns sit at fixed places, the type must
/// be one a table can hold, the offset must lie in the part of the row for the
/// type's width, the size must be that width, and the bitmap index at most `n`.
pub open spec fn check_column(c: ColumnModel, e4: u16, e2: u16, e1: u16, n: int) -> ColumnCheck {
    if c.prop_type == PropertyType::Integer32 && c.prop_id == LTP_ROW_ID_PROP_ID
        && !(c.offset == 0 && c.existence_bitmap_index == 0) {
        ColumnCheck::Fail(LtpError::InvalidTableContextRowIdColumn(c.prop_id, c.prop_type))
    } else if c.prop_type == PropertyType::Integer32 && c.prop_id == LTP_ROW_VERSION_PROP_ID
        && !(c.offset == 4 && c.existence_bitmap_index == 1) {
        ColumnCheck::Fail(LtpError::InvalidTableContextRowIdColumn(c.prop_id, c.prop_type))
    } else if c.prop_type == PropertyType::Null {
        ColumnCheck::Fail(LtpError::InvalidTableColumnPropertyType(c.prop_type))
    } else if c.prop_type == PropertyType::Boolean {
        if !(e2 <= c.offset < e1) {
            ColumnCheck::Fail(LtpError::InvalidTableColumnOffset(c.offset))
        } else if c.size != 1 {
            ColumnCheck::Fail(LtpError::InvalidTableColumnSize(c.size))
        } else if c.existence_bitmap_index > n {
            ColumnCheck::Fail(LtpError::InvalidTableColumnBitmaskOffset(c.existence_bitmap_index))
        } else {
            ColumnCheck::Pass
        }
    } else if c.prop_type == PropertyType::Integer16 {
        if c.offset % 2 == 0 && c.offset >= e4 && c.offset + 2 > u16::MAX {
            ColumnCheck::Overflow
        } else if !(c.offset % 2 == 0 && c.offset >= e4 && c.offset + 2 <= e2) {
            ColumnCheck::Fail(LtpError::InvalidTableColumnOffset(c.offset))
        } else if c.size != 2 {
            ColumnCheck::Fail(LtpError::InvalidTableColumnSize(c.size))
        } else if c.existence_bitmap_index > n {
            ColumnCheck::Fail(LtpError::InvalidTableColumnBitmaskOffset(c.existence_bitmap_index))
        } else {
            ColumnCheck::Pass
        }
    } else {
        let w: int = if is_4byte_type(c.prop_type) { 4 } else { 8 };
        if c.offset % 4 == 0 && c.offset + w > u16::MAX {
            ColumnCheck::Overflow
        } else if !(c.offset % 4 == 0 && c.offset + w <= e4) {
            ColumnCheck::Fail(LtpError::InvalidTableColumnOffset(c.offset))
        } else if c.size != w {
            ColumnCheck::Fail(LtpError::InvalidTableColumnSize(c.size))
        } else if c.existence_bitmap_index > n {
            ColumnCheck::Fail(LtpError::InvalidTableColumnBitmaskOffset(c.existence_bitmap_index))
        } else {
            ColumnCheck::Pass
        }
    }
}

/// The first column of `cols[k..]` that does not pass, if any.
pub open spec fn check_columns(cols: Seq<ColumnModel>, k: nat, e4: u16, e2: u16, e1: u16) -> ColumnCheck
    decreases cols.len() - k,
{
    if k >= cols.len() {
        ColumnCheck::Pass
    } else {
        match check_column(cols[k as int], e4, e2, e1, cols.len() as int) {
            ColumnCheck::Pass => check_columns(cols, k + 1, e4, e2, e1),
            other => other,
        }
    }
}

/// What `new` finds wrong with a table layout and its columns, if anything.
pub open spec fn table_context_check(e4: u16, e2: u16, e1: u16, eb: u16, cols: Seq<ColumnModel>) -> ColumnCheck {
    if cols.len() > 0xFF {
        ColumnCheck::Fail(LtpError::InvalidTableContextColumnCount(cols.len() as usize))
    } else if e4 % 4 != 0 {
        ColumnCheck::Fail(LtpError::InvalidTableContext4ByteOffset(e4))
    } else if e2 % 2 != 0 || e2 < e4 {
        ColumnCheck::Fail(LtpError::InvalidTableContext2ByteOffset(e2))
    } else if e1 < e2 {
        ColumnCheck::Fail(LtpError::InvalidTableContext1ByteOffset(e1))
    } else if eb < e1 || eb - e1 != spec_existence_bitmap_size(cols.len() as int) {
        ColumnCheck::Fail(LtpError::InvalidTableContextBitmaskOffset(eb))
    } else {
        check_columns(cols, 0, e4, e2, e1)
    }
}

/// Checks one column.
fn check_one_column(c: &TableColumnDescriptor, e4: u16, e2: u16, e1: u16, n: usize) -> (r: Result<(), LtpError>)
    requires
        check_column(c@, e4, e2, e1, n as int) != ColumnCheck::Overflow,
    ensures
        r == match check_column(c@, e4, e2, e1, n as int) {
            ColumnCheck::Fail(e) => Err::<(), LtpError>(e),
            _ => Ok(()),
        },
{
    let t = c.prop_type;
    if t == PropertyType::Integer32 && c.prop_id == LTP_ROW_ID_PROP_ID && !(c.offset == 0 && c.existence_bitmap_index == 0) {
        return Err(LtpError::InvalidTableContextRowIdColumn(c.prop_id, t));
    }
    if t == PropertyType::Integer32 && c.prop_id == LTP_ROW_VERSION_PROP_ID && !(c.offset == 4 && c.existence_bitmap_index == 1) {
        return Err(LtpError::InvalidTableContextRowIdColumn(c.prop_id, t));
    }
    if t == PropertyType::Null {
        return Err(LtpError::InvalidTableColumnPropertyType(t));
    }
    let width: u8 = if t == PropertyType::Boolean {
        if !(c.offset >= e2 && c.offset < e1) {
            return Err(LtpError::InvalidTableColumnOffset(c.offset));
        }
        1
    } else if t == PropertyType::Integer16 {
        if !(c.offset % 2 == 0 && c.offset >= e4 && c.offset + 2 <= e2) {
            return Err(LtpError::InvalidTableColumnOffset(c.offset));
        }
        2
    } else {
        let w: u16 = if is_4byte(t) { 4 } else { 8 };
        if !(c.offset % 4 == 0 && c.offset + w <= e4) {
            return Err(LtpError::InvalidTableColumnOffset(c.offset));
        }
        w as u8
    };
    if c.size != width {
        return Err(LtpError::InvalidTableColumnSize(c.size));
    }
    if c.existence_bitmap_index as usize > n {
        return Err(LtpError::InvalidTableColumnBitmaskOffset(c.existence_bitmap_index));
    }
    Ok(())
}

/// Whether values of the type take 4 bytes of a row.
fn is_4byte(t: PropertyType) -> (r: bool)
    ensures
        r == is_4byte_type(t),
{
    match t {
        PropertyType::Integer32 | PropertyType::Floating32 | PropertyType::ErrorCode | PropertyType::String8
        | PropertyType::Unicode | PropertyType::Guid | PropertyType::Binary | PropertyType::Object
        | PropertyType::MultipleInteger16 | PropertyType::MultipleInteger32 | PropertyType::MultipleFloating32
        | PropertyType::MultipleFloating64 | PropertyType::MultipleCurrency | PropertyType::MultipleFloatingTime
        | PropertyType::MultipleInteger64 | PropertyType::MultipleString8 | PropertyType::MultipleUnicode
        | PropertyType::MultipleTime | PropertyType::MultipleGuid | PropertyType::MultipleBinary => true,
        _ => false,
    }
}


/// The fields of a table context description.
pub struct TableContextInfoModel {
    pub end_4byte_values: u16,
    pub end_2byte_values: u16,
    pub end_1byte_values: u16,
    pub end_existence_bitmap: u16,
    pub row_index: u32,
    pub rows: Option<u32>,
    pub deprecated_index: u32,
    pub columns: Seq<ColumnModel>,
}

/// TCINFO:
/// the layout of the rows of a table, where its rows and its row index are, and its columns.
#[derive(Debug)]
pub struct TableContextInfo {
    end_4byte_values: u16,
    end_2byte_values: u16,
    end_1byte_values: u16,
    end_existence_bitmap: u16,
    row_index: HeapId,
    rows: Option<NodeId>,
    deprecated_index: u32,
    columns: Vec<TableColumnDescriptor>,
}

/// The raw value of an optional node id.
pub open spec fn opt_node(v: Option<NodeId>) -> Option<u32> {
    match v {
        Some(n) => Some(n@),
        None => None,
    }
}

impl View for TableContextInfo {
    type V = TableContextInfoModel;

    closed spec fn view(&self) -> TableContextInfoModel {
        TableContextInfoModel {
            end_4byte_values: self.end_4byte_values,
            end_2byte_values: self.end_2byte_values,
            end_1byte_values: self.end_1byte_values,
            end_existence_bitmap: self.end_existence_bitmap,
            row_index: self.row_index@,
            rows: opt_node(self.rows),
            deprecated_index: self.deprecated_index,
            columns: column_models(self.columns@),
        }
    }
}

/// Whether a table context description is one that `new` accepts.
pub open spec fn table_context_valid(m: TableContextInfoModel) -> bool {
    table_context_check(m.end_4byte_values, m.end_2byte_values, m.end_1byte_values, m.end_existence_bitmap, m.columns)
        == ColumnCheck::Pass
}

impl TableContextInfo {
    #[verifier::type_invariant]
    spec fn wf(&self) -> bool {
        table_context_valid(self@)
    }

    /// The description of a table whose rows hold the 4-byte values up to
    /// `end_4byte_values`, the 2-byte values up to `end_2byte_values`, the 1-byte values
    /// up to `end_1byte_values` and the existence bitmap up to `end_existence_bitmap`;
    /// the layout and every column are checked in turn and the first fault is reported.
    pub fn new(
        end_4byte_values: u16,
        end_2byte_values: u16,
        end_1byte_values: u16,
        end_existence_bitmap: u16,
        row_index: HeapId,
        rows: Option<NodeId>,
        columns: Vec<TableColumnDescriptor>,
    ) -> (r: Result<TableContextInfo, LtpError>)
        requires
            table_context_check(end_4byte_values, end_2byte_values, end_1byte_values, end_existence_bitmap, column_models(columns@))
                != ColumnCheck::Overflow,
        ensures
            match table_context_check(end_4byte_values, end_2byte_values, end_1byte_values, end_existence_bitmap, column_models(columns@)) {
                ColumnCheck::Fail(e) => r == Err::<TableContextInfo, LtpError>(e),
                _ => r matches Ok(t) && t@ == (TableContextInfoModel {
                    end_4byte_values,
                    end_2byte_values,
                    end_1byte_values,
                    end_existence_bitmap,
                    row_index: row_index@,
                    rows: opt_node(rows),
                    deprecated_index: 0,
                    columns: column_models(columns@),
                }),
            },
    {
        let ghost cols = column_models(columns@);
        let n = columns.len();
        if n > 0xFF {
            return Err(LtpError::InvalidTableContextColumnCount(n));
        }
        if end_4byte_values % 4 != 0 {
            return Err(LtpError::InvalidTableContext4ByteOffset(end_4byte_values));
        }
        if end_2byte_values % 2 != 0 || end_2byte_values < end_4byte_values {
            return Err(LtpError::InvalidTableContext2ByteOffset(end_2byte_values));
        }
        if end_1byte_values < end_2byte_values {
            return Err(LtpError::InvalidTableContext1ByteOffset(end_1byte_values));
        }
        if end_existence_bitmap < end_1byte_values
            || (end_existence_bitmap - end_1byte_values) as usize != existence_bitmap_size(n) {
            return Err(LtpError::InvalidTableContextBitmaskOffset(end_existence_bitmap));
        }
        let mut k: usize = 0;
        assert(table_context_check(end_4byte_values, end_2byte_values, end_1byte_values, end_existence_bitmap, cols)
            == check_columns(cols, 0, end_4byte_values, end_2byte_values, end_1byte_values));
        while k < n
            invariant
                table_context_check(end_4byte_values, end_2byte_values, end_1byte_values, end_existence_bitmap, cols)
                    == check_columns(cols, 0, end_4byte_values, end_2byte_values, end_1byte_values),
                n == columns@.len(),
                cols == column_models(columns@),
                k <= n,
                check_columns(cols, 0, end_4byte_values, end_2byte_values, end_1byte_values)
                    == check_columns(cols, k as nat, end_4byte_values, end_2byte_values, end_1byte_values),
                check_columns(cols, 0, end_4byte_values, end_2byte_values, end_1byte_values) != ColumnCheck::Overflow,
            decreases n - k,
        {
            assert(columns@[k as int]@ == cols[k as int]);
            match check_one_column(&columns[k], end_4byte_values, end_2byte_values, end_1byte_values, n) {
                Ok(()) => {},
                Err(e) => {
                    assert(check_columns(cols, k as nat, end_4byte_values, end_2byte_values, end_1byte_values)
                        == ColumnCheck::Fail(e));
                    return Err(e);
                },
            }
            k = k + 1;
        }
        Ok(TableContextInfo {
            end_4byte_values,
            end_2byte_values,
            end_1byte_values,
            end_existence_bitmap,
            row_index,
            rows,
            deprecated_index: 0,
            columns,
        })
    }

    /// The end of the 4-byte values of a row.
    pub fn end_4byte_values(&self) -> (r: u16)
        ensures
            r == self@.end_4byte_values,
    {
        self.end_4byte_values
    }

    /// The end of the 2-byte values of a row.
    pub fn end_2byte_values(&self) -> (r: u16)
        ensures
            r == self@.end_2byte_values,
    {
        self.end_2byte_values
    }

    /// The end of the 1-byte values of a row.
    pub fn end_1byte_values(&self) -> (r: u16)
        ensures
            r == self@.end_1byte_values,
    {
        self.end_1byte_values
    }

    /// The end of the existence bitmap: the size of a row.
    pub fn end_existence_bitmap(&self) -> (r: u16)
        ensures
            r == self@.end_existence_bitmap,
    {
        self.end_existence_bitmap
    }

    /// The heap id of the row index.
    pub fn row_index(&self) -> (r: HeapId)
        ensures
            r@ == self@.row_index,
    {
        self.row_index
    }

    /// Where the rows are, if the table has any.
    pub fn rows(&self) -> (r: Option<NodeId>)
        ensures
            opt_node(r) == self@.rows,
    {
        self.rows
    }

    /// The columns.
    pub fn columns(&self) -> (r: &[TableColumnDescriptor])
        ensures
            column_models(r@) == self@.columns,
    {
        self.columns.as_slice()
    }
}


/// The `n` column descriptions stored from offset 22 of `s`; the first that is cut
/// short or has an unknown type gives the error.
pub open spec fn parse_columns(s: Seq<u8>, n: nat) -> Result<Seq<ColumnModel>, LtpError>
    decreases n,
{
    if n == 0 {
        Ok(Seq::empty())
    } else {
        match parse_columns(s, (n - 1) as nat) {
            Err(e) => Err(e),
            Ok(v) => if s.len() < 22 + 8 * n {
                Err(LtpError::UnexpectedEndOfData)
            } else {
                match parse_column(s.subrange(22 + 8 * (n - 1), 22 + 8 * (n as int))) {
                    Err(e) => Err(e),
                    Ok(c) => Ok(v.push(c)),
                }
            },
        }
    }
}

/// Once reading the first `k` columns fails, reading more fails with the same error.
proof fn lemma_parse_columns_err(s: Seq<u8>, k: nat, n: nat)
    requires
        k <= n,
        parse_columns(s, k) is Err,
    ensures
        parse_columns(s, n) == parse_columns(s, k),
    decreases n,
{
    if n > k {
        lemma_parse_columns_err(s, k, (n - 1) as nat);
    }
}

/// The fields of the table context description stored in `s`, before they are checked:
/// `bType` must be that of a table context and `hidRowIndex` a heap id.
pub open spec fn parse_table_context_fields(s: Seq<u8>) -> Result<TableContextInfoModel, LtpError> {
    if s.len() < 1 {
        Err(LtpError::UnexpectedEndOfData)
    } else {
        match HeapNodeType::spec_from_code(s[0]) {
            None => Err(LtpError::InvalidHeapNodeSignature(s[0])),
            Some(t) => if t != HeapNodeType::Table {
                Err(LtpError::InvalidTableContextHeapTreeNodeType(t))
            } else if s.len() < 14 {
                Err(LtpError::UnexpectedEndOfData)
            } else {
                match parse_heap_id(s.subrange(10, 14)) {
                    Err(e) => Err(e),
                    Ok(hid) => if s.len() < 22 {
                        Err(LtpError::UnexpectedEndOfData)
                    } else {
                        match parse_columns(s, s[1] as nat) {
                            Err(e) => Err(e),
                            Ok(cols) => Ok(TableContextInfoModel {
                                end_4byte_values: u16_at(s, 2),
                                end_2byte_values: u16_at(s, 4),
                                end_1byte_values: u16_at(s, 6),
                                end_existence_bitmap: u16_at(s, 8),
                                row_index: hid,
                                rows: if u32_at(s, 14) == 0 { None } else { Some(u32_at(s, 14)) },
                                deprecated_index: u32_at(s, 18),
                                columns: cols,
                            }),
                        }
                    },
                }
            },
        }
    }
}

/// What checking the layout and columns of a description finds.
pub open spec fn table_context_fields_check(m: TableContextInfoModel) -> ColumnCheck {
    table_context_check(m.end_4byte_values, m.end_2byte_values, m.end_1byte_values, m.end_existence_bitmap, m.columns)
}

/// The table context description stored in `s`: its fields, checked as `new` checks them.
pub open spec fn parse_table_context_info(s: Seq<u8>) -> Result<TableContextInfoModel, LtpError> {
    match parse_table_context_fields(s) {
        Err(e) => Err(e),
        Ok(m) => match table_context_fields_check(m) {
            ColumnCheck::Fail(e) => Err(e),
            _ => Ok(m),
        },
    }
}

/// The bytes of the columns, one after another.
pub open spec fn columns_bytes(v: Seq<ColumnModel>) -> Seq<u8>
    decreases v.len(),
{
    if v.len() == 0 {
        Seq::empty()
    } else {
        columns_bytes(v.drop_last()) + column_bytes(v.last())
    }
}

/// The bytes of a table context description.
pub open spec fn table_context_info_bytes(m: TableContextInfoModel) -> Seq<u8> {
    seq![HeapNodeType::Table.spec_code(), m.columns.len() as u8] + le16(m.end_4byte_values) + le16(m.end_2byte_values)
        + le16(m.end_1byte_values) + le16(m.end_existence_bitmap) + le32(m.row_index)
        + le32(match m.rows {
        Some(r) => r,
        None => 0,
    }) + le32(m.deprecated_index) + columns_bytes(m.columns)
}

/// Reading the 8 bytes of a column description gives it back.
pub proof fn lemma_column_roundtrip(c: ColumnModel)
    ensures
        column_bytes(c).len() == 8,
        parse_column(column_bytes(c)) == Ok::<ColumnModel, LtpError>(c),
{
    lemma_le_roundtrip();
    lemma_property_type_code_roundtrip(c.prop_type);
    let s = column_bytes(c);
    assert(s.subrange(0, 2) =~= le16(c.prop_type.spec_code()));
    assert(s.subrange(2, 4) =~= le16(c.prop_id));
    assert(s.subrange(4, 6) =~= le16(c.offset));
}

/// The descriptions of `n` columns take `8 * n` bytes, and column `i` sits at offset `8 * i`.
proof fn lemma_columns_bytes(v: Seq<ColumnModel>)
    ensures
        columns_bytes(v).len() == 8 * v.len(),
        forall|i: int| 0 <= i < v.len() ==> #[trigger] columns_bytes(v).subrange(8 * i, 8 * i + 8) == column_bytes(v[i]),
    decreases v.len(),
{
    if v.len() > 0 {
        let p = v.drop_last();
        lemma_columns_bytes(p);
        lemma_column_roundtrip(v.last());
        assert forall|i: int| 0 <= i < v.len() implies #[trigger] columns_bytes(v).subrange(8 * i, 8 * i + 8) == column_bytes(v[i]) by {
            if i < v.len() - 1 {
                assert(columns_bytes(v).subrange(8 * i, 8 * i + 8) =~= columns_bytes(p).subrange(8 * i, 8 * i + 8));
            } else {
                assert(columns_bytes(v).subrange(8 * i, 8 * i + 8) =~= column_bytes(v.last()));
            }
        }
    }
}

/// The first `k` column descriptions stored from offset 22 read back.
proof fn lemma_parse_columns_bytes(s: Seq<u8>, cols: Seq<ColumnModel>, k: nat)
    requires
        k <= cols.len(),
        s.len() >= 22 + 8 * cols.len(),
        s.subrange(22, 22 + 8 * (cols.len() as int)) == columns_bytes(cols),
    ensures
        parse_columns(s, k) == Ok::<Seq<ColumnModel>, LtpError>(cols.subrange(0, k as int)),
    decreases k,
{
    if k == 0 {
        assert(cols.subrange(0, 0) =~= Seq::<ColumnModel>::empty());
    } else {
        lemma_parse_columns_bytes(s, cols, (k - 1) as nat);
        lemma_columns_bytes(cols);
        let i = k - 1;
        lemma_column_roundtrip(cols[i]);
        assert(s.subrange(22 + 8 * i, 22 + 8 * (k as int)) =~= columns_bytes(cols).subrange(8 * i, 8 * i + 8));
        assert(s.subrange(22 + 8 * i, 22 + 8 * (k as int)) == column_bytes(cols[i]));
        assert(cols.subrange(0, i).push(cols[i]) =~= cols.subrange(0, k as int));
    }
}

/// Reading the bytes of a valid table context description gives it back, when its row
/// index is a heap id and its row matrix is not node 0 (which reads back as none).
pub proof fn lemma_table_context_info_roundtrip(m: TableContextInfoModel)
    requires
        table_context_valid(m),
        nid_type_code(m.row_index) == 0,
        m.rows != Some(0u32),
    ensures
        parse_table_context_info(table_context_info_bytes(m)) == Ok::<TableContextInfoModel, LtpError>(m),
{
    lemma_le_roundtrip();
    lemma_columns_bytes(m.columns);
    lemma_heap_id_roundtrip(m.row_index);
    let s = table_context_info_bytes(m);
    let n = m.columns.len();
    let rows: u32 = match m.rows {
        Some(r) => r,
        None => 0,
    };
    assert(s.subrange(2, 4) =~= le16(m.end_4byte_values));
    assert(s.subrange(4, 6) =~= le16(m.end_2byte_values));
    assert(s.subrange(6, 8) =~= le16(m.end_1byte_values));
    assert(s.subrange(8, 10) =~= le16(m.end_existence_bitmap));
    assert(s.subrange(10, 14) =~= le32(m.row_index));
    assert(s.subrange(14, 18) =~= le32(rows));
    assert(s.subrange(18, 22) =~= le32(m.deprecated_index));
    assert(s.subrange(22, 22 + 8 * (n as int)) =~= columns_bytes(m.columns));
    lemma_parse_columns_bytes(s, m.columns, n);
    assert(m.columns.subrange(0, n as int) =~= m.columns);
}

impl TableContextReadWrite for TableContextInfo {
    /// The checks of the columns' offsets stay within 16 bits.
    open spec fn readable(s: Seq<u8>) -> bool {
        parse_table_context_fields(s) matches Ok(m) ==> table_context_fields_check(m) != ColumnCheck::Overflow
    }

    /// Reads a table context description from the bytes of its heap item; the fields
    /// are checked as `new` checks them.
    fn read(b: &[u8]) -> (r: Result<TableContextInfo, LtpError>)
        ensures
            view_result(r) == parse_table_context_info(b@),
    {
        let len = b.len();
        if len < 1 {
            return Err(LtpError::UnexpectedEndOfData);
        }
        let signature = match HeapNodeType::try_from_u8(b[0]) {
            Ok(t) => t,
            Err(e) => return Err(e),
        };
        if signature != HeapNodeType::Table {
            return Err(LtpError::InvalidTableContextHeapTreeNodeType(signature));
        }
        if len < 14 {
            return Err(LtpError::UnexpectedEndOfData);
        }
        let column_count = b[1];
        let end_4byte_values = read_u16_at(b, 2);
        let end_2byte_values = read_u16_at(b, 4);
        let end_1byte_values = read_u16_at(b, 6);
        let end_existence_bitmap = read_u16_at(b, 8);
        let hid_bytes = &b[10..14];
        assert(hid_bytes@.subrange(0, 4) =~= hid_bytes@);
        let row_index = match HeapId::read(hid_bytes) {
            Ok(h) => h,
            Err(e) => return Err(e),
        };
        if len < 22 {
            return Err(LtpError::UnexpectedEndOfData);
        }
        let rows = read_u32_at(b, 14);
        let rows = if rows == 0 { None } else { Some(NodeId::from_u32(rows)) };
        let deprecated_index = read_u32_at(b, 18);
        let n = column_count as usize;
        let mut columns: Vec<TableColumnDescriptor> = Vec::new();
        let mut i: usize = 0;
        assert(column_models(columns@) =~= Seq::<ColumnModel>::empty());
        assert(b@.subrange(10, 14) =~= b@.subrange(10, 14));
        assert(parse_columns(b@, n as nat) matches Err(e)
            ==> parse_table_context_info(b@) == Err::<TableContextInfoModel, LtpError>(e));
        while i < n
            invariant
                parse_columns(b@, n as nat) matches Err(e)
                    ==> parse_table_context_info(b@) == Err::<TableContextInfoModel, LtpError>(e),
                len == b@.len(),
                len >= 22,
                n == b@[1] as usize,
                i <= n,
                parse_columns(b@, i as nat) == Ok::<Seq<ColumnModel>, LtpError>(column_models(columns@)),
            decreases n - i,
        {
            if len - 22 < 8 * (i + 1) {
                proof {
                    lemma_parse_columns_err(b@, (i + 1) as nat, n as nat);
                }
                return Err(LtpError::UnexpectedEndOfData);
            }
            let ghost prev = columns@;
            let column_bytes = &b[22 + 8 * i..22 + 8 * (i + 1)];
            assert(column_bytes@.subrange(0, 8) =~= column_bytes@);
            let c = match TableColumnDescriptor::read(column_bytes) {
                Ok(c) => c,
                Err(e) => {
                    proof {
                        assert(b@.subrange(22 + 8 * i, 22 + 8 * (i + 1)) =~= b@.subrange(
                            22 + 8 * (((i + 1) as nat) - 1),
                            22 + 8 * (((i + 1) as nat) as int),
                        ));
                        assert(parse_columns(b@, (i + 1) as nat) == Err::<Seq<ColumnModel>, LtpError>(e));
                        lemma_parse_columns_err(b@, (i + 1) as nat, n as nat);
                    }
                    return Err(e);
                },
            };
            columns.push(c);
            proof {
                assert(b@.subrange(22 + 8 * i, 22 + 8 * (i + 1)) =~= b@.subrange(
                    22 + 8 * (((i + 1) as nat) - 1),
                    22 + 8 * (((i + 1) as nat) as int),
                ));
                assert(column_models(columns@) =~= column_models(prev).push(c@));
            }
            i = i + 1;
        }
        assert(b@.subrange(10, 14) =~= b@.subrange(10, 14));
        match TableContextInfo::new(
            end_4byte_values,
            end_2byte_values,
            end_1byte_values,
            end_existence_bitmap,
            row_index,
            rows,
            columns,
        ) {
            Ok(t) => Ok(TableContextInfo { deprecated_index, ..t }),
            Err(e) => Err(e),
        }
    }

    /// Appends the bytes of the description.
    fn write(&self, out: &mut Vec<u8>) -> (r: Result<(), LtpError>)
        ensures
            r is Ok,
            final(out)@ == old(out)@ + table_context_info_bytes(self@),
    {
        proof {
            use_type_invariant(self);
        }
        let n = self.columns.len();
        if n > 0xFF {
            return Err(LtpError::InvalidTableContextColumnCount(n));
        }
        push_u8(out, HeapNodeType::Table.code());
        push_u8(out, n as u8);
        push_u16(out, self.end_4byte_values);
        push_u16(out, self.end_2byte_values);
        push_u16(out, self.end_1byte_values);
        push_u16(out, self.end_existence_bitmap);
        self.row_index.write(out);
        match self.rows {
            Some(r) => r.write(out),
            None => push_u32(out, 0),
        }
        push_u32(out, self.deprecated_index);
        let ghost head = out@;
        let ghost cols = column_models(self.columns@);
        let mut i: usize = 0;
        while i < n
            invariant
                n == self.columns@.len(),
                cols == column_models(self.columns@),
                i <= n,
                out@ == head + columns_bytes(cols.subrange(0, i as int)),
            decreases n - i,
        {
            let _ = self.columns[i].write(out);
            assert(cols.subrange(0, i + 1).drop_last() =~= cols.subrange(0, i as int));
            i = i + 1;
        }
        assert(cols.subrange(0, n as int) =~= cols);
        assert(out@ =~= old(out)@ + table_context_info_bytes(self@));
        Ok(())
    }
}


/// The id of a table row; row ids are ordered as their values are.
#[derive(Debug, Clone, Copy, PartialEq, Eq, Structural, Ord)]
pub struct TableRowId {
    id: u32,
}

impl View for TableRowId {
    type V = u32;

    closed spec fn view(&self) -> u32 {
        self.id
    }
}

impl TableRowId {
    /// The row id `id`.
    pub fn new(id: u32) -> (r: TableRowId)
        ensures
            r@ == id,
    {
        TableRowId { id }
    }

    /// The raw id.
    pub fn value(&self) -> (r: u32)
        ensures
            r == self@,
    {
        self.id
    }
}

impl PartialOrd for TableRowId {
    fn partial_cmp(&self, other: &TableRowId) -> (r: Option<Ordering>) {
        if self.id < other.id {
            Some(Ordering::Less)
        } else if self.id == other.id {
            Some(Ordering::Equal)
        } else {
            Some(Ordering::Greater)
        }
    }
}

impl PartialOrdSpecImpl for TableRowId {
    open spec fn obeys_partial_cmp_spec() -> bool {
        true
    }

    /// Row ids compare as their values do.
    open spec fn partial_cmp_spec(&self, other: &TableRowId) -> Option<Ordering> {
        if self@ < other@ {
            Some(Ordering::Less)
        } else if self@ == other@ {
            Some(Ordering::Equal)
        } else {
            Some(Ordering::Greater)
        }
    }
}

impl Default for TableRowId {
    /// The row id 0.
    fn default() -> (r: TableRowId)
        ensures
            r@ == 0,
    {
        TableRowId { id: 0 }
    }
}

impl HeapNodeReadWrite for TableRowId {
    open spec fn encoded_size() -> nat {
        4
    }

    open spec fn encoded(v: u32) -> Seq<u8> {
        le32(v)
    }

    open spec fn decoded(s: Seq<u8>) -> Result<u32, LtpError> {
        Ok(u32_at(s, 0))
    }

    proof fn lemma_encoded_len(v: u32) {
        lemma_le_roundtrip();
    }

    /// Reads a row id from the first 4 bytes of `b`.
    fn read(b: &[u8]) -> (r: Result<TableRowId, LtpError>) {
        if b.len() < 4 {
            return Err(LtpError::UnexpectedEndOfData);
        }
        assert(b@.subrange(0, 4).subrange(0, 4) =~= b@.subrange(0, 4));
        Ok(TableRowId { id: read_u32_at(b, 0) })
    }

    /// Appends the 4 bytes of the row id.
    fn write(&self, out: &mut Vec<u8>) {
        push_u32(out, self.id);
    }
}

/// The index of a row in a table's row matrix, as stored in the row index heap tree.
pub trait TableRowIndex: HeapTreeEntryValue + Copy {
    /// The index, widened to 32 bits.
    fn value(&self) -> u32;
}

/// The index of a row in the row matrix of a Unicode file's table: 32 bits.
#[derive(Debug, Clone, Copy, PartialEq, Eq, Structural)]
pub struct UnicodeTableRowIndex {
    index: u32,
}

impl View for UnicodeTableRowIndex {
    type V = u32;

    closed spec fn view(&self) -> u32 {
        self.index
    }
}

impl UnicodeTableRowIndex {
    /// The row index `index`.
    pub fn new(index: u32) -> (r: UnicodeTableRowIndex)
        ensures
            r@ == index,
    {
        UnicodeTableRowIndex { index }
    }
}

impl HeapNodeReadWrite for UnicodeTableRowIndex {
    open spec fn encoded_size() -> nat {
        4
    }

    open spec fn encoded(v: u32) -> Seq<u8> {
        le32(v)
    }

    open spec fn decoded(s: Seq<u8>) -> Result<u32, LtpError> {
        Ok(u32_at(s, 0))
    }

    proof fn lemma_encoded_len(v: u32) {
        lemma_le_roundtrip();
    }

    /// Reads a row index from the first 4 bytes of `b`.
    fn read(b: &[u8]) -> (r: Result<UnicodeTableRowIndex, LtpError>) {
        if b.len() < 4 {
            return Err(LtpError::UnexpectedEndOfData);
        }
        assert(b@.subrange(0, 4).subrange(0, 4) =~= b@.subrange(0, 4));
        Ok(UnicodeTableRowIndex { index: read_u32_at(b, 0) })
    }

    /// Appends the 4 bytes of the row index.
    fn write(&self, out: &mut Vec<u8>) {
        push_u32(out, self.index);
    }
}

impl TableRowIndex for UnicodeTableRowIndex {
    /// The raw index.
    fn value(&self) -> (r: u32)
        ensures
            r == self@,
    {
        self.index
    }
}

/// The index of a row in the row matrix of an ANSI file's table: 16 bits.
#[derive(Debug, Clone, Copy, PartialEq, Eq, Structural)]
pub struct AnsiTableRowIndex {
    index: u16,
}

impl View for AnsiTableRowIndex {
    type V = u16;

    closed spec fn view(&self) -> u16 {
        self.index
    }
}

impl AnsiTableRowIndex {
    /// The row index `index`.
    pub fn new(index: u16) -> (r: AnsiTableRowIndex)
        ensures
            r@ == index,
    {
        AnsiTableRowIndex { index }
    }
}

impl HeapNodeReadWrite for AnsiTableRowIndex {
    open spec fn encoded_size() -> nat {
        2
    }

    open spec fn encoded(v: u16) -> Seq<u8> {
        le16(v)
    }

    open spec fn decoded(s: Seq<u8>) -> Result<u16, LtpError> {
        Ok(u16_at(s, 0))
    }

    proof fn lemma_encoded_len(v: u16) {
        lemma_le_roundtrip();
    }

    /// Reads a row index from the first 2 bytes of `b`.
    fn read(b: &[u8]) -> (r: Result<AnsiTableRowIndex, LtpError>) {
        if b.len() < 2 {
            return Err(LtpError::UnexpectedEndOfData);
        }
        assert(b@.subrange(0, 2).subrange(0, 2) =~= b@.subrange(0, 2));
        Ok(AnsiTableRowIndex { index: read_u16_at(b, 0) })
    }

    /// Appends the 2 bytes of the row index.
    fn write(&self, out: &mut Vec<u8>) {
        push_u16(out, self.index);
    }
}

impl TableRowIndex for AnsiTableRowIndex {
    /// The raw index, widened to 32 bits.
    fn value(&self) -> (r: u32)
        ensures
            r == self@,
    {
        self.index as u32
    }
}


/// The view of a column's value in a row.
pub enum ColumnValueModel {
    Small(PropertyValueModel),
    Heap(u32),
    Node(u32),
}

/// A column's value in a row: the value itself, or the heap id or sub-node of where it is.
#[derive(Debug)]
pub enum TableRowColumnValue {
    Small(PropertyValue),
    Heap(HeapId),
    Node(NodeId),
}

impl View for TableRowColumnValue {
    type V = ColumnValueModel;

    open spec fn view(&self) -> ColumnValueModel {
        match self {
            TableRowColumnValue::Small(v) => ColumnValueModel::Small(v@),
            TableRowColumnValue::Heap(h) => ColumnValueModel::Heap(h@),
            TableRowColumnValue::Node(n) => ColumnValueModel::Node(n@),
        }
    }
}

/// The fields of a row.
pub struct RowModel {
    pub id: u32,
    pub unique: u32,
    pub align_4byte: Seq<u8>,
    pub align_2byte: Seq<u8>,
    pub align_1byte: Seq<u8>,
    pub existence_bitmap: Seq<u8>,
}

/// Row Data Format:
/// a row id, a unique value, the 4-, 2- and 1-byte values and the existence bitmap.
pub struct TableRowData {
    id: TableRowId,
    unique: u32,
    align_4byte: Vec<u8>,
    align_2byte: Vec<u8>,
    align_1byte: Vec<u8>,
    existence_bitmap: Vec<u8>,
}

impl View for TableRowData {
    type V = RowModel;

    closed spec fn view(&self) -> RowModel {
        RowModel {
            id: self.id@,
            unique: self.unique,
            align_4byte: self.align_4byte@,
            align_2byte: self.align_2byte@,
            align_1byte: self.align_1byte@,
            existence_bitmap: self.existence_bitmap@,
        }
    }
}

/// The 1-byte value at offset `off` of a row: past the 2-byte values and within the 1-byte values.
pub open spec fn row_1byte(row: RowModel, ctx: TableContextInfoModel, off: u16) -> Result<u8, LtpError> {
    if off < ctx.end_2byte_values || off - ctx.end_2byte_values >= row.align_1byte.len() {
        Err(LtpError::InvalidTableColumnOffset(off))
    } else {
        Ok(row.align_1byte[off - ctx.end_2byte_values])
    }
}

/// The 2-byte value at offset `off` of a row: past the 4-byte values and within the 2-byte values.
pub open spec fn row_2byte(row: RowModel, ctx: TableContextInfoModel, off: u16) -> Result<u16, LtpError> {
    if off < ctx.end_4byte_values || off - ctx.end_4byte_values + 2 > row.align_2byte.len() {
        Err(LtpError::InvalidTableColumnOffset(off))
    } else {
        Ok(u16_at(row.align_2byte, off - ctx.end_4byte_values))
    }
}

/// The 4-byte value at offset `off` of a row: past the id and unique value and within the 4-byte values.
pub open spec fn row_4byte(row: RowModel, off: u16) -> Result<u32, LtpError> {
    if off < 8 || off - 8 + 4 > row.align_4byte.len() {
        Err(LtpError::InvalidTableColumnOffset(off))
    } else {
        Ok(u32_at(row.align_4byte, off - 8))
    }
}

/// The 8-byte value at offset `off` of a row: past the id and unique value and within the 4-byte values.
pub open spec fn row_8byte(row: RowModel, off: u16) -> Result<u64, LtpError> {
    if off < 8 || off - 8 + 8 > row.align_4byte.len() {
        Err(LtpError::InvalidTableColumnOffset(off))
    } else {
        Ok(u64_at(row.align_4byte, off - 8))
    }
}

/// A small value read from a row, or the error of the read.
pub open spec fn small<T>(r: Result<T, LtpError>, f: spec_fn(T) -> PropertyValueModel) -> Result<Option<ColumnValueModel>, LtpError> {
    match r {
        Err(e) => Err(e),
        Ok(v) => Ok(Some(ColumnValueModel::Small(f(v)))),
    }
}

/// The value of column `c` in a row: none when its bit in the existence bitmap is
/// clear, else read by its type, offset and size. The row id and unique value are
/// the 32-bit integers at offsets 0 and 4. Variable-size values are found through the
/// 4-byte id of where they are: a heap id when its type bits are 0, else a sub-node.
pub open spec fn row_column(row: RowModel, ctx: TableContextInfoModel, c: ColumnModel) -> Result<Option<ColumnValueModel>, LtpError> {
    if c.existence_bitmap_index >= row.existence_bitmap.len() * 8 {
        Err(LtpError::InvalidTableContextColumnCount(c.existence_bitmap_index as usize))
    } else if !existence_bit(row.existence_bitmap, c.existence_bitmap_index as int) {
        Ok(None)
    } else {
        let t = c.prop_type;
        let off = c.offset;
        if t == PropertyType::Null && c.size == 0 {
            Ok(None)
        } else if t == PropertyType::Integer16 && c.size == 2 {
            small(row_2byte(row, ctx, off), |v: u16| PropertyValueModel::Integer16(v as i16))
        } else if t == PropertyType::Integer32 && off == 0 && c.size == 4 {
            Ok(Some(ColumnValueModel::Small(PropertyValueModel::Integer32(row.id as i32))))
        } else if t == PropertyType::Integer32 && off == 4 && c.size == 4 {
            Ok(Some(ColumnValueModel::Small(PropertyValueModel::Integer32(row.unique as i32))))
        } else if t == PropertyType::Integer32 && c.size == 4 {
            small(row_4byte(row, off), |v: u32| PropertyValueModel::Integer32(v as i32))
        } else if t == PropertyType::Floating32 && c.size == 4 {
            small(row_4byte(row, off), |v: u32| PropertyValueModel::Floating32(v))
        } else if t == PropertyType::Floating64 && c.size == 8 {
            small(row_8byte(row, off), |v: u64| PropertyValueModel::Floating64(v))
        } else if t == PropertyType::Currency && c.size == 8 {
            small(row_8byte(row, off), |v: u64| PropertyValueModel::Currency(v as i64))
        } else if t == PropertyType::FloatingTime && c.size == 8 {
            small(row_8byte(row, off), |v: u64| PropertyValueModel::FloatingTime(v))
        } else if t == PropertyType::ErrorCode && c.size == 4 {
            small(row_4byte(row, off), |v: u32| PropertyValueModel::ErrorCode(v as i32))
        } else if t == PropertyType::Boolean && c.size == 1 {
            match row_1byte(row, ctx, off) {
                Err(e) => Err(e),
                Ok(v) => if v == 0 {
                    Ok(Some(ColumnValueModel::Small(PropertyValueModel::Boolean(false))))
                } else if v == 1 {
                    Ok(Some(ColumnValueModel::Small(PropertyValueModel::Boolean(true))))
                } else {
                    Err(LtpError::InvalidTableColumnBooleanValue(v))
                },
            }
        } else if t == PropertyType::Integer64 && c.size == 8 {
            small(row_8byte(row, off), |v: u64| PropertyValueModel::Integer64(v as i64))
        } else if t == PropertyType::Time && c.size == 8 {
            small(row_8byte(row, off), |v: u64| PropertyValueModel::Time(v as i64))
        } else if is_4byte_type(t) && t != PropertyType::Integer32 && t != PropertyType::Floating32
            && t != PropertyType::ErrorCode && c.size == 4 {
            match row_4byte(row, off) {
                Err(e) => Err(e),
                Ok(v) => if crate::ndb::node_id::nid_type_code(v) == 0 {
                    Ok(Some(ColumnValueModel::Heap(v)))
                } else {
                    Ok(Some(ColumnValueModel::Node(v)))
                },
            }
        } else {
            Err(LtpError::InvalidTableColumnSize(c.size))
        }
    }
}

/// A column of an 8-byte type (Floating64, Currency, FloatingTime, Integer64 or Time)
/// of size 8 whose existence bit is set holds the little-endian 64-bit integer of the
/// 8 row bytes at its offset, which must lie past the row id and unique value and
/// within the 4-byte values.
pub proof fn lemma_row_column_8byte(row: RowModel, ctx: TableContextInfoModel, c: ColumnModel)
    requires
        c.existence_bitmap_index < row.existence_bitmap.len() * 8,
        existence_bit(row.existence_bitmap, c.existence_bitmap_index as int),
        c.size == 8,
        c.prop_type == PropertyType::Floating64 || c.prop_type == PropertyType::Currency
            || c.prop_type == PropertyType::FloatingTime || c.prop_type == PropertyType::Integer64
            || c.prop_type == PropertyType::Time,
    ensures
        (c.offset < 8 || c.offset + 8 > row.align_4byte.len() + 8)
            ==> row_column(row, ctx, c) == Err::<Option<ColumnValueModel>, LtpError>(LtpError::InvalidTableColumnOffset(c.offset)),
        !(c.offset < 8 || c.offset + 8 > row.align_4byte.len() + 8) ==> ({
            let x = u64_at(row.align_4byte, c.offset - 8);
            row_column(row, ctx, c) == Ok::<Option<ColumnValueModel>, LtpError>(Some(ColumnValueModel::Small(
                if c.prop_type == PropertyType::Floating64 {
                    PropertyValueModel::Floating64(x)
                } else if c.prop_type == PropertyType::Currency {
                    PropertyValueModel::Currency(x as i64)
                } else if c.prop_type == PropertyType::FloatingTime {
                    PropertyValueModel::FloatingTime(x)
                } else if c.prop_type == PropertyType::Integer64 {
                    PropertyValueModel::Integer64(x as i64)
                } else {
                    PropertyValueModel::Time(x as i64)
                },
            )))
        }),
{
}

/// A column whose existence bit is clear has no value; one whose bit index lies past
/// the existence bitmap cannot be read.
pub proof fn lemma_row_column_absent(row: RowModel, ctx: TableContextInfoModel, c: ColumnModel)
    ensures
        c.existence_bitmap_index >= row.existence_bitmap.len() * 8 ==> row_column(row, ctx, c)
            == Err::<Option<ColumnValueModel>, LtpError>(LtpError::InvalidTableContextColumnCount(c.existence_bitmap_index as usize)),
        c.existence_bitmap_index < row.existence_bitmap.len() * 8
            && !existence_bit(row.existence_bitmap, c.existence_bitmap_index as int)
            ==> row_column(row, ctx, c) == Ok::<Option<ColumnValueModel>, LtpError>(None),
{
}

/// A present 4-byte column of type Integer32, Floating32 or ErrorCode holds the
/// little-endian 32-bit integer of the 4 row bytes at its offset: at offset 0 the row
/// id, at offset 4 the unique value (Integer32 only), else within the 4-byte values.
pub proof fn lemma_row_column_4byte(row: RowModel, ctx: TableContextInfoModel, c: ColumnModel)
    requires
        c.existence_bitmap_index < row.existence_bitmap.len() * 8,
        existence_bit(row.existence_bitmap, c.existence_bitmap_index as int),
        c.size == 4,
        c.prop_type == PropertyType::Integer32 || c.prop_type == PropertyType::Floating32
            || c.prop_type == PropertyType::ErrorCode,
    ensures
        c.prop_type == PropertyType::Integer32 && c.offset == 0 ==> row_column(row, ctx, c)
            == Ok::<Option<ColumnValueModel>, LtpError>(Some(ColumnValueModel::Small(PropertyValueModel::Integer32(row.id as i32)))),
        c.prop_type == PropertyType::Integer32 && c.offset == 4 ==> row_column(row, ctx, c)
            == Ok::<Option<ColumnValueModel>, LtpError>(Some(ColumnValueModel::Small(PropertyValueModel::Integer32(row.unique as i32)))),
        !(c.prop_type == PropertyType::Integer32 && (c.offset == 0 || c.offset == 4))
            && (c.offset < 8 || c.offset + 4 > row.align_4byte.len() + 8)
            ==> row_column(row, ctx, c) == Err::<Option<ColumnValueModel>, LtpError>(LtpError::InvalidTableColumnOffset(c.offset)),
        !(c.prop_type == PropertyType::Integer32 && (c.offset == 0 || c.offset == 4))
            && !(c.offset < 8 || c.offset + 4 > row.align_4byte.len() + 8) ==> ({
            let x = u32_at(row.align_4byte, c.offset - 8);
            row_column(row, ctx, c) == Ok::<Option<ColumnValueModel>, LtpError>(Some(ColumnValueModel::Small(
                if c.prop_type == PropertyType::Integer32 {
                    PropertyValueModel::Integer32(x as i32)
                } else if c.prop_type == PropertyType::Floating32 {
                    PropertyValueModel::Floating32(x)
                } else {
                    PropertyValueModel::ErrorCode(x as i32)
                },
            )))
        }),
{
}

/// A present 2-byte Integer16 column holds the little-endian 16-bit integer of the 2
/// row bytes at its offset, within the 2-byte values.
pub proof fn lemma_row_column_2byte(row: RowModel, ctx: TableContextInfoModel, c: ColumnModel)
    requires
        c.existence_bitmap_index < row.existence_bitmap.len() * 8,
        existence_bit(row.existence_bitmap, c.existence_bitmap_index as int),
        c.size == 2,
        c.prop_type == PropertyType::Integer16,
    ensures
        (c.offset < ctx.end_4byte_values || c.offset + 2 > ctx.end_4byte_values + row.align_2byte.len())
            ==> row_column(row, ctx, c) == Err::<Option<ColumnValueModel>, LtpError>(LtpError::InvalidTableColumnOffset(c.offset)),
        !(c.offset < ctx.end_4byte_values || c.offset + 2 > ctx.end_4byte_values + row.align_2byte.len())
            ==> row_column(row, ctx, c) == Ok::<Option<ColumnValueModel>, LtpError>(Some(ColumnValueModel::Small(
                PropertyValueModel::Integer16(u16_at(row.align_2byte, c.offset - ctx.end_4byte_values) as i16)))),
{
}

/// A present Boolean column of size 1 holds false for a 0 byte at its offset and true
/// for a 1 byte; any other byte is refused.
pub proof fn lemma_row_column_boolean(row: RowModel, ctx: TableContextInfoModel, c: ColumnModel)
    requires
        c.existence_bitmap_index < row.existence_bitmap.len() * 8,
        existence_bit(row.existence_bitmap, c.existence_bitmap_index as int),
        c.size == 1,
        c.prop_type == PropertyType::Boolean,
        ctx.end_2byte_values <= c.offset,
        c.offset < ctx.end_2byte_values + row.align_1byte.len(),
    ensures
        ({
            let b = row.align_1byte[c.offset - ctx.end_2byte_values];
            &&& b == 0 ==> row_column(row, ctx, c)
                == Ok::<Option<ColumnValueModel>, LtpError>(Some(ColumnValueModel::Small(PropertyValueModel::Boolean(false))))
            &&& b == 1 ==> row_column(row, ctx, c)
                == Ok::<Option<ColumnValueModel>, LtpError>(Some(ColumnValueModel::Small(PropertyValueModel::Boolean(true))))
            &&& b > 1 ==> row_column(row, ctx, c)
                == Err::<Option<ColumnValueModel>, LtpError>(LtpError::InvalidTableColumnBooleanValue(b))
        }),
{
}

/// The values of the first `n` columns of a row; the first column that cannot be
/// read gives the error.
pub open spec fn row_columns(row: RowModel, ctx: TableContextInfoModel, n: nat) -> Result<Seq<Option<ColumnValueModel>>, LtpError>
    decreases n,
{
    if n == 0 {
        Ok(Seq::empty())
    } else {
        match row_columns(row, ctx, (n - 1) as nat) {
            Err(e) => Err(e),
            Ok(v) => match row_column(row, ctx, ctx.columns[n - 1]) {
                Err(e) => Err(e),
                Ok(x) => Ok(v.push(x)),
            },
        }
    }
}

/// Once reading the first `k` columns fails, reading more fails with the same error.
proof fn lemma_row_columns_err(row: RowModel, ctx: TableContextInfoModel, k: nat, n: nat)
    requires
        k <= n,
        row_columns(row, ctx, k) is Err,
    ensures
        row_columns(row, ctx, n) == row_columns(row, ctx, k),
    decreases n,
{
    if n > k {
        lemma_row_columns_err(row, ctx, k, (n - 1) as nat);
    }
}

/// The views of a list of optional column values.
pub open spec fn column_values(v: Seq<Option<TableRowColumnValue>>) -> Seq<Option<ColumnValueModel>> {
    v.map_values(|x: Option<TableRowColumnValue>| match x {
        Some(c) => Some(c@),
        None => None,
    })
}

/// The bytes a row takes: up to the end of its 1-byte values, then its bitmap.
pub open spec fn row_size(ctx: TableContextInfoModel) -> int {
    ctx.end_1byte_values + spec_existence_bitmap_size(ctx.columns.len() as int)
}

/// The row stored at the start of `s`.
pub open spec fn parse_row(s: Seq<u8>, ctx: TableContextInfoModel) -> Result<RowModel, LtpError> {
    if s.len() < row_size(ctx) {
        Err(LtpError::UnexpectedEndOfData)
    } else {
        let e4 = ctx.end_4byte_values as int;
        let e2 = ctx.end_2byte_values as int;
        let e1 = ctx.end_1byte_values as int;
        Ok(RowModel {
            id: u32_at(s, 0),
            unique: u32_at(s, 4),
            align_4byte: s.subrange(8, e4),
            align_2byte: s.subrange(e4, e2),
            align_1byte: s.subrange(e2, e1),
            existence_bitmap: s.subrange(e1, row_size(ctx)),
        })
    }
}

/// The bytes of a row.
pub open spec fn row_bytes(r: RowModel) -> Seq<u8> {
    le32(r.id) + le32(r.unique) + r.align_4byte + r.align_2byte + r.align_1byte + r.existence_bitmap
}

/// Reading the bytes of a row whose parts have the sizes the table's layout gives them
/// yields the row back.
pub proof fn lemma_row_roundtrip(r: RowModel, ctx: TableContextInfoModel)
    requires
        table_context_valid(ctx),
        ctx.end_4byte_values >= 8,
        r.align_4byte.len() == ctx.end_4byte_values - 8,
        r.align_2byte.len() == ctx.end_2byte_values - ctx.end_4byte_values,
        r.align_1byte.len() == ctx.end_1byte_values - ctx.end_2byte_values,
        r.existence_bitmap.len() == spec_existence_bitmap_size(ctx.columns.len() as int),
    ensures
        row_bytes(r).len() == row_size(ctx),
        parse_row(row_bytes(r), ctx) == Ok::<RowModel, LtpError>(r),
{
    lemma_le_roundtrip();
    let s = row_bytes(r);
    let e4 = ctx.end_4byte_values as int;
    let e2 = ctx.end_2byte_values as int;
    let e1 = ctx.end_1byte_values as int;
    assert(s.subrange(0, 4) =~= le32(r.id));
    assert(s.subrange(4, 8) =~= le32(r.unique));
    assert(s.subrange(8, e4) =~= r.align_4byte);
    assert(s.subrange(e4, e2) =~= r.align_2byte);
    assert(s.subrange(e2, e1) =~= r.align_1byte);
    assert(s.subrange(e1, row_size(ctx)) =~= r.existence_bitmap);
}

impl TableRowData {
    /// The row with the given id, unique value, values and existence bitmap.
    pub fn new(
        id: TableRowId,
        unique: u32,
        align_4byte: Vec<u8>,
        align_2byte: Vec<u8>,
        align_1byte: Vec<u8>,
        existence_bitmap: Vec<u8>,
    ) -> (r: TableRowData)
        ensures
            r@ == (RowModel {
                id: id@,
                unique,
                align_4byte: align_4byte@,
                align_2byte: align_2byte@,
                align_1byte: align_1byte@,
                existence_bitmap: existence_bitmap@,
            }),
    {
        TableRowData { id, unique, align_4byte, align_2byte, align_1byte, existence_bitmap }
    }

    /// The row id.
    pub fn id(&self) -> (r: TableRowId)
        ensures
            r@ == self@.id,
    {
        self.id
    }

    /// The unique value of the row.
    pub fn unique(&self) -> (r: u32)
        ensures
            r == self@.unique,
    {
        self.unique
    }

    fn read_1byte_offset(&self, context: &TableContextInfo, offset: u16) -> (r: Result<u8, LtpError>)
        ensures
            r == row_1byte(self@, context@, offset),
    {
        let e2 = context.end_2byte_values();
        if offset < e2 || (offset - e2) as usize >= self.align_1byte.len() {
            return Err(LtpError::InvalidTableColumnOffset(offset));
        }
        Ok(self.align_1byte[(offset - e2) as usize])
    }

    fn read_2byte_offset(&self, context: &TableContextInfo, offset: u16) -> (r: Result<u16, LtpError>)
        ensures
            r == row_2byte(self@, context@, offset),
    {
        let e4 = context.end_4byte_values();
        if offset < e4 || (offset - e4) as usize + 2 > self.align_2byte.len() {
            return Err(LtpError::InvalidTableColumnOffset(offset));
        }
        Ok(read_u16_at(self.align_2byte.as_slice(), (offset - e4) as usize))
    }

    fn read_4byte_offset(&self, offset: u16) -> (r: Result<u32, LtpError>)
        ensures
            r == row_4byte(self@, offset),
    {
        if offset < 8 || (offset - 8) as usize + 4 > self.align_4byte.len() {
            return Err(LtpError::InvalidTableColumnOffset(offset));
        }
        Ok(read_u32_at(self.align_4byte.as_slice(), (offset - 8) as usize))
    }

    fn read_8byte_offset(&self, offset: u16) -> (r: Result<u64, LtpError>)
        ensures
            r == row_8byte(self@, offset),
    {
        if offset < 8 || (offset - 8) as usize + 8 > self.align_4byte.len() {
            return Err(LtpError::InvalidTableColumnOffset(offset));
        }
        Ok(read_u64_at(self.align_4byte.as_slice(), (offset - 8) as usize))
    }

    /// The value of one column in the row.
    fn column(&self, context: &TableContextInfo, column: &TableColumnDescriptor) -> (r: Result<Option<TableRowColumnValue>, LtpError>)
        requires
            self@.existence_bitmap.len() * 8 <= usize::MAX,
        ensures
            match r {
                Ok(v) => row_column(self@, context@, column@) == Ok::<Option<ColumnValueModel>, LtpError>(match v {
                    Some(c) => Some(c@),
                    None => None,
                }),
                Err(e) => row_column(self@, context@, column@) == Err::<Option<ColumnValueModel>, LtpError>(e),
            },
    {
        let bit = column.existence_bitmap_index() as usize;
        match check_existence_bitmap(bit, self.existence_bitmap.as_slice()) {
            Err(e) => return Err(e),
            Ok(false) => return Ok(None),
            Ok(true) => {},
        }
        let t = column.prop_type();
        let off = column.offset();
        let size = column.size();
        if t == PropertyType::Null && size == 0 {
            return Ok(None);
        }
        if t == PropertyType::Integer16 && size == 2 {
            return match self.read_2byte_offset(context, off) {
                Err(e) => Err(e),
                Ok(v) => Ok(Some(TableRowColumnValue::Small(PropertyValue::Integer16(#[verifier::truncate] (v as i16))))),
            };
        }
        if t == PropertyType::Integer32 && off == 0 && size == 4 {
            return Ok(Some(TableRowColumnValue::Small(PropertyValue::Integer32(#[verifier::truncate] (self.id.value() as i32)))));
        }
        if t == PropertyType::Integer32 && off == 4 && size == 4 {
            return Ok(Some(TableRowColumnValue::Small(PropertyValue::Integer32(#[verifier::truncate] (self.unique as i32)))));
        }
        if (t == PropertyType::Integer32 || t == PropertyType::Floating32 || t == PropertyType::ErrorCode) && size == 4 {
            return match self.read_4byte_offset(off) {
                Err(e) => Err(e),
                Ok(v) => Ok(Some(TableRowColumnValue::Small(if t == PropertyType::Integer32 {
                    PropertyValue::Integer32(#[verifier::truncate] (v as i32))
                } else if t == PropertyType::Floating32 {
                    PropertyValue::Floating32(v)
                } else {
                    PropertyValue::ErrorCode(#[verifier::truncate] (v as i32))
                }))),
            };
        }
        if (t == PropertyType::Floating64 || t == PropertyType::Currency || t == PropertyType::FloatingTime
            || t == PropertyType::Integer64 || t == PropertyType::Time) && size == 8 {
            return match self.read_8byte_offset(off) {
                Err(e) => Err(e),
                Ok(v) => Ok(Some(TableRowColumnValue::Small(if t == PropertyType::Floating64 {
                    PropertyValue::Floating64(v)
                } else if t == PropertyType::Currency {
                    PropertyValue::Currency(#[verifier::truncate] (v as i64))
                } else if t == PropertyType::FloatingTime {
                    PropertyValue::FloatingTime(v)
                } else if t == PropertyType::Integer64 {
                    PropertyValue::Integer64(#[verifier::truncate] (v as i64))
                } else {
                    PropertyValue::Time(#[verifier::truncate] (v as i64))
                }))),
            };
        }
        if t == PropertyType::Boolean && size == 1 {
            return match self.read_1byte_offset(context, off) {
                Err(e) => Err(e),
                Ok(0) => Ok(Some(TableRowColumnValue::Small(PropertyValue::Boolean(false)))),
                Ok(1) => Ok(Some(TableRowColumnValue::Small(PropertyValue::Boolean(true)))),
                Ok(v) => Err(LtpError::InvalidTableColumnBooleanValue(v)),
            };
        }
        if is_4byte(t) && size == 4 {
            return match self.read_4byte_offset(off) {
                Err(e) => Err(e),
                Ok(v) => Ok(Some(if (v & 0x1F) as u8 == 0 {
                    TableRowColumnValue::Heap(HeapId::from_u32(v))
                } else {
                    TableRowColumnValue::Node(NodeId::from_u32(v))
                })),
            };
        }
        Err(LtpError::InvalidTableColumnSize(size))
    }

    /// The values of the columns of the table in this row, in the order of the columns.
    pub fn columns(&self, context: &TableContextInfo) -> (r: Result<Vec<Option<TableRowColumnValue>>, LtpError>)
        requires
            self@.existence_bitmap.len() * 8 <= usize::MAX,
        ensures
            match r {
                Ok(v) => row_columns(self@, context@, context@.columns.len()) == Ok::<Seq<Option<ColumnValueModel>>, LtpError>(column_values(v@)),
                Err(e) => row_columns(self@, context@, context@.columns.len()) == Err::<Seq<Option<ColumnValueModel>>, LtpError>(e),
            },
    {
        let columns = context.columns();
        let n = columns.len();
        let mut values: Vec<Option<TableRowColumnValue>> = Vec::new();
        let mut i: usize = 0;
        assert(column_values(values@) =~= Seq::<Option<ColumnValueModel>>::empty());
        while i < n
            invariant
                n == columns@.len(),
                column_models(columns@) == context@.columns,
                self@.existence_bitmap.len() * 8 <= usize::MAX,
                i <= n,
                row_columns(self@, context@, i as nat) == Ok::<Seq<Option<ColumnValueModel>>, LtpError>(column_values(values@)),
            decreases n - i,
        {
            let ghost prev = values@;
            assert(columns@[i as int]@ == context@.columns[i as int]);
            match self.column(context, &columns[i]) {
                Ok(v) => {
                    let ghost vm = match &v {
                        Some(c) => Some(c@),
                        None => None,
                    };
                    values.push(v);
                    assert(column_values(values@) =~= column_values(prev).push(vm));
                },
                Err(e) => {
                    proof {
                        lemma_row_columns_err(self@, context@, (i + 1) as nat, n as nat);
                    }
                    return Err(e);
                },
            }
            i = i + 1;
        }
        Ok(values)
    }
}

impl TableRowReadWrite for TableRowData {
    /// The 4-byte values start after the row id and the row version.
    open spec fn readable(context: &TableContextInfo) -> bool {
        context@.end_4byte_values >= 8
    }

    /// Reads a row from the start of `b`, laid out as the table context says.
    fn read(b: &[u8], context: &TableContextInfo) -> (r: Result<TableRowData, LtpError>)
        ensures
            view_result(r) == parse_row(b@, context@),
    {
        proof {
            use_type_invariant(context);
        }
        let e4 = context.end_4byte_values() as usize;
        let e2 = context.end_2byte_values() as usize;
        let e1 = context.end_1byte_values() as usize;
        let end = e1 + existence_bitmap_size(context.columns().len());
        if b.len() < end {
            return Err(LtpError::UnexpectedEndOfData);
        }
        let id = TableRowId::new(read_u32_at(b, 0));
        let unique = read_u32_at(b, 4);
        Ok(TableRowData {
            id,
            unique,
            align_4byte: crate::codec::copy_range(b, 8, e4),
            align_2byte: crate::codec::copy_range(b, e4, e2),
            align_1byte: crate::codec::copy_range(b, e2, e1),
            existence_bitmap: crate::codec::copy_range(b, e1, end),
        })
    }

    /// Appends the bytes of the row.
    fn write(&self, out: &mut Vec<u8>)
        ensures
            final(out)@ == old(out)@ + row_bytes(self@),
    {
        self.id.write(out);
        push_u32(out, self.unique);
        push_bytes(out, self.align_4byte.as_slice());
        push_bytes(out, self.align_2byte.as_slice());
        push_bytes(out, self.align_1byte.as_slice());
        push_bytes(out, self.existence_bitmap.as_slice());
        assert(out@ =~= old(out)@ + row_bytes(self@));
    }
}


/// The rows of a row matrix: as many whole rows as the data holds, one after another.
pub open spec fn parse_row_matrix(s: Seq<u8>, ctx: TableContextInfoModel) -> Seq<RowModel> {
    let size = ctx.end_existence_bitmap as int;
    Seq::new((s.len() / (size as nat)) as nat, |i: int| parse_row(s.subrange(size * i, s.len() as int), ctx)->Ok_0)
}

/// The views of a list of rows.
pub open spec fn row_models(v: Seq<TableRowData>) -> Seq<RowModel> {
    v.map_values(|r: TableRowData| r@)
}

/// Reads the rows of a row matrix: as many whole rows as `data` holds.
pub fn read_row_matrix(data: &[u8], context: &TableContextInfo) -> (r: Vec<TableRowData>)
    requires
        context@.end_4byte_values >= 8,
    ensures
        row_models(r@) == parse_row_matrix(data@, context@),
{
    proof {
        use_type_invariant(context);
    }
    let size = context.end_existence_bitmap() as usize;
    let len = data.len();
    let count = len / size;
    let mut rows: Vec<TableRowData> = Vec::new();
    let mut i: usize = 0;
    while i < count
        invariant
            table_context_valid(context@),
            context@.end_4byte_values >= 8,
            size == context@.end_existence_bitmap,
            size as int == row_size(context@),
            size > 0,
            len == data@.len(),
            count == len / size,
            i <= count,
            row_models(rows@) == parse_row_matrix(data@, context@).subrange(0, i as int),
        decreases count - i,
    {
        proof {
            assert(size * i + size <= len) by (nonlinear_arith)
                requires i + 1 <= count, count == len / size, size > 0;
        }
        let row = match TableRowData::read(&data[size * i..len], context) {
            Ok(r) => r,
            Err(_) => vstd::pervasive::unreached(),
        };
        let ghost prev = rows@;
        assert(data@.subrange(size * i, len as int) == data@.subrange(size as int * i, data@.len() as int));
        assert(parse_row(data@.subrange(size * i, len as int), context@) == Ok::<RowModel, LtpError>(row@));
        assert(parse_row_matrix(data@, context@)[i as int] == row@);
        rows.push(row);
        assert(row_models(rows@) =~= row_models(prev).push(row@));
        assert(row_models(rows@) =~= parse_row_matrix(data@, context@).subrange(0, i + 1));
        i = i + 1;
    }
    assert(parse_row_matrix(data@, context@).subrange(0, count as int) =~= parse_row_matrix(data@, context@));
    rows
}

/// The rows of a row matrix stored in several blocks: each block holds as many whole
/// rows as fit in it, and whatever is left at its end is padding, skipped.
pub open spec fn parse_row_blocks(blocks: Seq<Seq<u8>>, ctx: TableContextInfoModel) -> Seq<RowModel>
    decreases blocks.len(),
{
    if blocks.len() == 0 {
        Seq::empty()
    } else {
        parse_row_blocks(blocks.drop_last(), ctx) + parse_row_matrix(blocks.last(), ctx)
    }
}

/// Reads the rows of a row matrix stored in several blocks, one block after another,
/// skipping the padding at the end of each block.
pub fn read_row_matrix_blocks(blocks: &[Vec<u8>], context: &TableContextInfo) -> (r: Vec<TableRowData>)
    requires
        context@.end_4byte_values >= 8,
    ensures
        row_models(r@) == parse_row_blocks(blocks@.map_values(|b: Vec<u8>| b@), context@),
{
    let ghost bs = blocks@.map_values(|b: Vec<u8>| b@);
    let mut rows: Vec<TableRowData> = Vec::new();
    let mut k: usize = 0;
    while k < blocks.len()
        invariant
            context@.end_4byte_values >= 8,
            k <= blocks@.len(),
            bs == blocks@.map_values(|b: Vec<u8>| b@),
            row_models(rows@) == parse_row_blocks(bs.subrange(0, k as int), context@),
        decreases blocks.len() - k,
    {
        let more = read_row_matrix(blocks[k].as_slice(), context);
        let ghost prev = rows@;
        let mut more = more;
        rows.append(&mut more);
        assert(bs.subrange(0, k + 1).drop_last() =~= bs.subrange(0, k as int));
        assert(bs.subrange(0, k + 1).last() == blocks@[k as int]@);
        assert(row_models(rows@) =~= row_models(prev) + parse_row_matrix(blocks@[k as int]@, context@));
        k = k + 1;
    }
    assert(bs.subrange(0, blocks@.len() as int) =~= bs);
    rows
}

/// The row index of a table: the last entry for `id` wins, as when the entries are
/// collected into a map.
pub open spec fn row_index_lookup(entries: Seq<(u32, u32)>, id: u32) -> Option<u32>
    decreases entries.len(),
{
    if entries.len() == 0 {
        None
    } else if entries.last().0 == id {
        Some(entries.last().1)
    } else {
        row_index_lookup(entries.drop_last(), id)
    }
}

/// Looking a row id up in the row index: nothing exactly when no entry holds the id,
/// else the row-matrix index that the last entry holding the id stores.
pub proof fn lemma_row_index_lookup(entries: Seq<(u32, u32)>, id: u32)
    ensures
        row_index_lookup(entries, id) is None <==> (forall|k: int| 0 <= k < entries.len() ==> entries[k].0 != id),
        row_index_lookup(entries, id) matches Some(i) ==> exists|k: int| {
            &&& 0 <= k < entries.len()
            &&& entries[k].0 == id
            &&& #[trigger] entries[k].1 == i
            &&& forall|k2: int| k < k2 < entries.len() ==> entries[k2].0 != id
        },
    decreases entries.len(),
{
    if entries.len() > 0 {
        let n = entries.len() - 1;
        lemma_row_index_lookup(entries.drop_last(), id);
        if entries.last().0 == id {
            assert(entries[n].1 == entries.last().1);
        } else {
            assert forall|k: int| 0 <= k < n implies entries[k] == entries.drop_last()[k] by {}
            if let Some(i) = row_index_lookup(entries, id) {
                let k = choose|k: int| {
                    &&& 0 <= k < entries.drop_last().len()
                    &&& entries.drop_last()[k].0 == id
                    &&& #[trigger] entries.drop_last()[k].1 == i
                    &&& forall|k2: int| k < k2 < entries.drop_last().len() ==> entries.drop_last()[k2].0 != id
                };
                assert(entries[k].1 == i);
            } else {
                assert forall|k: int| 0 <= k < entries.len() implies entries[k].0 != id by {
                    if k < n {
                        assert(entries[k] == entries.drop_last()[k]);
                    }
                }
            }
        }
    }
}

/// The fields of a table context of a Unicode file.
pub struct UnicodeTableContextModel {
    pub node: UnicodeNodeBTreeEntryModel,
    pub context: TableContextInfoModel,
    pub row_index: Seq<(u32, u32)>,
    pub rows: Seq<RowModel>,
}

/// A table context of a Unicode file: its node, its description, its row index
/// (row ids and their positions in the row matrix) and its rows.
pub struct UnicodeTableContext {
    node: UnicodeNodeBTreeEntry,
    context: TableContextInfo,
    row_index: Vec<(TableRowId, UnicodeTableRowIndex)>,
    rows: Vec<TableRowData>,
}

impl View for UnicodeTableContext {
    type V = UnicodeTableContextModel;

    closed spec fn view(&self) -> UnicodeTableContextModel {
        UnicodeTableContextModel {
            node: self.node@,
            context: self.context@,
            row_index: self.row_index@.map_values(|e: (TableRowId, UnicodeTableRowIndex)| (e.0@, e.1@ as u32)),
            rows: row_models(self.rows@),
        }
    }
}

impl UnicodeTableContext {
    /// The table context of `node` with the given description, row index entries and rows.
    pub fn new(
        node: UnicodeNodeBTreeEntry,
        context: TableContextInfo,
        row_index: Vec<(TableRowId, UnicodeTableRowIndex)>,
        rows: Vec<TableRowData>,
    ) -> (r: UnicodeTableContext)
        ensures
            r@ == (UnicodeTableContextModel {
                node: node@,
                context: context@,
                row_index: row_index@.map_values(|e: (TableRowId, UnicodeTableRowIndex)| (e.0@, e.1@ as u32)),
                rows: row_models(rows@),
            }),
    {
        UnicodeTableContext { node, context, row_index, rows }
    }

    /// The node of the table.
    pub fn node(&self) -> (r: &UnicodeNodeBTreeEntry)
        ensures
            r@ == self@.node,
    {
        &self.node
    }

    /// The description of the table.
    pub fn context(&self) -> (r: &TableContextInfo)
        ensures
            r@ == self@.context,
    {
        &self.context
    }

    /// The rows of the row matrix, in order.
    pub fn rows_matrix(&self) -> (r: &[TableRowData])
        ensures
            row_models(r@) == self@.rows,
    {
        self.rows.as_slice()
    }

    /// The row with id `id`, found through the row index.
    pub fn find_row(&self, id: TableRowId) -> (r: Result<&TableRowData, LtpError>)
        requires
            row_index_lookup(self@.row_index, id@) matches Some(i) ==> i < self@.rows.len(),
        ensures
            row_index_lookup(self@.row_index, id@) is None ==> r == Err::<&TableRowData, LtpError>(LtpError::TableRowIdNotFound(id@)),
            row_index_lookup(self@.row_index, id@) matches Some(i) ==> r matches Ok(row) && row@ == self@.rows[i as int],
            r is Err <==> (forall|k: int| 0 <= k < self@.row_index.len() ==> self@.row_index[k].0 != id@),
            r matches Ok(row) ==> exists|k: int| {
                &&& 0 <= k < self@.row_index.len()
                &&& self@.row_index[k].0 == id@
                &&& row@ == self@.rows[#[trigger] self@.row_index[k].1 as int]
                &&& forall|k2: int| k < k2 < self@.row_index.len() ==> self@.row_index[k2].0 != id@
            },
    {
        proof {
            lemma_row_index_lookup(self@.row_index, id@);
        }
        let ghost entries = self@.row_index;
        let mut k = self.row_index.len();
        assert(entries.subrange(0, k as int) =~= entries);
        while k > 0
            invariant
                k <= self.row_index@.len(),
                entries == self@.row_index,
                entries == self.row_index@.map_values(|e: (TableRowId, UnicodeTableRowIndex)| (e.0@, e.1@ as u32)),
                row_index_lookup(entries, id@) matches Some(i) ==> i < self@.rows.len(),
                row_index_lookup(entries, id@) == row_index_lookup(entries.subrange(0, k as int), id@),
            decreases k,
        {
            let (key, index) = self.row_index[k - 1];
            assert(entries[k - 1] == (key@, index@ as u32));
            assert(entries.subrange(0, k as int).drop_last() =~= entries.subrange(0, k - 1));
            assert(entries.subrange(0, k as int).last() == entries[k - 1]);
            if key.value() == id.value() {
                let i = index.value() as usize;
                proof {
                    lemma_row_index_lookup(entries, id@);
                }
                return Ok(&self.rows[i]);
            }
            k = k - 1;
        }
        Err(LtpError::TableRowIdNotFound(id.value()))
    }
}

/// The fields of a table context of an ANSI file.
pub struct AnsiTableContextModel {
    pub node: AnsiNodeBTreeEntryModel,
    pub context: TableContextInfoModel,
    pub row_index: Seq<(u32, u32)>,
    pub rows: Seq<RowModel>,
}

/// A table context of an ANSI file: its node, its description, its row index
/// (row ids and their positions in the row matrix) and its rows.
pub struct AnsiTableContext {
    node: AnsiNodeBTreeEntry,
    context: TableContextInfo,
    row_index: Vec<(TableRowId, AnsiTableRowIndex)>,
    rows: Vec<TableRowData>,
}

impl View for AnsiTableContext {
    type V = AnsiTableContextModel;

    closed spec fn view(&self) -> AnsiTableContextModel {
        AnsiTableContextModel {
            node: self.node@,
            context: self.context@,
            row_index: self.row_index@.map_values(|e: (TableRowId, AnsiTableRowIndex)| (e.0@, e.1@ as u32)),
            rows: row_models(self.rows@),
        }
    }
}

impl AnsiTableContext {
    /// The table context of `node` with the given description, row index entries and rows.
    pub fn new(
        node: AnsiNodeBTreeEntry,
        context: TableContextInfo,
        row_index: Vec<(TableRowId, AnsiTableRowIndex)>,
        rows: Vec<TableRowData>,
    ) -> (r: AnsiTableContext)
        ensures
            r@ == (AnsiTableContextModel {
                node: node@,
                context: context@,
                row_index: row_index@.map_values(|e: (TableRowId, AnsiTableRowIndex)| (e.0@, e.1@ as u32)),
                rows: row_models(rows@),
            }),
    {
        AnsiTableContext { node, context, row_index, rows }
    }

    /// The node of the table.
    pub fn node(&self) -> (r: &AnsiNodeBTreeEntry)
        ensures
            r@ == self@.node,
    {
        &self.node
    }

    /// The description of the table.
    pub fn context(&self) -> (r: &TableContextInfo)
        ensures
            r@ == self@.context,
    {
        &self.context
    }

    /// The rows of the row matrix, in order.
    pub fn rows_matrix(&self) -> (r: &[TableRowData])
        ensures
            row_models(r@) == self@.rows,
    {
        self.rows.as_slice()
    }

    /// The row with id `id`, found through the row index.
    pub fn find_row(&self, id: TableRowId) -> (r: Result<&TableRowData, LtpError>)
        requires
            row_index_lookup(self@.row_index, id@) matches Some(i) ==> i < self@.rows.len(),
        ensures
            row_index_lookup(self@.row_index, id@) is None ==> r == Err::<&TableRowData, LtpError>(LtpError::TableRowIdNotFound(id@)),
            row_index_lookup(self@.row_index, id@) matches Some(i) ==> r matches Ok(row) && row@ == self@.rows[i as int],
            r is Err <==> (forall|k: int| 0 <= k < self@.row_index.len() ==> self@.row_index[k].0 != id@),
            r matches Ok(row) ==> exists|k: int| {
                &&& 0 <= k < self@.row_index.len()
                &&& self@.row_index[k].0 == id@
                &&& row@ == self@.rows[#[trigger] self@.row_index[k].1 as int]
                &&& forall|k2: int| k < k2 < self@.row_index.len() ==> self@.row_index[k2].0 != id@
            },
    {
        proof {
            lemma_row_index_lookup(self@.row_index, id@);
        }
        let ghost entries = self@.row_index;
        let mut k = self.row_index.len();
        assert(entries.subrange(0, k as int) =~= entries);
        while k > 0
            invariant
                k <= self.row_index@.len(),
                entries == self@.row_index,
                entries == self.row_index@.map_values(|e: (TableRowId, AnsiTableRowIndex)| (e.0@, e.1@ as u32)),
                row_index_lookup(entries, id@) matches Some(i) ==> i < self@.rows.len(),
                row_index_lookup(entries, id@) == row_index_lookup(entries.subrange(0, k as int), id@),
            decreases k,
        {
            let (key, index) = self.row_index[k - 1];
            assert(entries[k - 1] == (key@, index@ as u32));
            assert(entries.subrange(0, k as int).drop_last() =~= entries.subrange(0, k - 1));
            assert(entries.subrange(0, k as int).last() == entries[k - 1]);
            if key.value() == id.value() {
                let i = index.value() as usize;
                proof {
                    lemma_row_index_lookup(entries, id@);
                }
                return Ok(&self.rows[i]);
            }
            k = k - 1;
        }
        Err(LtpError::TableRowIdNotFound(id.value()))
    }
}

} // verus!
