use outlook_pst::ltp::heap::{HeapId, HeapNodeType, MAX_HEAP_INDEX};
use outlook_pst::ltp::prop_context::{
    GuidValue, ObjectValue, PropertyTreeRecord, PropertyValue, PropertyValueRecord,
};
use outlook_pst::ltp::prop_type::PropertyType;
use outlook_pst::ltp::read_write::{
    HeapIdReadWrite, HeapNodeReadWrite, PropertyTreeRecordReadWrite, PropertyValueReadWrite,
    TableContextReadWrite, TableRowReadWrite,
};
use outlook_pst::ltp::table_context::{
    check_existence_bitmap, existence_bitmap_size, read_row_matrix, read_row_matrix_blocks, AnsiTableRowIndex,
    TableColumnDescriptor, TableContextInfo, TableRowColumnValue, TableRowData, TableRowId,
    TableRowIndex, UnicodeTableContext, UnicodeTableRowIndex, LTP_ROW_ID_PROP_ID,
    LTP_ROW_VERSION_PROP_ID,
};
use outlook_pst::ltp::tree::{
    check_heap_tree_header, read_heap_tree_intermediate_rows, read_heap_tree_leaf_rows,
    read_heap_tree_leaves, read_heap_tree_next_level,
    AnsiTableRowIdRecord, HeapTreeHeader, HeapTreeIntermediateEntry, HeapTreeLeafEntry,
    UnicodeTableRowIdRecord,
};
use outlook_pst::ltp::LtpError;
use outlook_pst::ndb::block_id::UnicodeBlockId;
use outlook_pst::ndb::btree::{NodeBTreeEntry, UnicodeNodeBTreeEntry};
use outlook_pst::ndb::node_id::{NodeId, NodeIdType};
use outlook_pst::ndb::NdbError;

#[test]
fn heap_ids() {
    let hid = HeapId::new(3, 2).unwrap();
    assert_eq!(hid.value(), 0x0002_0060);
    assert_eq!(hid.index(), 3);
    assert_eq!(hid.block_index(), 2);
    assert_eq!(
        HeapId::new(MAX_HEAP_INDEX + 1, 0),
        Err(LtpError::InvalidHeapIndex(MAX_HEAP_INDEX + 1))
    );
    let mut out = Vec::new();
    hid.write(&mut out);
    assert_eq!(out, vec![0x60, 0x00, 0x02, 0x00]);
    assert_eq!(HeapId::read(&out), Ok(hid));
    assert_eq!(
        HeapId::read(&[0x22, 0, 0, 0]),
        Err(LtpError::InvalidHeapNodeType(NodeIdType::NormalFolder))
    );
    assert_eq!(
        HeapId::read(&[0x09, 0, 0, 0]),
        Err(LtpError::NodeDatabaseError(NdbError::InvalidNodeIdType(0x09)))
    );
    assert_eq!(HeapId::read(&out[..3]), Err(LtpError::UnexpectedEndOfData));
    let mut longer = out.clone();
    longer.push(0xFF);
    assert_eq!(HeapId::read(&longer), Ok(hid));
}

#[test]
fn heap_node_type_codes() {
    assert_eq!(HeapNodeType::try_from_u8(0x7C), Ok(HeapNodeType::Table));
    assert_eq!(HeapNodeType::try_from_u8(0xB5), Ok(HeapNodeType::Tree));
    assert_eq!(HeapNodeType::try_from_u8(0xBC), Ok(HeapNodeType::Properties));
    assert_eq!(HeapNodeType::Table.code(), 0x7C);
    assert!(HeapNodeType::try_from_u8(0x00).is_err());
}

#[test]
fn property_type_codes() {
    assert_eq!(PropertyType::try_from_u16(0x001F), Ok(PropertyType::Unicode));
    assert_eq!(PropertyType::try_from_u16(0x101F), Ok(PropertyType::MultipleUnicode));
    assert_eq!(PropertyType::try_from_u16(0x0102), Ok(PropertyType::Binary));
    assert_eq!(PropertyType::Time.code(), 0x0040);
    assert_eq!(PropertyType::try_from_u16(0x0099), Err(LtpError::InvalidPropertyType(0x0099)));
}

#[test]
fn property_tree_records() {
    let bytes = [0x37, 0x00, 0x1F, 0x00, 0x40, 0x00, 0x00, 0x00];
    let record = PropertyTreeRecord::read(&bytes).unwrap();
    assert_eq!(record.prop_id(), 0x0037);
    assert_eq!(record.prop_type(), PropertyType::Unicode);
    assert_eq!(record.value(), PropertyValueRecord::Heap(HeapId::from_u32(0x40)));
    let mut out = Vec::new();
    record.write(&mut out);
    assert_eq!(out, bytes.to_vec());

    let small = PropertyTreeRecord::read(&[0x01, 0x0E, 0x03, 0x00, 0x2A, 0, 0, 0]).unwrap();
    assert_eq!(small.value(), PropertyValueRecord::Small(42));
    assert_eq!(small.value().raw_value(), 42);

    let node = PropertyTreeRecord::read(&[0x01, 0x0E, 0x02, 0x01, 0x21, 0x01, 0, 0]).unwrap();
    assert_eq!(node.value(), PropertyValueRecord::Node(NodeId::from_u32(0x0121)));

    assert_eq!(
        PropertyTreeRecord::read(&[0, 0, 0x99, 0, 0, 0, 0, 0]).err(),
        Some(LtpError::InvalidPropertyType(0x0099))
    );
    assert_eq!(PropertyTreeRecord::read(&bytes[..7]).err(), Some(LtpError::UnexpectedEndOfData));
}

fn roundtrip(value: &PropertyValue) -> (Vec<u8>, PropertyValue) {
    let mut out = Vec::new();
    value.write(&mut out).unwrap();
    let back = PropertyValue::read(&out, value.prop_type()).unwrap();
    (out, back)
}

#[test]
fn property_values_roundtrip() {
    let (bytes, back) = roundtrip(&PropertyValue::Integer64(-2));
    assert_eq!(bytes, vec![0xFE, 0xFF, 0xFF, 0xFF, 0xFF, 0xFF, 0xFF, 0xFF]);
    assert!(matches!(back, PropertyValue::Integer64(-2)));

    let (_, back) = roundtrip(&PropertyValue::Floating64(1.5f64.to_bits()));
    assert!(matches!(back, PropertyValue::Floating64(b) if f64::from_bits(b) == 1.5));

    let (_, back) = roundtrip(&PropertyValue::Time(0x01D0_0000_0000_0000));
    assert!(matches!(back, PropertyValue::Time(0x01D0_0000_0000_0000)));

    let (bytes, back) = roundtrip(&PropertyValue::String8(b"abc\0".to_vec()));
    assert_eq!(bytes, b"abc\0".to_vec());
    assert!(matches!(back, PropertyValue::String8(v) if v == b"abc\0"));

    let text: Vec<u16> = "Inbox\0".encode_utf16().collect();
    let (bytes, back) = roundtrip(&PropertyValue::Unicode(text.clone()));
    assert_eq!(bytes.len(), 12);
    assert!(matches!(back, PropertyValue::Unicode(v) if v == text));

    let (_, back) = roundtrip(&PropertyValue::Binary(vec![1, 2, 3]));
    assert!(matches!(back, PropertyValue::Binary(v) if v == vec![1, 2, 3]));

    let guid = GuidValue::new(0x0102_0304, 0x0506, 0x0708, [9, 10, 11, 12, 13, 14, 15, 16]);
    let (bytes, back) = roundtrip(&PropertyValue::Guid(guid));
    assert_eq!(bytes, vec![4, 3, 2, 1, 6, 5, 8, 7, 9, 10, 11, 12, 13, 14, 15, 16]);
    let PropertyValue::Guid(g) = back else { panic!("not a guid") };
    assert_eq!(g.data1(), 0x0102_0304);
    assert_eq!(g.data2(), 0x0506);
    assert_eq!(g.data3(), 0x0708);
    assert_eq!(g.data4(), &[9, 10, 11, 12, 13, 14, 15, 16]);

    let (bytes, back) = roundtrip(&PropertyValue::Object(ObjectValue::new(NodeId::from_u32(0x21), 77)));
    assert_eq!(bytes, vec![0x21, 0, 0, 0, 77, 0, 0, 0]);
    let PropertyValue::Object(o) = back else { panic!("not an object") };
    assert_eq!(o.node(), NodeId::from_u32(0x21));
    assert_eq!(o.size(), 77);

    let (_, back) = roundtrip(&PropertyValue::MultipleInteger32(vec![1, -1, 7]));
    assert!(matches!(back, PropertyValue::MultipleInteger32(v) if v == vec![1, -1, 7]));

    let (_, back) = roundtrip(&PropertyValue::MultipleInteger16(vec![3, -3]));
    assert!(matches!(back, PropertyValue::MultipleInteger16(v) if v == vec![3, -3]));
}

#[test]
fn multi_valued_strings_roundtrip() {
    let items = vec![b"a\0".to_vec(), b"bcd\0".to_vec()];
    let (bytes, back) = roundtrip(&PropertyValue::MultipleString8(items.clone()));
    assert_eq!(
        bytes,
        vec![2, 0, 0, 0, 12, 0, 0, 0, 14, 0, 0, 0, b'a', 0, b'b', b'c', b'd', 0]
    );
    assert!(matches!(back, PropertyValue::MultipleString8(v) if v == items));

    let items = vec![vec![1u8, 2], vec![3u8]];
    let (_, back) = roundtrip(&PropertyValue::MultipleBinary(items.clone()));
    assert!(matches!(back, PropertyValue::MultipleBinary(v) if v == items));

    let items: Vec<Vec<u16>> = vec!["x\0".encode_utf16().collect(), "yz\0".encode_utf16().collect()];
    let (_, back) = roundtrip(&PropertyValue::MultipleUnicode(items.clone()));
    assert!(matches!(back, PropertyValue::MultipleUnicode(v) if v == items));
}

#[test]
fn multiple_guid_roundtrip() {
    let guid = GuidValue::new(1, 2, 3, [4; 8]);
    let other = GuidValue::new(5, 6, 7, [8; 8]);
    let mut out = Vec::new();
    PropertyValue::MultipleGuid(vec![guid, other]).write(&mut out).unwrap();
    assert_eq!(out.len(), 4 + 32);
    assert_eq!(&out[0..4], &[2, 0, 0, 0]);
    assert_eq!(&out[4..8], &[1, 0, 0, 0]);
    let back = PropertyValue::read(&out, PropertyType::MultipleGuid).unwrap();
    assert!(matches!(back, PropertyValue::MultipleGuid(v) if v == vec![guid, other]));

    let mut out = Vec::new();
    PropertyValue::MultipleGuid(vec![guid]).write(&mut out).unwrap();
    let back = PropertyValue::read(&out, PropertyType::MultipleGuid).unwrap();
    assert!(matches!(back, PropertyValue::MultipleGuid(v) if v == vec![guid]));
}

#[test]
fn property_value_errors() {
    assert!(matches!(
        PropertyValue::read(b"abc", PropertyType::String8),
        Err(LtpError::StringNotNullTerminated(3))
    ));
    assert!(matches!(
        PropertyValue::read(&[1, 2, 3], PropertyType::Floating64),
        Err(LtpError::UnexpectedEndOfData)
    ));
    assert!(matches!(
        PropertyValue::read(&[1, 2, 3, 4], PropertyType::Integer32),
        Err(LtpError::InvalidVariableLengthPropertyType(PropertyType::Integer32))
    ));
    assert!(matches!(
        PropertyValue::read(&[1, 0, 0, 0, 9, 0, 0, 0, b'a', 0], PropertyType::MultipleString8),
        Err(LtpError::InvalidMultiValuePropertyOffset(9))
    ));
    assert!(matches!(
        PropertyValue::read(&[1, 0, 0, 0, 8, 0, 0, 0, b'a'], PropertyType::MultipleString8),
        Err(LtpError::StringNotNullTerminated(1))
    ));
    let mut out = Vec::new();
    assert!(matches!(
        PropertyValue::Integer32(5).write(&mut out),
        Err(LtpError::InvalidVariableLengthPropertyType(PropertyType::Integer32))
    ));
    assert!(out.is_empty());
}

#[test]
fn existence_bitmaps() {
    assert_eq!(existence_bitmap_size(0), 0);
    assert_eq!(existence_bitmap_size(1), 1);
    assert_eq!(existence_bitmap_size(8), 1);
    assert_eq!(existence_bitmap_size(9), 2);
    assert_eq!(check_existence_bitmap(0, &[0x80]), Ok(true));
    assert_eq!(check_existence_bitmap(1, &[0x80]), Ok(false));
    assert_eq!(check_existence_bitmap(9, &[0x00, 0x40]), Ok(true));
    assert_eq!(
        check_existence_bitmap(8, &[0xFF]),
        Err(LtpError::InvalidTableContextColumnCount(8))
    );
}

fn columns() -> Vec<TableColumnDescriptor> {
    vec![
        TableColumnDescriptor::new(PropertyType::Integer32, LTP_ROW_ID_PROP_ID, 0, 4, 0),
        TableColumnDescriptor::new(PropertyType::Integer32, LTP_ROW_VERSION_PROP_ID, 4, 4, 1),
        TableColumnDescriptor::new(PropertyType::Integer16, 0x3601, 12, 2, 2),
        TableColumnDescriptor::new(PropertyType::Boolean, 0x360A, 14, 1, 3),
        TableColumnDescriptor::new(PropertyType::Unicode, 0x3001, 8, 4, 4),
    ]
}

fn context() -> TableContextInfo {
    TableContextInfo::new(12, 14, 15, 16, HeapId::new(1, 0).unwrap(), None, columns()).unwrap()
}

#[test]
fn table_context_roundtrip() {
    let ctx = context();
    assert_eq!(ctx.end_4byte_values(), 12);
    assert_eq!(ctx.end_2byte_values(), 14);
    assert_eq!(ctx.end_1byte_values(), 15);
    assert_eq!(ctx.end_existence_bitmap(), 16);
    assert_eq!(ctx.row_index(), HeapId::new(1, 0).unwrap());
    assert_eq!(ctx.rows(), None);
    assert_eq!(ctx.columns().len(), 5);
    let mut out = Vec::new();
    ctx.write(&mut out).unwrap();
    assert_eq!(out.len(), 22 + 5 * 8);
    assert_eq!(out[0], 0x7C);
    assert_eq!(out[1], 5);
    let back = TableContextInfo::read(&out).unwrap();
    assert_eq!(back.columns(), ctx.columns());
    assert_eq!(back.end_existence_bitmap(), 16);

    let mut column = Vec::new();
    ctx.columns()[2].write(&mut column).unwrap();
    assert_eq!(column, vec![0x02, 0x00, 0x01, 0x36, 12, 0, 2, 2]);
    assert_eq!(TableColumnDescriptor::read(&column).unwrap(), ctx.columns()[2]);
    assert_eq!(
        TableColumnDescriptor::read(&column[..7]).err(),
        Some(LtpError::UnexpectedEndOfData)
    );
}

#[test]
fn table_context_checks() {
    let hid = HeapId::new(1, 0).unwrap();
    assert_eq!(
        TableContextInfo::new(10, 14, 15, 16, hid, None, columns()).err(),
        Some(LtpError::InvalidTableContext4ByteOffset(10))
    );
    assert_eq!(
        TableContextInfo::new(12, 10, 15, 16, hid, None, columns()).err(),
        Some(LtpError::InvalidTableContext2ByteOffset(10))
    );
    assert_eq!(
        TableContextInfo::new(12, 14, 13, 16, hid, None, columns()).err(),
        Some(LtpError::InvalidTableContext1ByteOffset(13))
    );
    assert_eq!(
        TableContextInfo::new(12, 14, 15, 17, hid, None, columns()).err(),
        Some(LtpError::InvalidTableContextBitmaskOffset(17))
    );
    let mut bad = columns();
    bad[0] = TableColumnDescriptor::new(PropertyType::Integer32, LTP_ROW_ID_PROP_ID, 8, 4, 0);
    assert_eq!(
        TableContextInfo::new(12, 14, 15, 16, hid, None, bad).err(),
        Some(LtpError::InvalidTableContextRowIdColumn(LTP_ROW_ID_PROP_ID, PropertyType::Integer32))
    );
    let mut bad = columns();
    bad[2] = TableColumnDescriptor::new(PropertyType::Integer16, 0x3601, 12, 4, 2);
    assert_eq!(
        TableContextInfo::new(12, 14, 15, 16, hid, None, bad).err(),
        Some(LtpError::InvalidTableColumnSize(4))
    );
    let mut bad = columns();
    bad[3] = TableColumnDescriptor::new(PropertyType::Boolean, 0x360A, 15, 1, 3);
    assert_eq!(
        TableContextInfo::new(12, 14, 15, 16, hid, None, bad).err(),
        Some(LtpError::InvalidTableColumnOffset(15))
    );
    let mut bad = columns();
    bad[4] = TableColumnDescriptor::new(PropertyType::Unicode, 0x3001, 8, 4, 6);
    assert_eq!(
        TableContextInfo::new(12, 14, 15, 16, hid, None, bad).err(),
        Some(LtpError::InvalidTableColumnBitmaskOffset(6))
    );
    let mut bad = columns();
    bad[4] = TableColumnDescriptor::new(PropertyType::Null, 0x3001, 8, 4, 4);
    assert_eq!(
        TableContextInfo::new(12, 14, 15, 16, hid, None, bad).err(),
        Some(LtpError::InvalidTableColumnPropertyType(PropertyType::Null))
    );
}

fn row_bytes(id: u32, unique: u32, string: u32, int16: i16, flag: u8, bitmap: u8) -> Vec<u8> {
    let mut b = Vec::new();
    b.extend_from_slice(&id.to_le_bytes());
    b.extend_from_slice(&unique.to_le_bytes());
    b.extend_from_slice(&string.to_le_bytes());
    b.extend_from_slice(&int16.to_le_bytes());
    b.push(flag);
    b.push(bitmap);
    b
}

#[test]
fn table_rows() {
    let ctx = context();
    let bytes = row_bytes(0x21, 7, 0x40, -5, 1, 0xF8);
    let row = TableRowData::read(&bytes, &ctx).unwrap();
    assert_eq!(row.id().value(), 0x21);
    assert_eq!(row.unique(), 7);
    let mut out = Vec::new();
    row.write(&mut out);
    assert_eq!(out, bytes);

    let values = row.columns(&ctx).unwrap();
    assert_eq!(values.len(), 5);
    assert!(matches!(values[0], Some(TableRowColumnValue::Small(PropertyValue::Integer32(0x21)))));
    assert!(matches!(values[1], Some(TableRowColumnValue::Small(PropertyValue::Integer32(7)))));
    assert!(matches!(values[2], Some(TableRowColumnValue::Small(PropertyValue::Integer16(-5)))));
    assert!(matches!(values[3], Some(TableRowColumnValue::Small(PropertyValue::Boolean(true)))));
    assert!(matches!(values[4], Some(TableRowColumnValue::Heap(h)) if h.value() == 0x40));

    let partial = TableRowData::read(&row_bytes(0x22, 0, 0x2A1, 0, 0, 0xC8), &ctx).unwrap();
    let values = partial.columns(&ctx).unwrap();
    assert!(values[2].is_none());
    assert!(values[3].is_none());
    assert!(matches!(values[4], Some(TableRowColumnValue::Node(n)) if n.value() == 0x2A1));

    let bad = TableRowData::read(&row_bytes(0x23, 0, 0, 0, 2, 0x10), &ctx).unwrap();
    assert!(matches!(bad.columns(&ctx), Err(LtpError::InvalidTableColumnBooleanValue(2))));

    assert!(matches!(
        TableRowData::read(&bytes[0..15], &ctx),
        Err(LtpError::UnexpectedEndOfData)
    ));
}

#[test]
fn row_matrix_and_lookup() {
    let ctx = context();
    let mut data = row_bytes(0x21, 1, 0x40, 1, 0, 0xF8);
    data.extend(row_bytes(0x42, 2, 0x60, 2, 1, 0xF8));
    data.extend([0u8; 5]);
    let rows = read_row_matrix(&data, &ctx);
    assert_eq!(rows.len(), 2);
    assert_eq!(rows[1].id().value(), 0x42);

    let node = UnicodeNodeBTreeEntry::new(
        NodeId::from_u32(0x2E),
        UnicodeBlockId::from_raw(8),
        None,
        None,
    );
    let index = vec![
        (TableRowId::new(0x21), UnicodeTableRowIndex::new(0)),
        (TableRowId::new(0x42), UnicodeTableRowIndex::new(1)),
    ];
    let table = UnicodeTableContext::new(node, ctx, index, rows);
    assert_eq!(table.rows_matrix().len(), 2);
    assert_eq!(table.context().columns().len(), 5);
    assert_eq!(table.find_row(TableRowId::new(0x42)).unwrap().unique(), 2);
    assert_eq!(table.find_row(TableRowId::new(0x21)).unwrap().unique(), 1);
    assert!(matches!(
        table.find_row(TableRowId::new(0x99)),
        Err(LtpError::TableRowIdNotFound(0x99))
    ));
}

#[test]
fn row_indexes() {
    assert_eq!(UnicodeTableRowIndex::new(0x0102_0304).value(), 0x0102_0304);
    assert_eq!(AnsiTableRowIndex::new(0x0102).value(), 0x0102);
    let mut out = Vec::new();
    AnsiTableRowIndex::new(0x0102).write(&mut out);
    assert_eq!(out, vec![0x02, 0x01]);
    assert_eq!(AnsiTableRowIndex::read(&out).unwrap().value(), 0x0102);
    assert_eq!(AnsiTableRowIndex::read(&out[..1]).err(), Some(LtpError::UnexpectedEndOfData));
    let mut out = Vec::new();
    TableRowId::new(0x55).write(&mut out);
    assert_eq!(TableRowId::read(&out).unwrap().value(), 0x55);
    assert_eq!(TableRowId::read(&out[..3]).err(), Some(LtpError::UnexpectedEndOfData));
    assert!(TableRowId::new(1) < TableRowId::new(2));
    assert!(TableRowId::new(0x100) > TableRowId::new(0xFF));
    assert_eq!(TableRowId::new(7).cmp(&TableRowId::new(7)), std::cmp::Ordering::Equal);
    assert_eq!(TableRowId::new(3).partial_cmp(&TableRowId::new(9)), Some(std::cmp::Ordering::Less));
    assert_eq!(TableRowId::default().value(), 0);
}

#[test]
fn heap_tree_headers() {
    let root = HeapId::new(2, 0).unwrap();
    let header = HeapTreeHeader::new(4, 4, 1, root).unwrap();
    assert_eq!(header.key_size(), 4);
    assert_eq!(header.entry_size(), 4);
    assert_eq!(header.levels(), 1);
    assert_eq!(header.root(), root);
    let mut out = Vec::new();
    header.write(&mut out);
    assert_eq!(out, vec![0xB5, 4, 4, 1, 0x40, 0, 0, 0]);
    let back = HeapTreeHeader::read(&out).unwrap();
    assert_eq!(back.root(), root);
    assert!(matches!(
        HeapTreeHeader::new(3, 4, 1, root),
        Err(LtpError::InvalidHeapTreeKeySize(3))
    ));
    assert!(matches!(
        HeapTreeHeader::new(4, 0, 1, root),
        Err(LtpError::InvalidHeapTreeDataSize(0))
    ));
    assert!(matches!(
        HeapTreeHeader::read(&[0x7C, 4, 4, 1, 0x40, 0, 0, 0]),
        Err(LtpError::InvalidHeapTreeNodeType(HeapNodeType::Table))
    ));
}

#[test]
fn heap_tree_entries() {
    let next = HeapId::new(5, 1).unwrap();
    let entry = HeapTreeIntermediateEntry::new(TableRowId::new(9), next);
    assert_eq!(entry.key().value(), 9);
    assert_eq!(entry.next_level(), next);
    let leaf = HeapTreeLeafEntry::new(TableRowId::new(9), UnicodeTableRowIndex::new(3));
    assert_eq!(leaf.key().value(), 9);
    assert_eq!(leaf.data().value(), 3);

    let mut out = Vec::new();
    entry.write(&mut out);
    assert_eq!(out, vec![9, 0, 0, 0, 0xA0, 0, 1, 0]);
    let back = HeapTreeIntermediateEntry::<TableRowId>::read(&out).unwrap();
    assert_eq!(back.key().value(), 9);
    assert_eq!(back.next_level(), next);
    assert!(matches!(
        HeapTreeIntermediateEntry::<TableRowId>::read(&out[..7]),
        Err(LtpError::UnexpectedEndOfData)
    ));
    assert!(matches!(
        HeapTreeIntermediateEntry::<TableRowId>::read(&[9, 0, 0, 0, 0xA2, 0, 1, 0]),
        Err(LtpError::InvalidHeapNodeType(NodeIdType::NormalFolder))
    ));

    let mut out = Vec::new();
    leaf.write(&mut out);
    assert_eq!(out, vec![9, 0, 0, 0, 3, 0, 0, 0]);
    let back = UnicodeTableRowIdRecord::read(&out).unwrap();
    assert_eq!(back.key().value(), 9);
    assert_eq!(back.data().value(), 3);

    let ansi = AnsiTableRowIdRecord::new(TableRowId::new(7), AnsiTableRowIndex::new(2));
    let mut out = Vec::new();
    ansi.write(&mut out);
    assert_eq!(out, vec![7, 0, 0, 0, 2, 0]);
    let back = AnsiTableRowIdRecord::read(&out).unwrap();
    assert_eq!(back.key().value(), 7);
    assert_eq!(back.data().value(), 2);
    assert!(matches!(AnsiTableRowIdRecord::read(&out[..5]), Err(LtpError::UnexpectedEndOfData)));
}

#[test]
fn row_matrix_blocks_skip_padding() {
    let ctx = context();
    // Each block holds whole rows followed by padding that is not a row.
    let mut first = row_bytes(0x21, 1, 0x40, 1, 0, 0xF8);
    first.extend([0xAAu8; 7]);
    let mut second = row_bytes(0x42, 2, 0x60, 2, 1, 0xF8);
    second.extend(row_bytes(0x63, 3, 0x80, 3, 2, 0xF8));
    second.extend([0u8; 3]);
    let rows = read_row_matrix_blocks(&[first, second], &ctx);
    assert_eq!(rows.len(), 3);
    assert_eq!(rows[0].id().value(), 0x21);
    assert_eq!(rows[1].id().value(), 0x42);
    assert_eq!(rows[2].id().value(), 0x63);
    assert_eq!(rows[2].unique(), 3);
    assert!(read_row_matrix_blocks(&[], &ctx).is_empty());
}

#[test]
fn heap_tree_items_hold_rows_up_to_the_first_unreadable() {
    // Two intermediate entries, then a third whose heap id is not a heap node's,
    // then a trailing partial entry: only the first two are read.
    let item = [
        1, 0, 0, 0, 0x20, 0, 0, 0, //
        5, 0, 0, 0, 0x40, 0, 0, 0, //
        9, 0, 0, 0, 0xA2, 0, 1, 0, //
        7, 0,
    ];
    let rows = read_heap_tree_intermediate_rows::<TableRowId>(&item);
    assert_eq!(rows.len(), 2);
    assert_eq!(rows[1].key().value(), 5);
    assert_eq!(rows[1].next_level(), HeapId::new(2, 0).unwrap());

    // Leaf entries of 8 bytes each; the 3 bytes left over are not an entry.
    let item = [9, 0, 0, 0, 3, 0, 0, 0, 0x0A, 0, 0, 0, 4, 0, 0, 0, 1, 2, 3];
    let rows = read_heap_tree_leaf_rows::<TableRowId, UnicodeTableRowIndex>(&item);
    assert_eq!(rows.len(), 2);
    assert_eq!(rows[0].key().value(), 9);
    assert_eq!(rows[1].data().value(), 4);
    let rows = read_heap_tree_leaf_rows::<TableRowId, AnsiTableRowIndex>(&item);
    assert_eq!(rows.len(), 3);
    assert_eq!(rows[1].key().value(), 0xA_0000);
    assert!(read_heap_tree_leaf_rows::<TableRowId, UnicodeTableRowIndex>(&[]).is_empty());
}

#[test]
fn heap_tree_header_checks_before_the_walk() {
    let root = HeapId::new(2, 0).unwrap();
    let header = HeapTreeHeader::new(4, 4, 1, root).unwrap();
    assert_eq!(check_heap_tree_header::<TableRowId, UnicodeTableRowIndex>(&header).unwrap(), Some(root));
    assert!(matches!(
        check_heap_tree_header::<TableRowId, AnsiTableRowIndex>(&header),
        Err(LtpError::InvalidHeapTreeDataSize(4))
    ));
    let header = HeapTreeHeader::new(4, 2, 0, HeapId::from_u32(0)).unwrap();
    assert_eq!(check_heap_tree_header::<TableRowId, AnsiTableRowIndex>(&header).unwrap(), None);
}

#[test]
fn heap_tree_walk_goes_level_by_level() {
    let first = vec![1u8, 0, 0, 0, 0x20, 0, 0, 0, 5, 0, 0, 0, 0x40, 0, 0, 0];
    let second = vec![9u8, 0, 0, 0, 0x60, 0, 0, 0];
    let ids = read_heap_tree_next_level::<TableRowId>(&[first, second]);
    assert_eq!(
        ids,
        vec![HeapId::new(1, 0).unwrap(), HeapId::new(2, 0).unwrap(), HeapId::new(3, 0).unwrap()]
    );
    assert!(read_heap_tree_next_level::<TableRowId>(&[]).is_empty());

    let leaves_a = vec![1u8, 0, 0, 0, 7, 0, 0, 0, 0xFF];
    let leaves_b = vec![2u8, 0, 0, 0, 8, 0, 0, 0];
    let leaves = read_heap_tree_leaves::<TableRowId, UnicodeTableRowIndex>(&[leaves_a, leaves_b]);
    assert_eq!(leaves.len(), 2);
    assert_eq!(leaves[0].data().value(), 7);
    assert_eq!(leaves[1].key().value(), 2);
    assert_eq!(leaves[1].data().value(), 8);
}
