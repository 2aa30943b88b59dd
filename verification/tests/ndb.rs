use outlook_pst::crc::{compute_crc, compute_sig};
use outlook_pst::ndb::block_id::{
    AnsiBlockId, BlockId, UnicodeBlockId, MAX_ANSI_BLOCK_INDEX, MAX_UNICODE_BLOCK_INDEX,
};
use outlook_pst::ndb::block_ref::{AnsiBlockRef, BlockRef, UnicodeBlockRef};
use outlook_pst::ndb::byte_index::{AnsiByteIndex, ByteIndex, UnicodeByteIndex};
use outlook_pst::ndb::header::{
    new_default_nids, AnsiHeader, Header, NdbCryptMethod, NdbVersion, UnicodeHeader,
    HEADER_MAGIC, HEADER_MAGIC_CLIENT,
};
use outlook_pst::ndb::node_id::{NodeId, NodeIdType, MAX_NODE_INDEX};
use outlook_pst::ndb::root::{AmapStatus, AnsiRoot, Root, UnicodeRoot};
use outlook_pst::ndb::NdbError;

#[test]
fn test_nid_index_overflow() {
    let Err(NdbError::InvalidNodeIndex(value)) =
        NodeId::new(NodeIdType::HeapNode, MAX_NODE_INDEX + 1)
    else {
        panic!("NodeId should be out of range");
    };
    assert_eq!(value, MAX_NODE_INDEX + 1);
}

#[test]
fn test_unicode_bid_index_overflow() {
    let Err(NdbError::InvalidUnicodeBlockIndex(value)) =
        UnicodeBlockId::new(false, MAX_UNICODE_BLOCK_INDEX + 1)
    else {
        panic!("UnicodeBlockId should be out of range");
    };
    assert_eq!(value, MAX_UNICODE_BLOCK_INDEX + 1);
}

#[test]
fn test_ansi_bid_index_overflow() {
    let Err(NdbError::InvalidAnsiBlockIndex(value)) =
        AnsiBlockId::new(false, MAX_ANSI_BLOCK_INDEX + 1)
    else {
        panic!("AnsiBlockId should be out of range");
    };
    assert_eq!(value, MAX_ANSI_BLOCK_INDEX + 1);
}

#[test]
fn ndb_test_magic_values() {
    assert_eq!(HEADER_MAGIC, 0x4E444221);
    assert_eq!(HEADER_MAGIC_CLIENT, 0x4D53);
}

#[test]
fn mod_test_magic_values() {
    assert_eq!(HEADER_MAGIC, 0x4E444221);
    assert_eq!(HEADER_MAGIC_CLIENT, 0x4D53);
}

#[test]
fn node_id_packs_type_and_index() {
    let nid = NodeId::new(NodeIdType::NormalFolder, 0x122).unwrap();
    assert_eq!(nid.value(), (0x122 << 5) | 0x02);
    assert_eq!(nid.index(), 0x122);
    assert_eq!(nid.id_type(), Ok(NodeIdType::NormalFolder));
    let max = NodeId::new(NodeIdType::Internal, MAX_NODE_INDEX).unwrap();
    assert_eq!(max.index(), MAX_NODE_INDEX);
}

#[test]
fn node_id_type_codes() {
    assert_eq!(NodeIdType::try_from_u8(0x01), Ok(NodeIdType::Internal));
    assert_eq!(NodeIdType::try_from_u8(0x1F), Ok(NodeIdType::ListsTablesProperties));
    assert_eq!(NodeIdType::try_from_u8(0x20), Err(NdbError::InvalidNodeIdType(0x20)));
    assert_eq!(NodeIdType::SearchFolder.code(), 0x03);
    let bad = NodeId::from_u32(0x20 | 0x1E);
    assert_eq!(bad.id_type(), Err(NdbError::InvalidNodeIdType(0x1E)));
}

#[test]
fn node_id_bytes_roundtrip() {
    let nid = NodeId::from_u32(0x0403_0201);
    let mut out = Vec::new();
    nid.write(&mut out);
    assert_eq!(out, vec![0x01, 0x02, 0x03, 0x04]);
    assert_eq!(NodeId::read(&out).unwrap().value(), 0x0403_0201);
    assert_eq!(NodeId::read(&out[..3]), Err(NdbError::UnexpectedEndOfData));
}

#[test]
fn block_ids_pack_flag_and_index() {
    let bid = UnicodeBlockId::new(true, 5).unwrap();
    assert_eq!(bid.value(), 22);
    assert!(bid.is_internal());
    assert_eq!(bid.index(), 5);
    let max = UnicodeBlockId::new(false, MAX_UNICODE_BLOCK_INDEX).unwrap();
    assert_eq!(max.index(), MAX_UNICODE_BLOCK_INDEX);
    assert!(!max.is_internal());

    let bid = AnsiBlockId::new(false, 7).unwrap();
    assert_eq!(bid.value(), 28);
    assert!(!bid.is_internal());
    assert_eq!(bid.index(), 7);
    let max = AnsiBlockId::new(true, MAX_ANSI_BLOCK_INDEX).unwrap();
    assert_eq!(max.value(), 0xFFFF_FFFE);
}

#[test]
fn block_id_bytes_roundtrip() {
    let bid = UnicodeBlockId::from_raw(0x0807_0605_0403_0201);
    let mut out = Vec::new();
    bid.write(&mut out);
    assert_eq!(out, vec![1, 2, 3, 4, 5, 6, 7, 8]);
    assert_eq!(UnicodeBlockId::read(&out).value(), 0x0807_0605_0403_0201);

    let bid = AnsiBlockId::from_raw(0x1234_5678);
    let mut out = Vec::new();
    bid.write(&mut out);
    assert_eq!(out, vec![0x78, 0x56, 0x34, 0x12]);
    assert_eq!(AnsiBlockId::read(&out).value(), 0x1234_5678);
}

#[test]
fn block_ref_bytes_roundtrip() {
    let r = UnicodeBlockRef::new(UnicodeBlockId::from_raw(0x10), UnicodeByteIndex::new(0x4400));
    let mut out = Vec::new();
    r.write(&mut out);
    assert_eq!(out.len(), 16);
    assert_eq!(&out[0..8], &[0x10, 0, 0, 0, 0, 0, 0, 0]);
    assert_eq!(&out[8..16], &[0x00, 0x44, 0, 0, 0, 0, 0, 0]);
    let back = UnicodeBlockRef::read(&out);
    assert_eq!(back, r);
    assert_eq!(back.block().value(), 0x10);
    assert_eq!(back.index().index(), 0x4400);

    let r = AnsiBlockRef::new(AnsiBlockId::from_raw(0x24), AnsiByteIndex::new(0x4600));
    let mut out = Vec::new();
    r.write(&mut out);
    assert_eq!(out, vec![0x24, 0, 0, 0, 0x00, 0x46, 0, 0]);
    assert_eq!(AnsiBlockRef::read(&out), r);
}

fn unicode_root() -> UnicodeRoot {
    UnicodeRoot::new(
        UnicodeByteIndex::new(0x1_0000),
        UnicodeByteIndex::new(0x4400),
        UnicodeByteIndex::new(0x2000),
        UnicodeByteIndex::new(0),
        UnicodeBlockRef::new(UnicodeBlockId::from_raw(0x20), UnicodeByteIndex::new(0x4600)),
        UnicodeBlockRef::new(UnicodeBlockId::from_raw(0x24), UnicodeByteIndex::new(0x4800)),
        AmapStatus::Valid2,
    )
}

fn ansi_root() -> AnsiRoot {
    AnsiRoot::new(
        AnsiByteIndex::new(0x1_0000),
        AnsiByteIndex::new(0x4400),
        AnsiByteIndex::new(0x2000),
        AnsiByteIndex::new(0),
        AnsiBlockRef::new(AnsiBlockId::from_raw(0x20), AnsiByteIndex::new(0x4600)),
        AnsiBlockRef::new(AnsiBlockId::from_raw(0x24), AnsiByteIndex::new(0x4800)),
        AmapStatus::Valid1,
    )
}

#[test]
fn root_bytes_roundtrip() {
    let root = unicode_root();
    let mut out = Vec::new();
    root.write(&mut out);
    assert_eq!(out.len(), 72);
    let back = UnicodeRoot::read(&out);
    assert_eq!(back.file_eof_index().index(), 0x1_0000);
    assert_eq!(back.amap_last_index().index(), 0x4400);
    assert_eq!(back.amap_free_size().index(), 0x2000);
    assert_eq!(back.pmap_free_size().index(), 0);
    assert_eq!(back.node_btree(), root.node_btree());
    assert_eq!(back.block_btree(), root.block_btree());
    assert_eq!(back.amap_is_valid(), AmapStatus::Valid2);

    let root = ansi_root();
    let mut out = Vec::new();
    root.write(&mut out);
    assert_eq!(out.len(), 40);
    let back = AnsiRoot::read(&out);
    assert_eq!(back.file_eof_index().index(), 0x1_0000);
    assert_eq!(back.node_btree(), root.node_btree());
    assert_eq!(back.amap_is_valid(), AmapStatus::Valid1);
}

#[test]
fn root_amap_status() {
    let mut root = unicode_root();
    root.set_amap_status(AmapStatus::Invalid);
    assert_eq!(root.amap_is_valid(), AmapStatus::Invalid);
    assert!(!AmapStatus::Invalid.is_valid());
    assert!(AmapStatus::Valid1.is_valid());
    assert_eq!(AmapStatus::try_from_u8(0x02), Ok(AmapStatus::Valid2));
    assert_eq!(AmapStatus::try_from_u8(0x03), Err(NdbError::InvalidAmapStatus(0x03)));
}

#[test]
fn default_nids() {
    let nids = new_default_nids();
    assert_eq!(nids.len(), 32);
    assert_eq!(nids[0], 0x400 << 5);
    assert_eq!(nids[3], (0x4000 << 5) | 3);
    assert_eq!(nids[4], (0x10000 << 5) | 4);
    assert_eq!(nids[8], (0x8000 << 5) | 8);
    assert_eq!(nids[31], (0x400 << 5) | 31);
}

#[test]
fn unicode_header_roundtrip() {
    let header = UnicodeHeader::new(unicode_root(), NdbCryptMethod::Permute);
    assert_eq!(header.version(), NdbVersion::Unicode);
    let mut out = Vec::new();
    header.write(&mut out);
    assert_eq!(out.len(), 564);
    assert_eq!(&out[0..4], b"!BDN");
    assert_eq!(&out[8..10], b"SM");
    assert_eq!(u16::from_le_bytes([out[10], out[11]]), 23);
    let back = UnicodeHeader::read(&out).unwrap();
    assert_eq!(back.crypt_method(), NdbCryptMethod::Permute);
    assert_eq!(back.nids(), new_default_nids().as_slice());
    assert_eq!(back.root().node_btree(), unicode_root().node_btree());
    assert_eq!(back.unique(), 0);
    assert_eq!(back.next_page().value(), 0);
    assert_eq!(back.next_block().value(), 0);
}

#[test]
fn unicode_header_errors() {
    let header = UnicodeHeader::new(unicode_root(), NdbCryptMethod::NoEncoding);
    let mut out = Vec::new();
    header.write(&mut out);

    let mut bad = out.clone();
    bad[0] = b'?';
    assert!(matches!(
        UnicodeHeader::read(&bad),
        Err(NdbError::InvalidNdbHeaderMagicValue(_))
    ));
    assert!(matches!(
        UnicodeHeader::read(&bad[..10]),
        Err(NdbError::InvalidNdbHeaderMagicValue(_))
    ));
    assert!(matches!(UnicodeHeader::read(&out[..3]), Err(NdbError::UnexpectedEndOfData)));
    assert!(matches!(UnicodeHeader::read(&out[..563]), Err(NdbError::UnexpectedEndOfData)));
    let mut longer = out.clone();
    longer.extend_from_slice(&[0xEE; 8]);
    assert_eq!(UnicodeHeader::read(&longer).unwrap().crypt_method(), NdbCryptMethod::NoEncoding);

    let mut bad = out.clone();
    bad[4] ^= 1;
    let crc = u32::from_le_bytes([bad[4], bad[5], bad[6], bad[7]]);
    assert!(matches!(
        UnicodeHeader::read(&bad),
        Err(NdbError::InvalidNdbHeaderPartialCrc(c)) if c == crc
    ));

    let mut bad = out.clone();
    bad[524] ^= 1;
    assert!(matches!(
        UnicodeHeader::read(&bad),
        Err(NdbError::InvalidNdbHeaderFullCrc(_))
    ));

    let ansi = AnsiHeader::new(ansi_root(), NdbCryptMethod::NoEncoding);
    let mut ansi_bytes = Vec::new();
    ansi.write(&mut ansi_bytes);
    assert_eq!(
        UnicodeHeader::read(&ansi_bytes).err(),
        Some(NdbError::AnsiPstVersion(15))
    );
}

#[test]
fn ansi_header_roundtrip() {
    let header = AnsiHeader::new(ansi_root(), NdbCryptMethod::Cyclic);
    assert_eq!(header.version(), NdbVersion::Ansi);
    let mut out = Vec::new();
    header.write(&mut out);
    assert_eq!(out.len(), 512);
    let back = AnsiHeader::read(&out).unwrap();
    assert_eq!(back.crypt_method(), NdbCryptMethod::Cyclic);
    assert_eq!(back.nids(), new_default_nids().as_slice());
    assert_eq!(back.root().block_btree(), ansi_root().block_btree());

    let unicode = UnicodeHeader::new(unicode_root(), NdbCryptMethod::NoEncoding);
    let mut unicode_bytes = Vec::new();
    unicode.write(&mut unicode_bytes);
    unicode_bytes.truncate(512);
    assert_eq!(
        AnsiHeader::read(&unicode_bytes).err(),
        Some(NdbError::UnicodePstVersion(23))
    );
}

#[test]
fn header_codes() {
    assert_eq!(NdbVersion::try_from_u16(14), Ok(NdbVersion::Ansi));
    assert_eq!(NdbVersion::try_from_u16(15), Ok(NdbVersion::Ansi));
    assert_eq!(NdbVersion::try_from_u16(23), Ok(NdbVersion::Unicode));
    assert_eq!(NdbVersion::try_from_u16(16), Err(NdbError::InvalidNdbVersion(16)));
    assert_eq!(NdbCryptMethod::try_from_u8(2), Ok(NdbCryptMethod::Cyclic));
    assert_eq!(NdbCryptMethod::try_from_u8(3), Err(NdbError::InvalidNdbCryptMethod(3)));
    assert_eq!(NdbCryptMethod::Permute.code(), 1);
}

#[test]
fn crc_matches_reference_value() {
    // The standard CRC-32 of "123456789" is 0xCBF43926 with pre- and
    // post-inversion; without the final inversion it is its complement.
    assert_eq!(compute_crc(0xFFFF_FFFF, b"123456789"), 0xCBF4_3926 ^ 0xFFFF_FFFF);
    assert_eq!(compute_crc(0, &[]), 0);
    assert_eq!(compute_crc(0x1234, &[]), 0x1234);
}

#[test]
fn signature_formula() {
    assert_eq!(compute_sig(0x4400, 0x20), 0x4420);
    assert_eq!(compute_sig(0x0001_0000, 0x0000_0001), 0x0000);
    assert_eq!(compute_sig(0x1234_0000, 0x0000_5678), 0x1234 ^ 0x5678);
}
