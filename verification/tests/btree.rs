use outlook_pst::ndb::block_id::{AnsiBlockId, UnicodeBlockId};
use outlook_pst::ndb::block_ref::{AnsiBlockRef, BlockRef, UnicodeBlockRef};
use outlook_pst::ndb::btree::{
    AnsiBTree, AnsiBTreeEntryPage, AnsiBTreePage, AnsiBTreePageEntry, AnsiBlockBTreeEntry,
    AnsiBlockBTreePage, AnsiNodeBTree, AnsiNodeBTreeEntry, AnsiNodeBTreePage, BTreeEntry,
    BTreePage, BTreePageEntry, BlockBTreeEntry, NodeBTreeEntry, UnicodeBTree,
    UnicodeBTreeEntryPage, UnicodeBTreePage, UnicodeBTreePageEntry, UnicodeBlockBTreeEntry,
    UnicodeBlockBTreePage, UnicodeNodeBTree, UnicodeNodeBTreeEntry, UnicodeNodeBTreePage,
};
use outlook_pst::ndb::byte_index::{AnsiByteIndex, ByteIndex, UnicodeByteIndex};
use outlook_pst::ndb::node_id::NodeId;
use outlook_pst::ndb::page::{AnsiPageTrailer, PageTrailer, PageType, UnicodePageTrailer};
use outlook_pst::ndb::NdbError;

#[test]
fn unicode_node_entries_roundtrip() {
    let entry = UnicodeNodeBTreeEntry::new(
        NodeId::from_u32(0x21),
        UnicodeBlockId::from_raw(0x40),
        Some(UnicodeBlockId::from_raw(0x44)),
        Some(NodeId::from_u32(0x122)),
    );
    let mut out = Vec::new();
    entry.write(&mut out);
    assert_eq!(out.len(), 32);
    assert_eq!(&out[0..8], &[0x21, 0, 0, 0, 0, 0, 0, 0]);
    let back = <UnicodeNodeBTreeEntry as BTreeEntry>::read(&out).unwrap();
    assert_eq!(back, entry);
    assert_eq!(back.node().value(), 0x21);
    assert_eq!(back.data().value(), 0x40);
    assert_eq!(back.sub_node().map(|b| b.value()), Some(0x44));
    assert_eq!(back.parent(), Some(NodeId::from_u32(0x122)));

    let mut bad = out.clone();
    bad[4] = 1;
    assert_eq!(
        <UnicodeNodeBTreeEntry as BTreeEntry>::read(&bad),
        Err(NdbError::InvalidNodeBTreeEntryNodeId(0x0000_0001_0000_0021))
    );
}

#[test]
fn block_entries_roundtrip() {
    let bref = UnicodeBlockRef::new(UnicodeBlockId::from_raw(0x40), UnicodeByteIndex::new(0x4600));
    let entry = UnicodeBlockBTreeEntry::new(bref, 100);
    assert_eq!(entry.size(), 100);
    assert_eq!(entry.ref_count(), 1);
    let mut out = Vec::new();
    entry.write(&mut out);
    assert_eq!(out.len(), 24);
    let back = <UnicodeBlockBTreeEntry as BTreeEntry>::read(&out).unwrap();
    assert_eq!(back, entry);
    assert_eq!(back.block(), bref);

    let bref = AnsiBlockRef::new(AnsiBlockId::from_raw(0x40), AnsiByteIndex::new(0x4600));
    let entry = AnsiBlockBTreeEntry::new(bref, 7);
    let mut out = Vec::new();
    entry.write(&mut out);
    assert_eq!(out.len(), 12);
    assert_eq!(<AnsiBlockBTreeEntry as BTreeEntry>::read(&out).unwrap(), entry);
}

#[test]
fn page_entries_roundtrip() {
    let bref = UnicodeBlockRef::new(UnicodeBlockId::from_raw(0x48), UnicodeByteIndex::new(0x5000));
    let entry = UnicodeBTreePageEntry::new(UnicodeBlockId::from_raw(0x21), bref);
    let mut out = Vec::new();
    entry.write(&mut out);
    assert_eq!(out.len(), 24);
    let back = <UnicodeBTreePageEntry as BTreeEntry>::read(&out).unwrap();
    assert_eq!(back.key().value(), 0x21);
    assert_eq!(back.block().index().index(), 0x5000);
    assert_eq!(UnicodeBTreePageEntry::extend_key(NodeId::from_u32(0x21)).value(), 0x21);

    let bref = AnsiBlockRef::new(AnsiBlockId::from_raw(0x48), AnsiByteIndex::new(0x5000));
    let entry = AnsiBTreePageEntry::new(AnsiBlockId::from_raw(0x21), bref);
    let mut out = Vec::new();
    entry.write(&mut out);
    assert_eq!(out.len(), 12);
    assert_eq!(<AnsiBTreePageEntry as BTreeEntry>::read(&out).unwrap(), entry);
}

fn ansi_node_entries() -> Vec<AnsiNodeBTreeEntry> {
    vec![
        AnsiNodeBTreeEntry::new(NodeId::from_u32(0x21), AnsiBlockId::from_raw(0x40), None, None),
        AnsiNodeBTreeEntry::new(
            NodeId::from_u32(0x122),
            AnsiBlockId::from_raw(0x44),
            Some(AnsiBlockId::from_raw(0x48)),
            Some(NodeId::from_u32(0x21)),
        ),
    ]
}

#[test]
fn ansi_node_page_roundtrip() {
    let trailer = AnsiPageTrailer::new(PageType::NodeBTree, 0x1234, AnsiBlockId::from_raw(0x80), 0);
    let page = AnsiNodeBTreePage::new(0, &ansi_node_entries(), trailer).unwrap();
    assert_eq!(page.level(), 0);
    let mut out = Vec::new();
    page.write(&mut out);
    assert_eq!(out.len(), 512);
    assert_eq!(&out[496..500], &[2, 31, 16, 0]);
    let back = <AnsiNodeBTreePage as AnsiBTreePage>::read(&out).unwrap();
    assert_eq!(back.entries(), ansi_node_entries().as_slice());
    assert_eq!(back.trailer().signature(), 0x1234);
    assert!(matches!(AnsiNodeBTree::read(&out), Ok(AnsiBTree::Leaf(..))));

    let mut bad = out.clone();
    bad[0] ^= 1;
    assert!(matches!(
        <AnsiNodeBTreePage as AnsiBTreePage>::read(&bad),
        Err(NdbError::InvalidPageCrc(_))
    ));
}

#[test]
fn btree_page_checks() {
    let trailer = AnsiPageTrailer::new(PageType::NodeBTree, 0, AnsiBlockId::from_raw(0x80), 0);
    assert!(matches!(
        AnsiNodeBTreePage::new(1, &ansi_node_entries(), trailer),
        Err(NdbError::InvalidBTreePageLevel(1))
    ));
    let many = vec![ansi_node_entries()[0]; 32];
    assert!(matches!(
        AnsiNodeBTreePage::new(0, &many, trailer),
        Err(NdbError::InvalidBTreeEntryCount(32))
    ));
    let wrong = AnsiPageTrailer::new(PageType::BlockBTree, 0, AnsiBlockId::from_raw(0x80), 0);
    assert!(matches!(
        AnsiNodeBTreePage::new(0, &ansi_node_entries(), wrong),
        Err(NdbError::UnexpectedPageType(PageType::BlockBTree))
    ));
}

#[test]
fn unicode_node_page_roundtrip() {
    let entry = UnicodeNodeBTreeEntry::new(NodeId::from_u32(0x21), UnicodeBlockId::from_raw(0x40), None, None);
    let trailer = UnicodePageTrailer::new(PageType::NodeBTree, 0, UnicodeBlockId::from_raw(0x80), 0);
    let page = UnicodeNodeBTreePage::new(0, &[entry], trailer).unwrap();
    let mut out = Vec::new();
    page.write(&mut out);
    assert_eq!(out.len(), 512);
    // The counts sit after the 488 bytes of entries, followed by 4 bytes of padding.
    assert_eq!(&out[488..492], &[1, 15, 32, 0]);
    assert_eq!(&out[492..496], &[0u8; 4]);
    let back = <UnicodeNodeBTreePage as UnicodeBTreePage>::read(&out).unwrap();
    assert_eq!(back.entries(), &[entry]);
    assert_eq!(back.level(), 0);
    assert!(matches!(UnicodeNodeBTree::read(&out), Ok(UnicodeBTree::Leaf(..))));
}

#[test]
fn unicode_block_and_intermediate_pages_roundtrip() {
    let bref = UnicodeBlockRef::new(UnicodeBlockId::from_raw(0x40), UnicodeByteIndex::new(0x4600));
    let entry = UnicodeBlockBTreeEntry::new(bref, 100);
    let trailer = UnicodePageTrailer::new(PageType::BlockBTree, 0, UnicodeBlockId::from_raw(0x80), 0);
    let page = UnicodeBlockBTreePage::new(0, &[entry, entry], trailer).unwrap();
    let mut out = Vec::new();
    page.write(&mut out);
    assert_eq!(&out[488..492], &[2, 20, 24, 0]);
    let back = <UnicodeBlockBTreePage as UnicodeBTreePage>::read(&out).unwrap();
    assert_eq!(back.entries(), &[entry, entry]);

    let key = UnicodeBTreePageEntry::new(UnicodeBlockId::from_raw(0x21), bref);
    let page = UnicodeBTreeEntryPage::new(1, &[key], trailer).unwrap();
    let mut out = Vec::new();
    page.write(&mut out);
    assert_eq!(&out[488..492], &[1, 20, 24, 1]);
    let back = <UnicodeBTreeEntryPage as UnicodeBTreePage>::read(&out).unwrap();
    assert_eq!(back.entries(), &[key]);
    assert_eq!(back.level(), 1);
}

#[test]
fn ansi_block_and_intermediate_pages_roundtrip() {
    let bref = AnsiBlockRef::new(AnsiBlockId::from_raw(0x40), AnsiByteIndex::new(0x4600));
    let entry = AnsiBlockBTreeEntry::new(bref, 7);
    let trailer = AnsiPageTrailer::new(PageType::BlockBTree, 0, AnsiBlockId::from_raw(0x80), 0);
    let page = AnsiBlockBTreePage::new(0, &[entry], trailer).unwrap();
    let mut out = Vec::new();
    page.write(&mut out);
    assert_eq!(out.len(), 512);
    assert_eq!(&out[496..500], &[1, 41, 12, 0]);
    let back = <AnsiBlockBTreePage as AnsiBTreePage>::read(&out).unwrap();
    assert_eq!(back.entries(), &[entry]);

    let key = AnsiBTreePageEntry::new(AnsiBlockId::from_raw(0x21), bref);
    let page = AnsiBTreeEntryPage::new(2, &[key], trailer).unwrap();
    let mut out = Vec::new();
    page.write(&mut out);
    assert_eq!(&out[496..500], &[1, 41, 12, 2]);
    let back = <AnsiBTreeEntryPage as AnsiBTreePage>::read(&out).unwrap();
    assert_eq!(back.entries(), &[key]);
}

#[test]
fn lookup_by_key_in_intermediate_pages() {
    let trailer = UnicodePageTrailer::new(PageType::NodeBTree, 0, UnicodeBlockId::from_raw(0x80), 0);
    let below = |b: u64| UnicodeBlockRef::new(UnicodeBlockId::from_raw(b), UnicodeByteIndex::new(b * 0x200));
    let keys = [
        UnicodeBTreePageEntry::new(UnicodeBlockId::from_raw(0x21), below(0x100)),
        UnicodeBTreePageEntry::new(UnicodeBlockId::from_raw(0x60), below(0x104)),
        UnicodeBTreePageEntry::new(UnicodeBlockId::from_raw(0x200), below(0x108)),
    ];
    let page = UnicodeBTreeEntryPage::new(1, &keys, trailer).unwrap();
    assert_eq!(page.find_child(0x20), None);
    assert_eq!(page.find_child(0x21), Some(below(0x100)));
    assert_eq!(page.find_child(0x5F), Some(below(0x100)));
    assert_eq!(page.find_child(0x60), Some(below(0x104)));
    assert_eq!(page.find_child(0x1FF), Some(below(0x104)));
    assert_eq!(page.find_child(0x9999), Some(below(0x108)));

    let trailer = AnsiPageTrailer::new(PageType::BlockBTree, 0, AnsiBlockId::from_raw(0x80), 0);
    let below = |b: u32| AnsiBlockRef::new(AnsiBlockId::from_raw(b), AnsiByteIndex::new(b * 0x200));
    let keys = [
        AnsiBTreePageEntry::new(AnsiBlockId::from_raw(0x8), below(0x10)),
        AnsiBTreePageEntry::new(AnsiBlockId::from_raw(0x40), below(0x14)),
    ];
    let page = AnsiBTreeEntryPage::new(1, &keys, trailer).unwrap();
    assert_eq!(page.find_child(0x4), None);
    assert_eq!(page.find_child(0x3F), Some(below(0x10)));
    assert_eq!(page.find_child(0x40), Some(below(0x14)));
}

#[test]
fn lookup_by_key_in_leaf_pages() {
    let trailer = AnsiPageTrailer::new(PageType::NodeBTree, 0, AnsiBlockId::from_raw(0x80), 0);
    let page = AnsiNodeBTreePage::new(0, &ansi_node_entries(), trailer).unwrap();
    assert_eq!(page.entry_for(NodeId::from_u32(0x122)), Some(ansi_node_entries()[1]));
    assert_eq!(page.entry_for(NodeId::from_u32(0x21)), Some(ansi_node_entries()[0]));
    assert_eq!(page.entry_for(NodeId::from_u32(0x42)), None);

    let entry = UnicodeNodeBTreeEntry::new(NodeId::from_u32(0x21), UnicodeBlockId::from_raw(0x40), None, None);
    let trailer = UnicodePageTrailer::new(PageType::NodeBTree, 0, UnicodeBlockId::from_raw(0x80), 0);
    let page = UnicodeNodeBTreePage::new(0, &[entry], trailer).unwrap();
    assert_eq!(page.entry_for(NodeId::from_u32(0x21)), Some(entry));
    assert_eq!(page.entry_for(NodeId::from_u32(0x22)), None);

    let first = UnicodeBlockBTreeEntry::new(
        UnicodeBlockRef::new(UnicodeBlockId::from_raw(0x40), UnicodeByteIndex::new(0x4600)),
        100,
    );
    let second = UnicodeBlockBTreeEntry::new(
        UnicodeBlockRef::new(UnicodeBlockId::from_raw(0x44), UnicodeByteIndex::new(0x4800)),
        60,
    );
    let trailer = UnicodePageTrailer::new(PageType::BlockBTree, 0, UnicodeBlockId::from_raw(0x80), 0);
    let page = UnicodeBlockBTreePage::new(0, &[first, second], trailer).unwrap();
    assert_eq!(page.entry_for(UnicodeBlockId::from_raw(0x44)), Some(second));
    assert_eq!(page.entry_for(UnicodeBlockId::from_raw(0x48)), None);

    let entry = AnsiBlockBTreeEntry::new(
        AnsiBlockRef::new(AnsiBlockId::from_raw(0x40), AnsiByteIndex::new(0x4600)),
        7,
    );
    let trailer = AnsiPageTrailer::new(PageType::BlockBTree, 0, AnsiBlockId::from_raw(0x80), 0);
    let page = AnsiBlockBTreePage::new(0, &[entry], trailer).unwrap();
    assert_eq!(page.entry_for(AnsiBlockId::from_raw(0x40)), Some(entry));
    assert_eq!(page.entry_for(AnsiBlockId::from_raw(0x41)), None);
}
