use outlook_pst::amap::{
    first_free_map, free_map_page_count, mark_block_allocation, unicode_free_map_pages,
    AllocationMapPageInfo, AMAP_DATA_SIZE, AMAP_FIRST_OFFSET, FMAP_FIRST_OFFSET, PAGE_SIZE,
};
use outlook_pst::ndb::block_id::{AnsiBlockId, UnicodeBlockId};
use outlook_pst::ndb::block_ref::{AnsiBlockRef, BlockRef, UnicodeBlockRef};
use outlook_pst::ndb::btree::{
    AnsiBTree, AnsiBTreeEntryPage, AnsiBTreePageEntry, AnsiBlockBTree, BTreePage, BTreePageEntry, BlockBTreeEntry, UnicodeBTree,
    UnicodeBTreeEntryPage, UnicodeBTreePageEntry, UnicodeBlockBTree, UnicodeBlockBTreeEntry,
    UnicodeBlockBTreePage, UnicodeNodeBTree,
};
use outlook_pst::ndb::byte_index::{AnsiByteIndex, ByteIndex, UnicodeByteIndex};
use outlook_pst::ndb::page::{AnsiPageTrailer, MapPage, PageTrailer, PageType, UnicodePageTrailer};
use outlook_pst::ndb::root::{AmapStatus, AnsiRoot, Root, UnicodeRoot};
use outlook_pst::rebuild::{
    mark_ansi_block_btree_page, mark_unicode_block_btree_page, mark_unicode_node_btree_page,
    marks_fit_check, unicode_block_page_marks_of,
};
use outlook_pst::PstError;
use std::marker::PhantomData;

#[test]
fn free_slots_count_the_longest_free_run() {
    let page = AllocationMapPageInfo::new(1);
    assert_eq!(page.max_free_slots(), 255);

    // Leave the last 100 slots of the page free, and nothing else.
    let mut pages = vec![AllocationMapPageInfo::new(0), AllocationMapPageInfo::new(1)];
    let base = AMAP_FIRST_OFFSET + AMAP_DATA_SIZE;
    let mut bit = 8u64;
    while bit < 3868 {
        let slots = (3868 - bit).min(128);
        mark_block_allocation(base + 64 * bit, (64 * slots) as u16, 0, &mut pages).unwrap();
        bit += slots;
    }
    assert_eq!(pages[1].max_free_slots(), 100);
    assert_eq!(pages[0].max_free_slots(), 255);

    let fmap = first_free_map(&pages);
    assert_eq!(fmap.len(), 128);
    assert_eq!(&fmap[0..3], &[255, 100, 0]);
}

#[test]
fn free_map_pages_follow_the_first_128() {
    let pages: Vec<_> = (0..130).map(AllocationMapPageInfo::new).collect();
    assert_eq!(free_map_page_count(128), 0);
    assert_eq!(free_map_page_count(130), 1);
    let fmaps = unicode_free_map_pages(&pages);
    assert_eq!(fmaps.len(), 1);
    assert_eq!(fmaps[0].trailer().page_type(), PageType::FreeMap);
    assert_eq!(fmaps[0].trailer().block_id().value(), FMAP_FIRST_OFFSET);
    assert_eq!(&fmaps[0].map_bits()[0..3], &[255, 255, 0]);
    assert!(unicode_free_map_pages(&pages[..128]).is_empty());
}

fn unicode_root() -> UnicodeRoot {
    UnicodeRoot::new(
        UnicodeByteIndex::new(0x1_0000),
        UnicodeByteIndex::new(0x4400),
        UnicodeByteIndex::new(0x2000),
        UnicodeByteIndex::new(7),
        UnicodeBlockRef::new(UnicodeBlockId::from_raw(0x20), UnicodeByteIndex::new(0x4600)),
        UnicodeBlockRef::new(UnicodeBlockId::from_raw(0x24), UnicodeByteIndex::new(0x4800)),
        AmapStatus::Invalid,
    )
}

#[test]
fn resetting_the_free_size() {
    let mut root = unicode_root();
    root.reset_free_size(0x1234_5678_9A).unwrap();
    assert_eq!(root.amap_free_size().index(), 0x1234_5678_9A);
    assert_eq!(root.pmap_free_size().index(), 0);

    let mut ansi = AnsiRoot::new(
        AnsiByteIndex::new(0x1_0000),
        AnsiByteIndex::new(0x4400),
        AnsiByteIndex::new(0x2000),
        AnsiByteIndex::new(7),
        AnsiBlockRef::new(AnsiBlockId::from_raw(0x20), AnsiByteIndex::new(0x4600)),
        AnsiBlockRef::new(AnsiBlockId::from_raw(0x24), AnsiByteIndex::new(0x4800)),
        AmapStatus::Invalid,
    );
    assert_eq!(ansi.reset_free_size(1 << 32), Err(PstError::IntegerConversion));
    assert_eq!(ansi.amap_free_size().index(), 0x2000);
    ansi.reset_free_size(0x4000).unwrap();
    assert_eq!(ansi.amap_free_size().index(), 0x4000);
    assert_eq!(ansi.pmap_free_size().index(), 0);
}

#[test]
fn marking_a_leaf_page_of_the_block_btree() {
    let mut pages = vec![AllocationMapPageInfo::new(0)];
    let before = pages[0].free_space();
    let page_offset = AMAP_FIRST_OFFSET + 4 * PAGE_SIZE;
    let block = UnicodeBlockBTreeEntry::new(
        UnicodeBlockRef::new(UnicodeBlockId::from_raw(0x40), UnicodeByteIndex::new(page_offset + PAGE_SIZE)),
        100,
    );
    let trailer = UnicodePageTrailer::new(PageType::BlockBTree, 0, UnicodeBlockId::from_raw(0x80), 0);
    let leaf = UnicodeBlockBTreePage::new(0, &[block], trailer).unwrap();
    let page: UnicodeBlockBTree = UnicodeBTree::Leaf(Box::new(leaf), PhantomData);
    let marks = unicode_block_page_marks_of(page_offset, &page);
    assert_eq!(marks, vec![(page_offset, 512), (page_offset + PAGE_SIZE, 116)]);
    assert!(marks_fit_check(&pages, &marks));
    let children = mark_unicode_block_btree_page(page_offset, &page, &mut pages).unwrap();
    assert!(children.is_empty());
    // The page takes 8 slots (bits 32..40), the block block_size(116) = 128 bytes (bits 40..42).
    assert_eq!(pages[0].free_space(), before - 512 - 128);
    assert_eq!(&pages[0].map_bits()[4..6], &[0xFF, 0xC0]);

    let far = AMAP_FIRST_OFFSET + AMAP_DATA_SIZE;
    let mut pages = vec![AllocationMapPageInfo::new(0)];
    assert!(matches!(
        mark_unicode_block_btree_page(far, &page, &mut pages),
        Err(PstError::AllocationMapPageNotFound(1))
    ));
}

#[test]
fn marking_intermediate_pages_gives_their_children() {
    let child = UnicodeBlockRef::new(UnicodeBlockId::from_raw(0x48), UnicodeByteIndex::new(0x8000));
    let entry = UnicodeBTreePageEntry::new(UnicodeBlockId::from_raw(0x21), child);
    let trailer = UnicodePageTrailer::new(PageType::NodeBTree, 0, UnicodeBlockId::from_raw(0x80), 0);
    let page = UnicodeBTreeEntryPage::new(1, &[entry], trailer).unwrap();
    let node: UnicodeNodeBTree = UnicodeBTree::Intermediate(Box::new(page));
    let mut pages = vec![AllocationMapPageInfo::new(0)];
    let children = mark_unicode_node_btree_page(AMAP_FIRST_OFFSET + 2 * PAGE_SIZE, &node, &mut pages).unwrap();
    assert_eq!(children, vec![child]);
    assert_eq!(pages[0].map_bits()[2], 0xFF);

    let ansi_child = AnsiBlockRef::new(AnsiBlockId::from_raw(0x48), AnsiByteIndex::new(0x8000));
    let ansi_entry = AnsiBTreePageEntry::new(AnsiBlockId::from_raw(0x21), ansi_child);
    let ansi_trailer = AnsiPageTrailer::new(PageType::BlockBTree, 0, AnsiBlockId::from_raw(0x80), 0);
    let ansi_page = AnsiBTreeEntryPage::new(1, &[ansi_entry], ansi_trailer).unwrap();
    let block: AnsiBlockBTree = AnsiBTree::Intermediate(Box::new(ansi_page));
    let mut pages = vec![AllocationMapPageInfo::new(0)];
    let children = mark_ansi_block_btree_page(AMAP_FIRST_OFFSET + 3 * PAGE_SIZE, &block, &mut pages).unwrap();
    assert_eq!(children, vec![ansi_child]);
    assert_eq!(pages[0].map_bits()[3], 0xFF);
}
