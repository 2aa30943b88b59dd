use outlook_pst::amap::{
    allocation_page_map_page_count, amap_page_count, ansi_allocation_page_map_page,
    ansi_free_page_map_page, free_page_map_page_count, mark_block_allocation,
    mark_page_allocation, total_free_space, unicode_allocation_page_map_page,
    unicode_free_page_map_page, AllocationMapPageInfo, AMAP_DATA_SIZE, AMAP_FIRST_OFFSET,
    FPMAP_FIRST_OFFSET, PAGE_SIZE, PMAP_DATA_SIZE, PMAP_FIRST_OFFSET,
};
use outlook_pst::ndb::block_id::UnicodeBlockId;
use outlook_pst::ndb::page::{MapPage, PageTrailer, PageType, UnicodeAllocationMapPage};
use outlook_pst::PstError;

#[test]
fn map_layout_constants() {
    assert_eq!(AMAP_DATA_SIZE, 253_952);
    assert_eq!(PMAP_FIRST_OFFSET, 0x4600);
    assert_eq!(PMAP_DATA_SIZE, 253_952 * 8);
    assert_eq!(FPMAP_FIRST_OFFSET, 0x4400 + 253_952 * 128 * 64 + 3 * 512);
}

#[test]
fn fresh_amap_pages_reserve_their_map_pages() {
    let first = AllocationMapPageInfo::new(0);
    assert_eq!(first.offset(), 0x4400);
    assert_eq!(&first.map_bits()[0..3], &[0xFF, 0xFF, 0x00]);
    assert_eq!(first.free_space(), AMAP_DATA_SIZE - 2 * PAGE_SIZE);

    let second = AllocationMapPageInfo::new(1);
    assert_eq!(second.offset(), 0x4400 + AMAP_DATA_SIZE);
    assert_eq!(&second.map_bits()[0..2], &[0xFF, 0x00]);
    assert_eq!(second.free_space(), AMAP_DATA_SIZE - PAGE_SIZE);

    let with_fmap = AllocationMapPageInfo::new(128);
    assert_eq!(&with_fmap.map_bits()[0..4], &[0xFF, 0xFF, 0xFF, 0x00]);

    let with_fpmap = AllocationMapPageInfo::new(128 * 64);
    assert_eq!(&with_fpmap.map_bits()[0..4], &[0xFF, 0xFF, 0xFF, 0x00]);
    assert_eq!(with_fpmap.free_space(), AMAP_DATA_SIZE - 3 * PAGE_SIZE);
    assert!(with_fpmap.map_bits()[3..].iter().all(|b| *b == 0));
}

#[test]
fn amap_pages_for_file_size() {
    assert_eq!(amap_page_count(0x4400), 0);
    assert_eq!(amap_page_count(0x4401), 1);
    assert_eq!(amap_page_count(0x4400 + AMAP_DATA_SIZE), 1);
    assert_eq!(amap_page_count(0x4400 + AMAP_DATA_SIZE + 1), 2);
    assert_eq!(allocation_page_map_page_count(0), 1);
    assert_eq!(allocation_page_map_page_count(8), 2);
    assert_eq!(free_page_map_page_count(8192), 0);
    assert_eq!(free_page_map_page_count(8193), 1);
    assert_eq!(free_page_map_page_count(8192 + 496 * 64), 1);
    assert_eq!(free_page_map_page_count(8192 + 496 * 64 + 1), 2);
}

#[test]
fn marking_a_page_sets_its_eight_bits() {
    let mut pages = vec![AllocationMapPageInfo::new(0), AllocationMapPageInfo::new(1)];
    let before = pages[0].free_space();

    mark_page_allocation(AMAP_FIRST_OFFSET + 2 * PAGE_SIZE, &mut pages).unwrap();
    assert_eq!(pages[0].map_bits()[2], 0xFF);
    assert_eq!(pages[0].free_space(), before - PAGE_SIZE);

    // A page that starts in the middle of a byte spans two bytes.
    mark_page_allocation(AMAP_FIRST_OFFSET + 3 * PAGE_SIZE + 64, &mut pages).unwrap();
    assert_eq!(pages[0].map_bits()[3], 0x7F);
    assert_eq!(pages[0].map_bits()[4], 0x80);
    assert_eq!(pages[0].free_space(), before - 2 * PAGE_SIZE);

    // The second page is untouched.
    assert_eq!(pages[1].free_space(), AMAP_DATA_SIZE - PAGE_SIZE);
    assert_eq!(pages[1].map_bits()[1], 0);
}

#[test]
fn marking_a_block_sets_its_rounded_size() {
    let mut pages = vec![AllocationMapPageInfo::new(0)];
    let before = pages[0].free_space();
    mark_block_allocation(AMAP_FIRST_OFFSET + 4096, 100, 16, &mut pages).unwrap();
    assert_eq!(pages[0].map_bits()[8], 0xC0);
    assert_eq!(pages[0].map_bits()[9], 0x00);
    assert_eq!(pages[0].free_space(), before - 128);

    mark_block_allocation(AMAP_FIRST_OFFSET + 4096 + 128, 10, 16, &mut pages).unwrap();
    assert_eq!(pages[0].map_bits()[8], 0xE0);
    assert_eq!(pages[0].free_space(), before - 192);
    assert_eq!(total_free_space(&pages), before - 192);
}

#[test]
fn marking_past_the_last_page_fails() {
    let mut pages = vec![AllocationMapPageInfo::new(0)];
    let free = pages[0].free_space();
    assert_eq!(
        mark_page_allocation(AMAP_FIRST_OFFSET + AMAP_DATA_SIZE, &mut pages),
        Err(PstError::AllocationMapPageNotFound(1))
    );
    assert_eq!(
        mark_block_allocation(AMAP_FIRST_OFFSET + 3 * AMAP_DATA_SIZE, 10, 16, &mut pages),
        Err(PstError::AllocationMapPageNotFound(3))
    );
    assert_eq!(pages[0].free_space(), free);
}

#[test]
fn total_free_space_sums_pages() {
    let pages = vec![
        AllocationMapPageInfo::new(0),
        AllocationMapPageInfo::new(1),
        AllocationMapPageInfo::new(2),
    ];
    assert_eq!(
        total_free_space(&pages),
        3 * AMAP_DATA_SIZE - 4 * PAGE_SIZE
    );
    assert_eq!(total_free_space(&[]), 0);
}

#[test]
fn amap_page_from_info() {
    let mut pages = vec![AllocationMapPageInfo::new(0)];
    mark_page_allocation(AMAP_FIRST_OFFSET + 2 * PAGE_SIZE, &mut pages).unwrap();
    let page: UnicodeAllocationMapPage = pages[0].unicode_page();
    assert_eq!(page.map_bits(), pages[0].map_bits());
    assert_eq!(page.trailer().page_type(), PageType::AllocationMap);
    assert_eq!(page.trailer().block_id(), UnicodeBlockId::from_raw(0x4400));
    let ansi = pages[0].ansi_page().unwrap();
    assert_eq!(ansi.map_bits(), pages[0].map_bits());
}

#[test]
fn map_pages_of_every_bit() {
    let p = unicode_allocation_page_map_page(1);
    assert!(p.map_bits().iter().all(|b| *b == 0xFF));
    assert_eq!(p.trailer().page_type(), PageType::AllocationPageMap);
    assert_eq!(p.trailer().block_id().value(), PMAP_DATA_SIZE + PMAP_FIRST_OFFSET);
    let f = unicode_free_page_map_page(0);
    assert_eq!(f.trailer().page_type(), PageType::FreePageMap);
    assert_eq!(f.trailer().block_id().value(), FPMAP_FIRST_OFFSET);

    assert!(ansi_allocation_page_map_page(1).is_ok());
    assert!(matches!(
        ansi_allocation_page_map_page(3000),
        Err(PstError::IntegerConversion)
    ));
    assert!(ansi_free_page_map_page(0).is_ok());
    assert!(matches!(ansi_free_page_map_page(1), Err(PstError::IntegerConversion)));
}
