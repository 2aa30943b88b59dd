use outlook_pst::crc::compute_crc;
use outlook_pst::ndb::block::{
    block_size, AnsiBlockTrailer, AnsiDataBlock, BlockTrailer, DataBlock, UnicodeBlockTrailer,
    UnicodeDataBlock,
};
use outlook_pst::ndb::block_id::{AnsiBlockId, BlockId, UnicodeBlockId};
use outlook_pst::ndb::header::NdbCryptMethod;
use outlook_pst::ndb::page::{
    AnsiAllocationMapPage, AnsiDensityListPage, AnsiPageTrailer, DensityListPage,
    DensityListPageEntry, MapPage, PageTrailer, PageType, UnicodeAllocationMapPage,
    UnicodeDensityListPage, UnicodeFreePageMapPage, UnicodePageTrailer,
};
use outlook_pst::ndb::NdbError;

#[test]
fn page_type_codes() {
    assert_eq!(PageType::try_from_u8(0x80), Ok(PageType::BlockBTree));
    assert_eq!(PageType::try_from_u8(0x86), Ok(PageType::DensityList));
    assert_eq!(PageType::try_from_u8(0x87), Err(NdbError::InvalidPageType(0x87)));
    assert_eq!(PageType::AllocationMap.code(), 0x84);
    assert_eq!(PageType::NodeBTree.signature(0x4400, 0x20), 0x4420);
    assert_eq!(PageType::AllocationMap.signature(0x4400, 0x20), 0);
}

#[test]
fn unicode_page_trailer_roundtrip() {
    let bid = UnicodeBlockId::new(true, 3).unwrap();
    let t = UnicodePageTrailer::new(PageType::NodeBTree, 0x1234, bid, 0xAABB_CCDD);
    let mut out = Vec::new();
    t.write(&mut out);
    assert_eq!(out.len(), 16);
    assert_eq!(&out[0..4], &[0x81, 0x81, 0x34, 0x12]);
    assert_eq!(UnicodePageTrailer::read(&out), Ok(t));
    assert_eq!(t.page_type(), PageType::NodeBTree);
    assert_eq!(t.signature(), 0x1234);
    assert_eq!(t.crc(), 0xAABB_CCDD);
    assert_eq!(t.block_id(), bid);

    let mut bad = out.clone();
    bad[1] = 0x80;
    assert_eq!(
        UnicodePageTrailer::read(&bad),
        Err(NdbError::MismatchPageTypeRepeat(0x81, 0x80))
    );
    let mut bad = out.clone();
    bad[0] = 0x10;
    bad[1] = 0x10;
    assert_eq!(UnicodePageTrailer::read(&bad), Err(NdbError::InvalidPageType(0x10)));
}

#[test]
fn ansi_page_trailer_roundtrip() {
    let bid = AnsiBlockId::new(false, 9).unwrap();
    let t = AnsiPageTrailer::new(PageType::DensityList, 7, bid, 0x0102_0304);
    let mut out = Vec::new();
    t.write(&mut out);
    assert_eq!(out.len(), 12);
    assert_eq!(AnsiPageTrailer::read(&out), Ok(t));
    assert_eq!(t.with_crc(5).crc(), 5);
}

#[test]
fn unicode_map_page_roundtrip() {
    let mut bits = vec![0u8; 496];
    bits[0] = 0xFF;
    bits[495] = 0x01;
    let trailer = UnicodePageTrailer::new(
        PageType::AllocationMap,
        0,
        UnicodeBlockId::from_raw(0x4400),
        0,
    );
    let page = UnicodeAllocationMapPage::new(bits.clone(), trailer).unwrap();
    let mut out = Vec::new();
    page.write(&mut out);
    assert_eq!(out.len(), 512);
    assert_eq!(&out[0..496], bits.as_slice());
    let crc = compute_crc(0, &bits);
    assert_eq!(u32::from_le_bytes([out[500], out[501], out[502], out[503]]), crc);
    let back = UnicodeAllocationMapPage::read(&out).unwrap();
    assert_eq!(back.map_bits(), bits.as_slice());
    assert_eq!(back.trailer().crc(), crc);
    assert_eq!(back.trailer().page_type(), PageType::AllocationMap);

    let mut bad = out.clone();
    bad[7] ^= 0x40;
    let bad_crc = compute_crc(0, &bad[0..496]);
    assert!(matches!(
        UnicodeAllocationMapPage::read(&bad),
        Err(NdbError::InvalidPageCrc(c)) if c == bad_crc
    ));
    assert!(matches!(
        UnicodeFreePageMapPage::read(&out),
        Err(NdbError::UnexpectedPageType(PageType::AllocationMap))
    ));
    assert!(matches!(
        UnicodeFreePageMapPage::new(bits, trailer),
        Err(NdbError::UnexpectedPageType(PageType::AllocationMap))
    ));
}

#[test]
fn ansi_map_page_roundtrip() {
    let mut bits = vec![0u8; 496];
    bits[10] = 0x3C;
    let trailer =
        AnsiPageTrailer::new(PageType::AllocationMap, 0, AnsiBlockId::from_raw(0x4400), 0);
    let page = AnsiAllocationMapPage::new(bits.clone(), trailer).unwrap();
    let mut out = Vec::new();
    page.write(&mut out);
    assert_eq!(out.len(), 512);
    assert_eq!(&out[0..4], &[0, 0, 0, 0]);
    let back = AnsiAllocationMapPage::read(&out).unwrap();
    assert_eq!(back.map_bits(), bits.as_slice());

    let mut bad = out.clone();
    bad[0] = 1;
    assert!(matches!(
        AnsiAllocationMapPage::read(&bad),
        Err(NdbError::InvalidAnsiMapPagePadding(1))
    ));
}

#[test]
fn density_list_entry_fields() {
    let e = DensityListPageEntry::new(0x12345, 0x123).unwrap();
    assert_eq!(e.page(), 0x12345);
    assert_eq!(e.free_slots(), 0x123);
    let mut out = Vec::new();
    e.write(&mut out);
    assert_eq!(DensityListPageEntry::read(&out), e);
    assert_eq!(
        DensityListPageEntry::new(0x10_0000, 0),
        Err(NdbError::InvalidDensityListEntryPageNumber(0x10_0000))
    );
    assert_eq!(
        DensityListPageEntry::new(0, 0x1000),
        Err(NdbError::InvalidDensityListEntryFreeSlots(0x1000))
    );
}

#[test]
fn unicode_density_list_roundtrip() {
    let entries = vec![
        DensityListPageEntry::new(1, 10).unwrap(),
        DensityListPageEntry::new(2, 20).unwrap(),
    ];
    let trailer =
        UnicodePageTrailer::new(PageType::DensityList, 0, UnicodeBlockId::from_raw(0x4200), 0);
    let page = UnicodeDensityListPage::new(true, 3, &entries, trailer).unwrap();
    let mut out = Vec::new();
    page.write(&mut out);
    assert_eq!(out.len(), 512);
    let back = UnicodeDensityListPage::read(&out).unwrap();
    assert!(back.backfill_complete());
    assert_eq!(back.current_page(), 3);
    assert_eq!(back.entries(), entries.as_slice());
    assert_eq!(back.trailer().page_type(), PageType::DensityList);

    let too_many = vec![DensityListPageEntry::new(0, 0).unwrap(); 120];
    assert!(matches!(
        UnicodeDensityListPage::new(false, 0, &too_many, trailer),
        Err(NdbError::InvalidDensityListEntryCount(120))
    ));
    let wrong =
        UnicodePageTrailer::new(PageType::FreeMap, 0, UnicodeBlockId::from_raw(0x4200), 0);
    assert!(matches!(
        UnicodeDensityListPage::new(false, 0, &entries, wrong),
        Err(NdbError::UnexpectedPageType(PageType::FreeMap))
    ));

    let mut bad = out.clone();
    bad[2] = 1;
    assert!(matches!(
        UnicodeDensityListPage::read(&bad),
        Err(NdbError::InvalidDensityListPadding)
    ));
}

#[test]
fn ansi_density_list_roundtrip() {
    let entries = vec![DensityListPageEntry::new(5, 1).unwrap(); 120];
    let trailer =
        AnsiPageTrailer::new(PageType::DensityList, 0, AnsiBlockId::from_raw(0x4200), 0);
    let page = AnsiDensityListPage::new(false, 9, &entries, trailer).unwrap();
    let mut out = Vec::new();
    page.write(&mut out);
    assert_eq!(out.len(), 512);
    let back = AnsiDensityListPage::read(&out).unwrap();
    assert!(!back.backfill_complete());
    assert_eq!(back.current_page(), 9);
    assert_eq!(back.entries().len(), 120);
}

#[test]
fn block_size_rounds_up() {
    assert_eq!(block_size(0), 64);
    assert_eq!(block_size(1), 64);
    assert_eq!(block_size(64), 64);
    assert_eq!(block_size(65), 128);
    assert_eq!(block_size(8000), 8000);
    assert_eq!(block_size(8001), 8064);
    assert_eq!(block_size(9000), 8192);
}

#[test]
fn block_trailers() {
    let bid = UnicodeBlockId::new(false, 4).unwrap();
    let t = UnicodeBlockTrailer::new(100, 0x55, 0x66, bid).unwrap();
    assert_eq!(t.size(), 100);
    assert_eq!(t.signature(), 0x55);
    assert_eq!(t.crc(), 0x66);
    assert_eq!(t.block_id(), bid);
    assert_eq!(t.cyclic_key(), 16);
    let mut out = Vec::new();
    t.write(&mut out);
    assert_eq!(out.len(), 16);
    assert_eq!(UnicodeBlockTrailer::read(&out), Ok(t));
    assert_eq!(
        UnicodeBlockTrailer::new(0, 0, 0, bid),
        Err(NdbError::InvalidBlockSize(0))
    );
    assert_eq!(
        UnicodeBlockTrailer::new(8177, 0, 0, bid),
        Err(NdbError::InvalidBlockSize(8177))
    );

    let bid = AnsiBlockId::new(false, 4).unwrap();
    let t = AnsiBlockTrailer::new(8180, 1, 2, bid).unwrap();
    let mut out = Vec::new();
    t.write(&mut out);
    assert_eq!(out.len(), 12);
    assert_eq!(AnsiBlockTrailer::read(&out), Ok(t));
    assert_eq!(
        AnsiBlockTrailer::new(8181, 0, 0, bid),
        Err(NdbError::InvalidBlockSize(8181))
    );
}

#[test]
fn unicode_data_block_roundtrip() {
    let data: Vec<u8> = (0..100u8).collect();
    let bid = UnicodeBlockId::new(false, 4).unwrap();
    let trailer = UnicodeBlockTrailer::new(1, 0x77, 0, bid).unwrap();
    let block = UnicodeDataBlock::new(NdbCryptMethod::NoEncoding, data.clone(), trailer).unwrap();
    let mut out = Vec::new();
    block.write(&mut out).unwrap();
    assert_eq!(out.len(), 128);
    let back = UnicodeDataBlock::read(&out, 100, NdbCryptMethod::NoEncoding).unwrap();
    assert_eq!(back.data(), data.as_slice());
    assert_eq!(back.encoding(), NdbCryptMethod::NoEncoding);
    assert_eq!(back.trailer().size(), 100);
    assert_eq!(back.trailer().crc(), compute_crc(0, &data));
    assert_eq!(back.trailer().signature(), 0x77);

    let mut bad = out.clone();
    bad[0] ^= 1;
    assert!(matches!(
        UnicodeDataBlock::read(&bad, 100, NdbCryptMethod::NoEncoding),
        Err(NdbError::InvalidBlockCrc(_))
    ));

    let internal = UnicodeBlockTrailer::new(1, 0, 0, UnicodeBlockId::new(true, 4).unwrap()).unwrap();
    assert!(matches!(
        UnicodeDataBlock::new(NdbCryptMethod::NoEncoding, data, internal),
        Err(NdbError::InvalidUnicodeBlockTrailerId(18))
    ));
}

#[test]
fn empty_data_block_is_not_written() {
    let bid = UnicodeBlockId::new(false, 4).unwrap();
    let trailer = UnicodeBlockTrailer::new(1, 0, 0, bid).unwrap();
    let block = UnicodeDataBlock::new(NdbCryptMethod::NoEncoding, Vec::new(), trailer).unwrap();
    let mut out = vec![9u8];
    assert_eq!(block.write(&mut out), Err(NdbError::InvalidBlockSize(0)));
    assert_eq!(out, vec![9u8]);
}

#[test]
fn ansi_data_block_roundtrip() {
    let data = vec![0xABu8; 10];
    let bid = AnsiBlockId::new(false, 2).unwrap();
    let trailer = AnsiBlockTrailer::new(1, 3, 0, bid).unwrap();
    let block = AnsiDataBlock::new(NdbCryptMethod::NoEncoding, data.clone(), trailer).unwrap();
    let mut out = Vec::new();
    block.write(&mut out).unwrap();
    // The 12-byte trailer ends the 64 bytes that `block_size(10 + 12)` gives the block.
    assert_eq!(out.len(), 64);
    assert_eq!(&out[0..10], data.as_slice());
    assert!(out[10..52].iter().all(|&b| b == 0));
    let written = AnsiBlockTrailer::read(&out[52..64]).unwrap();
    assert_eq!(written.size(), 10);
    assert_eq!(written.crc(), compute_crc(0, &data));
    let back = AnsiDataBlock::read(&out, 10, NdbCryptMethod::NoEncoding).unwrap();
    assert_eq!(back.data(), data.as_slice());
    assert_eq!(back.trailer().block_id(), bid);
    assert!(matches!(
        AnsiDataBlock::read(&out[..63], 10, NdbCryptMethod::NoEncoding),
        Err(NdbError::UnexpectedEndOfData)
    ));

    let data = vec![7u8; 40];
    let block = AnsiDataBlock::new(NdbCryptMethod::NoEncoding, data.clone(), trailer).unwrap();
    let mut out = Vec::new();
    block.write(&mut out).unwrap();
    assert_eq!(out.len(), 64);
    assert_eq!(AnsiDataBlock::read(&out, 40, NdbCryptMethod::NoEncoding).unwrap().data(), data.as_slice());
}

#[test]
fn unicode_data_block_of_whole_granule() {
    let data = vec![5u8; 64];
    let bid = UnicodeBlockId::new(false, 4).unwrap();
    let trailer = UnicodeBlockTrailer::new(1, 0, 0, bid).unwrap();
    let block = UnicodeDataBlock::new(NdbCryptMethod::NoEncoding, data.clone(), trailer).unwrap();
    let mut out = Vec::new();
    block.write(&mut out).unwrap();
    // 64 bytes of data and a 16-byte trailer take `block_size(80)` = 128 bytes.
    assert_eq!(out.len(), 128);
    assert!(out[64..112].iter().all(|&b| b == 0));
    let back = UnicodeDataBlock::read(&out, 64, NdbCryptMethod::NoEncoding).unwrap();
    assert_eq!(back.data(), data.as_slice());
    assert_eq!(back.trailer().size(), 64);
    assert!(matches!(
        UnicodeDataBlock::read(&out[..100], 64, NdbCryptMethod::NoEncoding),
        Err(NdbError::UnexpectedEndOfData)
    ));
}
