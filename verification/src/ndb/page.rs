//! Pages

use vstd::prelude::*;
use crate::codec::{
    all_zero, copy_range, le16, le32, le64, lemma_le_roundtrip, lemma_u32s_at, lemma_u32s_bytes, push_bytes, push_u16, push_u32, push_u8, push_zeros,
    read_u16_at, read_u32_at, u16_at, u32_at, u32s_at, u32s_bytes, u64_at, view_result, zeros,
};
use crate::crc::{compute_crc, compute_sig, spec_crc, spec_sig};
use super::NdbError;
use super::block_id::{AnsiBlockId, BlockId, UnicodeBlockId};

verus! {

/// `ptype`: the kind of a page.
#[derive(Debug, Clone, Copy, PartialEq, Eq, Structural)]
pub enum PageType {
    /// `ptypeBBT`: Block BTree page
    BlockBTree,
    /// `ptypeNBT`: Node BTree page
    NodeBTree,
    /// `ptypeFMap`: Free Map page
    FreeMap,
    /// `ptypePMap`: Allocation Page Map page
    AllocationPageMap,
    /// `ptypeAMap`: Allocation Map page
    AllocationMap,
    /// `ptypeFPMap`: Free Page Map page
    FreePageMap,
    /// `ptypeDL`: Density List page
    DensityList,
}

impl PageType {
    /// The byte code of each page type.
    pub open spec fn spec_code(self) -> u8 {
        match self {
            PageType::BlockBTree => 0x80,
            PageType::NodeBTree => 0x81,
            PageType::FreeMap => 0x82,
            PageType::AllocationPageMap => 0x83,
            PageType::AllocationMap => 0x84,
            PageType::FreePageMap => 0x85,
            PageType::DensityList => 0x86,
        }
    }

    /// The page type whose code is `value`, if any.
    pub open spec fn spec_from_code(value: u8) -> Option<PageType> {
        if value == 0x80 { Some(PageType::BlockBTree) }
        else if value == 0x81 { Some(PageType::NodeBTree) }
        else if value == 0x82 { Some(PageType::FreeMap) }
        else if value == 0x83 { Some(PageType::AllocationPageMap) }
        else if value == 0x84 { Some(PageType::AllocationMap) }
        else if value == 0x85 { Some(PageType::FreePageMap) }
        else if value == 0x86 { Some(PageType::DensityList) }
        else { None }
    }

    /// The byte code of this page type.
    pub fn code(self) -> (r: u8)
        ensures
            r == self.spec_code(),
    {
        match self {
            PageType::BlockBTree => 0x80,
            PageType::NodeBTree => 0x81,
            PageType::FreeMap => 0x82,
            PageType::AllocationPageMap => 0x83,
            PageType::AllocationMap => 0x84,
            PageType::FreePageMap => 0x85,
            PageType::DensityList => 0x86,
        }
    }

    /// The page type with code `value`, or `InvalidPageType(value)`.
    pub fn try_from_u8(value: u8) -> (r: Result<PageType, NdbError>)
        ensures
            r == (match Self::spec_from_code(value) {
                Some(t) => Ok(t),
                None => Err(NdbError::InvalidPageType(value)),
            }),
    {
        match value {
            0x80 => Ok(PageType::BlockBTree),
            0x81 => Ok(PageType::NodeBTree),
            0x82 => Ok(PageType::FreeMap),
            0x83 => Ok(PageType::AllocationPageMap),
            0x84 => Ok(PageType::AllocationMap),
            0x85 => Ok(PageType::FreePageMap),
            0x86 => Ok(PageType::DensityList),
            _ => Err(NdbError::InvalidPageType(value)),
        }
    }

    /// The signature a page of this type carries: BTree and density list pages are
    /// signed with their byte index and block id, the map pages carry zero.
    pub open spec fn spec_signature(self, index: u32, block_id: u32) -> u16 {
        match self {
            PageType::BlockBTree | PageType::NodeBTree | PageType::DensityList => spec_sig(index, block_id),
            _ => 0,
        }
    }

    /// Computes the signature a page of this type carries.
    pub fn signature(&self, index: u32, block_id: u32) -> (r: u16)
        ensures
            r == self.spec_signature(index, block_id),
    {
        match self {
            PageType::BlockBTree | PageType::NodeBTree | PageType::DensityList => compute_sig(index, block_id),
            _ => 0,
        }
    }
}

/// Every page type has a code, and the code converts back to the same type.
pub proof fn lemma_page_type_code_roundtrip(t: PageType)
    ensures
        PageType::spec_from_code(t.spec_code()) == Some(t),
{
}

/// The fields of a page trailer; the block id is widened to 64 bits.
pub struct PageTrailerModel {
    pub page_type: PageType,
    pub signature: u16,
    pub crc: u32,
    pub block_id: u64,
}

/// The same trailer fields with another CRC.
pub open spec fn trailer_with_crc(t: PageTrailerModel, crc: u32) -> PageTrailerModel {
    PageTrailerModel { page_type: t.page_type, signature: t.signature, crc, block_id: t.block_id }
}

/// The trailer at the end of every page.
pub trait PageTrailer: Sized {
    /// The block id type.
    type BlockId: BlockId;

    /// The trailer with the given fields.
    fn new(page_type: PageType, signature: u16, block_id: Self::BlockId, crc: u32) -> Self;

    /// The page type.
    fn page_type(&self) -> PageType;

    /// The page signature.
    fn signature(&self) -> u16;

    /// The CRC of the page's data.
    fn crc(&self) -> u32;

    /// The block id of the page.
    fn block_id(&self) -> Self::BlockId;
}

/// PAGETRAILER: the last 16 bytes of every Unicode page.
#[derive(Debug, Clone, Copy, PartialEq, Eq, Structural)]
pub struct UnicodePageTrailer {
    page_type: PageType,
    signature: u16,
    crc: u32,
    block_id: UnicodeBlockId,
}

impl View for UnicodePageTrailer {
    type V = PageTrailerModel;

    closed spec fn view(&self) -> PageTrailerModel {
        PageTrailerModel {
            page_type: self.page_type,
            signature: self.signature,
            crc: self.crc,
            block_id: self.block_id@,
        }
    }
}

/// The bytes of a Unicode page trailer.
pub open spec fn unicode_trailer_bytes(m: PageTrailerModel) -> Seq<u8> {
    seq![m.page_type.spec_code(), m.page_type.spec_code()] + le16(m.signature) + le32(m.crc) + le64(m.block_id)
}

/// The Unicode page trailer held in `s`: the page type twice, then the other fields.
pub open spec fn parse_unicode_trailer(s: Seq<u8>) -> Result<PageTrailerModel, NdbError> {
    if s[0] != s[1] {
        Err(NdbError::MismatchPageTypeRepeat(s[0], s[1]))
    } else {
        match PageType::spec_from_code(s[0]) {
            None => Err(NdbError::InvalidPageType(s[0])),
            Some(t) => Ok(PageTrailerModel { page_type: t, signature: u16_at(s, 2), crc: u32_at(s, 4), block_id: u64_at(s, 8) }),
        }
    }
}

impl UnicodePageTrailer {
    /// The same trailer with another CRC.
    pub fn with_crc(&self, crc: u32) -> (r: UnicodePageTrailer)
        ensures
            r@ == trailer_with_crc(self@, crc),
    {
        UnicodePageTrailer { crc, ..*self }
    }

    /// Reads a trailer from the first 16 bytes of `b`; the page type byte must be repeated and known.
    pub fn read(b: &[u8]) -> (r: Result<UnicodePageTrailer, NdbError>)
        requires
            b@.len() >= 16,
        ensures
            view_result(r) == parse_unicode_trailer(b@),
    {
        if b[0] != b[1] {
            return Err(NdbError::MismatchPageTypeRepeat(b[0], b[1]));
        }
        let page_type = match PageType::try_from_u8(b[0]) {
            Ok(t) => t,
            Err(e) => return Err(e),
        };
        let signature = read_u16_at(b, 2);
        let crc = read_u32_at(b, 4);
        let block_id = UnicodeBlockId::read(&b[8..16]);
        assert(b@.subrange(8, 16).subrange(0, 8) =~= b@.subrange(8, 16));
        Ok(UnicodePageTrailer { page_type, signature, crc, block_id })
    }

    /// Appends the 16 bytes of the trailer.
    pub fn write(&self, out: &mut Vec<u8>)
        ensures
            final(out)@ == old(out)@ + unicode_trailer_bytes(self@),
    {
        let code = self.page_type.code();
        push_u8(out, code);
        push_u8(out, code);
        push_u16(out, self.signature);
        push_u32(out, self.crc);
        self.block_id.write(out);
        assert(out@ =~= old(out)@ + unicode_trailer_bytes(self@));
    }
}

impl PageTrailer for UnicodePageTrailer {
    type BlockId = UnicodeBlockId;

    /// The trailer with the given fields.
    fn new(page_type: PageType, signature: u16, block_id: UnicodeBlockId, crc: u32) -> (r: UnicodePageTrailer)
        ensures
            r@ == (PageTrailerModel { page_type, signature, crc, block_id: block_id@ as u64 }),
    {
        UnicodePageTrailer { page_type, signature, crc, block_id }
    }

    /// The page type.
    fn page_type(&self) -> (r: PageType)
        ensures
            r == self@.page_type,
    {
        self.page_type
    }

    /// The signature.
    fn signature(&self) -> (r: u16)
        ensures
            r == self@.signature,
    {
        self.signature
    }

    /// The CRC of the page's data.
    fn crc(&self) -> (r: u32)
        ensures
            r == self@.crc,
    {
        self.crc
    }

    /// The block id of the page.
    fn block_id(&self) -> (r: UnicodeBlockId)
        ensures
            r@ as u64 == self@.block_id,
    {
        self.block_id
    }
}

/// Reading the bytes of a Unicode page trailer gives the same trailer.
pub proof fn lemma_unicode_trailer_roundtrip(m: PageTrailerModel)
    ensures
        unicode_trailer_bytes(m).len() == 16,
        parse_unicode_trailer(unicode_trailer_bytes(m)) == Ok::<PageTrailerModel, NdbError>(m),
{
    lemma_le_roundtrip();
    let s = unicode_trailer_bytes(m);
    assert(s.subrange(2, 4) =~= le16(m.signature));
    assert(s.subrange(4, 8) =~= le32(m.crc));
    assert(s.subrange(8, 16) =~= le64(m.block_id));
}

/// PAGETRAILER: the last 12 bytes of every ANSI page.
#[derive(Debug, Clone, Copy, PartialEq, Eq, Structural)]
pub struct AnsiPageTrailer {
    page_type: PageType,
    signature: u16,
    crc: u32,
    block_id: AnsiBlockId,
}

impl View for AnsiPageTrailer {
    type V = PageTrailerModel;

    closed spec fn view(&self) -> PageTrailerModel {
        PageTrailerModel {
            page_type: self.page_type,
            signature: self.signature,
            crc: self.crc,
            block_id: self.block_id@ as u64,
        }
    }
}

/// The bytes of an ANSI page trailer.
pub open spec fn ansi_trailer_bytes(m: PageTrailerModel) -> Seq<u8> {
    seq![m.page_type.spec_code(), m.page_type.spec_code()] + le16(m.signature) + le32(m.block_id as u32) + le32(m.crc)
}

/// The ANSI page trailer held in `s`: the page type twice, then the other fields.
pub open spec fn parse_ansi_trailer(s: Seq<u8>) -> Result<PageTrailerModel, NdbError> {
    if s[0] != s[1] {
        Err(NdbError::MismatchPageTypeRepeat(s[0], s[1]))
    } else {
        match PageType::spec_from_code(s[0]) {
            None => Err(NdbError::InvalidPageType(s[0])),
            Some(t) => Ok(PageTrailerModel { page_type: t, signature: u16_at(s, 2), crc: u32_at(s, 8), block_id: u32_at(s, 4) as u64 }),
        }
    }
}

impl AnsiPageTrailer {
    /// The same trailer with another CRC.
    pub fn with_crc(&self, crc: u32) -> (r: AnsiPageTrailer)
        ensures
            r@ == trailer_with_crc(self@, crc),
    {
        AnsiPageTrailer { crc, ..*self }
    }

    /// Reads a trailer from the first 12 bytes of `b`; the page type byte must be repeated and known.
    pub fn read(b: &[u8]) -> (r: Result<AnsiPageTrailer, NdbError>)
        requires
            b@.len() >= 12,
        ensures
            view_result(r) == parse_ansi_trailer(b@),
    {
        if b[0] != b[1] {
            return Err(NdbError::MismatchPageTypeRepeat(b[0], b[1]));
        }
        let page_type = match PageType::try_from_u8(b[0]) {
            Ok(t) => t,
            Err(e) => return Err(e),
        };
        let signature = read_u16_at(b, 2);
        let block_id = AnsiBlockId::read(&b[4..8]);
        assert(b@.subrange(4, 8).subrange(0, 4) =~= b@.subrange(4, 8));
        let crc = read_u32_at(b, 8);
        Ok(AnsiPageTrailer { page_type, signature, crc, block_id })
    }

    /// Appends the 12 bytes of the trailer.
    pub fn write(&self, out: &mut Vec<u8>)
        ensures
            final(out)@ == old(out)@ + ansi_trailer_bytes(self@),
    {
        let code = self.page_type.code();
        push_u8(out, code);
        push_u8(out, code);
        push_u16(out, self.signature);
        self.block_id.write(out);
        push_u32(out, self.crc);
        assert(out@ =~= old(out)@ + ansi_trailer_bytes(self@));
    }
}

impl PageTrailer for AnsiPageTrailer {
    type BlockId = AnsiBlockId;

    /// The trailer with the given fields.
    fn new(page_type: PageType, signature: u16, block_id: AnsiBlockId, crc: u32) -> (r: AnsiPageTrailer)
        ensures
            r@ == (PageTrailerModel { page_type, signature, crc, block_id: block_id@ as u64 }),
    {
        AnsiPageTrailer { page_type, signature, crc, block_id }
    }

    /// The page type.
    fn page_type(&self) -> (r: PageType)
        ensures
            r == self@.page_type,
    {
        self.page_type
    }

    /// The signature.
    fn signature(&self) -> (r: u16)
        ensures
            r == self@.signature,
    {
        self.signature
    }

    /// The CRC of the page's data.
    fn crc(&self) -> (r: u32)
        ensures
            r == self@.crc,
    {
        self.crc
    }

    /// The block id of the page.
    fn block_id(&self) -> (r: AnsiBlockId)
        ensures
            r@ as u64 == self@.block_id,
    {
        self.block_id
    }
}

/// Reading the bytes of an ANSI page trailer gives the same trailer.
pub proof fn lemma_ansi_trailer_roundtrip(m: PageTrailerModel)
    requires
        m.block_id <= u32::MAX,
    ensures
        ansi_trailer_bytes(m).len() == 12,
        parse_ansi_trailer(ansi_trailer_bytes(m)) == Ok::<PageTrailerModel, NdbError>(m),
{
    lemma_le_roundtrip();
    let s = ansi_trailer_bytes(m);
    assert(s.subrange(2, 4) =~= le16(m.signature));
    assert(s.subrange(4, 8) =~= le32(m.block_id as u32));
    assert(s.subrange(8, 12) =~= le32(m.crc));
}

} // verus!

verus! {

/// The size of the bitmap of a map page.
pub const MAP_BITS_SIZE: usize = 496;

/// The fields of a map page.
pub struct MapPageModel {
    pub map_bits: Seq<u8>,
    pub trailer: PageTrailerModel,
}

/// A page of allocation bits: 496 bytes of map followed by the page trailer.
pub trait MapPage: Sized {
    /// The page trailer type.
    type Trailer: PageTrailer;

    /// The page with the given bits and trailer; the trailer must carry this map's page type.
    fn new(map_bits: Vec<u8>, trailer: Self::Trailer) -> Result<Self, NdbError>
        requires
            map_bits@.len() == MAP_BITS_SIZE,
    ;

    /// The map bits.
    fn map_bits(&self) -> &[u8];

    /// The page trailer.
    fn trailer(&self) -> &Self::Trailer;
}

/// A Unicode allocation, page, free or free page map page: a bitmap and a trailer whose
/// page type is the code `P`.
pub struct UnicodeMapPage<const P: u8> {
    map_bits: Vec<u8>,
    trailer: UnicodePageTrailer,
}

impl<const P: u8> View for UnicodeMapPage<P> {
    type V = MapPageModel;

    closed spec fn view(&self) -> MapPageModel {
        MapPageModel { map_bits: self.map_bits@, trailer: self.trailer@ }
    }
}

/// The Unicode map page held in `s`, whose page type must have the code `p`.
pub open spec fn parse_unicode_map_page(s: Seq<u8>, p: u8) -> Result<MapPageModel, NdbError> {
    match parse_unicode_trailer(s.subrange(496, 512)) {
        Err(e) => Err(e),
        Ok(t) => if t.page_type.spec_code() != p {
            Err(NdbError::UnexpectedPageType(t.page_type))
        } else if spec_crc(0, s.subrange(0, 496)) != t.crc {
            Err(NdbError::InvalidPageCrc(spec_crc(0, s.subrange(0, 496))))
        } else {
            Ok(MapPageModel { map_bits: s.subrange(0, 496), trailer: t })
        },
    }
}

/// The 512 bytes of a Unicode map page, whose trailer carries the CRC of the data before it.
pub open spec fn unicode_map_page_bytes(m: MapPageModel) -> Seq<u8> {
    m.map_bits + unicode_trailer_bytes(trailer_with_crc(m.trailer, spec_crc(0, m.map_bits)))
}

impl<const P: u8> UnicodeMapPage<P> {
    #[verifier::type_invariant]
    spec fn wf(&self) -> bool {
        self.map_bits@.len() == 496
    }

    /// Reads a map page from the first 512 bytes of `b`, checking the page type and the CRC.
    pub fn read(b: &[u8]) -> (r: Result<Self, NdbError>)
        requires
            b@.len() >= 512,
        ensures
            view_result(r) == parse_unicode_map_page(b@, P),
    {
        let map_bits = copy_range(b, 0, 496);
        let trailer = match UnicodePageTrailer::read(&b[496..512]) {
            Ok(t) => t,
            Err(e) => return Err(e),
        };
        if trailer.page_type().code() != P {
            return Err(NdbError::UnexpectedPageType(trailer.page_type()));
        }
        let crc = compute_crc(0, &b[0..496]);
        if crc != trailer.crc() {
            return Err(NdbError::InvalidPageCrc(crc));
        }
        Ok(UnicodeMapPage { map_bits, trailer })
    }

    /// Appends the 512 bytes of the map page, with the CRC of its data in the trailer.
    pub fn write(&self, out: &mut Vec<u8>)
        ensures
            final(out)@ == old(out)@ + unicode_map_page_bytes(self@),
    {
        proof {
            use_type_invariant(self);
        }
        push_bytes(out, self.map_bits.as_slice());
        let crc = compute_crc(0, self.map_bits.as_slice());
        self.trailer.with_crc(crc).write(out);
        assert(out@ =~= old(out)@ + unicode_map_page_bytes(self@));
    }
}

impl<const P: u8> MapPage for UnicodeMapPage<P> {
    type Trailer = UnicodePageTrailer;

    /// The map page with the given bitmap and trailer; the trailer's page type must be `P`.
    fn new(map_bits: Vec<u8>, trailer: UnicodePageTrailer) -> (r: Result<Self, NdbError>)
        ensures
            r is Ok <==> trailer@.page_type.spec_code() == P,
            r matches Ok(p) ==> p@ == (MapPageModel { map_bits: map_bits@, trailer: trailer@ }),
            r is Err ==> r == Err::<Self, NdbError>(NdbError::UnexpectedPageType(trailer@.page_type)),
    {
        if trailer.page_type().code() != P {
            return Err(NdbError::UnexpectedPageType(trailer.page_type()));
        }
        Ok(UnicodeMapPage { map_bits, trailer })
    }

    /// The bitmap.
    fn map_bits(&self) -> (r: &[u8])
        ensures
            r@ == self@.map_bits,
            r@.len() == 496,
    {
        proof {
            use_type_invariant(self);
        }
        self.map_bits.as_slice()
    }

    /// The trailer.
    fn trailer(&self) -> (r: &UnicodePageTrailer)
        ensures
            r@ == self@.trailer,
    {
        &self.trailer
    }
}

/// Reading the bytes of a Unicode map page gives the page back, its trailer carrying the CRC of the data.
pub proof fn lemma_unicode_map_page_roundtrip(m: MapPageModel)
    requires
        m.map_bits.len() == 496,
    ensures
        unicode_map_page_bytes(m).len() == 512,
        parse_unicode_map_page(unicode_map_page_bytes(m), m.trailer.page_type.spec_code()) == Ok::<MapPageModel, NdbError>(
            MapPageModel { map_bits: m.map_bits, trailer: trailer_with_crc(m.trailer, spec_crc(0, m.map_bits)) }),
{
    lemma_le_roundtrip();
    let s = unicode_map_page_bytes(m);
    let crc = spec_crc(0, m.map_bits);
    lemma_unicode_trailer_roundtrip(trailer_with_crc(m.trailer, crc));
    assert(s.subrange(0, 496) =~= m.map_bits);
    assert(s.subrange(496, 512) =~= unicode_trailer_bytes(trailer_with_crc(m.trailer, crc)));
}

/// AMAPPAGE
pub type UnicodeAllocationMapPage = UnicodeMapPage<0x84>;
/// PMAPPAGE
pub type UnicodeAllocationPageMapPage = UnicodeMapPage<0x83>;
/// FMAPPAGE
pub type UnicodeFreeMapPage = UnicodeMapPage<0x82>;
/// FPMAPPAGE
pub type UnicodeFreePageMapPage = UnicodeMapPage<0x85>;

/// An ANSI allocation, page, free or free page map page: a bitmap and a trailer whose
/// page type is the code `P`.
pub struct AnsiMapPage<const P: u8> {
    map_bits: Vec<u8>,
    trailer: AnsiPageTrailer,
}

impl<const P: u8> View for AnsiMapPage<P> {
    type V = MapPageModel;

    closed spec fn view(&self) -> MapPageModel {
        MapPageModel { map_bits: self.map_bits@, trailer: self.trailer@ }
    }
}

/// The ANSI map page held in `s`, whose page type must have the code `p`.
pub open spec fn parse_ansi_map_page(s: Seq<u8>, p: u8) -> Result<MapPageModel, NdbError> {
    if u32_at(s, 0) != 0 {
        Err(NdbError::InvalidAnsiMapPagePadding(u32_at(s, 0)))
    } else {
        match parse_ansi_trailer(s.subrange(500, 512)) {
            Err(e) => Err(e),
            Ok(t) => if t.page_type.spec_code() != p {
                Err(NdbError::UnexpectedPageType(t.page_type))
            } else if spec_crc(0, s.subrange(0, 500)) != t.crc {
                Err(NdbError::InvalidPageCrc(spec_crc(0, s.subrange(0, 500))))
            } else {
                Ok(MapPageModel { map_bits: s.subrange(4, 500), trailer: t })
            },
        }
    }
}

/// The 512 bytes of an ANSI map page, whose trailer carries the CRC of the data before it.
pub open spec fn ansi_map_page_bytes(m: MapPageModel) -> Seq<u8> {
    le32(0) + m.map_bits + ansi_trailer_bytes(trailer_with_crc(m.trailer, spec_crc(0, le32(0) + m.map_bits)))
}

impl<const P: u8> AnsiMapPage<P> {
    #[verifier::type_invariant]
    spec fn wf(&self) -> bool {
        self.map_bits@.len() == 496
    }

    /// Reads a map page from the first 512 bytes of `b`, checking the page type and the CRC.
    pub fn read(b: &[u8]) -> (r: Result<Self, NdbError>)
        requires
            b@.len() >= 512,
        ensures
            view_result(r) == parse_ansi_map_page(b@, P),
    {
        let padding = read_u32_at(b, 0);
        if padding != 0 {
            return Err(NdbError::InvalidAnsiMapPagePadding(padding));
        }
        let map_bits = copy_range(b, 4, 500);
        let trailer = match AnsiPageTrailer::read(&b[500..512]) {
            Ok(t) => t,
            Err(e) => return Err(e),
        };
        if trailer.page_type().code() != P {
            return Err(NdbError::UnexpectedPageType(trailer.page_type()));
        }
        let crc = compute_crc(0, &b[0..500]);
        if crc != trailer.crc() {
            return Err(NdbError::InvalidPageCrc(crc));
        }
        Ok(AnsiMapPage { map_bits, trailer })
    }

    /// Appends the 512 bytes of the map page, with the CRC of its data in the trailer.
    pub fn write(&self, out: &mut Vec<u8>)
        ensures
            final(out)@ == old(out)@ + ansi_map_page_bytes(self@),
    {
        proof {
            use_type_invariant(self);
        }
        let mut buffer: Vec<u8> = Vec::new();
        push_u32(&mut buffer, 0);
        push_bytes(&mut buffer, self.map_bits.as_slice());
        let crc = compute_crc(0, buffer.as_slice());
        push_bytes(out, buffer.as_slice());
        self.trailer.with_crc(crc).write(out);
        assert(out@ =~= old(out)@ + ansi_map_page_bytes(self@));
    }
}

impl<const P: u8> MapPage for AnsiMapPage<P> {
    type Trailer = AnsiPageTrailer;

    /// The map page with the given bitmap and trailer; the trailer's page type must be `P`.
    fn new(map_bits: Vec<u8>, trailer: AnsiPageTrailer) -> (r: Result<Self, NdbError>)
        ensures
            r is Ok <==> trailer@.page_type.spec_code() == P,
            r matches Ok(p) ==> p@ == (MapPageModel { map_bits: map_bits@, trailer: trailer@ }),
            r is Err ==> r == Err::<Self, NdbError>(NdbError::UnexpectedPageType(trailer@.page_type)),
    {
        if trailer.page_type().code() != P {
            return Err(NdbError::UnexpectedPageType(trailer.page_type()));
        }
        Ok(AnsiMapPage { map_bits, trailer })
    }

    /// The bitmap.
    fn map_bits(&self) -> (r: &[u8])
        ensures
            r@ == self@.map_bits,
            r@.len() == 496,
    {
        proof {
            use_type_invariant(self);
        }
        self.map_bits.as_slice()
    }

    /// The trailer.
    fn trailer(&self) -> (r: &AnsiPageTrailer)
        ensures
            r@ == self@.trailer,
    {
        &self.trailer
    }
}

/// Reading the bytes of an ANSI map page gives the page back, its trailer carrying the CRC of the data.
pub proof fn lemma_ansi_map_page_roundtrip(m: MapPageModel)
    requires
        m.map_bits.len() == 496,
        m.trailer.block_id <= u32::MAX,
    ensures
        ansi_map_page_bytes(m).len() == 512,
        parse_ansi_map_page(ansi_map_page_bytes(m), m.trailer.page_type.spec_code()) == Ok::<MapPageModel, NdbError>(
            MapPageModel { map_bits: m.map_bits, trailer: trailer_with_crc(m.trailer, spec_crc(0, le32(0) + m.map_bits)) }),
{
    lemma_le_roundtrip();
    let s = ansi_map_page_bytes(m);
    let crc = spec_crc(0, le32(0) + m.map_bits);
    lemma_ansi_trailer_roundtrip(trailer_with_crc(m.trailer, crc));
    assert(s.subrange(0, 4) =~= le32(0));
    assert(s.subrange(4, 500) =~= m.map_bits);
    assert(s.subrange(0, 500) =~= le32(0) + m.map_bits);
    assert(s.subrange(500, 512) =~= ansi_trailer_bytes(trailer_with_crc(m.trailer, crc)));
}

/// AMAPPAGE
pub type AnsiAllocationMapPage = AnsiMapPage<0x84>;
/// PMAPPAGE
pub type AnsiAllocationPageMapPage = AnsiMapPage<0x83>;
/// FMAPPAGE
pub type AnsiFreeMapPage = AnsiMapPage<0x82>;
/// FPMAPPAGE
pub type AnsiFreePageMapPage = AnsiMapPage<0x85>;

} // verus!

verus! {

/// The byte offset of the density list page in the file.
pub const DENSITY_LIST_FILE_OFFSET: u32 = 0x4200;

/// DLISTPAGEENT:
/// a 20-bit page number below a 12-bit free slot count.
#[derive(Debug, Clone, Copy, PartialEq, Eq, Structural)]
pub struct DensityListPageEntry(u32);

impl View for DensityListPageEntry {
    type V = u32;

    closed spec fn view(&self) -> u32 {
        self.0
    }
}

impl DensityListPageEntry {
    /// The entry for page `page` with `free_slots` free slots; the page number must fit
    /// in 20 bits and the slot count in 12.
    pub fn new(page: u32, free_slots: u16) -> (r: Result<DensityListPageEntry, NdbError>)
        ensures
            r is Ok <==> page <= 0x000F_FFFF && free_slots <= 0x0FFF,
            page > 0x000F_FFFF ==> r == Err::<DensityListPageEntry, NdbError>(NdbError::InvalidDensityListEntryPageNumber(page)),
            page <= 0x000F_FFFF && free_slots > 0x0FFF ==> r == Err::<DensityListPageEntry, NdbError>(NdbError::InvalidDensityListEntryFreeSlots(free_slots)),
            r matches Ok(e) ==> e@ == page + free_slots * 0x10_0000,
            r matches Ok(e) ==> e@ & 0x000F_FFFF == page && (e@ >> 20) as u16 == free_slots,
    {
        if page > 0x000F_FFFF {
            return Err(NdbError::InvalidDensityListEntryPageNumber(page));
        }
        if free_slots > 0x0FFF {
            return Err(NdbError::InvalidDensityListEntryFreeSlots(free_slots));
        }
        let slots = free_slots as u32;
        proof {
            assert(page <= 0x000F_FFFF && slots <= 0x0FFF ==> {
                &&& page | (slots << 20) == page + slots * 0x10_0000
                &&& (page | (slots << 20)) & 0x000F_FFFF == page
                &&& (page | (slots << 20)) >> 20 == slots
            }) by (bit_vector);
        }
        Ok(DensityListPageEntry(page | (slots << 20)))
    }

    /// The entry with raw value `value`.
    pub fn from_raw(value: u32) -> (r: DensityListPageEntry)
        ensures
            r@ == value,
    {
        DensityListPageEntry(value)
    }

    /// The page number: the low 20 bits.
    pub fn page(&self) -> (r: u32)
        ensures
            r == self@ & 0x000F_FFFF,
    {
        self.0 & 0x000F_FFFF
    }

    /// The free slot count: the bits above the page number.
    pub fn free_slots(&self) -> (r: u16)
        ensures
            r == (self@ >> 20) as u16,
    {
        (self.0 >> 20) as u16
    }

    /// Reads an entry from the first four little-endian bytes of `b`.
    pub fn read(b: &[u8]) -> (r: DensityListPageEntry)
        requires
            b@.len() >= 4,
        ensures
            r@ == u32_at(b@, 0),
    {
        DensityListPageEntry(read_u32_at(b, 0))
    }

    /// Appends the four little-endian bytes of the entry.
    pub fn write(&self, out: &mut Vec<u8>)
        ensures
            final(out)@ == old(out)@ + le32(self@),
    {
        push_u32(out, self.0);
    }
}

/// The raw values of a sequence of density list entries.
pub open spec fn entry_values(s: Seq<DensityListPageEntry>) -> Seq<u32> {
    s.map_values(|e: DensityListPageEntry| e@)
}

/// The fields of a density list page.
pub struct DensityListModel {
    pub backfill_complete: bool,
    pub current_page: u32,
    pub entries: Seq<u32>,
    pub trailer: PageTrailerModel,
}

/// The density list entries stored from offset 8 of `s`.
pub open spec fn density_entries_at(s: Seq<u8>, count: nat) -> Seq<u32> {
    Seq::new(count, |i: int| u32_at(s, 8 + 4 * i))
}

/// The largest number of entries in a Unicode density list page.
pub const MAX_UNICODE_DENSITY_LIST_ENTRY_COUNT: usize = 119;

/// The density list page: the pages ordered by how much free space they hold.
pub trait DensityListPage: Sized {
    /// The page trailer type.
    type Trailer: PageTrailer;

    /// The density list with the given fields.
    fn new(
        backfill_complete: bool,
        current_page: u32,
        entries: &[DensityListPageEntry],
        trailer: Self::Trailer,
    ) -> Result<Self, NdbError>;

    /// Whether the backfill is complete.
    fn backfill_complete(&self) -> bool;

    /// The page currently being processed.
    fn current_page(&self) -> u32;

    /// The entries.
    fn entries(&self) -> &[DensityListPageEntry];

    /// The page trailer.
    fn trailer(&self) -> &Self::Trailer;
}

/// DLISTPAGE of a Unicode file.
pub struct UnicodeDensityListPage {
    backfill_complete: bool,
    current_page: u32,
    entries: Vec<DensityListPageEntry>,
    trailer: UnicodePageTrailer,
}

impl View for UnicodeDensityListPage {
    type V = DensityListModel;

    closed spec fn view(&self) -> DensityListModel {
        DensityListModel {
            backfill_complete: self.backfill_complete,
            current_page: self.current_page,
            entries: entry_values(self.entries@),
            trailer: self.trailer@,
        }
    }
}

/// The data part of a Unicode density list page: flags, count, padding, current page,
/// the entries, zeroed unused entries and zero padding.
pub open spec fn unicode_density_list_data(m: DensityListModel) -> Seq<u8> {
    seq![if m.backfill_complete { 1u8 } else { 0u8 }, m.entries.len() as u8] + le16(0)
        + le32(m.current_page) + u32s_bytes(m.entries) + zeros((4 * (119 - m.entries.len())) as nat)
        + zeros(12)
}

/// The 512 bytes of a Unicode density list page, whose trailer carries the CRC of the data.
pub open spec fn unicode_density_list_bytes(m: DensityListModel) -> Seq<u8> {
    unicode_density_list_data(m) + unicode_trailer_bytes(trailer_with_crc(m.trailer, spec_crc(0, unicode_density_list_data(m))))
}

/// The Unicode density list page held in `s`.
pub open spec fn parse_unicode_density_list(s: Seq<u8>) -> Result<DensityListModel, NdbError> {
    if s[1] > 119 {
        Err(NdbError::InvalidDensityListEntryCount(s[1] as usize))
    } else if u16_at(s, 2) != 0 {
        Err(NdbError::InvalidDensityListPadding)
    } else if s.subrange(484, 496) != zeros(12) {
        Err(NdbError::InvalidDensityListPadding)
    } else {
        match parse_unicode_trailer(s.subrange(496, 512)) {
            Err(e) => Err(e),
            Ok(t) => if t.page_type != PageType::DensityList {
                Err(NdbError::UnexpectedPageType(t.page_type))
            } else if spec_crc(0, s.subrange(0, 496)) != t.crc {
                Err(NdbError::InvalidPageCrc(spec_crc(0, s.subrange(0, 496))))
            } else {
                Ok(DensityListModel {
                    backfill_complete: s[0] % 2 == 1,
                    current_page: u32_at(s, 4),
                    entries: density_entries_at(s, s[1] as nat),
                    trailer: t,
                })
            },
        }
    }
}

impl UnicodeDensityListPage {
    #[verifier::type_invariant]
    spec fn wf(&self) -> bool {
        self.entries@.len() <= 119
    }

    /// Reads the page from the first 512 bytes of `b`, checking the counts, the padding, the
    /// page type and the CRC.
    pub fn read(b: &[u8]) -> (r: Result<UnicodeDensityListPage, NdbError>)
        requires
            b@.len() >= 512,
        ensures
            view_result(r) == parse_unicode_density_list(b@),
    {
        let count = b[1];
        if count as usize > 119 {
            return Err(NdbError::InvalidDensityListEntryCount(count as usize));
        }
        if read_u16_at(b, 2) != 0 {
            return Err(NdbError::InvalidDensityListPadding);
        }
        let current_page = read_u32_at(b, 4);
        let mut entries: Vec<DensityListPageEntry> = Vec::new();
        let n = count as usize;
        let mut i: usize = 0;
        while i < n
            invariant
                n == b@[1] as usize,
                n <= 119,
                b@.len() >= 512,
                i <= n,
                entry_values(entries@) == density_entries_at(b@, i as nat),
            decreases n - i,
        {
            let e = DensityListPageEntry::from_raw(read_u32_at(b, 8 + 4 * i));
            let ghost prev = entries@;
            entries.push(e);
            assert(entry_values(entries@) =~= entry_values(prev).push(e@));
            i = i + 1;
            assert(entry_values(entries@) =~= density_entries_at(b@, i as nat));
        }
        if !all_zero(b, 484, 496) {
            return Err(NdbError::InvalidDensityListPadding);
        }
        let trailer = match UnicodePageTrailer::read(&b[496..512]) {
            Ok(t) => t,
            Err(e) => return Err(e),
        };
        if trailer.page_type() != PageType::DensityList {
            return Err(NdbError::UnexpectedPageType(trailer.page_type()));
        }
        let crc = compute_crc(0, &b[0..496]);
        if crc != trailer.crc() {
            return Err(NdbError::InvalidPageCrc(crc));
        }
        Ok(UnicodeDensityListPage { backfill_complete: b[0] % 2 == 1, current_page, entries, trailer })
    }

    /// Appends the 512 bytes of the page, with the CRC of its data in the trailer.
    pub fn write(&self, out: &mut Vec<u8>)
        ensures
            final(out)@ == old(out)@ + unicode_density_list_bytes(self@),
    {
        proof {
            use_type_invariant(self);
        }
        let mut buffer: Vec<u8> = Vec::new();
        push_u8(&mut buffer, if self.backfill_complete { 1u8 } else { 0u8 });
        push_u8(&mut buffer, self.entries.len() as u8);
        push_u16(&mut buffer, 0);
        push_u32(&mut buffer, self.current_page);
        let ghost head = buffer@;
        let n = self.entries.len();
        let mut i: usize = 0;
        while i < n
            invariant
                n == self.entries@.len(),
                i <= n,
                buffer@ == head + u32s_bytes(entry_values(self.entries@).subrange(0, i as int)),
            decreases n - i,
        {
            self.entries[i].write(&mut buffer);
            assert(entry_values(self.entries@).subrange(0, i + 1).drop_last()
                =~= entry_values(self.entries@).subrange(0, i as int));
            i = i + 1;
        }
        assert(entry_values(self.entries@).subrange(0, n as int) =~= entry_values(self.entries@));
        push_zeros(&mut buffer, 4 * (119 - n));
        push_zeros(&mut buffer, 12);
        assert(buffer@ =~= unicode_density_list_data(self@));
        let crc = compute_crc(0, buffer.as_slice());
        push_bytes(out, buffer.as_slice());
        self.trailer.with_crc(crc).write(out);
        assert(out@ =~= old(out)@ + unicode_density_list_bytes(self@));
    }
}

impl DensityListPage for UnicodeDensityListPage {
    type Trailer = UnicodePageTrailer;

    /// The page with the given flag, current page, entries and trailer; at most 119
    /// entries fit, and the trailer must be that of a density list page.
    fn new(
        backfill_complete: bool,
        current_page: u32,
        entries: &[DensityListPageEntry],
        trailer: UnicodePageTrailer,
    ) -> (r: Result<UnicodeDensityListPage, NdbError>)
        ensures
            r is Ok <==> entries@.len() <= 119 && trailer@.page_type == PageType::DensityList,
            entries@.len() > 119 ==> r == Err::<UnicodeDensityListPage, NdbError>(NdbError::InvalidDensityListEntryCount(entries@.len() as usize)),
            entries@.len() <= 119 && trailer@.page_type != PageType::DensityList
                ==> r == Err::<UnicodeDensityListPage, NdbError>(NdbError::UnexpectedPageType(trailer@.page_type)),
            r matches Ok(p) ==> p@ == (DensityListModel {
                backfill_complete, current_page, entries: entry_values(entries@), trailer: trailer@,
            }),
    {
        if entries.len() > 119 {
            return Err(NdbError::InvalidDensityListEntryCount(entries.len()));
        }
        if trailer.page_type() != PageType::DensityList {
            return Err(NdbError::UnexpectedPageType(trailer.page_type()));
        }
        let mut list: Vec<DensityListPageEntry> = Vec::new();
        let n = entries.len();
        let mut i: usize = 0;
        while i < n
            invariant
                n == entries@.len(),
                i <= n,
                list@ == entries@.subrange(0, i as int),
            decreases n - i,
        {
            list.push(entries[i]);
            i = i + 1;
            assert(list@ =~= entries@.subrange(0, i as int));
        }
        assert(entries@.subrange(0, n as int) =~= entries@);
        Ok(UnicodeDensityListPage { backfill_complete, current_page, entries: list, trailer })
    }

    /// Whether backfilling is complete.
    fn backfill_complete(&self) -> (r: bool)
        ensures
            r == self@.backfill_complete,
    {
        self.backfill_complete
    }

    /// The current page.
    fn current_page(&self) -> (r: u32)
        ensures
            r == self@.current_page,
    {
        self.current_page
    }

    /// The entries in use.
    fn entries(&self) -> (r: &[DensityListPageEntry])
        ensures
            entry_values(r@) == self@.entries,
            r@.len() <= 119,
    {
        proof {
            use_type_invariant(self);
        }
        self.entries.as_slice()
    }

    /// The trailer.
    fn trailer(&self) -> (r: &UnicodePageTrailer)
        ensures
            r@ == self@.trailer,
    {
        &self.trailer
    }
}

/// Reading the bytes of a Unicode density list page gives the page back, its trailer
/// carrying the CRC of the data.
pub proof fn lemma_unicode_density_list_roundtrip(m: DensityListModel)
    requires
        m.entries.len() <= 119,
        m.trailer.page_type == PageType::DensityList,
    ensures
        unicode_density_list_bytes(m).len() == 512,
        parse_unicode_density_list(unicode_density_list_bytes(m)) == Ok::<DensityListModel, NdbError>(DensityListModel {
            backfill_complete: m.backfill_complete,
            current_page: m.current_page,
            entries: m.entries,
            trailer: trailer_with_crc(m.trailer, spec_crc(0, unicode_density_list_data(m))),
        }),
{
    lemma_le_roundtrip();
    lemma_u32s_bytes(m.entries);
    let d = unicode_density_list_data(m);
    let s = unicode_density_list_bytes(m);
    let t = trailer_with_crc(m.trailer, spec_crc(0, d));
    let n = m.entries.len() as int;
    lemma_unicode_trailer_roundtrip(t);
    assert(d.len() == 496);
    assert(s.subrange(0, 496) =~= d);
    assert(s.subrange(496, 512) =~= unicode_trailer_bytes(t));
    assert(s.subrange(2, 4) =~= le16(0));
    assert(s.subrange(4, 8) =~= le32(m.current_page));
    assert(s.subrange(484, 496) =~= zeros(12));
    assert(s.subrange(8, 8 + 4 * n) =~= u32s_bytes(m.entries));
    lemma_u32s_at(s, 8, m.entries);
    assert(density_entries_at(s, n as nat) =~= u32s_at(s, 8, n as nat));
}

/// The largest number of entries in an ANSI density list page.
pub const MAX_ANSI_DENSITY_LIST_ENTRY_COUNT: usize = 120;

/// DLISTPAGE of an ANSI file.
pub struct AnsiDensityListPage {
    backfill_complete: bool,
    current_page: u32,
    entries: Vec<DensityListPageEntry>,
    trailer: AnsiPageTrailer,
}

impl View for AnsiDensityListPage {
    type V = DensityListModel;

    closed spec fn view(&self) -> DensityListModel {
        DensityListModel {
            backfill_complete: self.backfill_complete,
            current_page: self.current_page,
            entries: entry_values(self.entries@),
            trailer: self.trailer@,
        }
    }
}

/// The data part of an ANSI density list page: flags, count, padding, current page,
/// the entries, zeroed unused entries and zero padding.
pub open spec fn ansi_density_list_data(m: DensityListModel) -> Seq<u8> {
    seq![if m.backfill_complete { 1u8 } else { 0u8 }, m.entries.len() as u8] + le16(0)
        + le32(m.current_page) + u32s_bytes(m.entries) + zeros((4 * (120 - m.entries.len())) as nat)
        + zeros(12)
}

/// The 512 bytes of an ANSI density list page, whose trailer carries the CRC of the data.
pub open spec fn ansi_density_list_bytes(m: DensityListModel) -> Seq<u8> {
    ansi_density_list_data(m) + ansi_trailer_bytes(trailer_with_crc(m.trailer, spec_crc(0, ansi_density_list_data(m))))
}

/// The ANSI density list page held in `s`.
pub open spec fn parse_ansi_density_list(s: Seq<u8>) -> Result<DensityListModel, NdbError> {
    if s[1] > 120 {
        Err(NdbError::InvalidDensityListEntryCount(s[1] as usize))
    } else if u16_at(s, 2) != 0 {
        Err(NdbError::InvalidDensityListPadding)
    } else if s.subrange(488, 500) != zeros(12) {
        Err(NdbError::InvalidDensityListPadding)
    } else {
        match parse_ansi_trailer(s.subrange(500, 512)) {
            Err(e) => Err(e),
            Ok(t) => if t.page_type != PageType::DensityList {
                Err(NdbError::UnexpectedPageType(t.page_type))
            } else if spec_crc(0, s.subrange(0, 500)) != t.crc {
                Err(NdbError::InvalidPageCrc(spec_crc(0, s.subrange(0, 500))))
            } else {
                Ok(DensityListModel {
                    backfill_complete: s[0] % 2 == 1,
                    current_page: u32_at(s, 4),
                    entries: density_entries_at(s, s[1] as nat),
                    trailer: t,
                })
            },
        }
    }
}

impl AnsiDensityListPage {
    #[verifier::type_invariant]
    spec fn wf(&self) -> bool {
        self.entries@.len() <= 120
    }

    /// Reads the page from the first 512 bytes of `b`, checking the counts, the padding, the
    /// page type and the CRC.
    pub fn read(b: &[u8]) -> (r: Result<AnsiDensityListPage, NdbError>)
        requires
            b@.len() >= 512,
        ensures
            view_result(r) == parse_ansi_density_list(b@),
    {
        let count = b[1];
        if count as usize > 120 {
            return Err(NdbError::InvalidDensityListEntryCount(count as usize));
        }
        if read_u16_at(b, 2) != 0 {
            return Err(NdbError::InvalidDensityListPadding);
        }
        let current_page = read_u32_at(b, 4);
        let mut entries: Vec<DensityListPageEntry> = Vec::new();
        let n = count as usize;
        let mut i: usize = 0;
        while i < n
            invariant
                n == b@[1] as usize,
                n <= 120,
                b@.len() >= 512,
                i <= n,
                entry_values(entries@) == density_entries_at(b@, i as nat),
            decreases n - i,
        {
            let e = DensityListPageEntry::from_raw(read_u32_at(b, 8 + 4 * i));
            let ghost prev = entries@;
            entries.push(e);
            assert(entry_values(entries@) =~= entry_values(prev).push(e@));
            i = i + 1;
            assert(entry_values(entries@) =~= density_entries_at(b@, i as nat));
        }
        if !all_zero(b, 488, 500) {
            return Err(NdbError::InvalidDensityListPadding);
        }
        let trailer = match AnsiPageTrailer::read(&b[500..512]) {
            Ok(t) => t,
            Err(e) => return Err(e),
        };
        if trailer.page_type() != PageType::DensityList {
            return Err(NdbError::UnexpectedPageType(trailer.page_type()));
        }
        let crc = compute_crc(0, &b[0..500]);
        if crc != trailer.crc() {
            return Err(NdbError::InvalidPageCrc(crc));
        }
        Ok(AnsiDensityListPage { backfill_complete: b[0] % 2 == 1, current_page, entries, trailer })
    }

    /// Appends the 512 bytes of the page, with the CRC of its data in the trailer.
    pub fn write(&self, out: &mut Vec<u8>)
        ensures
            final(out)@ == old(out)@ + ansi_density_list_bytes(self@),
    {
        proof {
            use_type_invariant(self);
        }
        let mut buffer: Vec<u8> = Vec::new();
        push_u8(&mut buffer, if self.backfill_complete { 1u8 } else { 0u8 });
        push_u8(&mut buffer, self.entries.len() as u8);
        push_u16(&mut buffer, 0);
        push_u32(&mut buffer, self.current_page);
        let ghost head = buffer@;
        let n = self.entries.len();
        let mut i: usize = 0;
        while i < n
            invariant
                n == self.entries@.len(),
                i <= n,
                buffer@ == head + u32s_bytes(entry_values(self.entries@).subrange(0, i as int)),
            decreases n - i,
        {
            self.entries[i].write(&mut buffer);
            assert(entry_values(self.entries@).subrange(0, i + 1).drop_last()
                =~= entry_values(self.entries@).subrange(0, i as int));
            i = i + 1;
        }
        assert(entry_values(self.entries@).subrange(0, n as int) =~= entry_values(self.entries@));
        push_zeros(&mut buffer, 4 * (120 - n));
        push_zeros(&mut buffer, 12);
        assert(buffer@ =~= ansi_density_list_data(self@));
        let crc = compute_crc(0, buffer.as_slice());
        push_bytes(out, buffer.as_slice());
        self.trailer.with_crc(crc).write(out);
        assert(out@ =~= old(out)@ + ansi_density_list_bytes(self@));
    }
}

impl DensityListPage for AnsiDensityListPage {
    type Trailer = AnsiPageTrailer;

    /// The page with the given flag, current page, entries and trailer; at most 120
    /// entries fit, and the trailer must be that of a density list page.
    fn new(
        backfill_complete: bool,
        current_page: u32,
        entries: &[DensityListPageEntry],
        trailer: AnsiPageTrailer,
    ) -> (r: Result<AnsiDensityListPage, NdbError>)
        ensures
            r is Ok <==> entries@.len() <= 120 && trailer@.page_type == PageType::DensityList,
            entries@.len() > 120 ==> r == Err::<AnsiDensityListPage, NdbError>(NdbError::InvalidDensityListEntryCount(entries@.len() as usize)),
            entries@.len() <= 120 && trailer@.page_type != PageType::DensityList
                ==> r == Err::<AnsiDensityListPage, NdbError>(NdbError::UnexpectedPageType(trailer@.page_type)),
            r matches Ok(p) ==> p@ == (DensityListModel {
                backfill_complete, current_page, entries: entry_values(entries@), trailer: trailer@,
            }),
    {
        if entries.len() > 120 {
            return Err(NdbError::InvalidDensityListEntryCount(entries.len()));
        }
        if trailer.page_type() != PageType::DensityList {
            return Err(NdbError::UnexpectedPageType(trailer.page_type()));
        }
        let mut list: Vec<DensityListPageEntry> = Vec::new();
        let n = entries.len();
        let mut i: usize = 0;
        while i < n
            invariant
                n == entries@.len(),
                i <= n,
                list@ == entries@.subrange(0, i as int),
            decreases n - i,
        {
            list.push(entries[i]);
            i = i + 1;
            assert(list@ =~= entries@.subrange(0, i as int));
        }
        assert(entries@.subrange(0, n as int) =~= entries@);
        Ok(AnsiDensityListPage { backfill_complete, current_page, entries: list, trailer })
    }

    /// Whether backfilling is complete.
    fn backfill_complete(&self) -> (r: bool)
        ensures
            r == self@.backfill_complete,
    {
        self.backfill_complete
    }

    /// The current page.
    fn current_page(&self) -> (r: u32)
        ensures
            r == self@.current_page,
    {
        self.current_page
    }

    /// The entries in use.
    fn entries(&self) -> (r: &[DensityListPageEntry])
        ensures
            entry_values(r@) == self@.entries,
            r@.len() <= 120,
    {
        proof {
            use_type_invariant(self);
        }
        self.entries.as_slice()
    }

    /// The trailer.
    fn trailer(&self) -> (r: &AnsiPageTrailer)
        ensures
            r@ == self@.trailer,
    {
        &self.trailer
    }
}

/// Reading the bytes of an ANSI density list page gives the page back, its trailer
/// carrying the CRC of the data.
pub proof fn lemma_ansi_density_list_roundtrip(m: DensityListModel)
    requires
        m.entries.len() <= 120,
        m.trailer.page_type == PageType::DensityList,
        m.trailer.block_id <= u32::MAX,
    ensures
        ansi_density_list_bytes(m).len() == 512,
        parse_ansi_density_list(ansi_density_list_bytes(m)) == Ok::<DensityListModel, NdbError>(DensityListModel {
            backfill_complete: m.backfill_complete,
            current_page: m.current_page,
            entries: m.entries,
            trailer: trailer_with_crc(m.trailer, spec_crc(0, ansi_density_list_data(m))),
        }),
{
    lemma_le_roundtrip();
    lemma_u32s_bytes(m.entries);
    let d = ansi_density_list_data(m);
    let s = ansi_density_list_bytes(m);
    let t = trailer_with_crc(m.trailer, spec_crc(0, d));
    let n = m.entries.len() as int;
    lemma_ansi_trailer_roundtrip(t);
    assert(d.len() == 500);
    assert(s.subrange(0, 500) =~= d);
    assert(s.subrange(500, 512) =~= ansi_trailer_bytes(t));
    assert(s.subrange(2, 4) =~= le16(0));
    assert(s.subrange(4, 8) =~= le32(m.current_page));
    assert(s.subrange(488, 500) =~= zeros(12));
    assert(s.subrange(8, 8 + 4 * n) =~= u32s_bytes(m.entries));
    lemma_u32s_at(s, 8, m.entries);
    assert(density_entries_at(s, n as nat) =~= u32s_at(s, 8, n as nat));
}


} // verus!
