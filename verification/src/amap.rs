//! Crash Recovery and AMap Rebuilding:
//! the layout of the allocation maps and the marking of the pages and blocks
//! that are in use.

use vstd::prelude::*;
use crate::PstError;
use crate::codec::{fill, push_fill, push_zeros, zeros};
use crate::ndb::block::{block_size, spec_block_size};
use crate::ndb::block_id::{AnsiBlockId, UnicodeBlockId};
use crate::ndb::page::{
    AnsiAllocationMapPage, AnsiAllocationPageMapPage, AnsiFreeMapPage, AnsiFreePageMapPage, AnsiPageTrailer, MapPage,
    MapPageModel, PageTrailer, PageTrailerModel, PageType, UnicodeAllocationMapPage, UnicodeAllocationPageMapPage,
    UnicodeFreeMapPage, UnicodeFreePageMapPage, UnicodePageTrailer,
};

verus! {

/// The size of a page.
pub const PAGE_SIZE: u64 = 512;

/// The offset of the first allocation map page.
pub const AMAP_FIRST_OFFSET: u64 = 0x4400;
/// The bytes one allocation map page covers: one bit for each 64 bytes.
pub const AMAP_DATA_SIZE: u64 = 496 * 8 * 64;

/// The offset of the first allocation page map page.
pub const PMAP_FIRST_OFFSET: u64 = AMAP_FIRST_OFFSET + PAGE_SIZE;
/// The number of allocation map pages between two allocation page map pages.
pub const PMAP_PAGE_COUNT: u64 = 8;
/// The bytes one allocation page map page covers.
pub const PMAP_DATA_SIZE: u64 = AMAP_DATA_SIZE * PMAP_PAGE_COUNT;

/// The number of allocation map pages described by the header's free map.
pub const FMAP_FIRST_SIZE: u64 = 128;
/// The bytes the header's free map covers.
pub const FMAP_FIRST_DATA_SIZE: u64 = AMAP_DATA_SIZE * FMAP_FIRST_SIZE;
/// The offset of the first free map page.
pub const FMAP_FIRST_OFFSET: u64 = AMAP_FIRST_OFFSET + FMAP_FIRST_DATA_SIZE + 2 * PAGE_SIZE;
/// The number of allocation map pages one free map page describes.
pub const FMAP_PAGE_COUNT: u64 = 496;
/// The bytes one free map page covers.
pub const FMAP_DATA_SIZE: u64 = AMAP_DATA_SIZE * FMAP_PAGE_COUNT;

/// The number of allocation map pages described by the header's free page map.
pub const FPMAP_FIRST_SIZE: u64 = 128 * 64;
/// The bytes the header's free page map covers.
#[verifier::nonlinear]
pub const FPMAP_FIRST_DATA_SIZE: u64 = AMAP_DATA_SIZE * FPMAP_FIRST_SIZE;
/// The offset of the first free page map page.
pub const FPMAP_FIRST_OFFSET: u64 = AMAP_FIRST_OFFSET + FPMAP_FIRST_DATA_SIZE + 3 * PAGE_SIZE;
/// The number of allocation map pages one free page map page describes.
pub const FPMAP_PAGE_COUNT: u64 = 496 * 64;
/// The bytes one free page map page covers.
#[verifier::nonlinear]
pub const FPMAP_DATA_SIZE: u64 = AMAP_DATA_SIZE * FPMAP_PAGE_COUNT;

/// The number of bits of an allocation map.
pub const AMAP_BIT_COUNT: usize = 496 * 8;

/// Bit `i` of an allocation map: one bit for each 64 bytes, the most significant
/// bit of each byte first.
pub open spec fn amap_bit(bits: Seq<u8>, i: int) -> bool {
    (bits[i / 8] >> ((7 - i % 8) as u8)) & 1u8 == 1u8
}

/// `new` is `old` with the bits `start..end` set and every other bit unchanged.
pub open spec fn bits_marked(old: Seq<u8>, new: Seq<u8>, start: int, end: int) -> bool {
    &&& new.len() == old.len()
    &&& forall|i: int| 0 <= i < 8 * old.len() ==> #[trigger] amap_bit(new, i) == ((start <= i < end) || amap_bit(old, i))
}

/// The bits `b..8` of a byte, the most significant bit first.
pub open spec fn mask_from(b: u8) -> u8 {
    (0x80u8 >> b) | (((0x80u8 >> b) - 1) as u8)
}

/// The bits `b..8` of a byte, the most significant bit first.
fn mask_from_bit(b: u8) -> (r: u8)
    requires
        b < 8,
    ensures
        r == mask_from(b),
{
    let m = 0x80u8 >> b;
    assert(b < 8 ==> (0x80u8 >> b) >= 1u8) by (bit_vector);
    m | (m - 1)
}

/// The effect of the three masks the marking uses on each bit of a byte.
proof fn lemma_masks(x: u8, b: u8, c: u8, j: u8)
    requires
        b < 8,
        c < 8,
        j < 8,
    ensures
        ((x | mask_from(b)) >> ((7 - j) as u8)) & 1u8 == 1u8 <==> (j >= b || (x >> ((7 - j) as u8)) & 1u8 == 1u8),
        ((x | !mask_from(c)) >> ((7 - j) as u8)) & 1u8 == 1u8 <==> (j < c || (x >> ((7 - j) as u8)) & 1u8 == 1u8),
        ((x | (mask_from(b) & !mask_from(c))) >> ((7 - j) as u8)) & 1u8 == 1u8
            <==> ((b <= j && j < c) || (x >> ((7 - j) as u8)) & 1u8 == 1u8),
        (0xFFu8 >> ((7 - j) as u8)) & 1u8 == 1u8,
{
    assert(b < 8 && c < 8 && j < 8 ==> {
        &&& ((x | mask_from(b)) >> ((7 - j) as u8)) & 1u8 == 1u8 <==> (j >= b || (x >> ((7 - j) as u8)) & 1u8 == 1u8)
        &&& ((x | !mask_from(c)) >> ((7 - j) as u8)) & 1u8 == 1u8 <==> (j < c || (x >> ((7 - j) as u8)) & 1u8 == 1u8)
        &&& ((x | (mask_from(b) & !mask_from(c))) >> ((7 - j) as u8)) & 1u8 == 1u8
            <==> ((b <= j && j < c) || (x >> ((7 - j) as u8)) & 1u8 == 1u8)
        &&& (0xFFu8 >> ((7 - j) as u8)) & 1u8 == 1u8
    }) by (bit_vector);
}

/// The fields of an allocation map page being rebuilt: its offset, its bits and
/// the free space it leaves.
pub struct AllocationMapPageInfoModel {
    pub offset: u64,
    pub map_bits: Seq<u8>,
    pub free_space: u64,
}

/// An allocation map page being rebuilt, with the space it leaves free.
pub struct AllocationMapPageInfo {
    offset: u64,
    map_bits: Vec<u8>,
    free_space: u64,
}

impl View for AllocationMapPageInfo {
    type V = AllocationMapPageInfoModel;

    closed spec fn view(&self) -> AllocationMapPageInfoModel {
        AllocationMapPageInfoModel { offset: self.offset, map_bits: self.map_bits@, free_space: self.free_space }
    }
}

/// Whether allocation map page `index` is followed by an allocation page map page.
pub open spec fn has_pmap_page(index: u64) -> bool {
    index % PMAP_PAGE_COUNT == 0
}

/// Whether allocation map page `index` is followed by a free map page.
pub open spec fn has_fmap_page(index: u64) -> bool {
    has_pmap_page(index) && index >= FMAP_FIRST_SIZE && (index - FMAP_FIRST_SIZE) % (FMAP_PAGE_COUNT as int) == 0
}

/// Whether allocation map page `index` is followed by a free page map page.
pub open spec fn has_fpmap_page(index: u64) -> bool {
    has_pmap_page(index) && index >= FPMAP_FIRST_SIZE && (index - FPMAP_FIRST_SIZE) % (FPMAP_PAGE_COUNT as int) == 0
}

/// The number of pages at the start of the range of allocation map page `index`
/// that the map pages themselves take.
pub open spec fn reserved_pages(index: u64) -> nat {
    1 + (if has_pmap_page(index) { 1nat } else { 0nat }) + (if has_fmap_page(index) { 1nat } else { 0nat })
        + (if has_fpmap_page(index) { 1nat } else { 0nat })
}

/// The offset of allocation map page `index`.
pub open spec fn amap_page_offset(index: u64) -> int {
    index * AMAP_DATA_SIZE + AMAP_FIRST_OFFSET
}

/// The number of allocation map pages of a file that ends at `file_eof_index`.
pub open spec fn spec_amap_page_count(file_eof_index: u64) -> int {
    let n = file_eof_index - AMAP_FIRST_OFFSET;
    if n % (AMAP_DATA_SIZE as int) == 0 { n / (AMAP_DATA_SIZE as int) } else { n / (AMAP_DATA_SIZE as int) + 1 }
}

/// The number of allocation map pages of a file that ends at `file_eof_index`:
/// its size past the first allocation map page, divided by the bytes each page
/// covers, rounded up.
pub fn amap_page_count(file_eof_index: u64) -> (r: u64)
    requires
        file_eof_index >= AMAP_FIRST_OFFSET,
    ensures
        r == spec_amap_page_count(file_eof_index),
{
    let n = file_eof_index - AMAP_FIRST_OFFSET;
    if n % AMAP_DATA_SIZE == 0 {
        n / AMAP_DATA_SIZE
    } else {
        n / AMAP_DATA_SIZE + 1
    }
}

impl AllocationMapPageInfo {
    /// The fresh allocation map page `index`: only the pages that the map pages
    /// themselves take at the start of its range are marked.
    pub fn new(index: u64) -> (r: AllocationMapPageInfo)
        requires
            amap_page_offset(index) <= u64::MAX,
        ensures
            r@ == (AllocationMapPageInfoModel {
                offset: amap_page_offset(index) as u64,
                map_bits: fill(reserved_pages(index), 0xFFu8) + zeros((496 - reserved_pages(index)) as nat),
                free_space: (AMAP_DATA_SIZE - reserved_pages(index) * PAGE_SIZE) as u64,
            }),
    {
        let has_pmap = index % PMAP_PAGE_COUNT == 0;
        let has_fmap = has_pmap && index >= FMAP_FIRST_SIZE && (index - FMAP_FIRST_SIZE) % FMAP_PAGE_COUNT == 0;
        let has_fpmap = has_pmap && index >= FPMAP_FIRST_SIZE && (index - FPMAP_FIRST_SIZE) % FPMAP_PAGE_COUNT == 0;
        let mut reserved: usize = 1;
        if has_pmap {
            reserved = reserved + 1;
        }
        if has_fmap {
            reserved = reserved + 1;
        }
        if has_fpmap {
            reserved = reserved + 1;
        }
        let mut map_bits: Vec<u8> = Vec::new();
        push_fill(&mut map_bits, 0xFF, reserved);
        push_zeros(&mut map_bits, 496 - reserved);
        assert(map_bits@ =~= fill(reserved_pages(index), 0xFFu8) + zeros((496 - reserved_pages(index)) as nat));
        AllocationMapPageInfo {
            offset: index * AMAP_DATA_SIZE + AMAP_FIRST_OFFSET,
            map_bits,
            free_space: AMAP_DATA_SIZE - (reserved as u64) * PAGE_SIZE,
        }
    }

    /// The offset of the page.
    pub fn offset(&self) -> (r: u64)
        ensures
            r == self@.offset,
    {
        self.offset
    }

    /// The bits of the map.
    pub fn map_bits(&self) -> (r: &[u8])
        ensures
            r@ == self@.map_bits,
    {
        self.map_bits.as_slice()
    }

    /// The free space left in the range of the page.
    pub fn free_space(&self) -> (r: u64)
        ensures
            r == self@.free_space,
    {
        self.free_space
    }

    /// Sets the 8 bits of the page that starts at bit `bit`: the whole byte when
    /// the page is byte-aligned, else the tail of one byte and the head of the next.
    fn mark_page_bits(&mut self, bit: usize)
        requires
            old(self)@.map_bits.len() == 496,
            bit + 8 <= AMAP_BIT_COUNT,
        ensures
            final(self)@.offset == old(self)@.offset,
            final(self)@.free_space == old(self)@.free_space,
            bits_marked(old(self)@.map_bits, final(self)@.map_bits, bit as int, bit + 8),
    {
        let byte_index = bit / 8;
        let bit_index = bit % 8;
        let ghost old_bits = self.map_bits@;
        if bit_index == 0 {
            self.map_bits.set(byte_index, 0xFF);
        } else {
            let mask = mask_from_bit(bit_index as u8);
            let first = self.map_bits[byte_index] | mask;
            self.map_bits.set(byte_index, first);
            let second = self.map_bits[byte_index + 1] | !mask;
            self.map_bits.set(byte_index + 1, second);
        }
        proof {
            let new_bits = self.map_bits@;
            assert forall|i: int| 0 <= i < 8 * old_bits.len() implies #[trigger] amap_bit(new_bits, i) == (
            (bit <= i < bit + 8) || amap_bit(old_bits, i)) by {
                let j = (i % 8) as u8;
                lemma_masks(old_bits[i / 8], bit_index as u8, bit_index as u8, j);
            }
        }
    }

    /// Sets the bits `start..end`: the tail of the first byte, whole bytes, and
    /// the head of the last byte.
    fn mark_bits(&mut self, start: usize, end: usize)
        requires
            old(self)@.map_bits.len() == 496,
            start < end <= AMAP_BIT_COUNT,
        ensures
            final(self)@.offset == old(self)@.offset,
            final(self)@.free_space == old(self)@.free_space,
            bits_marked(old(self)@.map_bits, final(self)@.map_bits, start as int, end as int),
    {
        let ghost old_bits = self.map_bits@;
        let byte_start = start / 8;
        let bit_start = start % 8;
        let byte_end = end / 8;
        let bit_end = end % 8;
        if byte_start == byte_end {
            if bit_end > bit_start {
                let mask = mask_from_bit(bit_start as u8) & !mask_from_bit(bit_end as u8);
                let v = self.map_bits[byte_start] | mask;
                self.map_bits.set(byte_start, v);
            }
            proof {
                let new_bits = self.map_bits@;
                assert forall|i: int| 0 <= i < 8 * old_bits.len() implies #[trigger] amap_bit(new_bits, i) == (
                (start <= i < end) || amap_bit(old_bits, i)) by {
                    lemma_masks(old_bits[i / 8], bit_start as u8, bit_end as u8, (i % 8) as u8);
                }
            }
            return;
        }
        let first_full = if bit_start == 0 {
            byte_start
        } else {
            let v = self.map_bits[byte_start] | mask_from_bit(bit_start as u8);
            self.map_bits.set(byte_start, v);
            byte_start + 1
        };
        if bit_end != 0 {
            let v = self.map_bits[byte_end] | !mask_from_bit(bit_end as u8);
            self.map_bits.set(byte_end, v);
        }
        let ghost edges = self.map_bits@;
        assert forall|m: int| 0 <= m < 496 implies edges[m] == (if m == byte_start && bit_start != 0 {
            old_bits[m] | mask_from(bit_start as u8)
        } else if m == byte_end && bit_end != 0 {
            old_bits[m] | !mask_from(bit_end as u8)
        } else {
            old_bits[m]
        }) by {}
        let mut k = first_full;
        while k < byte_end
            invariant
                self@.offset == old(self)@.offset,
                self@.free_space == old(self)@.free_space,
                old_bits.len() == 496,
                byte_start < byte_end,
                first_full == (if bit_start == 0 { byte_start } else { (byte_start + 1) as usize }),
                forall|m: int| 0 <= m < 496 ==> edges[m] == (if m == byte_start && bit_start != 0 {
                    old_bits[m] | mask_from(bit_start as u8)
                } else if m == byte_end && bit_end != 0 {
                    old_bits[m] | !mask_from(bit_end as u8)
                } else {
                    old_bits[m]
                }),
                first_full <= k <= byte_end,
                byte_end <= 496,
                self.map_bits@.len() == 496,
                edges.len() == 496,
                forall|m: int| 0 <= m < 496 && !(first_full <= m < k) ==> self.map_bits@[m] == edges[m],
                forall|m: int| first_full <= m < k ==> self.map_bits@[m] == 0xFFu8,
            decreases byte_end - k,
        {
            self.map_bits.set(k, 0xFF);
            k = k + 1;
        }
        proof {
            let new_bits = self.map_bits@;
            assert forall|i: int| 0 <= i < 8 * old_bits.len() implies #[trigger] amap_bit(new_bits, i) == (
            (start <= i < end) || amap_bit(old_bits, i)) by {
                let m = i / 8;
                lemma_masks(old_bits[m], bit_start as u8, bit_end as u8, (i % 8) as u8);
                if first_full <= m < byte_end {
                    assert(new_bits[m] == 0xFFu8);
                } else {
                    assert(new_bits[m] == edges[m]);
                }
            }
        }
    }

    /// The allocation map page of a Unicode file with these bits.
    pub fn unicode_page(&self) -> (r: UnicodeAllocationMapPage)
        requires
            self@.map_bits.len() == 496,
        ensures
            r@ == (MapPageModel {
                map_bits: self@.map_bits,
                trailer: PageTrailerModel { page_type: PageType::AllocationMap, signature: 0, crc: 0, block_id: self@.offset },
            }),
    {
        let trailer = UnicodePageTrailer::new(PageType::AllocationMap, 0, UnicodeBlockId::from_raw(self.offset), 0);
        let mut bits: Vec<u8> = Vec::new();
        crate::codec::push_bytes(&mut bits, self.map_bits.as_slice());
        assert(bits@ =~= self.map_bits@);
        match UnicodeAllocationMapPage::new(bits, trailer) {
            Ok(p) => p,
            Err(_) => vstd::pervasive::unreached(),
        }
    }

    /// The allocation map page of an ANSI file with these bits; the offset must fit in 32 bits.
    pub fn ansi_page(&self) -> (r: Result<AnsiAllocationMapPage, PstError>)
        requires
            self@.map_bits.len() == 496,
        ensures
            r is Err <==> self@.offset > u32::MAX,
            r is Err ==> r == Err::<AnsiAllocationMapPage, PstError>(PstError::IntegerConversion),
            r matches Ok(p) ==> p@ == (MapPageModel {
                map_bits: self@.map_bits,
                trailer: PageTrailerModel { page_type: PageType::AllocationMap, signature: 0, crc: 0, block_id: self@.offset },
            }),
    {
        if self.offset > 0xFFFF_FFFF {
            return Err(PstError::IntegerConversion);
        }
        let trailer = AnsiPageTrailer::new(PageType::AllocationMap, 0, AnsiBlockId::from_raw(self.offset as u32), 0);
        let mut bits: Vec<u8> = Vec::new();
        crate::codec::push_bytes(&mut bits, self.map_bits.as_slice());
        assert(bits@ =~= self.map_bits@);
        match AnsiAllocationMapPage::new(bits, trailer) {
            Ok(p) => Ok(p),
            Err(_) => vstd::pervasive::unreached(),
        }
    }
}

/// The allocation map page that covers the file offset `index`.
pub open spec fn amap_index(index: u64) -> int {
    (index - AMAP_FIRST_OFFSET) / (AMAP_DATA_SIZE as int)
}

/// The bit of its allocation map page that stands for the file offset `index`.
pub open spec fn amap_bit_index(index: u64) -> int {
    ((index - AMAP_FIRST_OFFSET) % (AMAP_DATA_SIZE as int)) / 64
}

/// Every page of the list has a full bitmap.
pub open spec fn amap_pages_wf(v: Seq<AllocationMapPageInfo>) -> bool {
    forall|i: int| 0 <= i < v.len() ==> (#[trigger] v[i])@.map_bits.len() == 496
}

/// The error for an offset past the allocation map pages of the list.
pub open spec fn amap_not_found(index: u64) -> PstError {
    if amap_index(index) > usize::MAX {
        PstError::IntegerConversion
    } else {
        PstError::AllocationMapPageNotFound(amap_index(index) as usize)
    }
}

/// `new` is `old` with page `k` replaced by one with the same offset, `size`
/// less free space and the bits `start..end` set.
pub open spec fn amap_pages_marked(
    old: Seq<AllocationMapPageInfo>,
    new: Seq<AllocationMapPageInfo>,
    k: int,
    size: int,
    start: int,
    end: int,
) -> bool {
    &&& new.len() == old.len()
    &&& forall|j: int| 0 <= j < old.len() && j != k ==> (#[trigger] new[j])@ == old[j]@
    &&& new[k]@.offset == old[k]@.offset
    &&& new[k]@.free_space == old[k]@.free_space - size
    &&& bits_marked(old[k]@.map_bits, new[k]@.map_bits, start, end)
}

/// Finds the allocation map page that covers the file offset `index`.
fn find_amap_page(index: u64, amap_pages: &Vec<AllocationMapPageInfo>) -> (r: Result<usize, PstError>)
    requires
        index >= AMAP_FIRST_OFFSET,
    ensures
        amap_index(index) < amap_pages@.len() ==> r is Ok,
        r matches Ok(k) ==> k == amap_index(index) && k < amap_pages@.len(),
        amap_index(index) >= amap_pages@.len() ==> r == Err::<usize, PstError>(amap_not_found(index)),
{
    let k = (index - AMAP_FIRST_OFFSET) / AMAP_DATA_SIZE;
    if k >= amap_pages.len() as u64 {
        if k > usize::MAX as u64 {
            return Err(PstError::IntegerConversion);
        }
        return Err(PstError::AllocationMapPageNotFound(k as usize));
    }
    Ok(k as usize)
}

/// Marks the page at file offset `index` as allocated: its 8 bits are set in the
/// allocation map page that covers it, whose free space shrinks by a page.
pub fn mark_page_allocation(index: u64, amap_pages: &mut Vec<AllocationMapPageInfo>) -> (r: Result<(), PstError>)
    requires
        index >= AMAP_FIRST_OFFSET,
        amap_pages_wf(old(amap_pages)@),
        amap_index(index) < old(amap_pages)@.len() ==> {
            &&& old(amap_pages)@[amap_index(index)]@.free_space >= PAGE_SIZE
            &&& amap_bit_index(index) + 8 <= AMAP_BIT_COUNT
        },
    ensures
        amap_pages_wf(final(amap_pages)@),
        amap_index(index) >= old(amap_pages)@.len() ==> final(amap_pages)@ == old(amap_pages)@
            && r == Err::<(), PstError>(amap_not_found(index)),
        amap_index(index) < old(amap_pages)@.len() ==> r is Ok && amap_pages_marked(
            old(amap_pages)@,
            final(amap_pages)@,
            amap_index(index),
            PAGE_SIZE as int,
            amap_bit_index(index),
            amap_bit_index(index) + 8,
        ),
{
    let k = match find_amap_page(index, amap_pages) {
        Ok(k) => k,
        Err(e) => return Err(e),
    };
    let bit = (((index - AMAP_FIRST_OFFSET) % AMAP_DATA_SIZE) / 64) as usize;
    let ghost before = amap_pages@;
    assert(k == amap_index(index));
    assert(before[k as int]@.map_bits.len() == 496);
    let free_space = amap_pages[k].free_space;
    assert(free_space == before[k as int]@.free_space);
    amap_pages[k].free_space = free_space - PAGE_SIZE;
    amap_pages[k].mark_page_bits(bit);
    proof {
        assert forall|j: int| 0 <= j < amap_pages@.len() implies (#[trigger] amap_pages@[j])@.map_bits.len() == 496 by {
            if j != k {
                assert(amap_pages@[j] == before[j]);
            }
        }
    }
    Ok(())
}

/// Marks the block at file offset `index` whose data is `size` bytes long as
/// allocated: the bits of the space `block_size` gives it and its trailer of
/// `trailer_size` bytes are set in the allocation map page that covers it, whose
/// free space shrinks by that space.
pub fn mark_block_allocation(
    index: u64,
    size: u16,
    trailer_size: u16,
    amap_pages: &mut Vec<AllocationMapPageInfo>,
) -> (r: Result<(), PstError>)
    requires
        index >= AMAP_FIRST_OFFSET,
        amap_pages_wf(old(amap_pages)@),
        amap_index(index) < old(amap_pages)@.len() ==> {
            &&& size + trailer_size <= u16::MAX
            &&& old(amap_pages)@[amap_index(index)]@.free_space >= spec_block_size((size + trailer_size) as u16)
            &&& amap_bit_index(index) + spec_block_size((size + trailer_size) as u16) / 64 <= AMAP_BIT_COUNT
        },
    ensures
        amap_pages_wf(final(amap_pages)@),
        amap_index(index) >= old(amap_pages)@.len() ==> final(amap_pages)@ == old(amap_pages)@
            && r == Err::<(), PstError>(amap_not_found(index)),
        amap_index(index) < old(amap_pages)@.len() ==> r is Ok && amap_pages_marked(
            old(amap_pages)@,
            final(amap_pages)@,
            amap_index(index),
            spec_block_size((size + trailer_size) as u16) as int,
            amap_bit_index(index),
            amap_bit_index(index) + spec_block_size((size + trailer_size) as u16) / 64,
        ),
{
    let k = match find_amap_page(index, amap_pages) {
        Ok(k) => k,
        Err(e) => return Err(e),
    };
    let space = block_size(size + trailer_size);
    let start = (((index - AMAP_FIRST_OFFSET) % AMAP_DATA_SIZE) / 64) as usize;
    let end = start + (space / 64) as usize;
    let ghost before = amap_pages@;
    assert(k == amap_index(index));
    assert(before[k as int]@.map_bits.len() == 496);
    let free_space = amap_pages[k].free_space;
    assert(free_space == before[k as int]@.free_space);
    amap_pages[k].free_space = free_space - space as u64;
    amap_pages[k].mark_bits(start, end);
    proof {
        assert forall|j: int| 0 <= j < amap_pages@.len() implies (#[trigger] amap_pages@[j])@.map_bits.len() == 496 by {
            if j != k {
                assert(amap_pages@[j] == before[j]);
            }
        }
    }
    Ok(())
}

/// Allocation page map page `index` of a Unicode file, at offset
/// `index * PMAP_DATA_SIZE + PMAP_FIRST_OFFSET`: every bit set.
pub fn unicode_allocation_page_map_page(index: u64) -> (r: UnicodeAllocationPageMapPage)
    requires
        index * PMAP_DATA_SIZE + PMAP_FIRST_OFFSET <= u64::MAX,
    ensures
        r@ == (MapPageModel {
            map_bits: fill(496, 0xFFu8),
            trailer: PageTrailerModel {
                page_type: PageType::AllocationPageMap,
                signature: 0,
                crc: 0,
                block_id: (index * PMAP_DATA_SIZE + PMAP_FIRST_OFFSET) as u64,
            },
        }),
{
    let offset = index * PMAP_DATA_SIZE + PMAP_FIRST_OFFSET;
    let trailer = UnicodePageTrailer::new(PageType::AllocationPageMap, 0, UnicodeBlockId::from_raw(offset), 0);
    let mut bits: Vec<u8> = Vec::new();
    push_fill(&mut bits, 0xFF, 496);
    match UnicodeAllocationPageMapPage::new(bits, trailer) {
        Ok(p) => p,
        Err(_) => vstd::pervasive::unreached(),
    }
}

/// Allocation page map page `index` of an ANSI file, at offset
/// `index * PMAP_DATA_SIZE + PMAP_FIRST_OFFSET`: every bit set. The offset must fit in 32 bits.
pub fn ansi_allocation_page_map_page(index: u64) -> (r: Result<AnsiAllocationPageMapPage, PstError>)
    requires
        index * PMAP_DATA_SIZE + PMAP_FIRST_OFFSET <= u64::MAX,
    ensures
        r is Err <==> index * PMAP_DATA_SIZE + PMAP_FIRST_OFFSET > u32::MAX,
        r is Err ==> r == Err::<AnsiAllocationPageMapPage, PstError>(PstError::IntegerConversion),
        r matches Ok(p) ==> p@ == (MapPageModel {
            map_bits: fill(496, 0xFFu8),
            trailer: PageTrailerModel {
                page_type: PageType::AllocationPageMap,
                signature: 0,
                crc: 0,
                block_id: (index * PMAP_DATA_SIZE + PMAP_FIRST_OFFSET) as u64,
            },
        }),
{
    let offset = index * PMAP_DATA_SIZE + PMAP_FIRST_OFFSET;
    if offset > 0xFFFF_FFFF {
        return Err(PstError::IntegerConversion);
    }
    let trailer = AnsiPageTrailer::new(PageType::AllocationPageMap, 0, AnsiBlockId::from_raw(offset as u32), 0);
    let mut bits: Vec<u8> = Vec::new();
    push_fill(&mut bits, 0xFF, 496);
    match AnsiAllocationPageMapPage::new(bits, trailer) {
        Ok(p) => Ok(p),
        Err(_) => vstd::pervasive::unreached(),
    }
}

/// Free page map page `index` of a Unicode file, at offset
/// `index * FPMAP_DATA_SIZE + FPMAP_FIRST_OFFSET`: every bit set.
pub fn unicode_free_page_map_page(index: u64) -> (r: UnicodeFreePageMapPage)
    requires
        index * FPMAP_DATA_SIZE + FPMAP_FIRST_OFFSET <= u64::MAX,
    ensures
        r@ == (MapPageModel {
            map_bits: fill(496, 0xFFu8),
            trailer: PageTrailerModel {
                page_type: PageType::FreePageMap,
                signature: 0,
                crc: 0,
                block_id: (index * FPMAP_DATA_SIZE + FPMAP_FIRST_OFFSET) as u64,
            },
        }),
{
    let offset = index * FPMAP_DATA_SIZE + FPMAP_FIRST_OFFSET;
    let trailer = UnicodePageTrailer::new(PageType::FreePageMap, 0, UnicodeBlockId::from_raw(offset), 0);
    let mut bits: Vec<u8> = Vec::new();
    push_fill(&mut bits, 0xFF, 496);
    match UnicodeFreePageMapPage::new(bits, trailer) {
        Ok(p) => p,
        Err(_) => vstd::pervasive::unreached(),
    }
}

/// Free page map page `index` of an ANSI file, at offset
/// `index * FPMAP_DATA_SIZE + FPMAP_FIRST_OFFSET`: every bit set. The offset must fit in 32 bits.
pub fn ansi_free_page_map_page(index: u64) -> (r: Result<AnsiFreePageMapPage, PstError>)
    requires
        index * FPMAP_DATA_SIZE + FPMAP_FIRST_OFFSET <= u64::MAX,
    ensures
        r is Err <==> index * FPMAP_DATA_SIZE + FPMAP_FIRST_OFFSET > u32::MAX,
        r is Err ==> r == Err::<AnsiFreePageMapPage, PstError>(PstError::IntegerConversion),
        r matches Ok(p) ==> p@ == (MapPageModel {
            map_bits: fill(496, 0xFFu8),
            trailer: PageTrailerModel {
                page_type: PageType::FreePageMap,
                signature: 0,
                crc: 0,
                block_id: (index * FPMAP_DATA_SIZE + FPMAP_FIRST_OFFSET) as u64,
            },
        }),
{
    let offset = index * FPMAP_DATA_SIZE + FPMAP_FIRST_OFFSET;
    if offset > 0xFFFF_FFFF {
        return Err(PstError::IntegerConversion);
    }
    let trailer = AnsiPageTrailer::new(PageType::FreePageMap, 0, AnsiBlockId::from_raw(offset as u32), 0);
    let mut bits: Vec<u8> = Vec::new();
    push_fill(&mut bits, 0xFF, 496);
    match AnsiFreePageMapPage::new(bits, trailer) {
        Ok(p) => Ok(p),
        Err(_) => vstd::pervasive::unreached(),
    }
}

/// The number of allocation page map pages that `amap_pages` allocation map pages
/// need: one for each 8, counting from the first.
pub fn allocation_page_map_page_count(amap_pages: u64) -> (r: u64)
    ensures
        r == amap_pages / 8 + 1,
{
    amap_pages / PMAP_PAGE_COUNT + 1
}

/// The number of free page map pages that `amap_pages` allocation map pages need:
/// the pages past those the header describes, divided by the pages each free
/// page map page describes, rounded up.
pub fn free_page_map_page_count(amap_pages: u64) -> (r: u64)
    ensures
        amap_pages <= FPMAP_FIRST_SIZE ==> r == 0,
        amap_pages > FPMAP_FIRST_SIZE ==> r == (amap_pages - FPMAP_FIRST_SIZE + FPMAP_PAGE_COUNT - 1) / (FPMAP_PAGE_COUNT as int),
{
    if amap_pages <= FPMAP_FIRST_SIZE {
        0
    } else {
        let n = amap_pages - FPMAP_FIRST_SIZE;
        if n % FPMAP_PAGE_COUNT == 0 {
            n / FPMAP_PAGE_COUNT
        } else {
            n / FPMAP_PAGE_COUNT + 1
        }
    }
}

/// The number of free bits (free slots of 64 bytes) just before bit `i`, one after
/// another.
pub open spec fn free_run_before(bits: Seq<u8>, i: int) -> nat
    decreases i,
{
    if i <= 0 {
        0
    } else if amap_bit(bits, i - 1) {
        0
    } else {
        free_run_before(bits, i - 1) + 1
    }
}

/// The longest run of free bits among the first `i` bits.
pub open spec fn longest_free_run_before(bits: Seq<u8>, i: int) -> nat
    decreases i,
{
    if i <= 0 {
        0
    } else {
        let m = longest_free_run_before(bits, i - 1);
        let r = free_run_before(bits, i);
        if r > m { r } else { m }
    }
}

/// The byte that a free map holds for an allocation map: the most free slots one
/// after another in it, 255 for 255 or more.
pub open spec fn free_slots(bits: Seq<u8>) -> u8 {
    let n = longest_free_run_before(bits, 8 * bits.len() as int);
    if n >= 255 { 255 } else { n as u8 }
}

/// The bits `i..j` of the map are all clear: the slots they stand for are free.
pub open spec fn all_free(bits: Seq<u8>, i: int, j: int) -> bool {
    forall|k: int| i <= k < j ==> !amap_bit(bits, k)
}

/// The run of free bits just before bit `n` is free, and no free run ending at `n` is
/// longer.
proof fn lemma_free_run_before_bounds(bits: Seq<u8>, n: int)
    requires
        n >= 0,
    ensures
        free_run_before(bits, n) <= n,
        all_free(bits, n - free_run_before(bits, n), n),
        forall|i: int| 0 <= i <= n && #[trigger] all_free(bits, i, n) ==> free_run_before(bits, n) >= n - i,
    decreases n,
{
    if n > 0 {
        lemma_free_run_before_bounds(bits, n - 1);
        let r = free_run_before(bits, n);
        assert forall|i: int| 0 <= i <= n && #[trigger] all_free(bits, i, n) implies r >= n - i by {
            if i < n {
                assert(!amap_bit(bits, n - 1));
                assert(all_free(bits, i, n - 1));
            }
        }
        if !amap_bit(bits, n - 1) {
            let r1 = free_run_before(bits, n - 1);
            assert forall|k: int| n - r <= k < n implies !amap_bit(bits, k) by {
                if k < n - 1 {
                    assert(n - 1 - r1 <= k);
                }
            }
        }
    }
}

/// The longest run of free bits among the first `n`: no run of free bits there is
/// longer, and one is that long.
proof fn lemma_longest_free_run(bits: Seq<u8>, n: int)
    requires
        n >= 0,
    ensures
        forall|i: int, j: int| 0 <= i <= j <= n && #[trigger] all_free(bits, i, j) ==> j - i <= longest_free_run_before(bits, n),
        exists|i: int| 0 <= i && i + longest_free_run_before(bits, n) <= n
            && #[trigger] all_free(bits, i, i + longest_free_run_before(bits, n)),
    decreases n,
{
    if n == 0 {
        assert(longest_free_run_before(bits, n) == 0);
        assert(all_free(bits, 0int, 0int + longest_free_run_before(bits, n)));
    } else {
        lemma_longest_free_run(bits, n - 1);
        lemma_free_run_before_bounds(bits, n);
        let m = longest_free_run_before(bits, n - 1);
        let r = free_run_before(bits, n);
        let l = longest_free_run_before(bits, n);
        assert forall|i: int, j: int| 0 <= i <= j <= n && #[trigger] all_free(bits, i, j) implies j - i <= l by {
            if j == n {
                assert(r >= n - i);
            } else {
                assert(j - i <= m);
            }
        }
        if r > m {
            assert(all_free(bits, n - r, n - r + l));
        } else {
            let i0 = choose|i: int| 0 <= i && i + m <= n - 1 && #[trigger] all_free(bits, i, i + m);
            assert(all_free(bits, i0, i0 + l));
        }
    }
}

/// The free map byte of an allocation map is the length of its longest run of free
/// slots, 255 for 255 or more: no run of free slots anywhere in the map is longer,
/// and one is that long.
pub proof fn lemma_free_slots_longest_run(bits: Seq<u8>)
    ensures
        forall|i: int, j: int| 0 <= i <= j <= 8 * bits.len() && #[trigger] all_free(bits, i, j)
            ==> free_slots(bits) as int >= (if j - i >= 255 { 255 } else { j - i }),
        exists|i: int, j: int| 0 <= i <= j <= 8 * bits.len() && #[trigger] all_free(bits, i, j)
            && free_slots(bits) as int == (if j - i >= 255 { 255 } else { j - i }),
{
    let n = 8 * bits.len() as int;
    lemma_longest_free_run(bits, n);
    let l = longest_free_run_before(bits, n);
    let i0 = choose|i: int| 0 <= i && i + l <= n && #[trigger] all_free(bits, i, i + l);
    assert(all_free(bits, i0, i0 + l));
}

/// The free map byte of allocation map page `k` of the list; 0 past its end.
pub open spec fn fmap_entry(pages: Seq<AllocationMapPageInfo>, k: int) -> u8 {
    if 0 <= k < pages.len() { free_slots(pages[k]@.map_bits) } else { 0 }
}

impl AllocationMapPageInfo {
    /// The most free slots one after another in the page, at most 255.
    pub fn max_free_slots(&self) -> (r: u8)
        requires
            self@.map_bits.len() == 496,
        ensures
            r == free_slots(self@.map_bits),
            forall|i: int, j: int| 0 <= i <= j <= 8 * self@.map_bits.len() && #[trigger] all_free(self@.map_bits, i, j)
                ==> r as int >= (if j - i >= 255 { 255 } else { j - i }),
            exists|i: int, j: int| 0 <= i <= j <= 8 * self@.map_bits.len() && #[trigger] all_free(self@.map_bits, i, j)
                && r as int == (if j - i >= 255 { 255 } else { j - i }),
    {
        proof {
            lemma_free_slots_longest_run(self@.map_bits);
        }
        let bits = self.map_bits.as_slice();
        let n: usize = 8 * bits.len();
        let mut run: usize = 0;
        let mut best: usize = 0;
        let mut i: usize = 0;
        while i < n
            invariant
                bits@ == self@.map_bits,
                n == 8 * bits@.len(),
                bits@.len() == 496,
                i <= n,
                run == free_run_before(bits@, i as int),
                best == longest_free_run_before(bits@, i as int),
                run <= i,
                best <= i,
            decreases n - i,
        {
            let used = (bits[i / 8] >> ((7 - i % 8) as u8)) & 1u8 == 1u8;
            assert(used == amap_bit(bits@, i as int));
            if used {
                run = 0;
            } else {
                run = run + 1;
            }
            if run > best {
                best = run;
            }
            i = i + 1;
        }
        if best >= 255 { 255 } else { best as u8 }
    }
}

/// The free map of the header: the free map bytes of the first 128 allocation map
/// pages, 0 for those the file does not have.
pub fn first_free_map(pages: &[AllocationMapPageInfo]) -> (r: Vec<u8>)
    requires
        amap_pages_wf(pages@),
    ensures
        r@.len() == FMAP_FIRST_SIZE,
        forall|k: int| 0 <= k < FMAP_FIRST_SIZE ==> r@[k] == fmap_entry(pages@, k),
{
    let mut fmap: Vec<u8> = Vec::new();
    let mut k: usize = 0;
    while k < 128
        invariant
            amap_pages_wf(pages@),
            k <= 128,
            fmap@.len() == k,
            forall|j: int| 0 <= j < k ==> fmap@[j] == fmap_entry(pages@, j),
        decreases 128 - k,
    {
        let b = if k < pages.len() { pages[k].max_free_slots() } else { 0 };
        fmap.push(b);
        k = k + 1;
    }
    fmap
}

/// The bits of free map page `index`: the free map bytes of the 496 allocation map
/// pages it describes, after the 128 that the header describes.
pub open spec fn fmap_page_bits(pages: Seq<AllocationMapPageInfo>, index: int) -> Seq<u8> {
    Seq::new(496, |j: int| fmap_entry(pages, FMAP_FIRST_SIZE + FMAP_PAGE_COUNT * index + j))
}

/// The number of free map pages that `n` allocation map pages need: the pages past
/// the 128 that the header describes, 496 to a page, rounded up.
pub open spec fn spec_free_map_page_count(n: int) -> int {
    if n <= FMAP_FIRST_SIZE { 0 } else { (n - FMAP_FIRST_SIZE + FMAP_PAGE_COUNT - 1) / (FMAP_PAGE_COUNT as int) }
}

/// The number of free map pages that `n` allocation map pages need.
pub fn free_map_page_count(n: u64) -> (r: u64)
    ensures
        r == spec_free_map_page_count(n as int),
{
    if n <= FMAP_FIRST_SIZE {
        0
    } else {
        let d = n - FMAP_FIRST_SIZE;
        let c = if d % FMAP_PAGE_COUNT == 0 { d / FMAP_PAGE_COUNT } else { d / FMAP_PAGE_COUNT + 1 };
        assert(c == (d + 495) / 496) by (nonlinear_arith)
            requires (d % 496 == 0 ==> c == d / 496), (d % 496 != 0 ==> c == d / 496 + 1), d >= 1;
        c
    }
}

/// The bits of free map page `index`.
fn free_map_bits(pages: &[AllocationMapPageInfo], index: u64) -> (r: Vec<u8>)
    requires
        amap_pages_wf(pages@),
        FMAP_FIRST_SIZE + FMAP_PAGE_COUNT * index + 496 <= u64::MAX,
    ensures
        r@ == fmap_page_bits(pages@, index as int),
{
    let base = FMAP_FIRST_SIZE + FMAP_PAGE_COUNT * index;
    let mut bits: Vec<u8> = Vec::new();
    let mut j: u64 = 0;
    while j < 496
        invariant
            amap_pages_wf(pages@),
            base == FMAP_FIRST_SIZE + FMAP_PAGE_COUNT * index,
            base + 496 <= u64::MAX,
            j <= 496,
            bits@ == fmap_page_bits(pages@, index as int).subrange(0, j as int),
        decreases 496 - j,
    {
        let k = base + j;
        let b = if k < pages.len() as u64 { pages[k as usize].max_free_slots() } else { 0 };
        let ghost prev = bits@;
        bits.push(b);
        assert(bits@ =~= fmap_page_bits(pages@, index as int).subrange(0, j + 1));
        j = j + 1;
    }
    assert(fmap_page_bits(pages@, index as int).subrange(0, 496) =~= fmap_page_bits(pages@, index as int));
    bits
}

/// The offset of free map page `index`.
pub open spec fn fmap_page_offset(index: int) -> int {
    index * FMAP_DATA_SIZE + FMAP_FIRST_OFFSET
}

/// The free map pages of a Unicode file with the allocation map pages `pages`: page
/// `index`, at its offset, holds the free map bytes of the 496 allocation map pages
/// past the first 128 that it describes.
pub fn unicode_free_map_pages(pages: &[AllocationMapPageInfo]) -> (r: Vec<UnicodeFreeMapPage>)
    requires
        amap_pages_wf(pages@),
        fmap_page_offset(spec_free_map_page_count(pages@.len() as int)) <= u64::MAX,
    ensures
        r@.len() == spec_free_map_page_count(pages@.len() as int),
        forall|i: int| 0 <= i < r@.len() ==> (#[trigger] r@[i])@ == (MapPageModel {
            map_bits: fmap_page_bits(pages@, i),
            trailer: PageTrailerModel { page_type: PageType::FreeMap, signature: 0, crc: 0, block_id: fmap_page_offset(i) as u64 },
        }),
{
    let n = pages.len() as u64;
    let count = free_map_page_count(n);
    let mut result: Vec<UnicodeFreeMapPage> = Vec::new();
    let mut i: u64 = 0;
    while i < count
        invariant
            amap_pages_wf(pages@),
            count == spec_free_map_page_count(pages@.len() as int),
            fmap_page_offset(count as int) <= u64::MAX,
            i <= count,
            result@.len() == i,
            forall|j: int| 0 <= j < i ==> (#[trigger] result@[j])@ == (MapPageModel {
                map_bits: fmap_page_bits(pages@, j),
                trailer: PageTrailerModel { page_type: PageType::FreeMap, signature: 0, crc: 0, block_id: fmap_page_offset(j) as u64 },
            }),
        decreases count - i,
    {
        assert(FMAP_FIRST_SIZE + FMAP_PAGE_COUNT * i + 496 <= u64::MAX) by (nonlinear_arith)
            requires i < count, count * 125960192 + 32524288 <= u64::MAX;
        let bits = free_map_bits(pages, i);
        assert(i * FMAP_DATA_SIZE + FMAP_FIRST_OFFSET <= u64::MAX) by (nonlinear_arith)
            requires i < count, count * 125960192 + 32524288 <= u64::MAX;
        let offset = i * FMAP_DATA_SIZE + FMAP_FIRST_OFFSET;
        let trailer = UnicodePageTrailer::new(PageType::FreeMap, 0, UnicodeBlockId::from_raw(offset), 0);
        let page = match UnicodeFreeMapPage::new(bits, trailer) {
            Ok(p) => p,
            Err(_) => vstd::pervasive::unreached(),
        };
        result.push(page);
        i = i + 1;
    }
    result
}

/// The free map pages of an ANSI file with the allocation map pages `pages`, as for a
/// Unicode file; every offset must fit in 32 bits.
pub fn ansi_free_map_pages(pages: &[AllocationMapPageInfo]) -> (r: Result<Vec<AnsiFreeMapPage>, PstError>)
    requires
        amap_pages_wf(pages@),
        fmap_page_offset(spec_free_map_page_count(pages@.len() as int)) <= u64::MAX,
    ensures
        r is Err <==> spec_free_map_page_count(pages@.len() as int) > 0
            && fmap_page_offset(spec_free_map_page_count(pages@.len() as int) - 1) > u32::MAX,
        r is Err ==> r == Err::<Vec<AnsiFreeMapPage>, PstError>(PstError::IntegerConversion),
        r matches Ok(v) ==> v@.len() == spec_free_map_page_count(pages@.len() as int),
        r matches Ok(v) ==> forall|i: int| 0 <= i < v@.len() ==> (#[trigger] v@[i])@ == (MapPageModel {
            map_bits: fmap_page_bits(pages@, i),
            trailer: PageTrailerModel { page_type: PageType::FreeMap, signature: 0, crc: 0, block_id: fmap_page_offset(i) as u64 },
        }),
{
    let n = pages.len() as u64;
    let count = free_map_page_count(n);
    if count > 0 {
        assert((count - 1) * FMAP_DATA_SIZE + FMAP_FIRST_OFFSET <= u64::MAX) by (nonlinear_arith)
            requires count > 0, count * 125960192 + 32524288 <= u64::MAX;
        if (count - 1) * FMAP_DATA_SIZE + FMAP_FIRST_OFFSET > 0xFFFF_FFFF {
            return Err(PstError::IntegerConversion);
        }
    }
    let mut result: Vec<AnsiFreeMapPage> = Vec::new();
    let mut i: u64 = 0;
    while i < count
        invariant
            amap_pages_wf(pages@),
            count == spec_free_map_page_count(pages@.len() as int),
            fmap_page_offset(count as int) <= u64::MAX,
            count > 0 ==> fmap_page_offset(count - 1) <= u32::MAX,
            i <= count,
            result@.len() == i,
            forall|j: int| 0 <= j < i ==> (#[trigger] result@[j])@ == (MapPageModel {
                map_bits: fmap_page_bits(pages@, j),
                trailer: PageTrailerModel { page_type: PageType::FreeMap, signature: 0, crc: 0, block_id: fmap_page_offset(j) as u64 },
            }),
        decreases count - i,
    {
        assert(FMAP_FIRST_SIZE + FMAP_PAGE_COUNT * i + 496 <= u64::MAX) by (nonlinear_arith)
            requires i < count, count * 125960192 + 32524288 <= u64::MAX;
        let bits = free_map_bits(pages, i);
        assert(i * FMAP_DATA_SIZE + FMAP_FIRST_OFFSET <= 0xFFFF_FFFF) by (nonlinear_arith)
            requires i < count, (count - 1) * 125960192 + 32524288 <= 0xFFFF_FFFF;
        let offset = i * FMAP_DATA_SIZE + FMAP_FIRST_OFFSET;
        let trailer = AnsiPageTrailer::new(PageType::FreeMap, 0, AnsiBlockId::from_raw(offset as u32), 0);
        let page = match AnsiFreeMapPage::new(bits, trailer) {
            Ok(p) => p,
            Err(_) => vstd::pervasive::unreached(),
        };
        result.push(page);
        i = i + 1;
    }
    Ok(result)
}

/// The free space left by all pages of the list.
pub open spec fn free_space_sum(v: Seq<AllocationMapPageInfo>) -> int
    decreases v.len(),
{
    if v.len() == 0 {
        0
    } else {
        free_space_sum(v.drop_last()) + v.last()@.free_space
    }
}

/// The free space left by all pages of the list.
pub fn total_free_space(pages: &[AllocationMapPageInfo]) -> (r: u64)
    requires
        free_space_sum(pages@) <= u64::MAX,
    ensures
        r == free_space_sum(pages@),
{
    let mut total: u64 = 0;
    let mut i: usize = 0;
    while i < pages.len()
        invariant
            i <= pages@.len(),
            free_space_sum(pages@) <= u64::MAX,
            total == free_space_sum(pages@.subrange(0, i as int)),
        decreases pages@.len() - i,
    {
        proof {
            assert(pages@.subrange(0, i + 1).drop_last() =~= pages@.subrange(0, i as int));
            lemma_free_space_sum_prefix(pages@, i + 1);
        }
        total = total + pages[i].free_space;
        i = i + 1;
    }
    assert(pages@.subrange(0, i as int) =~= pages@);
    total
}

/// The free space of a prefix is at most that of the whole list.
proof fn lemma_free_space_sum_prefix(v: Seq<AllocationMapPageInfo>, n: int)
    requires
        0 <= n <= v.len(),
    ensures
        free_space_sum(v.subrange(0, n)) <= free_space_sum(v),
    decreases v.len(),
{
    if n < v.len() {
        assert(v.drop_last().subrange(0, n) =~= v.subrange(0, n));
        lemma_free_space_sum_prefix(v.drop_last(), n);
    } else {
        assert(v.subrange(0, n) =~= v);
    }
}

/// The free space of the first `n` pages of a list in which page `k` lost `size`
/// bytes of free space and no other page changed its free space.
proof fn lemma_free_space_sum_marked(
    old: Seq<AllocationMapPageInfo>,
    new: Seq<AllocationMapPageInfo>,
    k: int,
    size: int,
    n: int,
)
    requires
        0 <= k < old.len(),
        new.len() == old.len(),
        forall|j: int| 0 <= j < old.len() && j != k ==> (#[trigger] new[j])@.free_space == old[j]@.free_space,
        new[k]@.free_space == old[k]@.free_space - size,
        0 <= n <= old.len(),
    ensures
        free_space_sum(new.subrange(0, n)) == free_space_sum(old.subrange(0, n)) - (if k < n { size } else { 0 }),
    decreases n,
{
    if n > 0 {
        lemma_free_space_sum_marked(old, new, k, size, n - 1);
        assert(new.subrange(0, n).drop_last() =~= new.subrange(0, n - 1));
        assert(old.subrange(0, n).drop_last() =~= old.subrange(0, n - 1));
        assert(new.subrange(0, n).last() == new[n - 1]);
        assert(old.subrange(0, n).last() == old[n - 1]);
    }
}

/// Marking a page or a block as allocated takes exactly the space it marks from the
/// free space of all the allocation map pages together.
pub proof fn lemma_marking_takes_free_space(
    old: Seq<AllocationMapPageInfo>,
    new: Seq<AllocationMapPageInfo>,
    k: int,
    size: int,
    start: int,
    end: int,
)
    requires
        0 <= k < old.len(),
        amap_pages_marked(old, new, k, size, start, end),
    ensures
        free_space_sum(new) == free_space_sum(old) - size,
{
    lemma_free_space_sum_marked(old, new, k, size, old.len() as int);
    assert(new.subrange(0, new.len() as int) =~= new);
    assert(old.subrange(0, old.len() as int) =~= old);
}

} // verus!
