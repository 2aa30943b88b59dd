//! Blocks

use vstd::prelude::*;
use crate::codec::{
    copy_range, le16, le32, le64, lemma_le_roundtrip, push_bytes, push_u16, push_u32, push_zeros,
    read_u16_at, read_u32_at, u16_at, u32_at, u64_at, view_result, zeros,
};
use crate::crc::{compute_crc, spec_crc};
use super::NdbError;
use super::block_id::{AnsiBlockId, BlockId, UnicodeBlockId};
use super::header::NdbCryptMethod;

verus! {

/// The largest size of a block, trailer included.
pub const MAX_BLOCK_SIZE: u16 = 8192;

/// The space a block of `size` bytes takes in the file: `size` rounded up to a
/// multiple of 64, at least 64 and at most 8192.
pub open spec fn spec_block_size(size: u16) -> u16 {
    if size >= MAX_BLOCK_SIZE {
        MAX_BLOCK_SIZE
    } else if size < 64 {
        64
    } else if size % 64 == 0 {
        size
    } else {
        (size - size % 64 + 64) as u16
    }
}

/// Rounds a block's byte count up to the allocation granularity of the file.
pub fn block_size(size: u16) -> (r: u16)
    ensures
        r == spec_block_size(size),
        r % 64 == 0,
        64 <= r <= MAX_BLOCK_SIZE,
        size <= MAX_BLOCK_SIZE ==> size <= r,
        size <= MAX_BLOCK_SIZE ==> r < size + 64 || size < 64,
{
    if size >= MAX_BLOCK_SIZE {
        MAX_BLOCK_SIZE
    } else {
        let size = if size < 64 { 64 } else { size };
        let tail = size % 64;
        if tail == 0 {
            size
        } else {
            size - tail + 64
        }
    }
}

/// The fields of a block trailer; the block id is widened to 64 bits.
pub struct BlockTrailerModel {
    pub size: u16,
    pub signature: u16,
    pub crc: u32,
    pub block_id: u64,
}

/// The size of a Unicode block trailer.
pub const UNICODE_BLOCK_TRAILER_SIZE: u16 = 16;

/// The trailer at the end of every block.
pub trait BlockTrailer: Sized {
    /// The block id type.
    type BlockId: BlockId;

    /// The trailer with the given fields; the size must be that of a block's data.
    fn new(size: u16, signature: u16, crc: u32, block_id: Self::BlockId) -> Result<Self, NdbError>;

    /// The size of the block's data.
    fn size(&self) -> u16;

    /// The block signature.
    fn signature(&self) -> u16;

    /// The CRC of the block's data.
    fn crc(&self) -> u32;

    /// The block id.
    fn block_id(&self) -> Self::BlockId;

    /// The key of the cyclic encoding: the low 32 bits of the block id.
    fn cyclic_key(&self) -> u32;
}

/// BLOCKTRAILER of a Unicode file.
#[derive(Debug, Clone, Copy, PartialEq, Eq, Structural)]
pub struct UnicodeBlockTrailer {
    size: u16,
    signature: u16,
    crc: u32,
    block_id: UnicodeBlockId,
}

impl View for UnicodeBlockTrailer {
    type V = BlockTrailerModel;

    closed spec fn view(&self) -> BlockTrailerModel {
        BlockTrailerModel { size: self.size, signature: self.signature, crc: self.crc, block_id: self.block_id@ }
    }
}

/// The 16 bytes of a Unicode block trailer.
pub open spec fn unicode_block_trailer_bytes(m: BlockTrailerModel) -> Seq<u8> {
    le16(m.size) + le16(m.signature) + le32(m.crc) + le64(m.block_id)
}

/// The Unicode block trailer held in `s`; the data size must lie in `1..=8176`.
pub open spec fn parse_unicode_block_trailer(s: Seq<u8>) -> Result<BlockTrailerModel, NdbError> {
    if !(1 <= u16_at(s, 0) <= 8176) {
        Err(NdbError::InvalidBlockSize(u16_at(s, 0)))
    } else {
        Ok(BlockTrailerModel { size: u16_at(s, 0), signature: u16_at(s, 2), crc: u32_at(s, 4), block_id: u64_at(s, 8) })
    }
}

impl UnicodeBlockTrailer {
    /// Reads a trailer from the first 16 bytes of `b`.
    pub fn read(b: &[u8]) -> (r: Result<UnicodeBlockTrailer, NdbError>)
        requires
            b@.len() >= 16,
        ensures
            view_result(r) == parse_unicode_block_trailer(b@),
    {
        let size = read_u16_at(b, 0);
        if !(1 <= size && size <= 8176) {
            return Err(NdbError::InvalidBlockSize(size));
        }
        let signature = read_u16_at(b, 2);
        let crc = read_u32_at(b, 4);
        let block_id = UnicodeBlockId::read(&b[8..16]);
        assert(b@.subrange(8, 16).subrange(0, 8) =~= b@.subrange(8, 16));
        Ok(UnicodeBlockTrailer { size, signature, crc, block_id })
    }

    /// Appends the 16 bytes of the trailer.
    pub fn write(&self, out: &mut Vec<u8>)
        ensures
            final(out)@ == old(out)@ + unicode_block_trailer_bytes(self@),
    {
        push_u16(out, self.size);
        push_u16(out, self.signature);
        push_u32(out, self.crc);
        self.block_id.write(out);
        assert(out@ =~= old(out)@ + unicode_block_trailer_bytes(self@));
    }
}

impl BlockTrailer for UnicodeBlockTrailer {
    type BlockId = UnicodeBlockId;

    /// The trailer with the given fields; the data size must lie in `1..=8176`.
    fn new(size: u16, signature: u16, crc: u32, block_id: UnicodeBlockId) -> (r: Result<UnicodeBlockTrailer, NdbError>)
        ensures
            r is Ok <==> 1 <= size <= 8176,
            r matches Ok(t) ==> t@ == (BlockTrailerModel { size, signature, crc, block_id: block_id@ as u64 }),
            r is Err ==> r == Err::<UnicodeBlockTrailer, NdbError>(NdbError::InvalidBlockSize(size)),
    {
        if !(1 <= size && size <= 8176) {
            return Err(NdbError::InvalidBlockSize(size));
        }
        Ok(UnicodeBlockTrailer { size, signature, crc, block_id })
    }

    /// The size of the block's data.
    fn size(&self) -> (r: u16)
        ensures
            r == self@.size,
    {
        self.size
    }

    /// The signature.
    fn signature(&self) -> (r: u16)
        ensures
            r == self@.signature,
    {
        self.signature
    }

    /// The CRC of the block's data.
    fn crc(&self) -> (r: u32)
        ensures
            r == self@.crc,
    {
        self.crc
    }

    /// The block id.
    fn block_id(&self) -> (r: UnicodeBlockId)
        ensures
            r@ as u64 == self@.block_id,
    {
        self.block_id
    }

    /// The key of the cyclic encoding: the low 32 bits of the block id.
    fn cyclic_key(&self) -> (r: u32)
        ensures
            r == self@.block_id as u32,
    {
        self.block_id.value() as u32
    }
}

/// Reading the bytes of a Unicode block trailer gives the same trailer.
pub proof fn lemma_unicode_block_trailer_roundtrip(m: BlockTrailerModel)
    requires
        1 <= m.size <= 8176,
    ensures
        unicode_block_trailer_bytes(m).len() == 16,
        parse_unicode_block_trailer(unicode_block_trailer_bytes(m)) == Ok::<BlockTrailerModel, NdbError>(m),
{
    lemma_le_roundtrip();
    let s = unicode_block_trailer_bytes(m);
    assert(s.subrange(0, 2) =~= le16(m.size));
    assert(s.subrange(2, 4) =~= le16(m.signature));
    assert(s.subrange(4, 8) =~= le32(m.crc));
    assert(s.subrange(8, 16) =~= le64(m.block_id));
}

/// The size of an ANSI block trailer.
pub const ANSI_BLOCK_TRAILER_SIZE: u16 = 12;

/// BLOCKTRAILER of an ANSI file.
#[derive(Debug, Clone, Copy, PartialEq, Eq, Structural)]
pub struct AnsiBlockTrailer {
    size: u16,
    signature: u16,
    crc: u32,
    block_id: AnsiBlockId,
}

impl View for AnsiBlockTrailer {
    type V = BlockTrailerModel;

    closed spec fn view(&self) -> BlockTrailerModel {
        BlockTrailerModel { size: self.size, signature: self.signature, crc: self.crc, block_id: self.block_id@ as u64 }
    }
}

/// The 12 bytes of an ANSI block trailer.
pub open spec fn ansi_block_trailer_bytes(m: BlockTrailerModel) -> Seq<u8> {
    le16(m.size) + le16(m.signature) + le32(m.block_id as u32) + le32(m.crc)
}

/// The ANSI block trailer held in `s`; the data size must lie in `1..=8180`.
pub open spec fn parse_ansi_block_trailer(s: Seq<u8>) -> Result<BlockTrailerModel, NdbError> {
    if !(1 <= u16_at(s, 0) <= 8180) {
        Err(NdbError::InvalidBlockSize(u16_at(s, 0)))
    } else {
        Ok(BlockTrailerModel { size: u16_at(s, 0), signature: u16_at(s, 2), crc: u32_at(s, 8), block_id: u32_at(s, 4) as u64 })
    }
}

impl AnsiBlockTrailer {
    /// Reads a trailer from the first 12 bytes of `b`.
    pub fn read(b: &[u8]) -> (r: Result<AnsiBlockTrailer, NdbError>)
        requires
            b@.len() >= 12,
        ensures
            view_result(r) == parse_ansi_block_trailer(b@),
    {
        let size = read_u16_at(b, 0);
        if !(1 <= size && size <= 8180) {
            return Err(NdbError::InvalidBlockSize(size));
        }
        let signature = read_u16_at(b, 2);
        let block_id = AnsiBlockId::read(&b[4..8]);
        assert(b@.subrange(4, 8).subrange(0, 4) =~= b@.subrange(4, 8));
        let crc = read_u32_at(b, 8);
        Ok(AnsiBlockTrailer { size, signature, crc, block_id })
    }

    /// Appends the 12 bytes of the trailer.
    pub fn write(&self, out: &mut Vec<u8>)
        ensures
            final(out)@ == old(out)@ + ansi_block_trailer_bytes(self@),
    {
        push_u16(out, self.size);
        push_u16(out, self.signature);
        self.block_id.write(out);
        push_u32(out, self.crc);
        assert(out@ =~= old(out)@ + ansi_block_trailer_bytes(self@));
    }
}

impl BlockTrailer for AnsiBlockTrailer {
    type BlockId = AnsiBlockId;

    /// The trailer with the given fields; the data size must lie in `1..=8180`.
    fn new(size: u16, signature: u16, crc: u32, block_id: AnsiBlockId) -> (r: Result<AnsiBlockTrailer, NdbError>)
        ensures
            r is Ok <==> 1 <= size <= 8180,
            r matches Ok(t) ==> t@ == (BlockTrailerModel { size, signature, crc, block_id: block_id@ as u64 }),
            r is Err ==> r == Err::<AnsiBlockTrailer, NdbError>(NdbError::InvalidBlockSize(size)),
    {
        if !(1 <= size && size <= 8180) {
            return Err(NdbError::InvalidBlockSize(size));
        }
        Ok(AnsiBlockTrailer { size, signature, crc, block_id })
    }

    /// The size of the block's data.
    fn size(&self) -> (r: u16)
        ensures
            r == self@.size,
    {
        self.size
    }

    /// The signature.
    fn signature(&self) -> (r: u16)
        ensures
            r == self@.signature,
    {
        self.signature
    }

    /// The CRC of the block's data.
    fn crc(&self) -> (r: u32)
        ensures
            r == self@.crc,
    {
        self.crc
    }

    /// The block id.
    fn block_id(&self) -> (r: AnsiBlockId)
        ensures
            r@ as u64 == self@.block_id,
    {
        self.block_id
    }

    /// The key of the cyclic encoding: the low 32 bits of the block id.
    fn cyclic_key(&self) -> (r: u32)
        ensures
            r as u64 == self@.block_id,
    {
        self.block_id.value()
    }
}

/// Reading the bytes of an ANSI block trailer gives the same trailer.
pub proof fn lemma_ansi_block_trailer_roundtrip(m: BlockTrailerModel)
    requires
        1 <= m.size <= 8180 && m.block_id <= u32::MAX,
    ensures
        ansi_block_trailer_bytes(m).len() == 12,
        parse_ansi_block_trailer(ansi_block_trailer_bytes(m)) == Ok::<BlockTrailerModel, NdbError>(m),
{
    lemma_le_roundtrip();
    let s = ansi_block_trailer_bytes(m);
    assert(s.subrange(0, 2) =~= le16(m.size));
    assert(s.subrange(2, 4) =~= le16(m.signature));
    assert(s.subrange(4, 8) =~= le32(m.block_id as u32));
    assert(s.subrange(8, 12) =~= le32(m.crc));
}

/// The fields of a data block: its encoding, its data and its trailer.
pub struct UnicodeDataBlockModel {
    pub encoding: NdbCryptMethod,
    pub data: Seq<u8>,
    pub trailer: BlockTrailerModel,
}

/// A data block: its data and its trailer.
pub trait DataBlock: Sized {
    /// The block trailer type.
    type Trailer: BlockTrailer;

    /// The block with the given data and trailer; the trailer must name an external block.
    fn new(encoding: NdbCryptMethod, data: Vec<u8>, trailer: Self::Trailer) -> Result<Self, NdbError>;

    /// The encoding of the data.
    fn encoding(&self) -> NdbCryptMethod;

    /// The data.
    fn data(&self) -> &[u8];

    /// The block trailer.
    fn trailer(&self) -> &Self::Trailer;
}

/// Data Blocks of a Unicode file.
pub struct UnicodeDataBlock {
    encoding: NdbCryptMethod,
    data: Vec<u8>,
    trailer: UnicodeBlockTrailer,
}

impl View for UnicodeDataBlock {
    type V = UnicodeDataBlockModel;

    closed spec fn view(&self) -> UnicodeDataBlockModel {
        UnicodeDataBlockModel { encoding: self.encoding, data: self.data@, trailer: self.trailer@ }
    }
}

/// Whether the trailer names an internal block.
pub open spec fn unicode_trailer_is_internal(t: BlockTrailerModel) -> bool {
    t.block_id & 2 == 2
}

/// Whether a block of `size` data bytes and its 16-byte trailer fit in the largest block.
pub open spec fn unicode_block_fits(size: u16) -> bool {
    size + 16 <= MAX_BLOCK_SIZE
}

/// The space that a Unicode block of `size` data bytes takes: its data and trailer,
/// rounded up by `block_size`.
pub open spec fn unicode_block_space(size: u16) -> u16 {
    spec_block_size((size + 16) as u16)
}

/// The block stored at the start of `s` (data, padding, trailer) whose data is `size`
/// bytes long: the trailer ends the block's space, it must be valid, the CRC must
/// match and the block must not be internal. The data is kept as stored.
pub open spec fn parse_unicode_data_block(s: Seq<u8>, size: u16, encoding: NdbCryptMethod) -> Result<UnicodeDataBlockModel, NdbError> {
    let data = s.subrange(0, size as int);
    let end = unicode_block_space(size) as int;
    if s.len() < end {
        Err(NdbError::UnexpectedEndOfData)
    } else {
    match parse_unicode_block_trailer(s.subrange(end - 16, end)) {
        Err(e) => Err(e),
        Ok(t) => if spec_crc(0, data) != t.crc {
            Err(NdbError::InvalidBlockCrc(spec_crc(0, data)))
        } else if unicode_trailer_is_internal(t) {
            Err(NdbError::InvalidUnicodeBlockTrailerId(t.block_id as u64))
        } else {
            Ok(UnicodeDataBlockModel { encoding, data, trailer: t })
        },
    }
    }
}

impl UnicodeDataBlock {
    /// Reads a block of `size` data bytes from the start of `b`, where it takes
    /// `block_size(size + 16)` bytes, checking the trailer and the CRC of the data.
    pub fn read(b: &[u8], size: u16, encoding: NdbCryptMethod) -> (r: Result<UnicodeDataBlock, NdbError>)
        requires
            unicode_block_fits(size),
        ensures
            view_result(r) == parse_unicode_data_block(b@, size, encoding),
    {
        let end = block_size(size + UNICODE_BLOCK_TRAILER_SIZE) as usize;
        if b.len() < end {
            return Err(NdbError::UnexpectedEndOfData);
        }
        let data = copy_range(b, 0, size as usize);
        let trailer = match UnicodeBlockTrailer::read(&b[end - 16..end]) {
            Ok(t) => t,
            Err(e) => return Err(e),
        };
        let crc = compute_crc(0, data.as_slice());
        if crc != trailer.crc() {
            return Err(NdbError::InvalidBlockCrc(crc));
        }
        UnicodeDataBlock::new(encoding, data, trailer)
    }

    /// Appends the block as it is stored: the data, zero padding up to the
    /// trailer and a trailer whose size and CRC are taken from the data.
    /// Fails when the data size does not fit in a trailer.
    pub fn write(&self, out: &mut Vec<u8>) -> (r: Result<(), NdbError>)
        ensures
            r is Ok <==> unicode_data_size_valid(self@.data.len() as u16),
            r is Ok ==> final(out)@ == old(out)@ + unicode_data_block_bytes(self@),
            r is Err ==> final(out)@ == old(out)@
                && r == Err::<(), NdbError>(NdbError::InvalidBlockSize(self@.data.len() as u16)),
    {
        #[verifier::truncate]
        let size = self.data.len() as u16;
        let crc = compute_crc(0, self.data.as_slice());
        let trailer = match UnicodeBlockTrailer::new(size, self.trailer.signature(), crc, self.trailer.block_id()) {
            Ok(t) => t,
            Err(e) => return Err(e),
        };
        push_bytes(out, self.data.as_slice());
        let pad = block_size(size + UNICODE_BLOCK_TRAILER_SIZE) - size - UNICODE_BLOCK_TRAILER_SIZE;
        push_zeros(out, pad as usize);
        trailer.write(out);
        assert(out@ =~= old(out)@ + unicode_data_block_bytes(self@));
        Ok(())
    }
}

impl DataBlock for UnicodeDataBlock {
    type Trailer = UnicodeBlockTrailer;

    /// The block with the given encoding, data and trailer; the trailer must not name an internal block.
    fn new(encoding: NdbCryptMethod, data: Vec<u8>, trailer: UnicodeBlockTrailer) -> (r: Result<UnicodeDataBlock, NdbError>)
        ensures
            r is Ok <==> !unicode_trailer_is_internal(trailer@),
            r matches Ok(b) ==> b@ == (UnicodeDataBlockModel { encoding, data: data@, trailer: trailer@ }),
            r is Err ==> r == Err::<UnicodeDataBlock, NdbError>(NdbError::InvalidUnicodeBlockTrailerId(trailer@.block_id as u64)),
    {
        let block_id = trailer.block_id();
        if block_id.is_internal() {
            return Err(NdbError::InvalidUnicodeBlockTrailerId(block_id.value()));
        }
        Ok(UnicodeDataBlock { encoding, data, trailer })
    }

    /// The encoding.
    fn encoding(&self) -> (r: NdbCryptMethod)
        ensures
            r == self@.encoding,
    {
        self.encoding
    }

    /// The data.
    fn data(&self) -> (r: &[u8])
        ensures
            r@ == self@.data,
    {
        self.data.as_slice()
    }

    /// The trailer.
    fn trailer(&self) -> (r: &UnicodeBlockTrailer)
        ensures
            r@ == self@.trailer,
    {
        &self.trailer
    }
}

/// Whether `size` is a valid data size of a Unicode block trailer.
pub open spec fn unicode_data_size_valid(size: u16) -> bool {
    1 <= size <= 8176
}

/// The trailer that `write` stores after the data of a Unicode block.
pub open spec fn unicode_written_trailer(m: UnicodeDataBlockModel) -> BlockTrailerModel {
    BlockTrailerModel {
        size: m.data.len() as u16,
        signature: m.trailer.signature,
        crc: spec_crc(0, m.data),
        block_id: m.trailer.block_id,
    }
}

/// The bytes `write` produces for a Unicode data block: the data, zero
/// padding and the trailer at the end of the block's space.
pub open spec fn unicode_data_block_bytes(m: UnicodeDataBlockModel) -> Seq<u8> {
    let size = m.data.len() as u16;
    m.data + zeros((unicode_block_space(size) - size - 16) as nat)
        + unicode_block_trailer_bytes(unicode_written_trailer(m))
}

/// Reading back a written Unicode data block gives the same encoding and
/// data, with the trailer that `write` made.
pub proof fn lemma_unicode_data_block_roundtrip(m: UnicodeDataBlockModel)
    requires
        1 <= m.data.len() <= 8176,
        !unicode_trailer_is_internal(m.trailer),
    ensures
        unicode_data_block_bytes(m).len() == unicode_block_space(m.data.len() as u16),
        parse_unicode_data_block(unicode_data_block_bytes(m), m.data.len() as u16, m.encoding)
            == Ok::<UnicodeDataBlockModel, NdbError>(UnicodeDataBlockModel {
                encoding: m.encoding,
                data: m.data,
                trailer: unicode_written_trailer(m),
            }),
{
    let size = m.data.len() as u16;
    let t = unicode_written_trailer(m);
    lemma_unicode_block_trailer_roundtrip(t);
    let s = unicode_data_block_bytes(m);
    let end = unicode_block_space(size) as int;
    assert(s.subrange(0, size as int) =~= m.data);
    assert(s.subrange(end - 16, end) =~= unicode_block_trailer_bytes(t));
}

/// The fields of a data block: its encoding, its data and its trailer.
pub struct AnsiDataBlockModel {
    pub encoding: NdbCryptMethod,
    pub data: Seq<u8>,
    pub trailer: BlockTrailerModel,
}

/// Data Blocks of an ANSI file.
pub struct AnsiDataBlock {
    encoding: NdbCryptMethod,
    data: Vec<u8>,
    trailer: AnsiBlockTrailer,
}

impl View for AnsiDataBlock {
    type V = AnsiDataBlockModel;

    closed spec fn view(&self) -> AnsiDataBlockModel {
        AnsiDataBlockModel { encoding: self.encoding, data: self.data@, trailer: self.trailer@ }
    }
}

/// Whether the trailer names an internal block.
pub open spec fn ansi_trailer_is_internal(t: BlockTrailerModel) -> bool {
    t.block_id & 2 == 2
}

/// Whether a block of `size` data bytes and its 12-byte trailer fit in the largest block.
pub open spec fn ansi_block_fits(size: u16) -> bool {
    size + 12 <= MAX_BLOCK_SIZE
}

/// The space that an ANSI block of `size` data bytes takes: its data and trailer,
/// rounded up by `block_size`.
pub open spec fn ansi_block_space(size: u16) -> u16 {
    spec_block_size((size + 12) as u16)
}

/// The block stored at the start of `s` (data, padding, trailer) whose data is `size`
/// bytes long: the trailer ends the block's space, it must be valid, the CRC must
/// match and the block must not be internal. The data is kept as stored.
pub open spec fn parse_ansi_data_block(s: Seq<u8>, size: u16, encoding: NdbCryptMethod) -> Result<AnsiDataBlockModel, NdbError> {
    let data = s.subrange(0, size as int);
    let end = ansi_block_space(size) as int;
    if s.len() < end {
        Err(NdbError::UnexpectedEndOfData)
    } else {
    match parse_ansi_block_trailer(s.subrange(end - 12, end)) {
        Err(e) => Err(e),
        Ok(t) => if spec_crc(0, data) != t.crc {
            Err(NdbError::InvalidBlockCrc(spec_crc(0, data)))
        } else if ansi_trailer_is_internal(t) {
            Err(NdbError::InvalidAnsiBlockTrailerId(t.block_id as u32))
        } else {
            Ok(AnsiDataBlockModel { encoding, data, trailer: t })
        },
    }
    }
}

impl AnsiDataBlock {
    /// Reads a block of `size` data bytes from the start of `b`, where it takes
    /// `block_size(size + 12)` bytes, checking the trailer and the CRC of the data.
    pub fn read(b: &[u8], size: u16, encoding: NdbCryptMethod) -> (r: Result<AnsiDataBlock, NdbError>)
        requires
            ansi_block_fits(size),
        ensures
            view_result(r) == parse_ansi_data_block(b@, size, encoding),
    {
        let end = block_size(size + 12) as usize;
        if b.len() < end {
            return Err(NdbError::UnexpectedEndOfData);
        }
        let data = copy_range(b, 0, size as usize);
        let trailer = match AnsiBlockTrailer::read(&b[end - 12..end]) {
            Ok(t) => t,
            Err(e) => return Err(e),
        };
        let crc = compute_crc(0, data.as_slice());
        if crc != trailer.crc() {
            return Err(NdbError::InvalidBlockCrc(crc));
        }
        AnsiDataBlock::new(encoding, data, trailer)
    }

    /// Appends the block as it is stored: the data, zero padding up to the
    /// trailer and a trailer whose size and CRC are taken from the data.
    /// Fails when the data size does not fit in a trailer.
    pub fn write(&self, out: &mut Vec<u8>) -> (r: Result<(), NdbError>)
        ensures
            r is Ok <==> ansi_data_size_valid(self@.data.len() as u16),
            r is Ok ==> final(out)@ == old(out)@ + ansi_data_block_bytes(self@),
            r is Err ==> final(out)@ == old(out)@
                && r == Err::<(), NdbError>(NdbError::InvalidBlockSize(self@.data.len() as u16)),
    {
        #[verifier::truncate]
        let size = self.data.len() as u16;
        let crc = compute_crc(0, self.data.as_slice());
        let trailer = match AnsiBlockTrailer::new(size, self.trailer.signature(), crc, self.trailer.block_id()) {
            Ok(t) => t,
            Err(e) => return Err(e),
        };
        push_bytes(out, self.data.as_slice());
        let pad = block_size(size + 12) - size - 12;
        push_zeros(out, pad as usize);
        trailer.write(out);
        assert(out@ =~= old(out)@ + ansi_data_block_bytes(self@));
        Ok(())
    }
}

impl DataBlock for AnsiDataBlock {
    type Trailer = AnsiBlockTrailer;

    /// The block with the given encoding, data and trailer; the trailer must not name an internal block.
    fn new(encoding: NdbCryptMethod, data: Vec<u8>, trailer: AnsiBlockTrailer) -> (r: Result<AnsiDataBlock, NdbError>)
        ensures
            r is Ok <==> !ansi_trailer_is_internal(trailer@),
            r matches Ok(b) ==> b@ == (AnsiDataBlockModel { encoding, data: data@, trailer: trailer@ }),
            r is Err ==> r == Err::<AnsiDataBlock, NdbError>(NdbError::InvalidAnsiBlockTrailerId(trailer@.block_id as u32)),
    {
        let block_id = trailer.block_id();
        if block_id.is_internal() {
            return Err(NdbError::InvalidAnsiBlockTrailerId(block_id.value()));
        }
        Ok(AnsiDataBlock { encoding, data, trailer })
    }

    /// The encoding.
    fn encoding(&self) -> (r: NdbCryptMethod)
        ensures
            r == self@.encoding,
    {
        self.encoding
    }

    /// The data.
    fn data(&self) -> (r: &[u8])
        ensures
            r@ == self@.data,
    {
        self.data.as_slice()
    }

    /// The trailer.
    fn trailer(&self) -> (r: &AnsiBlockTrailer)
        ensures
            r@ == self@.trailer,
    {
        &self.trailer
    }
}

/// Whether `size` is a valid data size of an ANSI block trailer.
pub open spec fn ansi_data_size_valid(size: u16) -> bool {
    1 <= size <= 8180
}

/// The trailer that `write` stores after the data of an ANSI block.
pub open spec fn ansi_written_trailer(m: AnsiDataBlockModel) -> BlockTrailerModel {
    BlockTrailerModel {
        size: m.data.len() as u16,
        signature: m.trailer.signature,
        crc: spec_crc(0, m.data),
        block_id: m.trailer.block_id,
    }
}

/// The bytes `write` produces for an ANSI data block: the data, zero
/// padding and the trailer at the end of the block's space.
pub open spec fn ansi_data_block_bytes(m: AnsiDataBlockModel) -> Seq<u8> {
    let size = m.data.len() as u16;
    m.data + zeros((ansi_block_space(size) - size - 12) as nat)
        + ansi_block_trailer_bytes(ansi_written_trailer(m))
}

/// Reading back a written ANSI data block gives the same encoding and
/// data, with the trailer that `write` made.
pub proof fn lemma_ansi_data_block_roundtrip(m: AnsiDataBlockModel)
    requires
        1 <= m.data.len() <= 8180,
        m.trailer.block_id <= u32::MAX,
        !ansi_trailer_is_internal(m.trailer),
    ensures
        ansi_data_block_bytes(m).len() == ansi_block_space(m.data.len() as u16),
        parse_ansi_data_block(ansi_data_block_bytes(m), m.data.len() as u16, m.encoding)
            == Ok::<AnsiDataBlockModel, NdbError>(AnsiDataBlockModel {
                encoding: m.encoding,
                data: m.data,
                trailer: ansi_written_trailer(m),
            }),
{
    let size = m.data.len() as u16;
    let t = ansi_written_trailer(m);
    lemma_ansi_block_trailer_roundtrip(t);
    let s = ansi_data_block_bytes(m);
    let end = ansi_block_space(size) as int;
    assert(s.subrange(0, size as int) =~= m.data);
    assert(s.subrange(end - 12, end) =~= ansi_block_trailer_bytes(t));
}

} // verus!
