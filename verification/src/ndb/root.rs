//! ROOT

use vstd::prelude::*;
use crate::codec::{
    le16, le32, le64, lemma_le_roundtrip, push_u16, push_u32, push_u8, read_u16_at, read_u32_at,
    u16_at, u32_at, u64_at,
};
use super::NdbError;
use super::block_ref::{AnsiBlockRef, BlockRef, UnicodeBlockRef};
use super::byte_index::{AnsiByteIndex, ByteIndex, UnicodeByteIndex};

verus! {

/// `fAMapValid`: whether the allocation maps can be trusted.
#[derive(Debug, Clone, Copy, PartialEq, Eq, Structural)]
pub enum AmapStatus {
    /// `INVALID_AMAP`: One or more AMaps in the PST are INVALID
    Invalid,
    /// `VALID_AMAP1`: Deprecated. Implementations SHOULD NOT use this value. The AMaps are VALID.
    Valid1,
    /// `VALID_AMAP2`: The AMaps are VALID.
    Valid2,
}

impl AmapStatus {
    /// The byte code of each status.
    pub open spec fn spec_code(self) -> u8 {
        match self {
            AmapStatus::Invalid => 0x00,
            AmapStatus::Valid1 => 0x01,
            AmapStatus::Valid2 => 0x02,
        }
    }

    /// The status whose code is `value`, if any.
    pub open spec fn spec_from_code(value: u8) -> Option<AmapStatus> {
        if value == 0 { Some(AmapStatus::Invalid) }
        else if value == 1 { Some(AmapStatus::Valid1) }
        else if value == 2 { Some(AmapStatus::Valid2) }
        else { None }
    }

    /// The byte code of this status.
    pub fn code(self) -> (r: u8)
        ensures
            r == self.spec_code(),
    {
        match self {
            AmapStatus::Invalid => 0x00,
            AmapStatus::Valid1 => 0x01,
            AmapStatus::Valid2 => 0x02,
        }
    }

    /// The status with code `value`, or `InvalidAmapStatus(value)`.
    pub fn try_from_u8(value: u8) -> (r: Result<AmapStatus, NdbError>)
        ensures
            r == (match Self::spec_from_code(value) {
                Some(t) => Ok(t),
                None => Err(NdbError::InvalidAmapStatus(value)),
            }),
    {
        match value {
            0x00 => Ok(AmapStatus::Invalid),
            0x01 => Ok(AmapStatus::Valid1),
            0x02 => Ok(AmapStatus::Valid2),
            _ => Err(NdbError::InvalidAmapStatus(value)),
        }
    }

    /// Whether the status says the maps are valid.
    pub fn is_valid(self) -> (r: bool)
        ensures
            r == (self != AmapStatus::Invalid),
    {
        self != AmapStatus::Invalid
    }
}

/// Every `AmapStatus` has a code, and the code converts back to the same value.
pub proof fn lemma_amap_status_code_roundtrip(t: AmapStatus)
    ensures
        AmapStatus::spec_from_code(t.spec_code()) == Some(t),
{
}

/// The status that a `fAMapValid` byte stands for: unknown values count as invalid.
pub open spec fn amap_status_of(value: u8) -> AmapStatus {
    match AmapStatus::spec_from_code(value) {
        Some(t) => t,
        None => AmapStatus::Invalid,
    }
}

/// The fields of a root; the byte indexes and block references are widened to 64 bits.
pub struct RootModel {
    pub reserved1: u32,
    pub file_eof_index: u64,
    pub amap_last_index: u64,
    pub amap_free_size: u64,
    pub pmap_free_size: u64,
    pub node_btree: (u64, u64),
    pub block_btree: (u64, u64),
    pub amap_is_valid: AmapStatus,
    pub reserved2: u8,
    pub reserved3: u16,
}

/// The same root with another allocation map status.
pub open spec fn root_with_status(r: RootModel, status: AmapStatus) -> RootModel {
    RootModel { amap_is_valid: status, ..r }
}

/// The ROOT structure of the header: file size, allocation map summary and the two B-tree roots.
pub trait Root: Sized {
    /// The byte index type.
    type Index: ByteIndex;
    /// The block reference type.
    type BTreeRef: BlockRef;

    /// The root with the given fields.
    fn new(
        file_eof_index: Self::Index,
        amap_last_index: Self::Index,
        amap_free_size: Self::Index,
        pmap_free_size: Self::Index,
        node_btree: Self::BTreeRef,
        block_btree: Self::BTreeRef,
        amap_is_valid: AmapStatus,
    ) -> Self;

    /// The size of the file.
    fn file_eof_index(&self) -> Self::Index;

    /// The offset of the last allocation map page.
    fn amap_last_index(&self) -> Self::Index;

    /// The free space in all allocation map pages.
    fn amap_free_size(&self) -> Self::Index;

    /// The free space in all page map pages.
    fn pmap_free_size(&self) -> Self::Index;

    /// The root page of the node B-tree.
    fn node_btree(&self) -> Self::BTreeRef;

    /// The root page of the block B-tree.
    fn block_btree(&self) -> Self::BTreeRef;

    /// Whether the allocation maps are valid.
    fn amap_is_valid(&self) -> AmapStatus;
}

/// ROOT of a Unicode file.
#[derive(Debug, Clone, Copy, PartialEq, Eq, Structural)]
pub struct UnicodeRoot {
    reserved1: u32,
    file_eof_index: UnicodeByteIndex,
    amap_last_index: UnicodeByteIndex,
    amap_free_size: UnicodeByteIndex,
    pmap_free_size: UnicodeByteIndex,
    node_btree: UnicodeBlockRef,
    block_btree: UnicodeBlockRef,
    amap_is_valid: AmapStatus,
    reserved2: u8,
    reserved3: u16,
}

impl View for UnicodeRoot {
    type V = RootModel;

    closed spec fn view(&self) -> RootModel {
        RootModel {
            reserved1: self.reserved1,
            file_eof_index: self.file_eof_index@,
            amap_last_index: self.amap_last_index@,
            amap_free_size: self.amap_free_size@,
            pmap_free_size: self.pmap_free_size@,
            node_btree: self.node_btree@,
            block_btree: self.block_btree@,
            amap_is_valid: self.amap_is_valid,
            reserved2: self.reserved2,
            reserved3: self.reserved3,
        }
    }
}

/// The 72 bytes of a Unicode root.
pub open spec fn unicode_root_bytes(m: RootModel) -> Seq<u8> {
    le32(m.reserved1) + le64(m.file_eof_index) + le64(m.amap_last_index) + le64(m.amap_free_size) + le64(m.pmap_free_size) + le64(m.node_btree.0) + le64(m.node_btree.1) + le64(m.block_btree.0) + le64(m.block_btree.1) + seq![m.amap_is_valid.spec_code(), m.reserved2] + le16(m.reserved3)
}

/// The Unicode root held in `s`; an unknown `fAMapValid` byte reads as invalid maps.
pub open spec fn parse_unicode_root(s: Seq<u8>) -> RootModel {
    RootModel {
        reserved1: u32_at(s, 0),
        file_eof_index: u64_at(s, 4),
        amap_last_index: u64_at(s, 12),
        amap_free_size: u64_at(s, 20),
        pmap_free_size: u64_at(s, 28),
        node_btree: (u64_at(s, 36), u64_at(s, 44)),
        block_btree: (u64_at(s, 52), u64_at(s, 60)),
        amap_is_valid: amap_status_of(s[68]),
        reserved2: s[69],
        reserved3: u16_at(s, 70),
    }
}

impl UnicodeRoot {
    /// Sets the free space of the allocation maps to `free_bytes`; the free space of
    /// the deprecated allocation page maps becomes 0.
    pub fn reset_free_size(&mut self, free_bytes: u64) -> (r: Result<(), NdbError>)
        ensures
            r is Ok,
            final(self)@ == (RootModel { amap_free_size: free_bytes, pmap_free_size: 0, ..old(self)@ }),
    {
        self.amap_free_size = UnicodeByteIndex::new(free_bytes);
        self.pmap_free_size = UnicodeByteIndex::new(0);
        Ok(())
    }

    /// Sets the allocation map status.
    pub fn set_amap_status(&mut self, status: AmapStatus)
        ensures
            final(self)@ == root_with_status(old(self)@, status),
    {
        self.amap_is_valid = status;
    }

    /// Sets the three reserved fields, as they were read from a file.
    pub fn load_reserved(&mut self, reserved1: u32, reserved2: u8, reserved3: u16)
        ensures
            final(self)@ == (RootModel { reserved1, reserved2, reserved3, ..old(self)@ }),
    {
        self.reserved1 = reserved1;
        self.reserved2 = reserved2;
        self.reserved3 = reserved3;
    }

    /// Reads a root from the first 72 bytes of `b`.
    pub fn read(b: &[u8]) -> (r: UnicodeRoot)
        requires
            b@.len() >= 72,
        ensures
            r@ == parse_unicode_root(b@),
    {
        let reserved1 = read_u32_at(b, 0);
        let file_eof_index = UnicodeByteIndex::read(&b[4..12]);
        assert(b@.subrange(4, 12).subrange(0, 8) =~= b@.subrange(4, 12));
        let amap_last_index = UnicodeByteIndex::read(&b[12..20]);
        assert(b@.subrange(12, 20).subrange(0, 8) =~= b@.subrange(12, 20));
        let amap_free_size = UnicodeByteIndex::read(&b[20..28]);
        assert(b@.subrange(20, 28).subrange(0, 8) =~= b@.subrange(20, 28));
        let pmap_free_size = UnicodeByteIndex::read(&b[28..36]);
        assert(b@.subrange(28, 36).subrange(0, 8) =~= b@.subrange(28, 36));
        let node_btree = UnicodeBlockRef::read(&b[36..52]);
        assert(b@.subrange(36, 52).subrange(0, 8) =~= b@.subrange(36, 44));
        assert(b@.subrange(36, 52).subrange(8, 16) =~= b@.subrange(44, 52));
        let block_btree = UnicodeBlockRef::read(&b[52..68]);
        assert(b@.subrange(52, 68).subrange(0, 8) =~= b@.subrange(52, 60));
        assert(b@.subrange(52, 68).subrange(8, 16) =~= b@.subrange(60, 68));
        let amap_is_valid = match AmapStatus::try_from_u8(b[68]) {
            Ok(s) => s,
            Err(_) => AmapStatus::Invalid,
        };
        let reserved2 = b[69];
        let reserved3 = read_u16_at(b, 70);
        UnicodeRoot {
            reserved1,
            file_eof_index,
            amap_last_index,
            amap_free_size,
            pmap_free_size,
            node_btree,
            block_btree,
            amap_is_valid,
            reserved2,
            reserved3,
        }
    }

    /// Appends the 72 bytes of the root.
    pub fn write(&self, out: &mut Vec<u8>)
        ensures
            final(out)@ == old(out)@ + unicode_root_bytes(self@),
    {
        push_u32(out, self.reserved1);
        self.file_eof_index.write(out);
        self.amap_last_index.write(out);
        self.amap_free_size.write(out);
        self.pmap_free_size.write(out);
        self.node_btree.write(out);
        self.block_btree.write(out);
        push_u8(out, self.amap_is_valid.code());
        push_u8(out, self.reserved2);
        push_u16(out, self.reserved3);
        assert(out@ =~= old(out)@ + unicode_root_bytes(self@));
    }
}

impl Root for UnicodeRoot {
    type Index = UnicodeByteIndex;
    type BTreeRef = UnicodeBlockRef;

    /// The root with the given fields; the reserved fields are zero.
    fn new(
        file_eof_index: UnicodeByteIndex,
        amap_last_index: UnicodeByteIndex,
        amap_free_size: UnicodeByteIndex,
        pmap_free_size: UnicodeByteIndex,
        node_btree: UnicodeBlockRef,
        block_btree: UnicodeBlockRef,
        amap_is_valid: AmapStatus,
    ) -> (r: UnicodeRoot)
        ensures
            r@ == (RootModel {
                reserved1: 0,
                file_eof_index: file_eof_index@ as u64,
                amap_last_index: amap_last_index@ as u64,
                amap_free_size: amap_free_size@ as u64,
                pmap_free_size: pmap_free_size@ as u64,
                node_btree: (node_btree@.0 as u64, node_btree@.1 as u64),
                block_btree: (block_btree@.0 as u64, block_btree@.1 as u64),
                amap_is_valid,
                reserved2: 0,
                reserved3: 0,
            }),
    {
        UnicodeRoot {
            reserved1: 0,
            file_eof_index,
            amap_last_index,
            amap_free_size,
            pmap_free_size,
            node_btree,
            block_btree,
            amap_is_valid,
            reserved2: 0,
            reserved3: 0,
        }
    }

    /// The `file_eof_index` field.
    fn file_eof_index(&self) -> (r: UnicodeByteIndex)
        ensures
            r@ as u64 == self@.file_eof_index,
    {
        self.file_eof_index
    }

    /// The `amap_last_index` field.
    fn amap_last_index(&self) -> (r: UnicodeByteIndex)
        ensures
            r@ as u64 == self@.amap_last_index,
    {
        self.amap_last_index
    }

    /// The `amap_free_size` field.
    fn amap_free_size(&self) -> (r: UnicodeByteIndex)
        ensures
            r@ as u64 == self@.amap_free_size,
    {
        self.amap_free_size
    }

    /// The `pmap_free_size` field.
    fn pmap_free_size(&self) -> (r: UnicodeByteIndex)
        ensures
            r@ as u64 == self@.pmap_free_size,
    {
        self.pmap_free_size
    }

    /// The `node_btree` field.
    fn node_btree(&self) -> (r: UnicodeBlockRef)
        ensures
            (r@.0 as u64, r@.1 as u64) == self@.node_btree,
    {
        self.node_btree
    }

    /// The `block_btree` field.
    fn block_btree(&self) -> (r: UnicodeBlockRef)
        ensures
            (r@.0 as u64, r@.1 as u64) == self@.block_btree,
    {
        self.block_btree
    }

    /// The allocation map status.
    fn amap_is_valid(&self) -> (r: AmapStatus)
        ensures
            r == self@.amap_is_valid,
    {
        self.amap_is_valid
    }
}

/// Reading the bytes of a Unicode root gives the same root.
pub proof fn lemma_unicode_root_roundtrip(m: RootModel)
    ensures
        unicode_root_bytes(m).len() == 72,
        parse_unicode_root(unicode_root_bytes(m)) == m,
{
    lemma_le_roundtrip();
    let s = unicode_root_bytes(m);
    assert(s.subrange(0, 4) =~= le32(m.reserved1));
    assert(s.subrange(4, 12) =~= le64(m.file_eof_index));
    assert(s.subrange(12, 20) =~= le64(m.amap_last_index));
    assert(s.subrange(20, 28) =~= le64(m.amap_free_size));
    assert(s.subrange(28, 36) =~= le64(m.pmap_free_size));
    assert(s.subrange(36, 44) =~= le64(m.node_btree.0));
    assert(s.subrange(44, 52) =~= le64(m.node_btree.1));
    assert(s.subrange(52, 60) =~= le64(m.block_btree.0));
    assert(s.subrange(60, 68) =~= le64(m.block_btree.1));
    assert(s.subrange(70, 72) =~= le16(m.reserved3));
}

/// Whether the widened fields of a root fit in the 32 bits of an ANSI file.
pub open spec fn ansi_root_fits(m: RootModel) -> bool {
    &&& m.file_eof_index <= u32::MAX
    &&& m.amap_last_index <= u32::MAX
    &&& m.amap_free_size <= u32::MAX
    &&& m.pmap_free_size <= u32::MAX
    &&& m.node_btree.0 <= u32::MAX
    &&& m.node_btree.1 <= u32::MAX
    &&& m.block_btree.0 <= u32::MAX
    &&& m.block_btree.1 <= u32::MAX
}

/// ROOT of an ANSI file.
#[derive(Debug, Clone, Copy, PartialEq, Eq, Structural)]
pub struct AnsiRoot {
    reserved1: u32,
    file_eof_index: AnsiByteIndex,
    amap_last_index: AnsiByteIndex,
    amap_free_size: AnsiByteIndex,
    pmap_free_size: AnsiByteIndex,
    node_btree: AnsiBlockRef,
    block_btree: AnsiBlockRef,
    amap_is_valid: AmapStatus,
    reserved2: u8,
    reserved3: u16,
}

impl View for AnsiRoot {
    type V = RootModel;

    closed spec fn view(&self) -> RootModel {
        RootModel {
            reserved1: self.reserved1,
            file_eof_index: self.file_eof_index@ as u64,
            amap_last_index: self.amap_last_index@ as u64,
            amap_free_size: self.amap_free_size@ as u64,
            pmap_free_size: self.pmap_free_size@ as u64,
            node_btree: (self.node_btree@.0 as u64, self.node_btree@.1 as u64),
            block_btree: (self.block_btree@.0 as u64, self.block_btree@.1 as u64),
            amap_is_valid: self.amap_is_valid,
            reserved2: self.reserved2,
            reserved3: self.reserved3,
        }
    }
}

/// The 40 bytes of an ANSI root.
pub open spec fn ansi_root_bytes(m: RootModel) -> Seq<u8> {
    le32(m.reserved1) + le32(m.file_eof_index as u32) + le32(m.amap_last_index as u32) + le32(m.amap_free_size as u32) + le32(m.pmap_free_size as u32) + le32(m.node_btree.0 as u32) + le32(m.node_btree.1 as u32) + le32(m.block_btree.0 as u32) + le32(m.block_btree.1 as u32) + seq![m.amap_is_valid.spec_code(), m.reserved2] + le16(m.reserved3)
}

/// The ANSI root held in `s`; an unknown `fAMapValid` byte reads as invalid maps.
pub open spec fn parse_ansi_root(s: Seq<u8>) -> RootModel {
    RootModel {
        reserved1: u32_at(s, 0),
        file_eof_index: u32_at(s, 4) as u64,
        amap_last_index: u32_at(s, 8) as u64,
        amap_free_size: u32_at(s, 12) as u64,
        pmap_free_size: u32_at(s, 16) as u64,
        node_btree: (u32_at(s, 20) as u64, u32_at(s, 24) as u64),
        block_btree: (u32_at(s, 28) as u64, u32_at(s, 32) as u64),
        amap_is_valid: amap_status_of(s[36]),
        reserved2: s[37],
        reserved3: u16_at(s, 38),
    }
}

impl AnsiRoot {
    /// Sets the free space of the allocation maps to `free_bytes`, which must fit in
    /// 32 bits; the free space of the deprecated allocation page maps becomes 0.
    pub fn reset_free_size(&mut self, free_bytes: u64) -> (r: Result<(), crate::PstError>)
        ensures
            r is Ok <==> free_bytes <= u32::MAX,
            r is Ok ==> final(self)@ == (RootModel { amap_free_size: free_bytes, pmap_free_size: 0, ..old(self)@ }),
            r is Err ==> final(self)@ == old(self)@ && r == Err::<(), crate::PstError>(crate::PstError::IntegerConversion),
    {
        if free_bytes > 0xFFFF_FFFF {
            return Err(crate::PstError::IntegerConversion);
        }
        self.amap_free_size = AnsiByteIndex::new(free_bytes as u32);
        self.pmap_free_size = AnsiByteIndex::new(0);
        Ok(())
    }

    /// Sets the allocation map status.
    pub fn set_amap_status(&mut self, status: AmapStatus)
        ensures
            final(self)@ == root_with_status(old(self)@, status),
    {
        self.amap_is_valid = status;
    }

    /// Sets the three reserved fields, as they were read from a file.
    pub fn load_reserved(&mut self, reserved1: u32, reserved2: u8, reserved3: u16)
        ensures
            final(self)@ == (RootModel { reserved1, reserved2, reserved3, ..old(self)@ }),
    {
        self.reserved1 = reserved1;
        self.reserved2 = reserved2;
        self.reserved3 = reserved3;
    }

    /// Reads a root from the first 40 bytes of `b`.
    pub fn read(b: &[u8]) -> (r: AnsiRoot)
        requires
            b@.len() >= 40,
        ensures
            r@ == parse_ansi_root(b@),
    {
        let reserved1 = read_u32_at(b, 0);
        let file_eof_index = AnsiByteIndex::read(&b[4..8]);
        assert(b@.subrange(4, 8).subrange(0, 4) =~= b@.subrange(4, 8));
        let amap_last_index = AnsiByteIndex::read(&b[8..12]);
        assert(b@.subrange(8, 12).subrange(0, 4) =~= b@.subrange(8, 12));
        let amap_free_size = AnsiByteIndex::read(&b[12..16]);
        assert(b@.subrange(12, 16).subrange(0, 4) =~= b@.subrange(12, 16));
        let pmap_free_size = AnsiByteIndex::read(&b[16..20]);
        assert(b@.subrange(16, 20).subrange(0, 4) =~= b@.subrange(16, 20));
        let node_btree = AnsiBlockRef::read(&b[20..28]);
        assert(b@.subrange(20, 28).subrange(0, 4) =~= b@.subrange(20, 24));
        assert(b@.subrange(20, 28).subrange(4, 8) =~= b@.subrange(24, 28));
        let block_btree = AnsiBlockRef::read(&b[28..36]);
        assert(b@.subrange(28, 36).subrange(0, 4) =~= b@.subrange(28, 32));
        assert(b@.subrange(28, 36).subrange(4, 8) =~= b@.subrange(32, 36));
        let amap_is_valid = match AmapStatus::try_from_u8(b[36]) {
            Ok(s) => s,
            Err(_) => AmapStatus::Invalid,
        };
        let reserved2 = b[37];
        let reserved3 = read_u16_at(b, 38);
        AnsiRoot {
            reserved1,
            file_eof_index,
            amap_last_index,
            amap_free_size,
            pmap_free_size,
            node_btree,
            block_btree,
            amap_is_valid,
            reserved2,
            reserved3,
        }
    }

    /// Appends the 40 bytes of the root.
    pub fn write(&self, out: &mut Vec<u8>)
        ensures
            final(out)@ == old(out)@ + ansi_root_bytes(self@),
    {
        push_u32(out, self.reserved1);
        self.file_eof_index.write(out);
        self.amap_last_index.write(out);
        self.amap_free_size.write(out);
        self.pmap_free_size.write(out);
        self.node_btree.write(out);
        self.block_btree.write(out);
        push_u8(out, self.amap_is_valid.code());
        push_u8(out, self.reserved2);
        push_u16(out, self.reserved3);
        assert(out@ =~= old(out)@ + ansi_root_bytes(self@));
    }
}

impl Root for AnsiRoot {
    type Index = AnsiByteIndex;
    type BTreeRef = AnsiBlockRef;

    /// The root with the given fields; the reserved fields are zero.
    fn new(
        file_eof_index: AnsiByteIndex,
        amap_last_index: AnsiByteIndex,
        amap_free_size: AnsiByteIndex,
        pmap_free_size: AnsiByteIndex,
        node_btree: AnsiBlockRef,
        block_btree: AnsiBlockRef,
        amap_is_valid: AmapStatus,
    ) -> (r: AnsiRoot)
        ensures
            r@ == (RootModel {
                reserved1: 0,
                file_eof_index: file_eof_index@ as u64,
                amap_last_index: amap_last_index@ as u64,
                amap_free_size: amap_free_size@ as u64,
                pmap_free_size: pmap_free_size@ as u64,
                node_btree: (node_btree@.0 as u64, node_btree@.1 as u64),
                block_btree: (block_btree@.0 as u64, block_btree@.1 as u64),
                amap_is_valid,
                reserved2: 0,
                reserved3: 0,
            }),
    {
        AnsiRoot {
            reserved1: 0,
            file_eof_index,
            amap_last_index,
            amap_free_size,
            pmap_free_size,
            node_btree,
            block_btree,
            amap_is_valid,
            reserved2: 0,
            reserved3: 0,
        }
    }

    /// The `file_eof_index` field.
    fn file_eof_index(&self) -> (r: AnsiByteIndex)
        ensures
            r@ as u64 == self@.file_eof_index,
    {
        self.file_eof_index
    }

    /// The `amap_last_index` field.
    fn amap_last_index(&self) -> (r: AnsiByteIndex)
        ensures
            r@ as u64 == self@.amap_last_index,
    {
        self.amap_last_index
    }

    /// The `amap_free_size` field.
    fn amap_free_size(&self) -> (r: AnsiByteIndex)
        ensures
            r@ as u64 == self@.amap_free_size,
    {
        self.amap_free_size
    }

    /// The `pmap_free_size` field.
    fn pmap_free_size(&self) -> (r: AnsiByteIndex)
        ensures
            r@ as u64 == self@.pmap_free_size,
    {
        self.pmap_free_size
    }

    /// The `node_btree` field.
    fn node_btree(&self) -> (r: AnsiBlockRef)
        ensures
            (r@.0 as u64, r@.1 as u64) == self@.node_btree,
    {
        self.node_btree
    }

    /// The `block_btree` field.
    fn block_btree(&self) -> (r: AnsiBlockRef)
        ensures
            (r@.0 as u64, r@.1 as u64) == self@.block_btree,
    {
        self.block_btree
    }

    /// The allocation map status.
    fn amap_is_valid(&self) -> (r: AmapStatus)
        ensures
            r == self@.amap_is_valid,
    {
        self.amap_is_valid
    }
}

/// Reading the bytes of an ANSI root gives the same root.
pub proof fn lemma_ansi_root_roundtrip(m: RootModel)
    requires
        ansi_root_fits(m),
    ensures
        ansi_root_bytes(m).len() == 40,
        parse_ansi_root(ansi_root_bytes(m)) == m,
{
    lemma_le_roundtrip();
    let s = ansi_root_bytes(m);
    assert(s.subrange(0, 4) =~= le32(m.reserved1));
    assert(s.subrange(4, 8) =~= le32(m.file_eof_index as u32));
    assert(s.subrange(8, 12) =~= le32(m.amap_last_index as u32));
    assert(s.subrange(12, 16) =~= le32(m.amap_free_size as u32));
    assert(s.subrange(16, 20) =~= le32(m.pmap_free_size as u32));
    assert(s.subrange(20, 24) =~= le32(m.node_btree.0 as u32));
    assert(s.subrange(24, 28) =~= le32(m.node_btree.1 as u32));
    assert(s.subrange(28, 32) =~= le32(m.block_btree.0 as u32));
    assert(s.subrange(32, 36) =~= le32(m.block_btree.1 as u32));
    assert(s.subrange(38, 40) =~= le16(m.reserved3));
}

} // verus!
