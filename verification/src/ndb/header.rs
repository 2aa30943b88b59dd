//! HEADER

use vstd::prelude::*;
use crate::codec::{
    all_zero, copy_range, fill, le16, le32, le64, lemma_le_roundtrip, lemma_u32s_at, lemma_u32s_bytes,
    push_bytes, push_fill, push_u16, push_u32, push_u32s, push_u64, push_u8, push_zeros,
    read_u16_at, read_u32_at, read_u32s_at, read_u64_at, u16_at, u32_at, u32s_at, u32s_bytes,
    u64_at, view_result, zeros,
};
use crate::crc::{compute_crc, spec_crc};
use super::NdbError;
use super::block_id::{AnsiBlockId, UnicodeBlockId};
use super::root::{
    ansi_root_bytes, ansi_root_fits, lemma_ansi_root_roundtrip, lemma_unicode_root_roundtrip,
    parse_ansi_root, parse_unicode_root, unicode_root_bytes, AnsiRoot, Root, RootModel, UnicodeRoot,
};

verus! {

/// `dwMagic`: the bytes `!BDN` read as a little-endian `u32`.
pub const HEADER_MAGIC: u32 = 0x4E44_4221;

/// `wMagicClient`: the bytes `SM` read as a little-endian `u16`.
pub const HEADER_MAGIC_CLIENT: u16 = 0x4D53;

/// `wVerClient`
pub const NDB_CLIENT_VERSION: u16 = 19;

/// `bPlatformCreate`
pub const NDB_PLATFORM_CREATE: u8 = 0x01;

/// `bPlatformAccess`
pub const NDB_PLATFORM_ACCESS: u8 = 0x01;

/// `bSentinel`
pub const NDB_SENTINEL: u8 = 0x80;

/// `wVer`: the format version.
#[derive(Debug, Clone, Copy, PartialEq, Eq, Structural)]
pub enum NdbVersion {
    Ansi,
    Unicode,
}

impl NdbVersion {
    /// The code a version is written with.
    pub open spec fn spec_code(self) -> u16 {
        match self {
            NdbVersion::Ansi => 15,
            NdbVersion::Unicode => 23,
        }
    }

    /// The version that the code `value` stands for: 14 and 15 are ANSI, 23 is Unicode.
    pub open spec fn spec_from_code(value: u16) -> Option<NdbVersion> {
        if value == 14 || value == 15 { Some(NdbVersion::Ansi) }
        else if value == 23 { Some(NdbVersion::Unicode) }
        else { None }
    }

    /// The code of this version.
    pub fn code(self) -> (r: u16)
        ensures
            r == self.spec_code(),
    {
        match self {
            NdbVersion::Ansi => 15,
            NdbVersion::Unicode => 23,
        }
    }

    /// The version of code `value`, or `InvalidNdbVersion(value)`.
    pub fn try_from_u16(value: u16) -> (r: Result<NdbVersion, NdbError>)
        ensures
            r == (match Self::spec_from_code(value) {
                Some(t) => Ok(t),
                None => Err(NdbError::InvalidNdbVersion(value)),
            }),
    {
        match value {
            14 | 15 => Ok(NdbVersion::Ansi),
            23 => Ok(NdbVersion::Unicode),
            _ => Err(NdbError::InvalidNdbVersion(value)),
        }
    }
}

/// Every `NdbVersion` has a code, and the code converts back to the same value.
pub proof fn lemma_ndb_version_code_roundtrip(t: NdbVersion)
    ensures
        NdbVersion::spec_from_code(t.spec_code()) == Some(t),
{
}

/// `bCryptMethod`: how data blocks are encoded.
#[derive(Debug, Clone, Copy, PartialEq, Eq, Structural)]
pub enum NdbCryptMethod {
    /// `NDB_CRYPT_NONE`: Data blocks are not encoded
    NoEncoding,
    /// `NDB_CRYPT_PERMUTE`: Encoded with the Permutation algorithm
    Permute,
    /// `NDB_CRYPT_CYCLIC`: Encoded with the Cyclic algorithm
    Cyclic,
}

impl NdbCryptMethod {
    /// The code of each method.
    pub open spec fn spec_code(self) -> u8 {
        match self {
            NdbCryptMethod::NoEncoding => 0,
            NdbCryptMethod::Permute => 1,
            NdbCryptMethod::Cyclic => 2,
        }
    }

    /// The method whose code is `value`, if any.
    pub open spec fn spec_from_code(value: u8) -> Option<NdbCryptMethod> {
        if value == 0 { Some(NdbCryptMethod::NoEncoding) }
        else if value == 1 { Some(NdbCryptMethod::Permute) }
        else if value == 2 { Some(NdbCryptMethod::Cyclic) }
        else { None }
    }

    /// The code of this method.
    pub fn code(self) -> (r: u8)
        ensures
            r == self.spec_code(),
    {
        match self {
            NdbCryptMethod::NoEncoding => 0,
            NdbCryptMethod::Permute => 1,
            NdbCryptMethod::Cyclic => 2,
        }
    }

    /// The method of code `value`, or `InvalidNdbCryptMethod(value)`.
    pub fn try_from_u8(value: u8) -> (r: Result<NdbCryptMethod, NdbError>)
        ensures
            r == (match Self::spec_from_code(value) {
                Some(t) => Ok(t),
                None => Err(NdbError::InvalidNdbCryptMethod(value)),
            }),
    {
        match value {
            0 => Ok(NdbCryptMethod::NoEncoding),
            1 => Ok(NdbCryptMethod::Permute),
            2 => Ok(NdbCryptMethod::Cyclic),
            _ => Err(NdbError::InvalidNdbCryptMethod(value)),
        }
    }
}

/// Every `NdbCryptMethod` has a code, and the code converts back to the same value.
pub proof fn lemma_ndb_crypt_method_code_roundtrip(t: NdbCryptMethod)
    ensures
        NdbCryptMethod::spec_from_code(t.spec_code()) == Some(t),
{
}

/// The node id counters of a new file: one per node type, each starting at index 0x400,
/// except the search folder, normal message and associated message counters.
pub open spec fn default_nid(i: int) -> u32 {
    ((if i == 3 { 0x4000int } else if i == 4 { 0x10000int } else if i == 8 { 0x8000int } else { 0x400int }) * 32 + i) as u32
}

/// The 32 node id counters of a new file.
pub open spec fn default_nids() -> Seq<u32> {
    Seq::new(32, |i: int| default_nid(i))
}

/// Builds the 32 node id counters of a new file.
pub fn new_default_nids() -> (r: Vec<u32>)
    ensures
        r@ == default_nids(),
{
    let mut r: Vec<u32> = Vec::new();
    let mut i: u32 = 0;
    while i < 32
        invariant
            i <= 32,
            r@ == Seq::new(i as nat, |k: int| default_nid(k)),
        decreases 32 - i,
    {
        let base: u32 = if i == 3 { 0x4000 } else if i == 4 { 0x10000 } else if i == 8 { 0x8000 } else { 0x400 };
        r.push(base * 32 + i);
        i = i + 1;
        assert(r@ =~= Seq::new(i as nat, |k: int| default_nid(k)));
    }
    r
}

/// The fields of a Unicode header; block ids are widened to 64 bits.
pub struct UnicodeHeaderModel {
    pub next_page: u64,
    pub unique: u32,
    pub nids: Seq<u32>,
    pub root: RootModel,
    pub crypt_method: NdbCryptMethod,
    pub next_block: u64,
    pub reserved1: u32,
    pub reserved2: u32,
    pub unused: u64,
    pub reserved3: Seq<u8>,
}

/// The HEADER at the start of the file.
pub trait Header: Sized {
    /// The root structure type.
    type Root: Root;

    /// A new header with the given root and encoding.
    fn new(root: Self::Root, crypt_method: NdbCryptMethod) -> Self;

    /// The format version of this header.
    fn version(&self) -> NdbVersion;

    /// The root.
    fn root(&self) -> &Self::Root;
}

/// HEADER of a Unicode file.
pub struct UnicodeHeader {
    next_page: UnicodeBlockId,
    unique: u32,
    nids: Vec<u32>,
    root: UnicodeRoot,
    crypt_method: NdbCryptMethod,
    next_block: UnicodeBlockId,
    reserved1: u32,
    reserved2: u32,
    unused: u64,
    reserved3: Vec<u8>,
}

impl View for UnicodeHeader {
    type V = UnicodeHeaderModel;

    closed spec fn view(&self) -> UnicodeHeaderModel {
        UnicodeHeaderModel {
            next_page: self.next_page@,
            unique: self.unique,
            nids: self.nids@,
            root: self.root@,
            crypt_method: self.crypt_method,
            next_block: self.next_block@,
            reserved1: self.reserved1,
            reserved2: self.reserved2,
            unused: self.unused,
            reserved3: self.reserved3@,
        }
    }
}

/// The 516 bytes between the partial CRC and the rest of a Unicode header; the free
/// map bytes are written as 0xFF.
pub open spec fn unicode_header_data(m: UnicodeHeaderModel) -> Seq<u8> {
    le16(HEADER_MAGIC_CLIENT) + le16(23) + le16(NDB_CLIENT_VERSION) + seq![NDB_PLATFORM_CREATE, NDB_PLATFORM_ACCESS] + le32(m.reserved1) + le32(m.reserved2) + le64(m.unused) + le64(m.next_page) + le32(m.unique) + u32s_bytes(m.nids) + le64(0) + unicode_root_bytes(m.root) + le32(0) + fill(128, 0xFF) + fill(128, 0xFF) + seq![NDB_SENTINEL, m.crypt_method.spec_code()] + le16(0) + le64(m.next_block)
}

/// The 564 bytes of a Unicode header, with its CRCs.
pub open spec fn unicode_header_bytes(m: UnicodeHeaderModel) -> Seq<u8> {
    le32(HEADER_MAGIC) + le32(spec_crc(0, unicode_header_data(m).subrange(0, 471))) + unicode_header_data(m) + le32(spec_crc(0, unicode_header_data(m))) + m.reserved3
}

/// What the first 479 bytes of a header, `p`, are found wrong: the partial CRC, the
/// client magic value or the version, which must be `expected`.
pub open spec fn header_prefix_error(p: Seq<u8>, expected: NdbVersion) -> Option<NdbError> {
    if u32_at(p, 4) != spec_crc(0, p.subrange(8, 479)) {
        Some(NdbError::InvalidNdbHeaderPartialCrc(u32_at(p, 4)))
    } else if u16_at(p, 8) != HEADER_MAGIC_CLIENT {
        Some(NdbError::InvalidNdbHeaderMagicClientValue(u16_at(p, 8)))
    } else {
        match NdbVersion::spec_from_code(u16_at(p, 10)) {
            None => Some(NdbError::InvalidNdbVersion(u16_at(p, 10))),
            Some(v) => if v == expected {
                None
            } else if expected == NdbVersion::Unicode {
                Some(NdbError::AnsiPstVersion(v.spec_code()))
            } else {
                Some(NdbError::UnicodePstVersion(v.spec_code()))
            },
        }
    }
}

/// What is found wrong with the start of the bytes `s` of a header, checked in file
/// order: the magic value, then the partial CRC, the client magic value and the
/// version from the first 479 bytes; the data ending early stops the reading.
pub open spec fn header_start_error(s: Seq<u8>, expected: NdbVersion) -> Option<NdbError> {
    if s.len() < 4 {
        Some(NdbError::UnexpectedEndOfData)
    } else if u32_at(s, 0) != HEADER_MAGIC {
        Some(NdbError::InvalidNdbHeaderMagicValue(u32_at(s, 0)))
    } else if s.len() < 479 {
        Some(NdbError::UnexpectedEndOfData)
    } else {
        header_prefix_error(s.subrange(0, 479), expected)
    }
}

/// What reading a header of `size` bytes from the start of `s` gives: the checks of
/// its start, then, once all `size` bytes are there, the rest of the parse.
pub open spec fn read_header_prefix<T>(
    s: Seq<u8>,
    size: int,
    expected: NdbVersion,
    parse: spec_fn(Seq<u8>) -> Result<T, NdbError>,
) -> Result<T, NdbError> {
    match header_start_error(s, expected) {
        Some(e) => Err(e),
        None => if s.len() < size {
            Err(NdbError::UnexpectedEndOfData)
        } else {
            parse(s.subrange(0, size))
        },
    }
}

/// The Unicode header held in `s`, checked field by field in file order.
pub open spec fn parse_unicode_header(s: Seq<u8>) -> Result<UnicodeHeaderModel, NdbError> {
    let d = s.subrange(8, 524);
    if u32_at(s, 0) != HEADER_MAGIC {
        Err(NdbError::InvalidNdbHeaderMagicValue(u32_at(s, 0)))
    } else if u32_at(s, 4) != spec_crc(0, d.subrange(0, 471)) {
        Err(NdbError::InvalidNdbHeaderPartialCrc(u32_at(s, 4)))
    } else if u16_at(d, 0) != HEADER_MAGIC_CLIENT {
        Err(NdbError::InvalidNdbHeaderMagicClientValue(u16_at(d, 0)))
    } else {
        match NdbVersion::spec_from_code(u16_at(d, 2)) {
            None => Err(NdbError::InvalidNdbVersion(u16_at(d, 2))),
            Some(v) => if v != NdbVersion::Unicode {
                Err(NdbError::AnsiPstVersion(v.spec_code()))
            } else {
                if u32_at(s, 524) != spec_crc(0, d) {
                    Err(NdbError::InvalidNdbHeaderFullCrc(u32_at(s, 524)))
                } else if u16_at(d, 4) != NDB_CLIENT_VERSION {
                    Err(NdbError::InvalidNdbHeaderClientVersion(u16_at(d, 4)))
                } else if d[6] != NDB_PLATFORM_CREATE {
                    Err(NdbError::InvalidNdbHeaderPlatformCreate(d[6]))
                } else if d[7] != NDB_PLATFORM_ACCESS {
                    Err(NdbError::InvalidNdbHeaderPlatformAccess(d[7]))
                } else if u64_at(d, 164) != 0 {
                    Err(NdbError::InvalidNdbHeaderUnusedValue(u64_at(d, 164)))
                } else if u32_at(d, 244) != 0 {
                    Err(NdbError::InvalidNdbHeaderAlignValue(u32_at(d, 244)))
                } else if d[504] != NDB_SENTINEL {
                    Err(NdbError::InvalidNdbHeaderSentinelValue(d[504]))
                } else {
                    match NdbCryptMethod::spec_from_code(d[505]) {
                        None => Err(NdbError::InvalidNdbCryptMethod(d[505])),
                        Some(c) => if u16_at(d, 506) != 0 {
                            Err(NdbError::InvalidNdbHeaderReservedValue(u16_at(d, 506)))
                        } else {
                            Ok(UnicodeHeaderModel {
                                next_page: u64_at(d, 24),
                                unique: u32_at(d, 32),
                                nids: u32s_at(d, 36, 32),
                                root: parse_unicode_root(d.subrange(172, 244)),
                                crypt_method: c,
                                next_block: u64_at(d, 508),
                                reserved1: u32_at(d, 8),
                                reserved2: u32_at(d, 12),
                                unused: u64_at(d, 16),
                                reserved3: s.subrange(528, 564),
                            })
                        },
                    }
                }
            },
        }
    }
}

/// Checks the start of the bytes of a header.
fn check_header_prefix(b: &[u8], expected: NdbVersion) -> (r: Result<(), NdbError>)
    ensures
        r == match header_start_error(b@, expected) {
            Some(e) => Err::<(), NdbError>(e),
            None => Ok(()),
        },
{
    let len = b.len();
    if len < 4 {
        return Err(NdbError::UnexpectedEndOfData);
    }
    let magic = read_u32_at(b, 0);
    if magic != HEADER_MAGIC {
        return Err(NdbError::InvalidNdbHeaderMagicValue(magic));
    }
    if len < 479 {
        return Err(NdbError::UnexpectedEndOfData);
    }
    let ghost p = b@.subrange(0, 479);
    assert(p.subrange(4, 8) =~= b@.subrange(4, 8));
    assert(p.subrange(8, 10) =~= b@.subrange(8, 10));
    assert(p.subrange(10, 12) =~= b@.subrange(10, 12));
    assert(p.subrange(8, 479) =~= b@.subrange(8, 479));
    let crc_partial = read_u32_at(b, 4);
    if crc_partial != compute_crc(0, &b[8..479]) {
        return Err(NdbError::InvalidNdbHeaderPartialCrc(crc_partial));
    }
    let magic_client = read_u16_at(b, 8);
    if magic_client != HEADER_MAGIC_CLIENT {
        return Err(NdbError::InvalidNdbHeaderMagicClientValue(magic_client));
    }
    let version = match NdbVersion::try_from_u16(read_u16_at(b, 10)) {
        Ok(v) => v,
        Err(e) => return Err(e),
    };
    if version != expected {
        if expected == NdbVersion::Unicode {
            return Err(NdbError::AnsiPstVersion(version.code()));
        }
        return Err(NdbError::UnicodePstVersion(version.code()));
    }
    Ok(())
}

/// The checks of the first 479 bytes of a header `h` are those that its full parse
/// makes first, on its data part `h[8..end]`.
proof fn lemma_header_prefix(h: Seq<u8>, end: int)
    requires
        479 <= end <= h.len(),
    ensures
        ({
            let p = h.subrange(0, 479);
            let d = h.subrange(8, end);
            &&& u32_at(p, 4) == u32_at(h, 4)
            &&& p.subrange(8, 479) == d.subrange(0, 471)
            &&& u16_at(p, 8) == u16_at(d, 0)
            &&& u16_at(p, 10) == u16_at(d, 2)
        }),
{
    let p = h.subrange(0, 479);
    let d = h.subrange(8, end);
    assert(p.subrange(4, 8) =~= h.subrange(4, 8));
    assert(p.subrange(8, 479) =~= d.subrange(0, 471));
    assert(p.subrange(8, 10) =~= d.subrange(0, 2));
    assert(p.subrange(10, 12) =~= d.subrange(2, 4));
}

impl UnicodeHeader {
    #[verifier::type_invariant]
    spec fn wf(&self) -> bool {
        self.nids@.len() == 32 && self.reserved3@.len() == 36
    }

    /// Replaces the root.
    pub fn set_root(&mut self, root: UnicodeRoot)
        ensures
            final(self)@ == (UnicodeHeaderModel { root: root@, ..old(self)@ }),
    {
        proof {
            use_type_invariant(&*self);
        }
        self.root = root;
    }

    /// The encoding of the data blocks.
    pub fn crypt_method(&self) -> (r: NdbCryptMethod)
        ensures
            r == self@.crypt_method,
    {
        self.crypt_method
    }

    /// `dwUnique`.
    pub fn unique(&self) -> (r: u32)
        ensures
            r == self@.unique,
    {
        self.unique
    }

    /// `bidNextP`.
    pub fn next_page(&self) -> (r: UnicodeBlockId)
        ensures
            r@ as u64 == self@.next_page,
    {
        self.next_page
    }

    /// `bidNextB`.
    pub fn next_block(&self) -> (r: UnicodeBlockId)
        ensures
            r@ as u64 == self@.next_block,
    {
        self.next_block
    }

    /// `rgnid`: the 32 node id counters.
    pub fn nids(&self) -> (r: &[u32])
        ensures
            r@ == self@.nids,
            r@.len() == 32,
    {
        proof {
            use_type_invariant(self);
        }
        self.nids.as_slice()
    }

    /// Reads a header from the first 564 bytes of `b`, checking the magic values, the CRCs, the
    /// version, the reserved fields and the encoding, in file order.
    pub fn read(b: &[u8]) -> (r: Result<UnicodeHeader, NdbError>)
        ensures
            view_result(r) == read_header_prefix(b@, 564, NdbVersion::Unicode, |s: Seq<u8>| parse_unicode_header(s)),
    {
        if let Err(e) = check_header_prefix(b, NdbVersion::Unicode) {
            return Err(e);
        }
        if b.len() < 564 {
            return Err(NdbError::UnexpectedEndOfData);
        }
        let ghost full = b@;
        let b = &b[0..564];
        proof {
            assert(b@.subrange(0, 479) =~= full.subrange(0, 479));
            assert(b@.subrange(0, 4) =~= full.subrange(0, 4));
            lemma_header_prefix(b@, 524);
            let dd = b@.subrange(8, 524);
            assert(u32_at(b@, 0) == HEADER_MAGIC);
            assert(u32_at(b@, 4) == spec_crc(0, dd.subrange(0, 471)));
            assert(u16_at(dd, 0) == HEADER_MAGIC_CLIENT);
            assert(NdbVersion::spec_from_code(u16_at(dd, 2)) == Some(NdbVersion::Unicode));
        }
        let d = &b[8..524];
        assert(d@.subrange(0, 471) =~= b@.subrange(8, 479));
        assert(d@.subrange(0, 2) =~= b@.subrange(8, 10));
        assert(d@.subrange(2, 4) =~= b@.subrange(10, 12));
        let crc_full = read_u32_at(b, 524);
        if crc_full != compute_crc(0, d) {
            return Err(NdbError::InvalidNdbHeaderFullCrc(crc_full));
        }
        let client_version = read_u16_at(d, 4);
        if client_version != NDB_CLIENT_VERSION {
            return Err(NdbError::InvalidNdbHeaderClientVersion(client_version));
        }
        if d[6] != NDB_PLATFORM_CREATE {
            return Err(NdbError::InvalidNdbHeaderPlatformCreate(d[6]));
        }
        if d[7] != NDB_PLATFORM_ACCESS {
            return Err(NdbError::InvalidNdbHeaderPlatformAccess(d[7]));
        }
        let reserved1 = read_u32_at(d, 8);
        let reserved2 = read_u32_at(d, 12);
        let unused = read_u64_at(d, 16);
        let next_page = UnicodeBlockId::from_raw(read_u64_at(d, 24));
        let unique = read_u32_at(d, 32);
        let nids = read_u32s_at(d, 36, 32);
        let qw_unused = read_u64_at(d, 164);
        if qw_unused != 0 {
            return Err(NdbError::InvalidNdbHeaderUnusedValue(qw_unused));
        }
        let root = UnicodeRoot::read(&d[172..244]);
        let align = read_u32_at(d, 244);
        if align != 0 {
            return Err(NdbError::InvalidNdbHeaderAlignValue(align));
        }
        if d[504] != NDB_SENTINEL {
            return Err(NdbError::InvalidNdbHeaderSentinelValue(d[504]));
        }
        let crypt_method = match NdbCryptMethod::try_from_u8(d[505]) {
            Ok(c) => c,
            Err(e) => return Err(e),
        };
        let reserved = read_u16_at(d, 506);
        if reserved != 0 {
            return Err(NdbError::InvalidNdbHeaderReservedValue(reserved));
        }
        let next_block = UnicodeBlockId::from_raw(read_u64_at(d, 508));
        let reserved3 = copy_range(b, 528, 564);
        Ok(UnicodeHeader {
            next_page, unique, nids, root, crypt_method, next_block, reserved1, reserved2, unused, reserved3,
        })
    }

    /// Appends the 564 bytes of the header, with freshly computed CRCs.
    pub fn write(&self, out: &mut Vec<u8>)
        ensures
            final(out)@ == old(out)@ + unicode_header_bytes(self@),
            final(out)@.len() == old(out)@.len() + 564,
    {
        proof {
            use_type_invariant(self);
        }
        let mut data: Vec<u8> = Vec::new();
        push_u16(&mut data, HEADER_MAGIC_CLIENT);
        push_u16(&mut data, NdbVersion::Unicode.code());
        push_u16(&mut data, NDB_CLIENT_VERSION);
        push_u8(&mut data, NDB_PLATFORM_CREATE);
        push_u8(&mut data, NDB_PLATFORM_ACCESS);
        push_u32(&mut data, self.reserved1);
        push_u32(&mut data, self.reserved2);
        push_u64(&mut data, self.unused);
        self.next_page.write(&mut data);
        push_u32(&mut data, self.unique);
        push_u32s(&mut data, self.nids.as_slice());
        push_u64(&mut data, 0);
        self.root.write(&mut data);
        push_u32(&mut data, 0);
        push_fill(&mut data, 0xFF, 128);
        push_fill(&mut data, 0xFF, 128);
        push_u8(&mut data, NDB_SENTINEL);
        push_u8(&mut data, self.crypt_method.code());
        push_u16(&mut data, 0);
        self.next_block.write(&mut data);
        assert(data@ =~= unicode_header_data(self@));
        proof {
            lemma_unicode_header_data_len(self@);
        }
        let crc_partial = compute_crc(0, &data[0..471]);
        let crc_full = compute_crc(0, data.as_slice());
        push_u32(out, HEADER_MAGIC);
        push_u32(out, crc_partial);
        push_bytes(out, data.as_slice());
        push_u32(out, crc_full);
        push_bytes(out, self.reserved3.as_slice());
        assert(out@ =~= old(out)@ + unicode_header_bytes(self@));
        proof {
            lemma_le_roundtrip();
        }
    }
}

impl Header for UnicodeHeader {
    type Root = UnicodeRoot;

    /// A new header with the given root and encoding, the default node id counters and
    /// zero in all other fields.
    fn new(root: UnicodeRoot, crypt_method: NdbCryptMethod) -> (r: UnicodeHeader)
        ensures
            r@ == (UnicodeHeaderModel {
                next_page: 0,
                unique: 0,
                nids: default_nids(),
                root: root@,
                crypt_method,
                next_block: 0,
                reserved1: 0,
                reserved2: 0,
                unused: 0,
                reserved3: zeros(36),
            }),
    {
        let mut reserved3: Vec<u8> = Vec::new();
        push_zeros(&mut reserved3, 36);
        UnicodeHeader {
            next_page: UnicodeBlockId::from_raw(0),
            unique: 0,
            nids: new_default_nids(),
            root,
            crypt_method,
            next_block: UnicodeBlockId::from_raw(0),
            reserved1: 0,
            reserved2: 0,
            unused: 0,
            reserved3,
        }
    }

    /// The format version of this header.
    fn version(&self) -> (r: NdbVersion)
        ensures
            r == NdbVersion::Unicode,
    {
        NdbVersion::Unicode
    }

    /// The root.
    fn root(&self) -> (r: &UnicodeRoot)
        ensures
            r@ == self@.root,
    {
        &self.root
    }
}

/// The data part of a Unicode header is 516 bytes long.
pub proof fn lemma_unicode_header_data_len(m: UnicodeHeaderModel)
    requires
        m.nids.len() == 32,
    ensures
        unicode_header_data(m).len() == 516,
{
    lemma_le_roundtrip();
    lemma_u32s_bytes(m.nids);
}

/// The fields of a Unicode header read back from its data part.
proof fn lemma_unicode_header_data_fields(m: UnicodeHeaderModel)
    requires
        m.nids.len() == 32,
    ensures
        ({
            let d = unicode_header_data(m);
            &&& d.len() == 516
            &&& u16_at(d, 0) == HEADER_MAGIC_CLIENT
            &&& u16_at(d, 2) == 23
            &&& u16_at(d, 4) == NDB_CLIENT_VERSION
            &&& d[6] == NDB_PLATFORM_CREATE
            &&& d[7] == NDB_PLATFORM_ACCESS
            &&& u32_at(d, 8) == m.reserved1
            &&& u32_at(d, 12) == m.reserved2
        }),
{
    lemma_le_roundtrip();
    lemma_u32s_bytes(m.nids);
    let d = unicode_header_data(m);
    assert(d.subrange(0, 2) =~= le16(HEADER_MAGIC_CLIENT));
    assert(d.subrange(2, 4) =~= le16(23));
    assert(d.subrange(4, 6) =~= le16(NDB_CLIENT_VERSION));
    assert(d.subrange(8, 12) =~= le32(m.reserved1));
    assert(d.subrange(12, 16) =~= le32(m.reserved2));
}

/// Reading the bytes of a Unicode header gives the same header.
pub proof fn lemma_unicode_header_roundtrip(m: UnicodeHeaderModel)
    requires
        m.nids.len() == 32 && m.reserved3.len() == 36,
    ensures
        unicode_header_bytes(m).len() == 564,
        parse_unicode_header(unicode_header_bytes(m)) == Ok::<UnicodeHeaderModel, NdbError>(m),
{
    lemma_le_roundtrip();
    lemma_u32s_bytes(m.nids);
    lemma_unicode_header_data_fields(m);
    let d = unicode_header_data(m);
    let s = unicode_header_bytes(m);
    assert(d.subrange(0, 2) =~= le16(HEADER_MAGIC_CLIENT));
    assert(d.subrange(2, 4) =~= le16(23));
    assert(d.subrange(4, 6) =~= le16(NDB_CLIENT_VERSION));
    assert(d.subrange(8, 12) =~= le32(m.reserved1));
    assert(d.subrange(12, 16) =~= le32(m.reserved2));
    assert(d.subrange(16, 24) =~= le64(m.unused));
    assert(d.subrange(24, 32) =~= le64(m.next_page));
    assert(d.subrange(32, 36) =~= le32(m.unique));
    assert(d.subrange(36, 164) =~= u32s_bytes(m.nids));
    lemma_u32s_at(d, 36, m.nids);
    assert(d.subrange(164, 172) =~= le64(0));
    assert(d.subrange(172, 244) =~= unicode_root_bytes(m.root));
    lemma_unicode_root_roundtrip(m.root);
    assert(d.subrange(244, 248) =~= le32(0));
    assert(d.subrange(506, 508) =~= le16(0));
    assert(d.subrange(508, 516) =~= le64(m.next_block));
    assert(s.subrange(0, 4) =~= le32(HEADER_MAGIC));
    assert(s.subrange(4, 8) =~= le32(spec_crc(0, d.subrange(0, 471))));
    assert(s.subrange(8, 524) =~= d);
    assert(s.subrange(524, 528) =~= le32(spec_crc(0, d)));
    assert(s.subrange(528, 564) =~= m.reserved3);
    assert(s.subrange(8, 524) =~= d);
}

/// The fields of an ANSI header; block ids are widened to 64 bits.
pub struct AnsiHeaderModel {
    pub next_page: u64,
    pub unique: u32,
    pub nids: Seq<u32>,
    pub root: RootModel,
    pub crypt_method: NdbCryptMethod,
    pub next_block: u64,
    pub reserved1: u32,
    pub reserved2: u32,
    pub reserved3: Seq<u8>,
}

/// HEADER of an ANSI file.
pub struct AnsiHeader {
    next_page: AnsiBlockId,
    unique: u32,
    nids: Vec<u32>,
    root: AnsiRoot,
    crypt_method: NdbCryptMethod,
    next_block: AnsiBlockId,
    reserved1: u32,
    reserved2: u32,
    reserved3: Vec<u8>,
}

impl View for AnsiHeader {
    type V = AnsiHeaderModel;

    closed spec fn view(&self) -> AnsiHeaderModel {
        AnsiHeaderModel {
            next_page: self.next_page@ as u64,
            unique: self.unique,
            nids: self.nids@,
            root: self.root@,
            crypt_method: self.crypt_method,
            next_block: self.next_block@ as u64,
            reserved1: self.reserved1,
            reserved2: self.reserved2,
            reserved3: self.reserved3@,
        }
    }
}

/// The 504 bytes after the partial CRC of an ANSI header; the free map bytes are
/// written as 0xFF, the reserved fields before the last 36 reserved bytes as zeros.
pub open spec fn ansi_header_data(m: AnsiHeaderModel) -> Seq<u8> {
    le16(HEADER_MAGIC_CLIENT) + le16(15) + le16(NDB_CLIENT_VERSION) + seq![NDB_PLATFORM_CREATE, NDB_PLATFORM_ACCESS] + le32(m.reserved1) + le32(m.reserved2) + le32(m.next_block as u32) + le32(m.next_page as u32) + le32(m.unique) + u32s_bytes(m.nids) + ansi_root_bytes(m.root) + fill(128, 0xFF) + fill(128, 0xFF) + seq![NDB_SENTINEL, m.crypt_method.spec_code()] + le16(0) + zeros(12) + m.reserved3
}

/// The 512 bytes of an ANSI header, with its partial CRC.
pub open spec fn ansi_header_bytes(m: AnsiHeaderModel) -> Seq<u8> {
    le32(HEADER_MAGIC) + le32(spec_crc(0, ansi_header_data(m).subrange(0, 471))) + ansi_header_data(m)
}

/// The ANSI header held in `s`, checked field by field in file order.
pub open spec fn parse_ansi_header(s: Seq<u8>) -> Result<AnsiHeaderModel, NdbError> {
    let d = s.subrange(8, 512);
    if u32_at(s, 0) != HEADER_MAGIC {
        Err(NdbError::InvalidNdbHeaderMagicValue(u32_at(s, 0)))
    } else if u32_at(s, 4) != spec_crc(0, d.subrange(0, 471)) {
        Err(NdbError::InvalidNdbHeaderPartialCrc(u32_at(s, 4)))
    } else if u16_at(d, 0) != HEADER_MAGIC_CLIENT {
        Err(NdbError::InvalidNdbHeaderMagicClientValue(u16_at(d, 0)))
    } else {
        match NdbVersion::spec_from_code(u16_at(d, 2)) {
            None => Err(NdbError::InvalidNdbVersion(u16_at(d, 2))),
            Some(v) => if v != NdbVersion::Ansi {
                Err(NdbError::UnicodePstVersion(v.spec_code()))
            } else {
                if u16_at(d, 4) != NDB_CLIENT_VERSION {
                    Err(NdbError::InvalidNdbHeaderClientVersion(u16_at(d, 4)))
                } else if d[6] != NDB_PLATFORM_CREATE {
                    Err(NdbError::InvalidNdbHeaderPlatformCreate(d[6]))
                } else if d[7] != NDB_PLATFORM_ACCESS {
                    Err(NdbError::InvalidNdbHeaderPlatformAccess(d[7]))
                } else if d[452] != NDB_SENTINEL {
                    Err(NdbError::InvalidNdbHeaderSentinelValue(d[452]))
                } else {
                    match NdbCryptMethod::spec_from_code(d[453]) {
                        None => Err(NdbError::InvalidNdbCryptMethod(d[453])),
                        Some(c) => if u16_at(d, 454) != 0 {
                            Err(NdbError::InvalidNdbHeaderReservedValue(u16_at(d, 454)))
                        } else if d.subrange(456, 468) != zeros(12) {
                            Err(NdbError::InvalidNdbHeaderAnsiReservedBytes)
                        } else {
                            Ok(AnsiHeaderModel {
                                next_page: u32_at(d, 20) as u64,
                                unique: u32_at(d, 24),
                                nids: u32s_at(d, 28, 32),
                                root: parse_ansi_root(d.subrange(156, 196)),
                                crypt_method: c,
                                next_block: u32_at(d, 16) as u64,
                                reserved1: u32_at(d, 8),
                                reserved2: u32_at(d, 12),
                                reserved3: d.subrange(468, 504),
                            })
                        },
                    }
                }
            },
        }
    }
}

impl AnsiHeader {
    #[verifier::type_invariant]
    spec fn wf(&self) -> bool {
        self.nids@.len() == 32 && self.reserved3@.len() == 36
    }

    /// Replaces the root.
    pub fn set_root(&mut self, root: AnsiRoot)
        ensures
            final(self)@ == (AnsiHeaderModel { root: root@, ..old(self)@ }),
    {
        proof {
            use_type_invariant(&*self);
        }
        self.root = root;
    }

    /// The encoding of the data blocks.
    pub fn crypt_method(&self) -> (r: NdbCryptMethod)
        ensures
            r == self@.crypt_method,
    {
        self.crypt_method
    }

    /// `dwUnique`.
    pub fn unique(&self) -> (r: u32)
        ensures
            r == self@.unique,
    {
        self.unique
    }

    /// `bidNextP`.
    pub fn next_page(&self) -> (r: AnsiBlockId)
        ensures
            r@ as u64 == self@.next_page,
    {
        self.next_page
    }

    /// `bidNextB`.
    pub fn next_block(&self) -> (r: AnsiBlockId)
        ensures
            r@ as u64 == self@.next_block,
    {
        self.next_block
    }

    /// `rgnid`: the 32 node id counters.
    pub fn nids(&self) -> (r: &[u32])
        ensures
            r@ == self@.nids,
            r@.len() == 32,
    {
        proof {
            use_type_invariant(self);
        }
        self.nids.as_slice()
    }

    /// Reads a header from the first 512 bytes of `b`, checking the magic values, the CRCs, the
    /// version, the reserved fields and the encoding, in file order.
    pub fn read(b: &[u8]) -> (r: Result<AnsiHeader, NdbError>)
        ensures
            view_result(r) == read_header_prefix(b@, 512, NdbVersion::Ansi, |s: Seq<u8>| parse_ansi_header(s)),
    {
        if let Err(e) = check_header_prefix(b, NdbVersion::Ansi) {
            return Err(e);
        }
        if b.len() < 512 {
            return Err(NdbError::UnexpectedEndOfData);
        }
        let ghost full = b@;
        let b = &b[0..512];
        proof {
            assert(b@.subrange(0, 479) =~= full.subrange(0, 479));
            assert(b@.subrange(0, 4) =~= full.subrange(0, 4));
            lemma_header_prefix(b@, 512);
            let dd = b@.subrange(8, 512);
            assert(u32_at(b@, 0) == HEADER_MAGIC);
            assert(u32_at(b@, 4) == spec_crc(0, dd.subrange(0, 471)));
            assert(u16_at(dd, 0) == HEADER_MAGIC_CLIENT);
            assert(NdbVersion::spec_from_code(u16_at(dd, 2)) == Some(NdbVersion::Ansi));
        }
        let d = &b[8..512];
        let client_version = read_u16_at(d, 4);
        if client_version != NDB_CLIENT_VERSION {
            return Err(NdbError::InvalidNdbHeaderClientVersion(client_version));
        }
        if d[6] != NDB_PLATFORM_CREATE {
            return Err(NdbError::InvalidNdbHeaderPlatformCreate(d[6]));
        }
        if d[7] != NDB_PLATFORM_ACCESS {
            return Err(NdbError::InvalidNdbHeaderPlatformAccess(d[7]));
        }
        let reserved1 = read_u32_at(d, 8);
        let reserved2 = read_u32_at(d, 12);
        let next_block = AnsiBlockId::from_raw(read_u32_at(d, 16));
        let next_page = AnsiBlockId::from_raw(read_u32_at(d, 20));
        let unique = read_u32_at(d, 24);
        let nids = read_u32s_at(d, 28, 32);
        let root = AnsiRoot::read(&d[156..196]);
        if d[452] != NDB_SENTINEL {
            return Err(NdbError::InvalidNdbHeaderSentinelValue(d[452]));
        }
        let crypt_method = match NdbCryptMethod::try_from_u8(d[453]) {
            Ok(c) => c,
            Err(e) => return Err(e),
        };
        let reserved = read_u16_at(d, 454);
        if reserved != 0 {
            return Err(NdbError::InvalidNdbHeaderReservedValue(reserved));
        }
        if !all_zero(d, 456, 468) {
            return Err(NdbError::InvalidNdbHeaderAnsiReservedBytes);
        }
        let reserved3 = copy_range(d, 468, 504);
        Ok(AnsiHeader {
            next_page, unique, nids, root, crypt_method, next_block, reserved1, reserved2, reserved3,
        })
    }

    /// Appends the 512 bytes of the header, with a freshly computed partial CRC.
    pub fn write(&self, out: &mut Vec<u8>)
        ensures
            final(out)@ == old(out)@ + ansi_header_bytes(self@),
            final(out)@.len() == old(out)@.len() + 512,
    {
        proof {
            use_type_invariant(self);
        }
        let mut data: Vec<u8> = Vec::new();
        push_u16(&mut data, HEADER_MAGIC_CLIENT);
        push_u16(&mut data, NdbVersion::Ansi.code());
        push_u16(&mut data, NDB_CLIENT_VERSION);
        push_u8(&mut data, NDB_PLATFORM_CREATE);
        push_u8(&mut data, NDB_PLATFORM_ACCESS);
        push_u32(&mut data, self.reserved1);
        push_u32(&mut data, self.reserved2);
        self.next_block.write(&mut data);
        self.next_page.write(&mut data);
        push_u32(&mut data, self.unique);
        push_u32s(&mut data, self.nids.as_slice());
        self.root.write(&mut data);
        push_fill(&mut data, 0xFF, 128);
        push_fill(&mut data, 0xFF, 128);
        push_u8(&mut data, NDB_SENTINEL);
        push_u8(&mut data, self.crypt_method.code());
        push_u16(&mut data, 0);
        push_zeros(&mut data, 12);
        push_bytes(&mut data, self.reserved3.as_slice());
        assert(data@ =~= ansi_header_data(self@));
        proof {
            lemma_ansi_header_data_len(self@);
        }
        let crc_partial = compute_crc(0, &data[0..471]);
        push_u32(out, HEADER_MAGIC);
        push_u32(out, crc_partial);
        push_bytes(out, data.as_slice());
        assert(out@ =~= old(out)@ + ansi_header_bytes(self@));
        proof {
            lemma_le_roundtrip();
        }
    }
}

impl Header for AnsiHeader {
    type Root = AnsiRoot;

    /// A new header with the given root and encoding, the default node id counters and
    /// zero in all other fields.
    fn new(root: AnsiRoot, crypt_method: NdbCryptMethod) -> (r: AnsiHeader)
        ensures
            r@ == (AnsiHeaderModel {
                next_page: 0,
                unique: 0,
                nids: default_nids(),
                root: root@,
                crypt_method,
                next_block: 0,
                reserved1: 0,
                reserved2: 0,
                reserved3: zeros(36),
            }),
    {
        let mut reserved3: Vec<u8> = Vec::new();
        push_zeros(&mut reserved3, 36);
        AnsiHeader {
            next_page: AnsiBlockId::from_raw(0),
            unique: 0,
            nids: new_default_nids(),
            root,
            crypt_method,
            next_block: AnsiBlockId::from_raw(0),
            reserved1: 0,
            reserved2: 0,
            reserved3,
        }
    }

    /// The format version of this header.
    fn version(&self) -> (r: NdbVersion)
        ensures
            r == NdbVersion::Ansi,
    {
        NdbVersion::Ansi
    }

    /// The root.
    fn root(&self) -> (r: &AnsiRoot)
        ensures
            r@ == self@.root,
    {
        &self.root
    }
}

/// The data part of an ANSI header is 504 bytes long.
pub proof fn lemma_ansi_header_data_len(m: AnsiHeaderModel)
    requires
        m.nids.len() == 32,
        m.reserved3.len() == 36,
    ensures
        ansi_header_data(m).len() == 504,
{
    lemma_le_roundtrip();
    lemma_u32s_bytes(m.nids);
}

/// The fields of an ANSI header read back from its data part.
proof fn lemma_ansi_header_data_fields(m: AnsiHeaderModel)
    requires
        m.nids.len() == 32 && m.reserved3.len() == 36 && ansi_root_fits(m.root) && m.next_page <= u32::MAX
            && m.next_block <= u32::MAX,
    ensures
        ({
            let d = ansi_header_data(m);
            &&& d.len() == 504
            &&& u16_at(d, 0) == HEADER_MAGIC_CLIENT
            &&& u16_at(d, 2) == 15
            &&& u16_at(d, 4) == NDB_CLIENT_VERSION
            &&& d[6] == NDB_PLATFORM_CREATE
            &&& d[7] == NDB_PLATFORM_ACCESS
            &&& u32_at(d, 8) == m.reserved1
            &&& u32_at(d, 12) == m.reserved2
        }),
{
    lemma_le_roundtrip();
    lemma_u32s_bytes(m.nids);
    let d = ansi_header_data(m);
    assert(d.subrange(0, 2) =~= le16(HEADER_MAGIC_CLIENT));
    assert(d.subrange(2, 4) =~= le16(15));
    assert(d.subrange(4, 6) =~= le16(NDB_CLIENT_VERSION));
    assert(d.subrange(8, 12) =~= le32(m.reserved1));
    assert(d.subrange(12, 16) =~= le32(m.reserved2));
}

/// Reading the bytes of an ANSI header gives the same header.
#[verifier::rlimit(60)]
pub proof fn lemma_ansi_header_roundtrip(m: AnsiHeaderModel)
    requires
        m.nids.len() == 32 && m.reserved3.len() == 36 && ansi_root_fits(m.root) && m.next_page <= u32::MAX && m.next_block <= u32::MAX,
    ensures
        ansi_header_bytes(m).len() == 512,
        parse_ansi_header(ansi_header_bytes(m)) == Ok::<AnsiHeaderModel, NdbError>(m),
{
    lemma_le_roundtrip();
    lemma_u32s_bytes(m.nids);
    lemma_ansi_header_data_fields(m);
    let d = ansi_header_data(m);
    let s = ansi_header_bytes(m);
    assert(d.subrange(0, 2) =~= le16(HEADER_MAGIC_CLIENT));
    assert(d.subrange(2, 4) =~= le16(15));
    assert(d.subrange(4, 6) =~= le16(NDB_CLIENT_VERSION));
    assert(d.subrange(8, 12) =~= le32(m.reserved1));
    assert(d.subrange(12, 16) =~= le32(m.reserved2));
    assert(d.subrange(16, 20) =~= le32(m.next_block as u32));
    assert(d.subrange(20, 24) =~= le32(m.next_page as u32));
    assert(d.subrange(24, 28) =~= le32(m.unique));
    assert(d.subrange(28, 156) =~= u32s_bytes(m.nids));
    lemma_u32s_at(d, 28, m.nids);
    assert(d.subrange(156, 196) =~= ansi_root_bytes(m.root));
    lemma_ansi_root_roundtrip(m.root);
    assert(d.subrange(454, 456) =~= le16(0));
    assert(d.subrange(456, 468) =~= zeros(12));
    assert(d.subrange(468, 504) =~= m.reserved3);
    assert(s.subrange(0, 4) =~= le32(HEADER_MAGIC));
    assert(s.subrange(4, 8) =~= le32(spec_crc(0, d.subrange(0, 471))));
    assert(s.subrange(8, 512) =~= d);
}

} // verus!
