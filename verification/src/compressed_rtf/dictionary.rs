//! Dictionary:
//! the 4096-byte circular dictionary that compressed RTF refers back to.

use vstd::prelude::*;
use crate::codec::{be16_value, push_u16_be, read_u16_be_at};

verus! {

/// Errors of dictionary references.
#[derive(Debug, Clone, Copy, PartialEq, Eq, Structural)]
pub enum Error {
    /// The offset does not fit in 12 bits.
    InvalidDictionaryReferenceOffset(u16),
    /// The length is not between 2 and 17.
    InvalidDictionaryReferenceLength(u8),
    /// The data ended before a reference was complete.
    UnexpectedEndOfData,
}

/// The size of the dictionary.
pub const DICTIONARY_SIZE: usize = 4096;

/// The longest match a reference can hold.
pub const MAX_MATCH_LENGTH: usize = 17;

/// The text the dictionary starts with.
pub open spec fn initial_dictionary() -> Seq<u8> {
    seq![
        0x7Bu8, 0x5Cu8, 0x72u8, 0x74u8, 0x66u8, 0x31u8, 0x5Cu8, 0x61u8, 0x6Eu8, 0x73u8, 0x69u8, 0x5Cu8,
        0x6Du8, 0x61u8, 0x63u8, 0x5Cu8, 0x64u8, 0x65u8, 0x66u8, 0x66u8, 0x30u8, 0x5Cu8, 0x64u8, 0x65u8,
        0x66u8, 0x74u8, 0x61u8, 0x62u8, 0x37u8, 0x32u8, 0x30u8, 0x7Bu8, 0x5Cu8, 0x66u8, 0x6Fu8, 0x6Eu8,
        0x74u8, 0x74u8, 0x62u8, 0x6Cu8, 0x3Bu8, 0x7Du8, 0x7Bu8, 0x5Cu8, 0x66u8, 0x30u8, 0x5Cu8, 0x66u8,
        0x6Eu8, 0x69u8, 0x6Cu8, 0x20u8, 0x5Cu8, 0x66u8, 0x72u8, 0x6Fu8, 0x6Du8, 0x61u8, 0x6Eu8, 0x20u8,
        0x5Cu8, 0x66u8, 0x73u8, 0x77u8, 0x69u8, 0x73u8, 0x73u8, 0x20u8, 0x5Cu8, 0x66u8, 0x6Du8, 0x6Fu8,
        0x64u8, 0x65u8, 0x72u8, 0x6Eu8, 0x20u8, 0x5Cu8, 0x66u8, 0x73u8, 0x63u8, 0x72u8, 0x69u8, 0x70u8,
        0x74u8, 0x20u8, 0x5Cu8, 0x66u8, 0x64u8, 0x65u8, 0x63u8, 0x6Fu8, 0x72u8, 0x20u8, 0x4Du8, 0x53u8,
        0x20u8, 0x53u8, 0x61u8, 0x6Eu8, 0x73u8, 0x20u8, 0x53u8, 0x65u8, 0x72u8, 0x69u8, 0x66u8, 0x53u8,
        0x79u8, 0x6Du8, 0x62u8, 0x6Fu8, 0x6Cu8, 0x41u8, 0x72u8, 0x69u8, 0x61u8, 0x6Cu8, 0x54u8, 0x69u8,
        0x6Du8, 0x65u8, 0x73u8, 0x20u8, 0x4Eu8, 0x65u8, 0x77u8, 0x20u8, 0x52u8, 0x6Fu8, 0x6Du8, 0x61u8,
        0x6Eu8, 0x43u8, 0x6Fu8, 0x75u8, 0x72u8, 0x69u8, 0x65u8, 0x72u8, 0x7Bu8, 0x5Cu8, 0x63u8, 0x6Fu8,
        0x6Cu8, 0x6Fu8, 0x72u8, 0x74u8, 0x62u8, 0x6Cu8, 0x5Cu8, 0x72u8, 0x65u8, 0x64u8, 0x30u8, 0x5Cu8,
        0x67u8, 0x72u8, 0x65u8, 0x65u8, 0x6Eu8, 0x30u8, 0x5Cu8, 0x62u8, 0x6Cu8, 0x75u8, 0x65u8, 0x30u8,
        0x0Du8, 0x0Au8, 0x5Cu8, 0x70u8, 0x61u8, 0x72u8, 0x20u8, 0x5Cu8, 0x70u8, 0x61u8, 0x72u8, 0x64u8,
        0x5Cu8, 0x70u8, 0x6Cu8, 0x61u8, 0x69u8, 0x6Eu8, 0x5Cu8, 0x66u8, 0x30u8, 0x5Cu8, 0x66u8, 0x73u8,
        0x32u8, 0x30u8, 0x5Cu8, 0x62u8, 0x5Cu8, 0x69u8, 0x5Cu8, 0x75u8, 0x5Cu8, 0x74u8, 0x61u8, 0x62u8,
        0x5Cu8, 0x74u8, 0x78u8
    ]
}

/// The fields of a dictionary.
pub struct DictionaryModel {
    pub buffer: Seq<u8>,
    pub size: nat,
    pub read_offset: nat,
    pub write_offset: nat,
}

impl DictionaryModel {
    /// The buffer holds 4096 bytes and the offsets and size stay within it.
    pub open spec fn wf(self) -> bool {
        &&& self.buffer.len() == DICTIONARY_SIZE
        &&& self.size <= DICTIONARY_SIZE
        &&& self.read_offset < DICTIONARY_SIZE
        &&& self.write_offset < DICTIONARY_SIZE
    }
}

/// The dictionary after `byte` is added at its write offset: the size grows up to
/// 4096 and the write offset moves on, wrapping at 4096.
pub open spec fn spec_write_byte(m: DictionaryModel, byte: u8) -> DictionaryModel {
    DictionaryModel {
        buffer: m.buffer.update(m.write_offset as int, byte),
        size: if m.size + 1 < DICTIONARY_SIZE { m.size + 1 } else { DICTIONARY_SIZE as nat },
        read_offset: m.read_offset,
        write_offset: ((m.write_offset + 1) % (DICTIONARY_SIZE as nat)) as nat,
    }
}

/// `TokenDictionary`: the dictionary of a compressed RTF stream.
pub struct TokenDictionary {
    buffer: Vec<u8>,
    size: usize,
    read_offset: usize,
    write_offset: usize,
}

impl View for TokenDictionary {
    type V = DictionaryModel;

    closed spec fn view(&self) -> DictionaryModel {
        DictionaryModel {
            buffer: self.buffer@,
            size: self.size as nat,
            read_offset: self.read_offset as nat,
            write_offset: self.write_offset as nat,
        }
    }
}

/// The dictionary every stream starts with: the initial text, then zeros, with the
/// write offset just past the text.
pub open spec fn initial_model() -> DictionaryModel {
    DictionaryModel {
        buffer: initial_dictionary() + Seq::new((DICTIONARY_SIZE - 207) as nat, |i: int| 0u8),
        size: 207,
        read_offset: 0,
        write_offset: 207,
    }
}

impl Default for TokenDictionary {
    fn default() -> (r: TokenDictionary)
        ensures
            r@ == initial_model(),
    {
        TokenDictionary::new()
    }
}

impl TokenDictionary {
    /// The dictionary every stream starts with.
    pub fn new() -> (r: TokenDictionary)
        ensures
            r@ == initial_model(),
    {
        let mut buffer: Vec<u8> = vec![
            0x7B, 0x5C, 0x72, 0x74, 0x66, 0x31, 0x5C, 0x61, 0x6E, 0x73, 0x69, 0x5C, 0x6D, 0x61, 0x63, 0x5C,
            0x64, 0x65, 0x66, 0x66, 0x30, 0x5C, 0x64, 0x65, 0x66, 0x74, 0x61, 0x62, 0x37, 0x32, 0x30, 0x7B,
            0x5C, 0x66, 0x6F, 0x6E, 0x74, 0x74, 0x62, 0x6C, 0x3B, 0x7D, 0x7B, 0x5C, 0x66, 0x30, 0x5C, 0x66,
            0x6E, 0x69, 0x6C, 0x20, 0x5C, 0x66, 0x72, 0x6F, 0x6D, 0x61, 0x6E, 0x20, 0x5C, 0x66, 0x73, 0x77,
            0x69, 0x73, 0x73, 0x20, 0x5C, 0x66, 0x6D, 0x6F, 0x64, 0x65, 0x72, 0x6E, 0x20, 0x5C, 0x66, 0x73,
            0x63, 0x72, 0x69, 0x70, 0x74, 0x20, 0x5C, 0x66, 0x64, 0x65, 0x63, 0x6F, 0x72, 0x20, 0x4D, 0x53,
            0x20, 0x53, 0x61, 0x6E, 0x73, 0x20, 0x53, 0x65, 0x72, 0x69, 0x66, 0x53, 0x79, 0x6D, 0x62, 0x6F,
            0x6C, 0x41, 0x72, 0x69, 0x61, 0x6C, 0x54, 0x69, 0x6D, 0x65, 0x73, 0x20, 0x4E, 0x65, 0x77, 0x20,
            0x52, 0x6F, 0x6D, 0x61, 0x6E, 0x43, 0x6F, 0x75, 0x72, 0x69, 0x65, 0x72, 0x7B, 0x5C, 0x63, 0x6F,
            0x6C, 0x6F, 0x72, 0x74, 0x62, 0x6C, 0x5C, 0x72, 0x65, 0x64, 0x30, 0x5C, 0x67, 0x72, 0x65, 0x65,
            0x6E, 0x30, 0x5C, 0x62, 0x6C, 0x75, 0x65, 0x30, 0x0D, 0x0A, 0x5C, 0x70, 0x61, 0x72, 0x20, 0x5C,
            0x70, 0x61, 0x72, 0x64, 0x5C, 0x70, 0x6C, 0x61, 0x69, 0x6E, 0x5C, 0x66, 0x30, 0x5C, 0x66, 0x73,
            0x32, 0x30, 0x5C, 0x62, 0x5C, 0x69, 0x5C, 0x75, 0x5C, 0x74, 0x61, 0x62, 0x5C, 0x74, 0x78
        ];
        assert(buffer@ =~= initial_dictionary());
        crate::codec::push_zeros(&mut buffer, DICTIONARY_SIZE - 207);
        assert(buffer@ =~= initial_model().buffer);
        TokenDictionary { buffer, size: 207, read_offset: 0, write_offset: 207 }
    }

    /// Adds `byte` at the write offset.
    pub fn write_byte(&mut self, byte: u8)
        requires
            old(self)@.wf(),
        ensures
            final(self)@ == spec_write_byte(old(self)@, byte),
            final(self)@.wf(),
    {
        self.buffer.set(self.write_offset, byte);
        self.size = if self.size + 1 < DICTIONARY_SIZE { self.size + 1 } else { DICTIONARY_SIZE };
        self.write_offset = (self.write_offset + 1) % DICTIONARY_SIZE;
    }
}


/// Dictionary Reference:
/// a 12-bit offset into the dictionary above a 4-bit length less 2, stored big-endian.
#[derive(Debug, Clone, Copy, PartialEq, Eq, Structural)]
pub struct DictionaryReference(u16);

impl View for DictionaryReference {
    type V = u16;

    closed spec fn view(&self) -> u16 {
        self.0
    }
}

/// The offset of a raw reference: its upper 12 bits.
pub open spec fn reference_offset(v: u16) -> u16 {
    (v & 0xFFF0) >> 4
}

/// The length of a raw reference: its lower 4 bits plus 2.
pub open spec fn reference_length(v: u16) -> u8 {
    ((v & 0x0F) as u8 + 2) as u8
}

/// The raw reference to `length_minus_2 + 2` bytes at `offset`; the offset is shifted
/// into the upper 12 bits and the length ORed into the lower bits.
pub open spec fn spec_reference(offset: u16, length_minus_2: u8) -> u16 {
    (length_minus_2 as u16) | ((offset << 4) as u16)
}

/// A match found in the dictionary: where it starts and how long it is.
#[derive(Debug, Clone, Copy, PartialEq, Eq, Structural)]
pub struct DictionaryMatch {
    pub offset: u16,
    pub length: u8,
}

/// The reference for a match: the offset must fit in 12 bits and the length be 2 to 17.
pub open spec fn spec_reference_for(m: DictionaryMatch) -> Result<u16, Error> {
    if m.offset > 0x0FFF {
        Err(Error::InvalidDictionaryReferenceOffset(m.offset))
    } else if !(2 <= m.length <= 0x11) {
        Err(Error::InvalidDictionaryReferenceLength(m.length))
    } else {
        Ok(spec_reference(m.offset, (m.length - 2) as u8))
    }
}

/// A reference made for a match stands for that match: its offset and length give back
/// the match's offset and length.
pub proof fn lemma_reference_for_match(offset: u16, length: u8)
    requires
        offset <= 0x0FFF,
        2 <= length <= 17,
    ensures
        spec_reference_for(DictionaryMatch { offset, length }) == Ok::<u16, Error>(spec_reference(offset, (length - 2) as u8)),
        reference_offset(spec_reference(offset, (length - 2) as u8)) == offset,
        reference_length(spec_reference(offset, (length - 2) as u8)) == length,
{
    let l = (length - 2) as u8;
    assert(offset <= 0x0FFF && l <= 15 ==> {
        &&& ((((l as u16) | ((offset << 4) as u16)) & 0xFFF0) >> 4) == offset
        &&& (((l as u16) | ((offset << 4) as u16)) & 0x0F) as u8 == l
    }) by (bit_vector);
}

impl DictionaryReference {
    fn new(offset: u16, length_minus_2: u8) -> (r: DictionaryReference)
        ensures
            r@ == spec_reference(offset, length_minus_2),
    {
        DictionaryReference((length_minus_2 as u16) | (offset << 4))
    }

    /// The reference for a match: the offset must fit in 12 bits and the length be 2 to 17.
    pub fn try_from_match(offset: u16, length: u8) -> (r: Result<DictionaryReference, Error>)
        ensures
            match r {
                Ok(d) => spec_reference_for(DictionaryMatch { offset, length }) == Ok::<u16, Error>(d@),
                Err(e) => spec_reference_for(DictionaryMatch { offset, length }) == Err::<u16, Error>(e),
            },
    {
        if offset > 0x0FFF {
            return Err(Error::InvalidDictionaryReferenceOffset(offset));
        }
        if !(2 <= length && length <= 0x11) {
            return Err(Error::InvalidDictionaryReferenceLength(length));
        }
        Ok(DictionaryReference::new(offset, length - 2))
    }

    /// The offset into the dictionary.
    pub fn offset(&self) -> (r: u16)
        ensures
            r == reference_offset(self@),
            r < 4096,
    {
        let v = self.0;
        assert((v & 0xFFF0) >> 4 < 4096) by (bit_vector);
        (v & 0xFFF0) >> 4
    }

    /// The number of bytes the reference stands for.
    pub fn length(&self) -> (r: u8)
        ensures
            r == reference_length(self@),
            2 <= r <= 17,
    {
        let v = self.0;
        assert((v & 0x0F) as u8 <= 15) by (bit_vector);
        (v & 0x0F) as u8 + 2
    }

    /// Reads a reference from the first 2 bytes of `b`, high byte first.
    pub fn read(b: &[u8]) -> (r: Result<DictionaryReference, Error>)
        ensures
            b@.len() < 2 ==> r == Err::<DictionaryReference, Error>(Error::UnexpectedEndOfData),
            b@.len() >= 2 ==> (r matches Ok(d) && d@ as int == be16_value(b@)),
    {
        if b.len() < 2 {
            return Err(Error::UnexpectedEndOfData);
        }
        let v = read_u16_be_at(b, 0);
        Ok(DictionaryReference(v))
    }

    /// Appends the 2 big-endian bytes of the reference.
    pub fn write(&self, out: &mut Vec<u8>)
        ensures
            final(out)@.len() == old(out)@.len() + 2,
            final(out)@.subrange(0, old(out)@.len() as int) == old(out)@,
            be16_value(final(out)@.subrange(old(out)@.len() as int, old(out)@.len() + 2int)) == self@,
    {
        push_u16_be(out, self.0);
    }
}

/// The bytes copied for `k` more bytes of a reference, and the dictionary after: each
/// byte is read at the read offset, which moves on, and is added to the dictionary.
pub open spec fn copy_loop(m: DictionaryModel, k: nat, out: Seq<u8>) -> (DictionaryModel, Seq<u8>)
    decreases k,
{
    if k == 0 {
        (m, out)
    } else {
        let b = m.buffer[m.read_offset as int];
        let m1 = DictionaryModel { read_offset: ((m.read_offset + 1) % (DICTIONARY_SIZE as nat)) as nat, ..m };
        copy_loop(spec_write_byte(m1, b), (k - 1) as nat, out.push(b))
    }
}

/// What a reference reads: nothing when it points at the write offset (the end of the
/// stream), else its bytes, read from its offset on and added to the dictionary one by one.
pub open spec fn spec_read_reference(m: DictionaryModel, r: u16) -> (DictionaryModel, Option<Seq<u8>>) {
    if reference_offset(r) == m.write_offset {
        (m, None)
    } else {
        let m0 = DictionaryModel { read_offset: reference_offset(r) as nat, ..m };
        let c = copy_loop(m0, reference_length(r) as nat, Seq::empty());
        (c.0, Some(c.1))
    }
}

/// The buffer after the bytes `s` are written one after another from offset `w` on,
/// wrapping at 4096.
pub open spec fn write_all(buffer: Seq<u8>, w: nat, s: Seq<u8>) -> Seq<u8>
    decreases s.len(),
{
    if s.len() == 0 {
        buffer
    } else {
        write_all(buffer.update((w % (DICTIONARY_SIZE as nat)) as int, s[0]), w + 1, s.subrange(1, s.len() as int))
    }
}

/// Copying `k` bytes: the output grows by the `k` bytes, byte `i` of which is read at
/// `read_offset + i` (wrapping) from the buffer as the bytes before it left it; those
/// bytes are written from the write offset on, which moves on by `k`, and the size
/// grows by `k` up to 4096.
proof fn lemma_copy_loop(m: DictionaryModel, k: nat, out: Seq<u8>)
    requires
        m.wf(),
    ensures
        ({
            let (m2, out2) = copy_loop(m, k, out);
            let new = out2.subrange(out.len() as int, out2.len() as int);
            &&& m2.wf()
            &&& out2.len() == out.len() + k
            &&& out2.subrange(0, out.len() as int) == out
            &&& m2.write_offset == (m.write_offset + k) % (DICTIONARY_SIZE as nat)
            &&& m2.read_offset == (m.read_offset + k) % (DICTIONARY_SIZE as nat)
            &&& m2.size == (if m.size + k < DICTIONARY_SIZE { m.size + k } else { DICTIONARY_SIZE as nat })
            &&& m2.buffer == write_all(m.buffer, m.write_offset, new)
            &&& forall|i: int| 0 <= i < k ==> #[trigger] new[i]
                == write_all(m.buffer, m.write_offset, new.subrange(0, i))[(m.read_offset + i) % (DICTIONARY_SIZE as int)]
        }),
    decreases k,
{
    if k > 0 {
        let b = m.buffer[m.read_offset as int];
        let m1 = DictionaryModel { read_offset: ((m.read_offset + 1) % (DICTIONARY_SIZE as nat)) as nat, ..m };
        let m3 = spec_write_byte(m1, b);
        lemma_copy_loop(m3, (k - 1) as nat, out.push(b));
        let (m2, out2) = copy_loop(m, k, out);
        assert(copy_loop(m, k, out) == copy_loop(m3, (k - 1) as nat, out.push(b)));
        let new = out2.subrange(out.len() as int, out2.len() as int);
        let rest = out2.subrange(out.len() as int + 1, out2.len() as int);
        assert(out2.subrange(0, out.len() as int + 1) == out.push(b));
        assert(out2[out.len() as int] == out.push(b)[out.len() as int]);
        assert(out2.subrange(0, out.len() as int) =~= out.push(b).subrange(0, out.len() as int));
        assert(new[0] == b);
        assert(new.subrange(1, new.len() as int) =~= rest);
        lemma_copy_step(m, m3, b, new, rest, k);
    }
}

/// The step of `lemma_copy_loop`: copying the first byte `b` and then the `rest`.
proof fn lemma_copy_step(m: DictionaryModel, m3: DictionaryModel, b: u8, new: Seq<u8>, rest: Seq<u8>, k: nat)
    requires
        m.wf(),
        k > 0,
        b == m.buffer[m.read_offset as int],
        m3 == spec_write_byte(DictionaryModel { read_offset: ((m.read_offset + 1) % (DICTIONARY_SIZE as nat)) as nat, ..m }, b),
        new.len() == k,
        new[0] == b,
        new.subrange(1, new.len() as int) == rest,
        forall|i: int| 0 <= i < k - 1 ==> #[trigger] rest[i]
            == write_all(m3.buffer, m3.write_offset, rest.subrange(0, i))[(m3.read_offset + i) % (DICTIONARY_SIZE as int)],
    ensures
        write_all(m.buffer, m.write_offset, new) == write_all(m3.buffer, m3.write_offset, rest),
        forall|i: int| 0 <= i < k ==> #[trigger] new[i]
            == write_all(m.buffer, m.write_offset, new.subrange(0, i))[(m.read_offset + i) % (DICTIONARY_SIZE as int)],
{
    assert(m.write_offset % (DICTIONARY_SIZE as nat) == m.write_offset);
    assert(write_all(m.buffer, m.write_offset, new) == write_all(m3.buffer, m.write_offset + 1, rest));
    lemma_write_all_mod(m3.buffer, m.write_offset + 1, rest);
    assert forall|i: int| 0 <= i < k implies #[trigger] new[i]
        == write_all(m.buffer, m.write_offset, new.subrange(0, i))[(m.read_offset + i) % (DICTIONARY_SIZE as int)] by {
        if i == 0 {
            assert(new.subrange(0, 0) =~= Seq::<u8>::empty());
        } else {
            assert(new[i] == rest[i - 1]);
            assert(new.subrange(0, i).subrange(1, i) =~= rest.subrange(0, i - 1));
            assert(new.subrange(0, i)[0] == b);
            assert(write_all(m.buffer, m.write_offset, new.subrange(0, i))
                == write_all(m3.buffer, m.write_offset + 1, rest.subrange(0, i - 1)));
            lemma_write_all_mod(m3.buffer, m.write_offset + 1, rest.subrange(0, i - 1));
            assert(rest[i - 1] == write_all(m3.buffer, m3.write_offset, rest.subrange(0, i - 1))[(m3.read_offset + (i - 1)) % (DICTIONARY_SIZE as int)]);
            assert((m3.read_offset + (i - 1)) % (DICTIONARY_SIZE as int) == (m.read_offset + i) % (DICTIONARY_SIZE as int));
        }
    }
}

/// Writing from offset `w` is writing from `w` wrapped at 4096.
proof fn lemma_write_all_mod(buffer: Seq<u8>, w: nat, s: Seq<u8>)
    ensures
        write_all(buffer, w, s) == write_all(buffer, w % (DICTIONARY_SIZE as nat), s),
    decreases s.len(),
{
    if s.len() > 0 {
        let n = DICTIONARY_SIZE as nat;
        assert((w % n) % n == w % n);
        assert((w + 1) % n == ((w % n) + 1) % n);
        let b1 = buffer.update((w % n) as int, s[0]);
        lemma_write_all_mod(b1, w + 1, s.subrange(1, s.len() as int));
        lemma_write_all_mod(b1, (w % n) + 1, s.subrange(1, s.len() as int));
    }
}

/// Reading a reference that does not end the stream gives as many bytes as its length:
/// byte `i` is read at the reference's offset plus `i` (wrapping at 4096) from the
/// dictionary as the bytes before it left it, and the bytes are added to the
/// dictionary from the write offset on, which moves on by the length, as the size
/// grows up to 4096.
pub proof fn lemma_read_reference(m: DictionaryModel, r: u16)
    requires
        m.wf(),
        reference_offset(r) != m.write_offset,
    ensures
        ({
            let (m2, v) = spec_read_reference(m, r);
            let len = reference_length(r) as nat;
            let off = reference_offset(r) as nat;
            &&& v is Some
            &&& v->0.len() == len
            &&& forall|i: int| 0 <= i < len ==> #[trigger] v->0[i]
                == write_all(m.buffer, m.write_offset, v->0.subrange(0, i))[(off + i) % (DICTIONARY_SIZE as int)]
            &&& m2.buffer == write_all(m.buffer, m.write_offset, v->0)
            &&& m2.write_offset == (m.write_offset + len) % (DICTIONARY_SIZE as nat)
            &&& m2.size == (if m.size + len < DICTIONARY_SIZE { m.size + len } else { DICTIONARY_SIZE as nat })
        }),
{
    assert(reference_offset(r) < DICTIONARY_SIZE) by (bit_vector);
    let m0 = DictionaryModel { read_offset: reference_offset(r) as nat, ..m };
    lemma_copy_loop(m0, reference_length(r) as nat, Seq::empty());
    let c = copy_loop(m0, reference_length(r) as nat, Seq::empty());
    assert(c.1.subrange(0, c.1.len() as int) =~= c.1);
}

impl TokenDictionary {
    /// Reads the bytes a reference stands for, adding each to the dictionary as it is
    /// read; none when the reference points at the write offset, which ends the stream.
    pub fn read_reference(&mut self, offset: DictionaryReference) -> (r: Option<Vec<u8>>)
        requires
            old(self)@.wf(),
        ensures
            final(self)@.wf(),
            final(self)@ == spec_read_reference(old(self)@, offset@).0,
            match r {
                Some(v) => spec_read_reference(old(self)@, offset@).1 == Some(v@),
                None => spec_read_reference(old(self)@, offset@).1 is None,
            },
    {
        let off = offset.offset() as usize;
        let length = offset.length() as usize;
        if off == self.write_offset {
            return None;
        }
        let mut result: Vec<u8> = Vec::new();
        self.read_offset = off;
        let ghost m0 = self@;
        let mut i: usize = 0;
        while i < length
            invariant
                self@.wf(),
                i <= length,
                copy_loop(m0, length as nat, Seq::empty()) == copy_loop(self@, (length - i) as nat, result@),
            decreases length - i,
        {
            let byte = self.buffer[self.read_offset];
            result.push(byte);
            self.read_offset = (self.read_offset + 1) % DICTIONARY_SIZE;
            self.write_byte(byte);
            i = i + 1;
        }
        Some(result)
    }

    /// The reference that ends a stream: the write offset with the shortest length.
    pub fn final_reference(self) -> (r: DictionaryReference)
        requires
            self@.wf(),
        ensures
            r@ == spec_reference(self@.write_offset as u16, 0),
    {
        DictionaryReference::new(self.write_offset as u16, 0)
    }
}


/// The matching of the input `rtf` against the dictionary from dictionary offset `d`,
/// `ml` bytes matched so far, up to `max` bytes: each matched byte beyond the best
/// length so far is added to the dictionary, which later comparisons see.
pub open spec fn match_loop(m: DictionaryModel, rtf: Seq<u8>, d: nat, ml: nat, max: nat, best: u8) -> (DictionaryModel, nat)
    decreases max - ml,
{
    if ml >= max || m.buffer[d as int] != rtf[ml as int] {
        (m, ml)
    } else {
        let m1 = if ml + 1 > best { spec_write_byte(m, rtf[ml as int]) } else { m };
        match_loop(m1, rtf, ((d + 1) % (DICTIONARY_SIZE as nat)) as nat, ml + 1, max, best)
    }
}

/// The longest match that a reference can hold for the input.
pub open spec fn max_match(rtf: Seq<u8>) -> nat {
    if rtf.len() < MAX_MATCH_LENGTH { rtf.len() } else { MAX_MATCH_LENGTH as nat }
}

/// Matching the input at dictionary offset `mo` when the best match so far is `best`
/// bytes long: the match found, if longer, and the dictionary after.
pub open spec fn spec_try_match(m: DictionaryModel, rtf: Seq<u8>, mo: u16, best: u8) -> (DictionaryModel, Option<DictionaryMatch>) {
    let r = match_loop(m, rtf, mo as nat, 0, max_match(rtf), best);
    (r.0, if r.1 > best { Some(DictionaryMatch { offset: mo, length: r.1 as u8 }) } else { None })
}

/// How many offsets are left from `mo` before the search reaches `fin` again.
pub open spec fn search_measure(mo: int, fin: int) -> int {
    let d = (fin - mo + DICTIONARY_SIZE) % (DICTIONARY_SIZE as int);
    if d == 0 { DICTIONARY_SIZE as int } else { d }
}

/// The length of the best match so far; 0 when there is none.
pub open spec fn best_length(best: Option<DictionaryMatch>) -> u8 {
    match best {
        Some(b) => b.length,
        None => 0,
    }
}

/// The search for the longest match from dictionary offset `mo` on: it tries each
/// offset in turn, keeps a longer match when it finds one, and stops at `fin` or at a
/// match of 17 bytes.
pub open spec fn search_loop(m: DictionaryModel, rtf: Seq<u8>, mo: nat, fin: nat, best: Option<DictionaryMatch>) -> (DictionaryModel, Option<DictionaryMatch>)
    decreases search_measure(mo as int, fin as int),
    when mo < DICTIONARY_SIZE && fin < DICTIONARY_SIZE
{
    let t = spec_try_match(m, rtf, mo as u16, best_length(best));
    let best1 = match t.1 {
        Some(x) => Some(x),
        None => best,
    };
    let mo1 = ((mo + 1) % (DICTIONARY_SIZE as nat)) as nat;
    if mo1 == fin || best_length(best1) == 17 {
        (t.0, best1)
    } else {
        search_loop(t.0, rtf, mo1, fin, best1)
    }
}

/// Finding the Longest Match to Input:
/// the search runs from offset 0 while the dictionary is not full, else from just past
/// the write offset, until it comes back to the write offset; when nothing matched, the
/// first input byte is added to the dictionary. The reference of the best match is
/// returned when it can hold it.
pub open spec fn spec_find_longest_match(m: DictionaryModel, rtf: Seq<u8>) -> (DictionaryModel, Option<u16>) {
    let fin = (m.write_offset % (DICTIONARY_SIZE as nat)) as nat;
    let mo0: nat = if m.size != DICTIONARY_SIZE { 0 } else { ((m.write_offset + 1) % (DICTIONARY_SIZE as nat)) as nat };
    let r = search_loop(m, rtf, mo0, fin, None);
    let m2 = if best_length(r.1) == 0 { spec_write_byte(r.0, rtf[0]) } else { r.0 };
    (m2, match r.1 {
        Some(b) => match spec_reference_for(b) {
            Ok(v) => Some(v),
            Err(_) => None,
        },
        None => None,
    })
}

/// Matching never goes past the longest match the input allows.
proof fn lemma_match_loop_bound(m: DictionaryModel, rtf: Seq<u8>, d: nat, ml: nat, max: nat, best: u8)
    requires
        ml <= max,
    ensures
        ml <= match_loop(m, rtf, d, ml, max, best).1 <= max,
    decreases max - ml,
{
    if !(ml >= max || m.buffer[d as int] != rtf[ml as int]) {
        let m1 = if ml + 1 > best { spec_write_byte(m, rtf[ml as int]) } else { m };
        lemma_match_loop_bound(m1, rtf, ((d + 1) % (DICTIONARY_SIZE as nat)) as nat, ml + 1, max, best);
    }
}

/// The best match of a search is never longer than the input allows.
proof fn lemma_search_loop_bound(m: DictionaryModel, rtf: Seq<u8>, mo: nat, fin: nat, best: Option<DictionaryMatch>)
    requires
        mo < DICTIONARY_SIZE,
        fin < DICTIONARY_SIZE,
        best_length(best) <= max_match(rtf),
    ensures
        best_length(search_loop(m, rtf, mo, fin, best).1) <= max_match(rtf),
    decreases search_measure(mo as int, fin as int),
{
    lemma_match_loop_bound(m, rtf, mo, 0, max_match(rtf), best_length(best));
    let t = spec_try_match(m, rtf, mo as u16, best_length(best));
    let best1 = match t.1 {
        Some(x) => Some(x),
        None => best,
    };
    let mo1 = ((mo + 1) % (DICTIONARY_SIZE as nat)) as nat;
    if !(mo1 == fin || best_length(best1) == 17) {
        lemma_search_loop_bound(t.0, rtf, mo1, fin, best1);
    }
}

/// The reference that the search for the longest match returns stands for a match of
/// at least 2 bytes and no longer than the input allows (17 bytes at most).
pub proof fn lemma_longest_match_length(m: DictionaryModel, rtf: Seq<u8>)
    requires
        m.wf(),
    ensures
        spec_find_longest_match(m, rtf).1 matches Some(r)
            ==> 2 <= reference_length(r) <= max_match(rtf) && reference_offset(r) < DICTIONARY_SIZE,
{
    let fin = (m.write_offset % (DICTIONARY_SIZE as nat)) as nat;
    let mo0: nat = if m.size != DICTIONARY_SIZE { 0 } else { ((m.write_offset + 1) % (DICTIONARY_SIZE as nat)) as nat };
    lemma_search_loop_bound(m, rtf, mo0, fin, None);
    let r = search_loop(m, rtf, mo0, fin, None);
    if let Some(b) = r.1 {
        if spec_reference_for(b) is Ok {
            lemma_reference_for_match(b.offset, b.length);
        }
    }
}

/// Writing one more byte after `s` is writing `s`, then that byte after it.
proof fn lemma_write_all_push(buffer: Seq<u8>, w: nat, s: Seq<u8>, x: u8)
    ensures
        write_all(buffer, w, s.push(x))
            == write_all(buffer, w, s).update(((w + s.len()) % (DICTIONARY_SIZE as nat)) as int, x),
    decreases s.len(),
{
    let n = DICTIONARY_SIZE as nat;
    if s.len() == 0 {
        assert(s.push(x).subrange(1, 1) =~= Seq::<u8>::empty());
        assert(s.push(x)[0] == x);
        assert(write_all(buffer, w, s.push(x)) == write_all(buffer.update((w % n) as int, x), w + 1, Seq::<u8>::empty()));
    } else {
        let b1 = buffer.update((w % n) as int, s[0]);
        let t = s.subrange(1, s.len() as int);
        assert(s.push(x).subrange(1, s.len() as int + 1) =~= t.push(x));
        assert(s.push(x)[0] == s[0]);
        assert(write_all(buffer, w, s.push(x)) == write_all(b1, w + 1, t.push(x)));
        assert(write_all(buffer, w, s) == write_all(b1, w + 1, t));
        lemma_write_all_push(b1, w + 1, t, x);
        assert(w + 1 + t.len() == w + s.len());
    }
}

/// The dictionary `m` is `m0` with the first `e` input bytes added at its write offset.
pub open spec fn appended(m0: DictionaryModel, m: DictionaryModel, rtf: Seq<u8>, e: nat) -> bool {
    &&& m.wf()
    &&& e <= rtf.len()
    &&& m.buffer == write_all(m0.buffer, m0.write_offset, rtf.subrange(0, e as int))
    &&& m.write_offset == (m0.write_offset + e) % (DICTIONARY_SIZE as nat)
    &&& m.size == (if m0.size + e < DICTIONARY_SIZE { m0.size + e } else { DICTIONARY_SIZE as nat })
    &&& m.read_offset == m0.read_offset
}

/// The larger of two lengths.
pub open spec fn max_len(a: nat, b: nat) -> nat {
    if a >= b { a } else { b }
}

/// Adding the next input byte `rtf[e]` keeps the dictionary the starting one with the
/// first `e + 1` input bytes added.
proof fn lemma_appended_step(m0: DictionaryModel, m: DictionaryModel, rtf: Seq<u8>, e: nat)
    requires
        m0.wf(),
        appended(m0, m, rtf, e),
        e < rtf.len(),
    ensures
        appended(m0, spec_write_byte(m, rtf[e as int]), rtf, e + 1),
{
    lemma_write_all_push(m0.buffer, m0.write_offset, rtf.subrange(0, e as int), rtf[e as int]);
    assert(rtf.subrange(0, e as int).push(rtf[e as int]) =~= rtf.subrange(0, e as int + 1));
    assert((m0.write_offset + e) % (DICTIONARY_SIZE as nat) + 1 < DICTIONARY_SIZE + 1);
    assert(((m0.write_offset + e) % (DICTIONARY_SIZE as nat) + 1) % (DICTIONARY_SIZE as nat)
        == (m0.write_offset + e + 1) % (DICTIONARY_SIZE as nat));
}

/// Matching adds to the dictionary exactly the input bytes beyond the best length so
/// far that it matched.
proof fn lemma_match_loop_appends(m0: DictionaryModel, m: DictionaryModel, rtf: Seq<u8>, d: nat, ml: nat, max: nat, best: u8)
    requires
        m0.wf(),
        d < DICTIONARY_SIZE,
        ml <= max <= rtf.len(),
        best <= max,
        appended(m0, m, rtf, max_len(ml, best as nat)),
    ensures
        appended(m0, match_loop(m, rtf, d, ml, max, best).0, rtf, max_len(match_loop(m, rtf, d, ml, max, best).1, best as nat)),
    decreases max - ml,
{
    if !(ml >= max || m.buffer[d as int] != rtf[ml as int]) {
        let m1 = if ml + 1 > best { spec_write_byte(m, rtf[ml as int]) } else { m };
        if ml + 1 > best {
            lemma_appended_step(m0, m, rtf, ml);
        }
        lemma_match_loop_appends(m0, m1, rtf, ((d + 1) % (DICTIONARY_SIZE as nat)) as nat, ml + 1, max, best);
    }
}

/// The search adds to the dictionary exactly the first input bytes, as many as the
/// longest match found; every match it keeps starts at an offset of the dictionary.
proof fn lemma_search_loop_appends(
    m0: DictionaryModel,
    m: DictionaryModel,
    rtf: Seq<u8>,
    mo: nat,
    fin: nat,
    best: Option<DictionaryMatch>,
)
    requires
        m0.wf(),
        mo < DICTIONARY_SIZE,
        fin < DICTIONARY_SIZE,
        best_length(best) <= max_match(rtf),
        best matches Some(b) ==> b.offset < DICTIONARY_SIZE,
        appended(m0, m, rtf, best_length(best) as nat),
    ensures
        appended(m0, search_loop(m, rtf, mo, fin, best).0, rtf, best_length(search_loop(m, rtf, mo, fin, best).1) as nat),
        search_loop(m, rtf, mo, fin, best).1 matches Some(b) ==> b.offset < DICTIONARY_SIZE,
    decreases search_measure(mo as int, fin as int),
{
    let bl = best_length(best);
    lemma_match_loop_bound(m, rtf, mo, 0, max_match(rtf), bl);
    lemma_match_loop_appends(m0, m, rtf, mo, 0, max_match(rtf), bl);
    let t = spec_try_match(m, rtf, mo as u16, bl);
    let best1 = match t.1 {
        Some(x) => Some(x),
        None => best,
    };
    let mo1 = ((mo + 1) % (DICTIONARY_SIZE as nat)) as nat;
    if !(mo1 == fin || best_length(best1) == 17) {
        lemma_search_loop_appends(m0, t.0, rtf, mo1, fin, best1);
    }
}

/// The length of the longest match that the search finds for the input: 0 when
/// nothing matched.
pub open spec fn longest_match_len(m: DictionaryModel, rtf: Seq<u8>) -> nat {
    let fin = (m.write_offset % (DICTIONARY_SIZE as nat)) as nat;
    let mo0: nat = if m.size != DICTIONARY_SIZE { 0 } else { ((m.write_offset + 1) % (DICTIONARY_SIZE as nat)) as nat };
    best_length(search_loop(m, rtf, mo0, fin, None).1) as nat
}

/// Finding the longest match of a non-empty input, whose longest match is `L` bytes
/// long: a reference comes back exactly when `L` is at least 2, and it stands for `L`
/// bytes; in every case the first `max(L, 1)` input bytes are added to the dictionary
/// at its write offset, which moves on by as many, as the size grows up to 4096.
pub proof fn lemma_longest_match_appends(m: DictionaryModel, rtf: Seq<u8>)
    requires
        m.wf(),
        rtf.len() >= 1,
    ensures
        ({
            let fin = (m.write_offset % (DICTIONARY_SIZE as nat)) as nat;
            let mo0: nat = if m.size != DICTIONARY_SIZE { 0 } else { ((m.write_offset + 1) % (DICTIONARY_SIZE as nat)) as nat };
            let len = longest_match_len(m, rtf);
            let (m2, r) = spec_find_longest_match(m, rtf);
            &&& len <= max_match(rtf)
            &&& (r is Some <==> len >= 2)
            &&& (r matches Some(v) ==> reference_length(v) == len)
            &&& appended(m, m2, rtf, max_len(len, 1))
        }),
{
    let fin = (m.write_offset % (DICTIONARY_SIZE as nat)) as nat;
    let mo0: nat = if m.size != DICTIONARY_SIZE { 0 } else { ((m.write_offset + 1) % (DICTIONARY_SIZE as nat)) as nat };
    assert(rtf.subrange(0, 0) =~= Seq::<u8>::empty());
    assert(m.write_offset % (DICTIONARY_SIZE as nat) == m.write_offset);
    assert(appended(m, m, rtf, 0));
    lemma_search_loop_bound(m, rtf, mo0, fin, None);
    lemma_search_loop_appends(m, m, rtf, mo0, fin, None);
    let r = search_loop(m, rtf, mo0, fin, None);
    if best_length(r.1) == 0 {
        lemma_appended_step(m, r.0, rtf, 0);
    }
    if let Some(b) = r.1 {
        if 2 <= b.length {
            lemma_reference_for_match(b.offset, b.length);
        }
    }
}

/// How far offset `o` lies after offset `mo`, going round the dictionary.
pub open spec fn window_distance(mo: int, o: int) -> int {
    (o - mo + DICTIONARY_SIZE) % (DICTIONARY_SIZE as int)
}

/// Every match the search keeps, beyond the one it started with, starts at one of the
/// offsets it tried: fewer than `search_measure(mo, fin)` steps after `mo`.
proof fn lemma_search_loop_window(m: DictionaryModel, rtf: Seq<u8>, mo: nat, fin: nat, best: Option<DictionaryMatch>)
    requires
        mo < DICTIONARY_SIZE,
        fin < DICTIONARY_SIZE,
    ensures
        search_loop(m, rtf, mo, fin, best).1 == best
            || (search_loop(m, rtf, mo, fin, best).1 matches Some(b)
                && window_distance(mo as int, b.offset as int) < search_measure(mo as int, fin as int)),
    decreases search_measure(mo as int, fin as int),
{
    let t = spec_try_match(m, rtf, mo as u16, best_length(best));
    let best1 = match t.1 {
        Some(x) => Some(x),
        None => best,
    };
    let mo1 = ((mo + 1) % (DICTIONARY_SIZE as nat)) as nat;
    if let Some(x) = t.1 {
        assert(x.offset == mo);
        assert(window_distance(mo as int, mo as int) == 0);
    }
    if !(mo1 == fin || best_length(best1) == 17) {
        lemma_search_loop_window(t.0, rtf, mo1, fin, best1);
        let r = search_loop(t.0, rtf, mo1, fin, best1);
        if let Some(b) = r.1 {
            if r.1 != best1 {
                assert(window_distance(mo as int, b.offset as int) == window_distance(mo1 as int, b.offset as int) + 1
                    || window_distance(mo1 as int, b.offset as int) == DICTIONARY_SIZE - 1);
                assert(search_measure(mo as int, fin as int) == search_measure(mo1 as int, fin as int) + 1);
            }
        }
    }
}

/// The match that the search for the longest match finds starts in its window: before
/// the write offset while the dictionary is not full, anywhere but the write offset
/// once it is.
pub proof fn lemma_longest_match_window(m: DictionaryModel, rtf: Seq<u8>)
    requires
        m.wf(),
    ensures
        ({
            let fin = (m.write_offset % (DICTIONARY_SIZE as nat)) as nat;
            let mo0: nat = if m.size != DICTIONARY_SIZE { 0 } else { ((m.write_offset + 1) % (DICTIONARY_SIZE as nat)) as nat };
            &&& search_loop(m, rtf, mo0, fin, None).1 matches Some(b) ==> {
                &&& b.offset < DICTIONARY_SIZE
                &&& m.size != DICTIONARY_SIZE && m.write_offset > 0 ==> b.offset < m.write_offset
                &&& m.size == DICTIONARY_SIZE ==> b.offset != m.write_offset
            }
            &&& spec_find_longest_match(m, rtf).1 matches Some(v) ==> {
                &&& m.size != DICTIONARY_SIZE && m.write_offset > 0 ==> reference_offset(v) < m.write_offset
                &&& m.size == DICTIONARY_SIZE ==> reference_offset(v) != m.write_offset
            }
        }),
{
    let fin = (m.write_offset % (DICTIONARY_SIZE as nat)) as nat;
    let mo0: nat = if m.size != DICTIONARY_SIZE { 0 } else { ((m.write_offset + 1) % (DICTIONARY_SIZE as nat)) as nat };
    lemma_search_loop_window(m, rtf, mo0, fin, None);
    assert(rtf.subrange(0, 0) =~= Seq::<u8>::empty());
    assert(appended(m, m, rtf, 0));
    if best_length(None) <= max_match(rtf) {
        lemma_search_loop_appends(m, m, rtf, mo0, fin, None);
    }
    let r = search_loop(m, rtf, mo0, fin, None);
    if let Some(b) = r.1 {
        if 2 <= b.length <= 17 && b.offset <= 0x0FFF {
            lemma_reference_for_match(b.offset, b.length);
        }
    }
}

/// Writing the bytes `s` (no more than 4096 of them) from offset `w` on: position `p`
/// then holds byte `(p - w) mod 4096` of `s` when there is one, else what it held.
proof fn lemma_write_all_index(buffer: Seq<u8>, w: nat, s: Seq<u8>, p: int)
    requires
        buffer.len() == DICTIONARY_SIZE,
        w < DICTIONARY_SIZE,
        s.len() <= DICTIONARY_SIZE,
        0 <= p < DICTIONARY_SIZE,
    ensures
        write_all(buffer, w, s).len() == DICTIONARY_SIZE,
        write_all(buffer, w, s)[p] == (if (p - w + DICTIONARY_SIZE) % (DICTIONARY_SIZE as int) < s.len() {
            s[(p - w + DICTIONARY_SIZE) % (DICTIONARY_SIZE as int)]
        } else {
            buffer[p]
        }),
    decreases s.len(),
{
    let n = DICTIONARY_SIZE as int;
    if s.len() == 0 {
    } else {
        let t = s.drop_last();
        let x = s.last();
        assert(t.push(x) =~= s);
        lemma_write_all_index(buffer, w, t, p);
        lemma_write_all_push(buffer, w, t, x);
        let q = (p - w + n) % n;
        let pos = (w + t.len()) % (n as nat);
        if p >= w {
            assert(q == p - w);
        } else {
            assert(q == p - w + n);
        }
        if w + t.len() < n {
            assert(pos == w + t.len());
        } else {
            assert(pos == w + t.len() - n);
        }
        assert(pos == p <==> q == t.len());
        if q < t.len() {
            assert(t[q] == s[q]);
        }
    }
}

/// The byte that a match at dictionary offset `o` compares with input byte `i`: the
/// dictionary's own byte before the write offset is reached, and past it the input
/// byte that the match has added there by then.
pub open spec fn seen_byte(m: DictionaryModel, rtf: Seq<u8>, o: nat, i: nat) -> u8 {
    let d = (m.write_offset + DICTIONARY_SIZE - o) % (DICTIONARY_SIZE as int);
    if i >= d {
        rtf[i - d]
    } else {
        m.buffer[((o + i) as int) % (DICTIONARY_SIZE as int)]
    }
}

/// How far the input matches from dictionary offset `o`, `ml` bytes matched so far,
/// up to `max` bytes.
pub open spec fn match_from(m: DictionaryModel, rtf: Seq<u8>, o: nat, ml: nat, max: nat) -> nat
    decreases max - ml,
{
    if ml >= max || seen_byte(m, rtf, o, ml) != rtf[ml as int] {
        ml
    } else {
        match_from(m, rtf, o, ml + 1, max)
    }
}

/// How many bytes of the input (up to 17) match at dictionary offset `o`.
pub open spec fn match_len_at(m: DictionaryModel, rtf: Seq<u8>, o: nat) -> nat {
    match_from(m, rtf, o, 0, max_match(rtf))
}

/// The bytes that a match at offset `o` compares are the same whatever the search has
/// added to the dictionary before it: true of every offset but the write offset and
/// the 16 just after it.
pub open spec fn clear_of_writes(m: DictionaryModel, o: nat) -> bool {
    &&& o < DICTIONARY_SIZE
    &&& o != m.write_offset
    &&& (m.write_offset + DICTIONARY_SIZE - o) % (DICTIONARY_SIZE as int) + MAX_MATCH_LENGTH <= DICTIONARY_SIZE
}

/// Where the search for the longest match starts: offset 0 while the dictionary is not
/// full, else just past the write offset.
pub open spec fn search_start(m: DictionaryModel) -> nat {
    if m.size != DICTIONARY_SIZE { 0 } else { ((m.write_offset + 1) % (DICTIONARY_SIZE as nat)) as nat }
}

/// The offsets the search may refer to: those before the write offset while the
/// dictionary is not full, every one but the write offset once it is.
pub open spec fn in_window(m: DictionaryModel, o: nat) -> bool {
    &&& o < DICTIONARY_SIZE
    &&& o != m.write_offset
    &&& (m.size != DICTIONARY_SIZE ==> o < m.write_offset)
}

/// Offset `o1` comes before offset `o2` in the search, which runs round the dictionary
/// from its start.
pub open spec fn scans_before(m: DictionaryModel, o1: nat, o2: nat) -> bool {
    window_distance(search_start(m) as int, o1 as int) < window_distance(search_start(m) as int, o2 as int)
}

/// A match never ends before where it stands nor goes past `max`.
proof fn lemma_match_from_bound(m: DictionaryModel, rtf: Seq<u8>, o: nat, ml: nat, max: nat)
    requires
        ml <= max,
    ensures
        ml <= match_from(m, rtf, o, ml, max) <= max,
    decreases max - ml,
{
    if !(ml >= max || seen_byte(m, rtf, o, ml) != rtf[ml as int]) {
        lemma_match_from_bound(m, rtf, o, ml + 1, max);
    }
}

/// At an offset clear of the search's writes, matching in the dictionary as the search
/// has left it goes exactly as far as `match_from` says.
proof fn lemma_match_loop_clear(m0: DictionaryModel, m: DictionaryModel, rtf: Seq<u8>, o: nat, ml: nat, max: nat, best: u8)
    requires
        m0.wf(),
        clear_of_writes(m0, o),
        ml <= max <= rtf.len(),
        max <= MAX_MATCH_LENGTH,
        best <= max,
        appended(m0, m, rtf, max_len(ml, best as nat)),
    ensures
        match_loop(m, rtf, ((o + ml) % (DICTIONARY_SIZE as nat)) as nat, ml, max, best).1 == match_from(m0, rtf, o, ml, max),
    decreases max - ml,
{
    let n = DICTIONARY_SIZE as int;
    let p = ((o + ml) as int) % n;
    let e = max_len(ml, best as nat);
    let w = m0.write_offset;
    if ml < max {
        lemma_write_all_index(m0.buffer, w, rtf.subrange(0, e as int), p);
        let d = (w + n - o) % n;
        let q = (p - w + n) % n;
        if o < w {
            assert(d == w - o);
        } else {
            assert(d == w + n - o);
        }
        if o + ml < n {
            assert(p == o + ml);
        } else {
            assert(p == o + ml - n);
        }
        if ml >= d {
            assert(q == ml - d);
            assert(m.buffer[p] == rtf[ml - d]);
        } else {
            assert(q == n - d + ml);
            assert(m.buffer[p] == m0.buffer[p]);
        }
        assert(m.buffer[p] == seen_byte(m0, rtf, o, ml));
    }
    if !(ml >= max || m.buffer[p] != rtf[ml as int]) {
        let m1 = if ml + 1 > best { spec_write_byte(m, rtf[ml as int]) } else { m };
        if ml + 1 > best {
            lemma_appended_step(m0, m, rtf, ml);
        }
        assert(((p + 1) % n) == ((o + ml + 1) as int) % n);
        lemma_match_loop_clear(m0, m1, rtf, o, ml + 1, max, best);
    }
}

/// Stepping the start of the search on by one brings every other offset one step nearer.
proof fn lemma_window_step(mo: nat, o: nat)
    requires
        mo < DICTIONARY_SIZE,
        o < DICTIONARY_SIZE,
        o != mo,
    ensures
        window_distance(mo as int, o as int) == window_distance(((mo + 1) % (DICTIONARY_SIZE as nat)) as int, o as int) + 1,
{
    let n = DICTIONARY_SIZE as int;
    if mo + 1 < n {
        assert(((mo + 1) % (n as nat)) == mo + 1);
    } else {
        assert(((mo + 1) % (n as nat)) == 0);
    }
    if o > mo {
        assert(window_distance(mo as int, o as int) == o - mo);
    } else {
        assert(window_distance(mo as int, o as int) == o - mo + n);
    }
}

/// The search for the longest match from offset `mo` on, against `m0` with the input
/// bytes added so far: the best match only grows; every offset it tried, clear of its
/// writes, matches no more than the best; and a new best starts at the first offset
/// reaching its length, clear offsets before it matching less.
#[verifier::rlimit(40)]
proof fn lemma_search_loop_longest(
    m0: DictionaryModel,
    m: DictionaryModel,
    rtf: Seq<u8>,
    mo: nat,
    fin: nat,
    best: Option<DictionaryMatch>,
)
    requires
        m0.wf(),
        mo < DICTIONARY_SIZE,
        fin == m0.write_offset,
        best_length(best) <= max_match(rtf),
        best matches Some(b) ==> b.offset < DICTIONARY_SIZE,
        appended(m0, m, rtf, best_length(best) as nat),
    ensures
        ({
            let r = search_loop(m, rtf, mo, fin, best);
            let len = best_length(r.1) as nat;
            &&& len >= best_length(best)
            &&& forall|o: nat| #![trigger match_len_at(m0, rtf, o)]
                window_distance(mo as int, o as int) < search_measure(mo as int, fin as int) && clear_of_writes(m0, o)
                ==> match_len_at(m0, rtf, o) <= len
            &&& r.1 != best ==> {
                &&& len > best_length(best)
                &&& r.1 matches Some(x) && {
                    &&& (clear_of_writes(m0, x.offset as nat) ==> match_len_at(m0, rtf, x.offset as nat) == len)
                    &&& forall|o: nat| #![trigger match_len_at(m0, rtf, o)]
                        window_distance(mo as int, o as int) < window_distance(mo as int, x.offset as int)
                        && clear_of_writes(m0, o) ==> match_len_at(m0, rtf, o) < len
                }
            }
        }),
    decreases search_measure(mo as int, fin as int),
{
    let n = DICTIONARY_SIZE as int;
    let bl = best_length(best);
    let max = max_match(rtf);
    lemma_match_loop_bound(m, rtf, mo, 0, max, bl);
    lemma_match_loop_appends(m0, m, rtf, mo, 0, max, bl);
    let t = spec_try_match(m, rtf, mo as u16, bl);
    let here = match_loop(m, rtf, mo, 0, max, bl).1;
    assert((mo + 0) % (n as nat) == mo);
    if clear_of_writes(m0, mo) {
        lemma_match_loop_clear(m0, m, rtf, mo, 0, max, bl);
        assert(here == match_len_at(m0, rtf, mo));
    }
    let best1 = match t.1 {
        Some(x) => Some(x),
        None => best,
    };
    let mo1 = ((mo + 1) % (DICTIONARY_SIZE as nat)) as nat;
    assert(window_distance(mo as int, mo as int) == 0);
    assert forall|o: nat| #![trigger match_len_at(m0, rtf, o)] clear_of_writes(m0, o)
        implies match_len_at(m0, rtf, o) <= max by {
        lemma_match_from_bound(m0, rtf, o, 0, max);
    }
    if mo1 == fin || best_length(best1) == 17 {
        if mo1 == fin {
            if mo + 1 < n {
                assert(search_measure(mo as int, fin as int) == 1);
            } else {
                assert(search_measure(mo as int, fin as int) == 1);
            }
            assert forall|o: nat| #![trigger match_len_at(m0, rtf, o)]
                window_distance(mo as int, o as int) < search_measure(mo as int, fin as int) && clear_of_writes(m0, o)
                implies match_len_at(m0, rtf, o) <= best_length(best1) by {
                if o != mo {
                    lemma_window_step(mo, o);
                }
            }
        }
    } else {
        lemma_search_loop_longest(m0, t.0, rtf, mo1, fin, best1);
        lemma_search_loop_window(t.0, rtf, mo1, fin, best1);
        lemma_search_loop_appends(m0, t.0, rtf, mo1, fin, best1);
        let r = search_loop(t.0, rtf, mo1, fin, best1);
        assert(search_loop(m, rtf, mo, fin, best) == r);
        let len = best_length(r.1) as nat;
        if mo + 1 < n {
            assert(mo1 == mo + 1);
        } else {
            assert(mo1 == 0);
        }
        assert(search_measure(mo as int, fin as int) == search_measure(mo1 as int, fin as int) + 1);
        assert forall|o: nat| #![trigger match_len_at(m0, rtf, o)]
            window_distance(mo as int, o as int) < search_measure(mo as int, fin as int) && clear_of_writes(m0, o)
            implies match_len_at(m0, rtf, o) <= len by {
            if o != mo {
                lemma_window_step(mo, o);
            }
        }
        if r.1 != best {
            if let Some(x) = r.1 {
                if r.1 == best1 {
                    assert(t.1 is Some);
                    assert(x.offset == mo);
                    assert forall|o: nat| #![trigger match_len_at(m0, rtf, o)]
                        window_distance(mo as int, o as int) < window_distance(mo as int, x.offset as int)
                        && clear_of_writes(m0, o) implies match_len_at(m0, rtf, o) < len by {
                    }
                } else {
                    assert(x.offset != mo) by {
                        assert(window_distance(mo1 as int, x.offset as int) < search_measure(mo1 as int, fin as int));
                        if x.offset == mo {
                            lemma_window_step(mo1, mo);
                        }
                    }
                    lemma_window_step(mo, x.offset as nat);
                    assert forall|o: nat| #![trigger match_len_at(m0, rtf, o)]
                        window_distance(mo as int, o as int) < window_distance(mo as int, x.offset as int)
                        && clear_of_writes(m0, o) implies match_len_at(m0, rtf, o) < len by {
                        if o != mo {
                            lemma_window_step(mo, o);
                        }
                    }
                }
            }
        }
    }
}

/// Finding the longest match: at no offset of the window whose bytes the search does
/// not itself write does the input match further than the match found (up to 17
/// bytes); the match found, where its offset is such an offset, matches exactly that
/// far there; and every such offset the search tries before it matches less.
pub proof fn lemma_longest_match_is_longest(m: DictionaryModel, rtf: Seq<u8>)
    requires
        m.wf(),
    ensures
        ({
            let len = longest_match_len(m, rtf);
            let r = search_loop(m, rtf, search_start(m), m.write_offset, None).1;
            &&& forall|o: nat| #![trigger match_len_at(m, rtf, o)]
                in_window(m, o) && clear_of_writes(m, o) ==> match_len_at(m, rtf, o) <= len
            &&& r matches Some(x) ==> {
                &&& x.length == len
                &&& (clear_of_writes(m, x.offset as nat) ==> match_len_at(m, rtf, x.offset as nat) == len)
                &&& forall|o: nat| #![trigger match_len_at(m, rtf, o)]
                    scans_before(m, o, x.offset as nat) && clear_of_writes(m, o) ==> match_len_at(m, rtf, o) < len
            }
        }),
{
    let n = DICTIONARY_SIZE as int;
    let w = m.write_offset;
    let mo0 = search_start(m);
    assert(m.write_offset % (DICTIONARY_SIZE as nat) == m.write_offset);
    assert(rtf.subrange(0, 0) =~= Seq::<u8>::empty());
    assert(appended(m, m, rtf, 0));
    lemma_search_loop_longest(m, m, rtf, mo0, w, None);
    lemma_longest_match_window(m, rtf);
    assert forall|o: nat| in_window(m, o) implies window_distance(mo0 as int, o as int) < search_measure(mo0 as int, w as int) by {
        if m.size != DICTIONARY_SIZE {
            assert(window_distance(0, o as int) == o);
            assert(search_measure(0, w as int) == w);
        } else if w + 1 < n {
            assert(mo0 == w + 1);
            assert(search_measure(mo0 as int, w as int) == n - 1);
        } else {
            assert(mo0 == 0);
            assert(search_measure(0, w as int) == n - 1);
        }
    }
}

/// The reference that the search for the longest match returns holds the offset of
/// the match the search found.
proof fn lemma_longest_match_reference(m: DictionaryModel, rtf: Seq<u8>)
    requires
        m.wf(),
    ensures
        spec_find_longest_match(m, rtf).1 matches Some(v) ==> search_loop(m, rtf, search_start(m), m.write_offset, None).1
            matches Some(x) && reference_offset(v) == x.offset,
{
    assert(m.write_offset % (DICTIONARY_SIZE as nat) == m.write_offset);
    let r = search_loop(m, rtf, search_start(m), m.write_offset, None);
    if let Some(b) = r.1 {
        if 2 <= b.length <= 17 && b.offset <= 0x0FFF {
            lemma_reference_for_match(b.offset, b.length);
        }
    }
}

impl TokenDictionary {
    /// Matches the input at dictionary offset `match_offset` against a best length of
    /// `best_match_length`, adding each matched byte beyond it to the dictionary.
    fn try_match(&mut self, rtf: &[u8], match_offset: u16, best_match_length: u8) -> (r: Option<DictionaryMatch>)
        requires
            old(self)@.wf(),
            match_offset < DICTIONARY_SIZE,
        ensures
            final(self)@.wf(),
            (final(self)@, r) == spec_try_match(old(self)@, rtf@, match_offset, best_match_length),
    {
        let max_length = if rtf.len() < MAX_MATCH_LENGTH { rtf.len() } else { MAX_MATCH_LENGTH };
        let mut match_length: u8 = 0;
        let mut dictionary_offset = match_offset as usize;
        let ghost m0 = self@;
        while (match_length as usize) < max_length && self.buffer[dictionary_offset] == rtf[match_length as usize]
            invariant
                self@.wf(),
                dictionary_offset < DICTIONARY_SIZE,
                max_length == max_match(rtf@),
                match_length <= max_length,
                match_loop(m0, rtf@, match_offset as nat, 0, max_length as nat, best_match_length)
                    == match_loop(self@, rtf@, dictionary_offset as nat, match_length as nat, max_length as nat, best_match_length),
            decreases max_length - match_length,
        {
            let byte = rtf[match_length as usize];
            match_length = match_length + 1;
            if match_length > best_match_length {
                self.write_byte(byte);
            }
            dictionary_offset = (dictionary_offset + 1) % DICTIONARY_SIZE;
        }
        if match_length > best_match_length {
            Some(DictionaryMatch { offset: match_offset, length: match_length })
        } else {
            None
        }
    }

    /// Finds the longest match of the start of `rtf` in the dictionary, adding the
    /// matched bytes (or, when nothing matched, the first byte) to the dictionary.
    pub fn find_longest_match(&mut self, rtf: &[u8]) -> (r: Result<Option<DictionaryReference>, Error>)
        requires
            old(self)@.wf(),
            rtf@.len() >= 1,
        ensures
            final(self)@.wf(),
            final(self)@ == spec_find_longest_match(old(self)@, rtf@).0,
            r matches Ok(x) && match x {
                Some(d) => spec_find_longest_match(old(self)@, rtf@).1 == Some(d@),
                None => spec_find_longest_match(old(self)@, rtf@).1 is None,
            },
            ({
                let len = longest_match_len(old(self)@, rtf@);
                &&& len <= max_match(rtf@)
                &&& (r matches Ok(Some(d)) ==> len >= 2 && reference_length(d@) == len)
                &&& (r matches Ok(None) ==> len < 2)
                &&& appended(old(self)@, final(self)@, rtf@, max_len(len, 1))
                &&& (r matches Ok(Some(d)) ==> (old(self)@.size != DICTIONARY_SIZE && old(self)@.write_offset > 0
                    ==> reference_offset(d@) < old(self)@.write_offset))
                &&& (r matches Ok(Some(d)) ==> (old(self)@.size == DICTIONARY_SIZE
                    ==> reference_offset(d@) != old(self)@.write_offset))
                &&& forall|o: nat| #![trigger match_len_at(old(self)@, rtf@, o)]
                    in_window(old(self)@, o) && clear_of_writes(old(self)@, o) ==> match_len_at(old(self)@, rtf@, o) <= len
                &&& (r matches Ok(Some(d)) ==> {
                    &&& (clear_of_writes(old(self)@, reference_offset(d@) as nat)
                        ==> match_len_at(old(self)@, rtf@, reference_offset(d@) as nat) == len)
                    &&& forall|o: nat| #![trigger match_len_at(old(self)@, rtf@, o)]
                        scans_before(old(self)@, o, reference_offset(d@) as nat) && clear_of_writes(old(self)@, o)
                        ==> match_len_at(old(self)@, rtf@, o) < len
                })
            }),
    {
        proof {
            lemma_longest_match_appends(self@, rtf@);
            lemma_longest_match_window(self@, rtf@);
            lemma_longest_match_is_longest(self@, rtf@);
            lemma_longest_match_reference(self@, rtf@);
        }
        let final_offset = self.write_offset % DICTIONARY_SIZE;
        let mut match_offset: usize = if self.size != DICTIONARY_SIZE {
            0
        } else {
            (self.write_offset + 1) % DICTIONARY_SIZE
        };
        let ghost m0 = self@;
        let ghost mo0 = match_offset as nat;
        let mut best_match: Option<DictionaryMatch> = None;
        let mut done = false;
        while !done
            invariant
                self@.wf(),
                match_offset < DICTIONARY_SIZE,
                final_offset < DICTIONARY_SIZE,
                final_offset == m0.write_offset % (DICTIONARY_SIZE as nat),
                !done ==> search_loop(m0, rtf@, mo0, final_offset as nat, None)
                    == search_loop(self@, rtf@, match_offset as nat, final_offset as nat, best_match),
                done ==> search_loop(m0, rtf@, mo0, final_offset as nat, None) == (self@, best_match),
            decreases (if done { 0 } else { search_measure(match_offset as int, final_offset as int) + 1 }),
        {
            let best_match_length = match best_match {
                Some(m) => m.length,
                None => 0,
            };
            let found = self.try_match(rtf, match_offset as u16, best_match_length);
            best_match = match found {
                Some(x) => Some(x),
                None => best_match,
            };
            match_offset = (match_offset + 1) % DICTIONARY_SIZE;
            let best_length_now = match best_match {
                Some(m) => m.length,
                None => 0,
            };
            if match_offset == final_offset || best_length_now == 17 {
                done = true;
            }
        }
        let best_match_length = match best_match {
            Some(m) => m.length,
            None => 0,
        };
        if best_match_length == 0 {
            self.write_byte(rtf[0]);
        }
        match best_match {
            Some(m) => match DictionaryReference::try_from_match(m.offset, m.length) {
                Ok(d) => Ok(Some(d)),
                Err(_) => Ok(None),
            },
            None => Ok(None),
        }
    }
}

} // verus!
