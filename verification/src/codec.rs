//! Little-endian field access over byte buffers.
//!
//! Reading a field decodes a fixed-width window of a buffer; writing a field
//! appends its encoding to an output vector. Every on-disk structure of the
//! library is read and written through these helpers, so its contracts can
//! speak of the byte layout through `u16_at`, `u32_at` and `u64_at`.

use vstd::prelude::*;
use vstd::bytes::*;
use byteorder::{BigEndian, ByteOrder, LittleEndian, WriteBytesExt};

verus! {

/// The little-endian `u16` stored at offset `i` of `s`.
pub open spec fn u16_at(s: Seq<u8>, i: int) -> u16 {
    spec_u16_from_le_bytes(s.subrange(i, i + 2))
}

/// The little-endian `u32` stored at offset `i` of `s`.
pub open spec fn u32_at(s: Seq<u8>, i: int) -> u32 {
    spec_u32_from_le_bytes(s.subrange(i, i + 4))
}

/// The little-endian `u64` stored at offset `i` of `s`.
pub open spec fn u64_at(s: Seq<u8>, i: int) -> u64 {
    spec_u64_from_le_bytes(s.subrange(i, i + 8))
}

/// The little-endian encoding of a `u16`.
pub open spec fn le16(x: u16) -> Seq<u8> {
    spec_u16_to_le_bytes(x)
}

/// The little-endian encoding of a `u32`.
pub open spec fn le32(x: u32) -> Seq<u8> {
    spec_u32_to_le_bytes(x)
}

/// The little-endian encoding of a `u64`.
pub open spec fn le64(x: u64) -> Seq<u8> {
    spec_u64_to_le_bytes(x)
}

/// The big-endian value of two bytes.
pub open spec fn be16_value(s: Seq<u8>) -> int {
    s[0] as int * 256 + s[1] as int
}

/// `n` zero bytes.
pub open spec fn zeros(n: nat) -> Seq<u8> {
    Seq::new(n, |i: int| 0u8)
}

/// Calls `byteorder::LittleEndian::read_u16`: the value of the two bytes, low byte first.
#[verifier::external_body]
fn le_u16(b: &[u8]) -> (r: u16)
    requires
        b@.len() == 2,
    ensures
        r == spec_u16_from_le_bytes(b@),
{
    LittleEndian::read_u16(b)
}

/// Calls `byteorder::LittleEndian::read_u32`: the value of the four bytes, low byte first.
#[verifier::external_body]
fn le_u32(b: &[u8]) -> (r: u32)
    requires
        b@.len() == 4,
    ensures
        r == spec_u32_from_le_bytes(b@),
{
    LittleEndian::read_u32(b)
}

/// Calls `byteorder::LittleEndian::read_u64`: the value of the eight bytes, low byte first.
#[verifier::external_body]
fn le_u64(b: &[u8]) -> (r: u64)
    requires
        b@.len() == 8,
    ensures
        r == spec_u64_from_le_bytes(b@),
{
    LittleEndian::read_u64(b)
}

/// Calls `byteorder::BigEndian::read_u16`: the value of the two bytes, high byte first.
#[verifier::external_body]
fn be_u16(b: &[u8]) -> (r: u16)
    requires
        b@.len() == 2,
    ensures
        r as int == be16_value(b@),
{
    BigEndian::read_u16(b)
}

/// Calls `byteorder::WriteBytesExt::write_u16::<LittleEndian>` on a vector, which
/// appends the two bytes of `v`, low byte first; writing into a vector cannot fail.
#[verifier::external_body]
pub(crate) fn push_u16(out: &mut Vec<u8>, v: u16)
    ensures
        final(out)@ == old(out)@ + le16(v),
{
    let _ = out.write_u16::<LittleEndian>(v);
}

/// Calls `byteorder::WriteBytesExt::write_u32::<LittleEndian>` on a vector, which
/// appends the four bytes of `v`, low byte first; writing into a vector cannot fail.
#[verifier::external_body]
pub(crate) fn push_u32(out: &mut Vec<u8>, v: u32)
    ensures
        final(out)@ == old(out)@ + le32(v),
{
    let _ = out.write_u32::<LittleEndian>(v);
}

/// Calls `byteorder::WriteBytesExt::write_u64::<LittleEndian>` on a vector, which
/// appends the eight bytes of `v`, low byte first; writing into a vector cannot fail.
#[verifier::external_body]
pub(crate) fn push_u64(out: &mut Vec<u8>, v: u64)
    ensures
        final(out)@ == old(out)@ + le64(v),
{
    let _ = out.write_u64::<LittleEndian>(v);
}

/// Calls `byteorder::WriteBytesExt::write_u16::<BigEndian>` on a vector, which
/// appends the two bytes of `v`, high byte first; writing into a vector cannot fail.
#[verifier::external_body]
pub(crate) fn push_u16_be(out: &mut Vec<u8>, v: u16)
    ensures
        final(out)@.len() == old(out)@.len() + 2,
        final(out)@.subrange(0, old(out)@.len() as int) == old(out)@,
        be16_value(final(out)@.subrange(old(out)@.len() as int, old(out)@.len() + 2int)) == v,
{
    let _ = out.write_u16::<BigEndian>(v);
}

/// Reads the little-endian `u16` at offset `i`.
pub fn read_u16_at(b: &[u8], i: usize) -> (r: u16)
    requires
        i + 2 <= b@.len(),
    ensures
        r == u16_at(b@, i as int),
{
    let len = b.len();
    assert(i + 2 <= len);
    le_u16(&b[i..i + 2])
}

/// Reads the little-endian `u32` at offset `i`.
pub fn read_u32_at(b: &[u8], i: usize) -> (r: u32)
    requires
        i + 4 <= b@.len(),
    ensures
        r == u32_at(b@, i as int),
{
    let len = b.len();
    assert(i + 4 <= len);
    le_u32(&b[i..i + 4])
}

/// Reads the little-endian `u64` at offset `i`.
pub fn read_u64_at(b: &[u8], i: usize) -> (r: u64)
    requires
        i + 8 <= b@.len(),
    ensures
        r == u64_at(b@, i as int),
{
    let len = b.len();
    assert(i + 8 <= len);
    le_u64(&b[i..i + 8])
}

/// Reads the big-endian `u16` at offset `i`.
pub fn read_u16_be_at(b: &[u8], i: usize) -> (r: u16)
    requires
        i + 2 <= b@.len(),
    ensures
        r as int == be16_value(b@.subrange(i as int, i + 2)),
{
    let len = b.len();
    assert(i + 2 <= len);
    be_u16(&b[i..i + 2])
}

/// Appends one byte.
pub fn push_u8(out: &mut Vec<u8>, v: u8)
    ensures
        final(out)@ == old(out)@ + seq![v],
{
    out.push(v);
    assert(out@ =~= old(out)@ + seq![v]);
}

/// Appends all bytes of `bytes`.
pub fn push_bytes(out: &mut Vec<u8>, bytes: &[u8])
    ensures
        final(out)@ == old(out)@ + bytes@,
{
    let ghost start = out@;
    let n = bytes.len();
    let mut i: usize = 0;
    while i < n
        invariant
            n == bytes@.len(),
            i <= n,
            out@ == start + bytes@.subrange(0, i as int),
        decreases n - i,
    {
        out.push(bytes[i]);
        i = i + 1;
        assert(out@ =~= start + bytes@.subrange(0, i as int));
    }
    assert(bytes@.subrange(0, n as int) =~= bytes@);
}

/// Appends `n` zero bytes.
pub fn push_zeros(out: &mut Vec<u8>, n: usize)
    ensures
        final(out)@ == old(out)@ + zeros(n as nat),
{
    let ghost start = out@;
    let mut i: usize = 0;
    while i < n
        invariant
            i <= n,
            out@ == start + zeros(i as nat),
        decreases n - i,
    {
        out.push(0u8);
        i = i + 1;
        assert(out@ =~= start + zeros(i as nat));
    }
}

/// Copies the bytes `b[i..j]` into a new vector.
pub fn copy_range(b: &[u8], i: usize, j: usize) -> (r: Vec<u8>)
    requires
        i <= j <= b@.len(),
    ensures
        r@ == b@.subrange(i as int, j as int),
{
    let mut r: Vec<u8> = Vec::new();
    push_bytes(&mut r, &b[i..j]);
    assert(r@ =~= b@.subrange(i as int, j as int));
    r
}

/// Whether all bytes of `b[i..j]` are zero.
pub fn all_zero(b: &[u8], i: usize, j: usize) -> (r: bool)
    requires
        i <= j <= b@.len(),
    ensures
        r == (b@.subrange(i as int, j as int) == zeros((j - i) as nat)),
{
    let mut k = i;
    while k < j
        invariant
            i <= k <= j <= b@.len(),
            forall|m: int| i <= m < k ==> b@[m] == 0u8,
        decreases j - k,
    {
        if b[k] != 0 {
            assert(b@.subrange(i as int, j as int)[k - i] != zeros((j - i) as nat)[k - i]);
            return false;
        }
        k = k + 1;
    }
    assert(b@.subrange(i as int, j as int) =~= zeros((j - i) as nat));
    true
}

/// Encodings have their width, and decoding an encoding gives the value back.
pub proof fn lemma_le_roundtrip()
    ensures
        forall|x: u16| #[trigger] le16(x).len() == 2 && spec_u16_from_le_bytes(le16(x)) == x,
        forall|x: u32| #[trigger] le32(x).len() == 4 && spec_u32_from_le_bytes(le32(x)) == x,
        forall|x: u64| #[trigger] le64(x).len() == 8 && spec_u64_from_le_bytes(le64(x)) == x,
{
    lemma_auto_spec_u16_to_from_le_bytes();
    lemma_auto_spec_u32_to_from_le_bytes();
    lemma_auto_spec_u64_to_from_le_bytes();
}

} // verus!

verus! {

/// A result whose success value is taken by its view.
pub open spec fn view_result<T: View, E>(r: Result<T, E>) -> Result<T::V, E> {
    match r {
        Ok(t) => Ok(t@),
        Err(e) => Err(e),
    }
}

} // verus!

verus! {

/// The little-endian encodings of a sequence of `u32` values, one after another.
pub open spec fn u32s_bytes(v: Seq<u32>) -> Seq<u8>
    decreases v.len(),
{
    if v.len() == 0 {
        Seq::empty()
    } else {
        u32s_bytes(v.drop_last()) + le32(v.last())
    }
}

/// The encodings of `n` values take `4 * n` bytes, and value `i` sits at offset `4 * i`.
pub proof fn lemma_u32s_bytes(v: Seq<u32>)
    ensures
        u32s_bytes(v).len() == 4 * v.len(),
        forall|i: int| 0 <= i < v.len() ==> #[trigger] u32s_bytes(v).subrange(4 * i, 4 * i + 4) == le32(v[i]),
    decreases v.len(),
{
    lemma_le_roundtrip();
    if v.len() > 0 {
        let p = v.drop_last();
        lemma_u32s_bytes(p);
        assert forall|i: int| 0 <= i < v.len() implies #[trigger] u32s_bytes(v).subrange(4 * i, 4 * i + 4) == le32(v[i]) by {
            if i < v.len() - 1 {
                assert(u32s_bytes(v).subrange(4 * i, 4 * i + 4) =~= u32s_bytes(p).subrange(4 * i, 4 * i + 4));
            } else {
                assert(u32s_bytes(v).subrange(4 * i, 4 * i + 4) =~= le32(v.last()));
            }
        }
    }
}

/// Appends the little-endian encodings of the values of `v[0..n]`.
pub fn push_u32s(out: &mut Vec<u8>, v: &[u32])
    ensures
        final(out)@ == old(out)@ + u32s_bytes(v@),
{
    let ghost start = out@;
    let n = v.len();
    let mut i: usize = 0;
    while i < n
        invariant
            n == v@.len(),
            i <= n,
            out@ == start + u32s_bytes(v@.subrange(0, i as int)),
        decreases n - i,
    {
        push_u32(out, v[i]);
        assert(v@.subrange(0, i + 1).drop_last() =~= v@.subrange(0, i as int));
        i = i + 1;
        assert(out@ =~= start + u32s_bytes(v@.subrange(0, i as int)));
    }
    assert(v@.subrange(0, n as int) =~= v@);
}

} // verus!

verus! {

/// `n` copies of the byte `v`.
pub open spec fn fill(n: nat, v: u8) -> Seq<u8> {
    Seq::new(n, |i: int| v)
}

/// Appends `n` copies of the byte `v`.
pub fn push_fill(out: &mut Vec<u8>, v: u8, n: usize)
    ensures
        final(out)@ == old(out)@ + fill(n as nat, v),
{
    let ghost start = out@;
    let mut i: usize = 0;
    while i < n
        invariant
            i <= n,
            out@ == start + fill(i as nat, v),
        decreases n - i,
    {
        out.push(v);
        i = i + 1;
        assert(out@ =~= start + fill(i as nat, v));
    }
}

/// The `n` little-endian `u32` values stored from offset `off` of `s`.
pub open spec fn u32s_at(s: Seq<u8>, off: int, n: nat) -> Seq<u32> {
    Seq::new(n, |i: int| u32_at(s, off + 4 * i))
}

/// Reads the `n` little-endian `u32` values stored from offset `off`.
pub fn read_u32s_at(b: &[u8], off: usize, n: usize) -> (r: Vec<u32>)
    requires
        off + 4 * n <= b@.len(),
    ensures
        r@ == u32s_at(b@, off as int, n as nat),
{
    let len = b.len();
    let mut r: Vec<u32> = Vec::new();
    let mut i: usize = 0;
    while i < n
        invariant
            len == b@.len(),
            off + 4 * n <= b@.len(),
            i <= n,
            r@ == u32s_at(b@, off as int, i as nat),
        decreases n - i,
    {
        let v = read_u32_at(b, off + 4 * i);
        r.push(v);
        i = i + 1;
        assert(r@ =~= u32s_at(b@, off as int, i as nat));
    }
    r
}

/// The values stored by `u32s_bytes` at offset `off` of a larger sequence read back.
pub proof fn lemma_u32s_at(s: Seq<u8>, off: int, v: Seq<u32>)
    requires
        0 <= off,
        off + 4 * v.len() <= s.len(),
        s.subrange(off, off + 4 * v.len()) == u32s_bytes(v),
    ensures
        u32s_at(s, off, v.len()) == v,
{
    lemma_u32s_bytes(v);
    lemma_le_roundtrip();
    assert forall|i: int| 0 <= i < v.len() implies #[trigger] u32s_at(s, off, v.len())[i] == v[i] by {
        assert(s.subrange(off + 4 * i, off + 4 * i + 4) =~= u32s_bytes(v).subrange(4 * i, 4 * i + 4));
    }
    assert(u32s_at(s, off, v.len()) =~= v);
}

} // verus!

verus! {

/// The `n` little-endian `u16` values stored from offset `off` of `s`.
pub open spec fn u16s_at(s: Seq<u8>, off: int, n: nat) -> Seq<u16> {
    Seq::new(n, |i: int| u16_at(s, off + 2 * i))
}

/// The little-endian encodings of a sequence of `u16` values, one after another.
pub open spec fn u16s_bytes(v: Seq<u16>) -> Seq<u8>
    decreases v.len(),
{
    if v.len() == 0 {
        Seq::empty()
    } else {
        u16s_bytes(v.drop_last()) + le16(v.last())
    }
}

/// Reads the `n` little-endian `u16` values stored from offset `off`.
pub fn read_u16s_at(b: &[u8], off: usize, n: usize) -> (r: Vec<u16>)
    requires
        off + 2 * n <= b@.len(),
    ensures
        r@ == u16s_at(b@, off as int, n as nat),
{
    let len = b.len();
    let mut r: Vec<u16> = Vec::new();
    let mut i: usize = 0;
    while i < n
        invariant
            len == b@.len(),
            off + 2 * n <= b@.len(),
            i <= n,
            r@ == u16s_at(b@, off as int, i as nat),
        decreases n - i,
    {
        let v = read_u16_at(b, off + 2 * i);
        r.push(v);
        i = i + 1;
        assert(r@ =~= u16s_at(b@, off as int, i as nat));
    }
    r
}

/// Appends the little-endian encodings of the values of `v`.
pub fn push_u16s(out: &mut Vec<u8>, v: &[u16])
    ensures
        final(out)@ == old(out)@ + u16s_bytes(v@),
{
    let ghost start = out@;
    let n = v.len();
    let mut i: usize = 0;
    while i < n
        invariant
            n == v@.len(),
            i <= n,
            out@ == start + u16s_bytes(v@.subrange(0, i as int)),
        decreases n - i,
    {
        let x = v[i];
        push_u16(out, x);
        assert(v@.subrange(0, i + 1).drop_last() =~= v@.subrange(0, i as int));
        i = i + 1;
        assert(out@ =~= start + u16s_bytes(v@.subrange(0, i as int)));
    }
    assert(v@.subrange(0, n as int) =~= v@);
}

/// The `n` little-endian `i16` values stored from offset `off` of `s`.
pub open spec fn i16s_at(s: Seq<u8>, off: int, n: nat) -> Seq<i16> {
    Seq::new(n, |i: int| u16_at(s, off + 2 * i) as i16)
}

/// The little-endian encodings of a sequence of `i16` values, one after another.
pub open spec fn i16s_bytes(v: Seq<i16>) -> Seq<u8>
    decreases v.len(),
{
    if v.len() == 0 {
        Seq::empty()
    } else {
        i16s_bytes(v.drop_last()) + le16(v.last() as u16)
    }
}

/// Reads the `n` little-endian `i16` values stored from offset `off`.
pub fn read_i16s_at(b: &[u8], off: usize, n: usize) -> (r: Vec<i16>)
    requires
        off + 2 * n <= b@.len(),
    ensures
        r@ == i16s_at(b@, off as int, n as nat),
{
    let len = b.len();
    let mut r: Vec<i16> = Vec::new();
    let mut i: usize = 0;
    while i < n
        invariant
            len == b@.len(),
            off + 2 * n <= b@.len(),
            i <= n,
            r@ == i16s_at(b@, off as int, i as nat),
        decreases n - i,
    {
        let v = #[verifier::truncate] (read_u16_at(b, off + 2 * i) as i16);
        r.push(v);
        i = i + 1;
        assert(r@ =~= i16s_at(b@, off as int, i as nat));
    }
    r
}

/// Appends the little-endian encodings of the values of `v`.
pub fn push_i16s(out: &mut Vec<u8>, v: &[i16])
    ensures
        final(out)@ == old(out)@ + i16s_bytes(v@),
{
    let ghost start = out@;
    let n = v.len();
    let mut i: usize = 0;
    while i < n
        invariant
            n == v@.len(),
            i <= n,
            out@ == start + i16s_bytes(v@.subrange(0, i as int)),
        decreases n - i,
    {
        let x = v[i];
        push_u16(out, #[verifier::truncate] (x as u16));
        assert(v@.subrange(0, i + 1).drop_last() =~= v@.subrange(0, i as int));
        i = i + 1;
        assert(out@ =~= start + i16s_bytes(v@.subrange(0, i as int)));
    }
    assert(v@.subrange(0, n as int) =~= v@);
}

/// The `n` little-endian `i32` values stored from offset `off` of `s`.
pub open spec fn i32s_at(s: Seq<u8>, off: int, n: nat) -> Seq<i32> {
    Seq::new(n, |i: int| u32_at(s, off + 4 * i) as i32)
}

/// The little-endian encodings of a sequence of `i32` values, one after another.
pub open spec fn i32s_bytes(v: Seq<i32>) -> Seq<u8>
    decreases v.len(),
{
    if v.len() == 0 {
        Seq::empty()
    } else {
        i32s_bytes(v.drop_last()) + le32(v.last() as u32)
    }
}

/// Reads the `n` little-endian `i32` values stored from offset `off`.
pub fn read_i32s_at(b: &[u8], off: usize, n: usize) -> (r: Vec<i32>)
    requires
        off + 4 * n <= b@.len(),
    ensures
        r@ == i32s_at(b@, off as int, n as nat),
{
    let len = b.len();
    let mut r: Vec<i32> = Vec::new();
    let mut i: usize = 0;
    while i < n
        invariant
            len == b@.len(),
            off + 4 * n <= b@.len(),
            i <= n,
            r@ == i32s_at(b@, off as int, i as nat),
        decreases n - i,
    {
        let v = #[verifier::truncate] (read_u32_at(b, off + 4 * i) as i32);
        r.push(v);
        i = i + 1;
        assert(r@ =~= i32s_at(b@, off as int, i as nat));
    }
    r
}

/// Appends the little-endian encodings of the values of `v`.
pub fn push_i32s(out: &mut Vec<u8>, v: &[i32])
    ensures
        final(out)@ == old(out)@ + i32s_bytes(v@),
{
    let ghost start = out@;
    let n = v.len();
    let mut i: usize = 0;
    while i < n
        invariant
            n == v@.len(),
            i <= n,
            out@ == start + i32s_bytes(v@.subrange(0, i as int)),
        decreases n - i,
    {
        let x = v[i];
        push_u32(out, #[verifier::truncate] (x as u32));
        assert(v@.subrange(0, i + 1).drop_last() =~= v@.subrange(0, i as int));
        i = i + 1;
        assert(out@ =~= start + i32s_bytes(v@.subrange(0, i as int)));
    }
    assert(v@.subrange(0, n as int) =~= v@);
}

/// The `n` little-endian `u64` values stored from offset `off` of `s`.
pub open spec fn u64s_at(s: Seq<u8>, off: int, n: nat) -> Seq<u64> {
    Seq::new(n, |i: int| u64_at(s, off + 8 * i))
}

/// The little-endian encodings of a sequence of `u64` values, one after another.
pub open spec fn u64s_bytes(v: Seq<u64>) -> Seq<u8>
    decreases v.len(),
{
    if v.len() == 0 {
        Seq::empty()
    } else {
        u64s_bytes(v.drop_last()) + le64(v.last())
    }
}

/// Reads the `n` little-endian `u64` values stored from offset `off`.
pub fn read_u64s_at(b: &[u8], off: usize, n: usize) -> (r: Vec<u64>)
    requires
        off + 8 * n <= b@.len(),
    ensures
        r@ == u64s_at(b@, off as int, n as nat),
{
    let len = b.len();
    let mut r: Vec<u64> = Vec::new();
    let mut i: usize = 0;
    while i < n
        invariant
            len == b@.len(),
            off + 8 * n <= b@.len(),
            i <= n,
            r@ == u64s_at(b@, off as int, i as nat),
        decreases n - i,
    {
        let v = read_u64_at(b, off + 8 * i);
        r.push(v);
        i = i + 1;
        assert(r@ =~= u64s_at(b@, off as int, i as nat));
    }
    r
}

/// Appends the little-endian encodings of the values of `v`.
pub fn push_u64s(out: &mut Vec<u8>, v: &[u64])
    ensures
        final(out)@ == old(out)@ + u64s_bytes(v@),
{
    let ghost start = out@;
    let n = v.len();
    let mut i: usize = 0;
    while i < n
        invariant
            n == v@.len(),
            i <= n,
            out@ == start + u64s_bytes(v@.subrange(0, i as int)),
        decreases n - i,
    {
        let x = v[i];
        push_u64(out, x);
        assert(v@.subrange(0, i + 1).drop_last() =~= v@.subrange(0, i as int));
        i = i + 1;
        assert(out@ =~= start + u64s_bytes(v@.subrange(0, i as int)));
    }
    assert(v@.subrange(0, n as int) =~= v@);
}

/// The `n` little-endian `i64` values stored from offset `off` of `s`.
pub open spec fn i64s_at(s: Seq<u8>, off: int, n: nat) -> Seq<i64> {
    Seq::new(n, |i: int| u64_at(s, off + 8 * i) as i64)
}

/// The little-endian encodings of a sequence of `i64` values, one after another.
pub open spec fn i64s_bytes(v: Seq<i64>) -> Seq<u8>
    decreases v.len(),
{
    if v.len() == 0 {
        Seq::empty()
    } else {
        i64s_bytes(v.drop_last()) + le64(v.last() as u64)
    }
}

/// Reads the `n` little-endian `i64` values stored from offset `off`.
pub fn read_i64s_at(b: &[u8], off: usize, n: usize) -> (r: Vec<i64>)
    requires
        off + 8 * n <= b@.len(),
    ensures
        r@ == i64s_at(b@, off as int, n as nat),
{
    let len = b.len();
    let mut r: Vec<i64> = Vec::new();
    let mut i: usize = 0;
    while i < n
        invariant
            len == b@.len(),
            off + 8 * n <= b@.len(),
            i <= n,
            r@ == i64s_at(b@, off as int, i as nat),
        decreases n - i,
    {
        let v = #[verifier::truncate] (read_u64_at(b, off + 8 * i) as i64);
        r.push(v);
        i = i + 1;
        assert(r@ =~= i64s_at(b@, off as int, i as nat));
    }
    r
}

/// Appends the little-endian encodings of the values of `v`.
pub fn push_i64s(out: &mut Vec<u8>, v: &[i64])
    ensures
        final(out)@ == old(out)@ + i64s_bytes(v@),
{
    let ghost start = out@;
    let n = v.len();
    let mut i: usize = 0;
    while i < n
        invariant
            n == v@.len(),
            i <= n,
            out@ == start + i64s_bytes(v@.subrange(0, i as int)),
        decreases n - i,
    {
        let x = v[i];
        push_u64(out, #[verifier::truncate] (x as u64));
        assert(v@.subrange(0, i + 1).drop_last() =~= v@.subrange(0, i as int));
        i = i + 1;
        assert(out@ =~= start + i64s_bytes(v@.subrange(0, i as int)));
    }
    assert(v@.subrange(0, n as int) =~= v@);
}

} // verus!

verus! {

/// The encodings of `n` values take `2 * n` bytes, and value `i` sits at offset `2 * i`.
pub proof fn lemma_u16s_bytes(v: Seq<u16>)
    ensures
        u16s_bytes(v).len() == 2 * v.len(),
        forall|i: int| 0 <= i < v.len() ==> #[trigger] u16s_bytes(v).subrange(2 * i, 2 * i + 2) == le16(v[i]),
    decreases v.len(),
{
    lemma_le_roundtrip();
    if v.len() > 0 {
        let p = v.drop_last();
        lemma_u16s_bytes(p);
        assert forall|i: int| 0 <= i < v.len() implies #[trigger] u16s_bytes(v).subrange(2 * i, 2 * i + 2) == le16(v[i]) by {
            if i < v.len() - 1 {
                assert(u16s_bytes(v).subrange(2 * i, 2 * i + 2) =~= u16s_bytes(p).subrange(2 * i, 2 * i + 2));
            } else {
                assert(u16s_bytes(v).subrange(2 * i, 2 * i + 2) =~= le16(v.last()));
            }
        }
    }
}

/// The values stored by `u16s_bytes` read back.
pub proof fn lemma_u16s_roundtrip(v: Seq<u16>)
    ensures
        u16s_bytes(v).len() == 2 * v.len(),
        u16s_at(u16s_bytes(v), 0, v.len()) == v,
{
    lemma_u16s_bytes(v);
    lemma_le_roundtrip();
    assert forall|i: int| 0 <= i < v.len() implies #[trigger] u16s_at(u16s_bytes(v), 0, v.len())[i] == v[i] by {
        assert(u16s_bytes(v).subrange(0 + 2 * i, 0 + 2 * i + 2) =~= u16s_bytes(v).subrange(2 * i, 2 * i + 2));
    }
    assert(u16s_at(u16s_bytes(v), 0, v.len()) =~= v);
}

/// The encodings of `n` values take `2 * n` bytes, and value `i` sits at offset `2 * i`.
pub proof fn lemma_i16s_bytes(v: Seq<i16>)
    ensures
        i16s_bytes(v).len() == 2 * v.len(),
        forall|i: int| 0 <= i < v.len() ==> #[trigger] i16s_bytes(v).subrange(2 * i, 2 * i + 2) == le16(v[i] as u16),
    decreases v.len(),
{
    lemma_le_roundtrip();
    if v.len() > 0 {
        let p = v.drop_last();
        lemma_i16s_bytes(p);
        assert forall|i: int| 0 <= i < v.len() implies #[trigger] i16s_bytes(v).subrange(2 * i, 2 * i + 2) == le16(v[i] as u16) by {
            if i < v.len() - 1 {
                assert(i16s_bytes(v).subrange(2 * i, 2 * i + 2) =~= i16s_bytes(p).subrange(2 * i, 2 * i + 2));
            } else {
                assert(i16s_bytes(v).subrange(2 * i, 2 * i + 2) =~= le16(v.last() as u16));
            }
        }
    }
}

/// The values stored by `i16s_bytes` read back.
pub proof fn lemma_i16s_roundtrip(v: Seq<i16>)
    ensures
        i16s_bytes(v).len() == 2 * v.len(),
        i16s_at(i16s_bytes(v), 0, v.len()) == v,
{
    lemma_i16s_bytes(v);
    lemma_le_roundtrip();
    assert(forall|x: i16| #[trigger] ((x as u16) as i16) == x) by (bit_vector);
    assert forall|i: int| 0 <= i < v.len() implies #[trigger] i16s_at(i16s_bytes(v), 0, v.len())[i] == v[i] by {
        assert(i16s_bytes(v).subrange(0 + 2 * i, 0 + 2 * i + 2) =~= i16s_bytes(v).subrange(2 * i, 2 * i + 2));
    }
    assert(i16s_at(i16s_bytes(v), 0, v.len()) =~= v);
}

/// The encodings of `n` values take `4 * n` bytes, and value `i` sits at offset `4 * i`.
pub proof fn lemma_i32s_bytes(v: Seq<i32>)
    ensures
        i32s_bytes(v).len() == 4 * v.len(),
        forall|i: int| 0 <= i < v.len() ==> #[trigger] i32s_bytes(v).subrange(4 * i, 4 * i + 4) == le32(v[i] as u32),
    decreases v.len(),
{
    lemma_le_roundtrip();
    if v.len() > 0 {
        let p = v.drop_last();
        lemma_i32s_bytes(p);
        assert forall|i: int| 0 <= i < v.len() implies #[trigger] i32s_bytes(v).subrange(4 * i, 4 * i + 4) == le32(v[i] as u32) by {
            if i < v.len() - 1 {
                assert(i32s_bytes(v).subrange(4 * i, 4 * i + 4) =~= i32s_bytes(p).subrange(4 * i, 4 * i + 4));
            } else {
                assert(i32s_bytes(v).subrange(4 * i, 4 * i + 4) =~= le32(v.last() as u32));
            }
        }
    }
}

/// The values stored by `i32s_bytes` read back.
pub proof fn lemma_i32s_roundtrip(v: Seq<i32>)
    ensures
        i32s_bytes(v).len() == 4 * v.len(),
        i32s_at(i32s_bytes(v), 0, v.len()) == v,
{
    lemma_i32s_bytes(v);
    lemma_le_roundtrip();
    assert(forall|x: i32| #[trigger] ((x as u32) as i32) == x) by (bit_vector);
    assert forall|i: int| 0 <= i < v.len() implies #[trigger] i32s_at(i32s_bytes(v), 0, v.len())[i] == v[i] by {
        assert(i32s_bytes(v).subrange(0 + 4 * i, 0 + 4 * i + 4) =~= i32s_bytes(v).subrange(4 * i, 4 * i + 4));
    }
    assert(i32s_at(i32s_bytes(v), 0, v.len()) =~= v);
}

/// The encodings of `n` values take `8 * n` bytes, and value `i` sits at offset `8 * i`.
pub proof fn lemma_u64s_bytes(v: Seq<u64>)
    ensures
        u64s_bytes(v).len() == 8 * v.len(),
        forall|i: int| 0 <= i < v.len() ==> #[trigger] u64s_bytes(v).subrange(8 * i, 8 * i + 8) == le64(v[i]),
    decreases v.len(),
{
    lemma_le_roundtrip();
    if v.len() > 0 {
        let p = v.drop_last();
        lemma_u64s_bytes(p);
        assert forall|i: int| 0 <= i < v.len() implies #[trigger] u64s_bytes(v).subrange(8 * i, 8 * i + 8) == le64(v[i]) by {
            if i < v.len() - 1 {
                assert(u64s_bytes(v).subrange(8 * i, 8 * i + 8) =~= u64s_bytes(p).subrange(8 * i, 8 * i + 8));
            } else {
                assert(u64s_bytes(v).subrange(8 * i, 8 * i + 8) =~= le64(v.last()));
            }
        }
    }
}

/// The values stored by `u64s_bytes` read back.
pub proof fn lemma_u64s_roundtrip(v: Seq<u64>)
    ensures
        u64s_bytes(v).len() == 8 * v.len(),
        u64s_at(u64s_bytes(v), 0, v.len()) == v,
{
    lemma_u64s_bytes(v);
    lemma_le_roundtrip();
    assert forall|i: int| 0 <= i < v.len() implies #[trigger] u64s_at(u64s_bytes(v), 0, v.len())[i] == v[i] by {
        assert(u64s_bytes(v).subrange(0 + 8 * i, 0 + 8 * i + 8) =~= u64s_bytes(v).subrange(8 * i, 8 * i + 8));
    }
    assert(u64s_at(u64s_bytes(v), 0, v.len()) =~= v);
}

/// The encodings of `n` values take `8 * n` bytes, and value `i` sits at offset `8 * i`.
pub proof fn lemma_i64s_bytes(v: Seq<i64>)
    ensures
        i64s_bytes(v).len() == 8 * v.len(),
        forall|i: int| 0 <= i < v.len() ==> #[trigger] i64s_bytes(v).subrange(8 * i, 8 * i + 8) == le64(v[i] as u64),
    decreases v.len(),
{
    lemma_le_roundtrip();
    if v.len() > 0 {
        let p = v.drop_last();
        lemma_i64s_bytes(p);
        assert forall|i: int| 0 <= i < v.len() implies #[trigger] i64s_bytes(v).subrange(8 * i, 8 * i + 8) == le64(v[i] as u64) by {
            if i < v.len() - 1 {
                assert(i64s_bytes(v).subrange(8 * i, 8 * i + 8) =~= i64s_bytes(p).subrange(8 * i, 8 * i + 8));
            } else {
                assert(i64s_bytes(v).subrange(8 * i, 8 * i + 8) =~= le64(v.last() as u64));
            }
        }
    }
}

/// The values stored by `i64s_bytes` read back.
pub proof fn lemma_i64s_roundtrip(v: Seq<i64>)
    ensures
        i64s_bytes(v).len() == 8 * v.len(),
        i64s_at(i64s_bytes(v), 0, v.len()) == v,
{
    lemma_i64s_bytes(v);
    lemma_le_roundtrip();
    assert(forall|x: i64| #[trigger] ((x as u64) as i64) == x) by (bit_vector);
    assert forall|i: int| 0 <= i < v.len() implies #[trigger] i64s_at(i64s_bytes(v), 0, v.len())[i] == v[i] by {
        assert(i64s_bytes(v).subrange(0 + 8 * i, 0 + 8 * i + 8) =~= i64s_bytes(v).subrange(8 * i, 8 * i + 8));
    }
    assert(i64s_at(i64s_bytes(v), 0, v.len()) =~= v);
}

} // verus!

verus! {

/// The values stored by `u16s_bytes` at offset `off` of a larger sequence read back.
pub proof fn lemma_u16s_at(s: Seq<u8>, off: int, v: Seq<u16>)
    requires
        0 <= off,
        off + 2 * v.len() <= s.len(),
        s.subrange(off, off + 2 * v.len()) == u16s_bytes(v),
    ensures
        u16s_at(s, off, v.len()) == v,
{
    lemma_u16s_bytes(v);
    lemma_le_roundtrip();
    assert forall|i: int| 0 <= i < v.len() implies #[trigger] u16s_at(s, off, v.len())[i] == v[i] by {
        assert(s.subrange(off + 2 * i, off + 2 * i + 2) =~= u16s_bytes(v).subrange(2 * i, 2 * i + 2));
    }
    assert(u16s_at(s, off, v.len()) =~= v);
}

} // verus!
