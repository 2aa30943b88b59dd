//! The checksum and signature algorithms that protect pages, blocks and the
//! file header.

use vstd::prelude::*;

verus! {

/// The reflected CRC-32 polynomial used by the file format.
pub const CRC_POLYNOMIAL: u32 = 0xEDB8_8320;

/// One bit step of the CRC register.
pub open spec fn crc_shift(c: u32) -> u32 {
    if c & 1 == 1 { (c >> 1) ^ CRC_POLYNOMIAL } else { c >> 1 }
}

/// `n` bit steps of the CRC register.
pub open spec fn crc_bits(c: u32, n: nat) -> u32
    decreases n,
{
    if n == 0 { c } else { crc_bits(crc_shift(c), (n - 1) as nat) }
}

/// The CRC register after taking in one byte.
pub open spec fn crc_byte(c: u32, b: u8) -> u32 {
    crc_bits(c ^ (b as u32), 8)
}

/// The CRC register after taking in all bytes of `s`, starting from `c`.
pub open spec fn spec_crc(c: u32, s: Seq<u8>) -> u32
    decreases s.len(),
{
    if s.len() == 0 {
        c
    } else {
        crc_byte(spec_crc(c, s.drop_last()), s.last())
    }
}

/// Feeds the bytes of `data` to the CRC register `crc` (no pre- or post-inversion).
pub fn compute_crc(crc: u32, data: &[u8]) -> (r: u32)
    ensures
        r == spec_crc(crc, data@),
{
    let n = data.len();
    let mut c = crc;
    let mut i: usize = 0;
    while i < n
        invariant
            n == data@.len(),
            i <= n,
            c == spec_crc(crc, data@.subrange(0, i as int)),
        decreases n - i,
    {
        let ghost before = c;
        c = c ^ (data[i] as u32);
        let mut k: u32 = 0;
        while k < 8
            invariant
                k <= 8,
                crc_bits(c, (8 - k) as nat) == crc_byte(before, data@[i as int]),
            decreases 8 - k,
        {
            c = if c & 1 == 1 { (c >> 1) ^ CRC_POLYNOMIAL } else { c >> 1 };
            k = k + 1;
        }
        assert(data@.subrange(0, i + 1).drop_last() =~= data@.subrange(0, i as int));
        i = i + 1;
    }
    assert(data@.subrange(0, n as int) =~= data@);
    c
}

/// The 16-bit signature of a page or block at byte index `index` with block id `block_id`.
pub open spec fn spec_sig(index: u32, block_id: u32) -> u16 {
    (((index ^ block_id) >> 16) ^ ((index ^ block_id) & 0xFFFF)) as u16
}

/// Computes the signature of a page or block: the two halves of `index ^ block_id`, XORed.
pub fn compute_sig(index: u32, block_id: u32) -> (r: u16)
    ensures
        r == spec_sig(index, block_id),
{
    let x = index ^ block_id;
    ((x >> 16) ^ (x & 0xFFFF)) as u16
}

} // verus!
