use vstd::prelude::*;

verus! {

/// Reflected CRC32C (Castagnoli) polynomial.
pub const CRC32C_POLY: u32 = 0x82F6_3B78;

/// Register after `n` single-bit steps of the reflected CRC32C division.
pub open spec fn crc32c_bits(c: u32, n: nat) -> u32
    decreases n,
{
    if n == 0 {
        c
    } else {
        let d = crc32c_bits(c, (n - 1) as nat);
        if d & 1 == 1 {
            (d >> 1u32) ^ CRC32C_POLY
        } else {
            d >> 1u32
        }
    }
}

/// CRC32C update of register `crc` by a 32-bit word, with no pre- or
/// post-inversion: what the SSE4.2 `crc32` instruction and the ARMv8
/// `crc32cw` instruction compute.
pub open spec fn crc32c_u32(crc: u32, v: u32) -> u32 {
    crc32c_bits(crc ^ v, 32)
}

/// Folds one 32-bit word into a CRC32C register.
pub fn crc32c_word(crc: u32, v: u32) -> (r: u32)
    ensures
        r == crc32c_u32(crc, v),
{
    let mut c: u32 = crc ^ v;
    let mut i: u32 = 0;
    while i < 32
        invariant
            i <= 32,
            c == crc32c_bits(crc ^ v, i as nat),
        decreases 32 - i,
    {
        if c & 1 == 1 {
            c = (c >> 1) ^ CRC32C_POLY;
        } else {
            c = c >> 1;
        }
        i = i + 1;
    }
    c
}

} // verus!
