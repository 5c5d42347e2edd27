//! Bit-level facts about the byte and word operations the hardware model uses.
use vstd::prelude::*;

verus! {

/// Masking never produces a value above the mask or above the input.
pub proof fn lemma_and_le(x: u8, m: u8)
    by (bit_vector)
    ensures
        x & m <= m,
        x & m <= x,
{
}

/// The RAM bank field of the MBC1 bank register is at most 3.
pub proof fn lemma_ram_bank_field(x: u8)
    by (bit_vector)
    ensures
        (x & 0x60u8) >> 5u8 <= 3,
        (x & 0u8) >> 5u8 == 0,
{
}

/// A right shift of a byte is bounded by the shifted maximum.
pub proof fn lemma_shr_le(x: u8, n: u8)
    by (bit_vector)
    requires
        n < 8,
    ensures
        x >> n <= 0xFFu8 >> n,
        x >> n <= x,
        x >> 6u8 <= 3,
        x >> 4u8 <= 15,
        x >> 5u8 <= 7,
{
}

/// Shifting one left by less than 8 gives a non-zero power of two.
pub proof fn lemma_pow2_shift(n: u8)
    by (bit_vector)
    requires
        n < 8,
    ensures
        1u16 << n > 0,
        1u16 << n <= 128,
{
}

/// A byte shifted into the high half of a word.
pub proof fn lemma_shl8(x: u8)
    by (bit_vector)
    ensures
        (x as u16) << 8u16 == (x as u16) * 256,
{
}

/// The bit-level form of setting or clearing bit `n` used by `MMU::set_bit`.
pub proof fn lemma_set_bit(b: u8, n: u8)
    by (bit_vector)
    requires
        n < 8,
    ensures
        (b & !(1u8 << n)) | ((1u8 << n) & (1u8 << n)) == b | (1u8 << n),
        (b & !(1u8 << n)) | ((0u8 << n) & (1u8 << n)) == b & !(1u8 << n),
        (b | (1u8 << n)) & (1u8 << n) != 0,
        (b & !(1u8 << n)) & (1u8 << n) == 0,
{
}

/// Setting or clearing bit `n` leaves every other bit as it was.
pub proof fn lemma_set_bit_other(b: u8, n: u8, k: u8)
    by (bit_vector)
    requires
        n < 8,
        k < 8,
        n != k,
    ensures
        ((b | (1u8 << n)) & (1u8 << k) != 0) == (b & (1u8 << k) != 0),
        ((b & !(1u8 << n)) & (1u8 << k) != 0) == (b & (1u8 << k) != 0),
{
}

/// A word is its low byte plus 256 times its high byte.
pub proof fn lemma_word_split(w: u16)
    by (bit_vector)
    ensures
        w & 0xFFu16 <= 0xFF,
        w >> 8u16 <= 0xFF,
        (w & 0xFFu16) + 256 * (w >> 8u16) == w,
        w & 0xFFu16 == w % 256,
        w >> 8u16 == w / 256,
{
}

/// Masking a word never produces a value above the mask.
pub proof fn lemma_and_le16(x: u16, m: u16)
    by (bit_vector)
    ensures
        x & m <= m,
        x & m <= x,
{
}

/// The mode field (bits 0-1) of STAT: untouched by the coincidence bit (bit 2), and
/// replaced by a write of the field.
pub proof fn lemma_mode_field(stat: u8, bits: u8)
    by (bit_vector)
    requires
        bits <= 3,
    ensures
        (stat | (1u8 << 2u8)) & 3 == stat & 3,
        (stat & !(1u8 << 2u8)) & 3 == stat & 3,
        ((stat & 0xFC) | bits) & 3 == bits,
{
}

} // verus!
