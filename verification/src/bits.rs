//! Inclusive bit-range extraction and sign extension on 32-bit words.

use vstd::arithmetic::power2::{
    lemma2_to64, lemma2_to64_rest, lemma_pow2_pos, lemma_pow2_strictly_increases,
    lemma_pow2_unfold, pow2,
};
use vstd::bits::{
    lemma_u32_low_bits_mask_is_mod, lemma_u32_pow2_no_overflow, lemma_u32_shl_is_mul,
    lemma_u32_shr_is_div, low_bits_mask,
};
use vstd::prelude::*;

verus! {

/// Width of a machine word in bits.
pub const WORD_BITS: usize = 32;

/// The unsigned value of bits `low ..= high` of `word`, right-justified:
/// the word divided by `2^low`, reduced modulo `2^(high - low + 1)`.
pub open spec fn field(word: u32, high: int, low: int) -> int
    recommends
        0 <= low <= high < 32,
{
    (word as int / pow2(low as nat) as int) % (pow2((high - low + 1) as nat) as int)
}

/// Whether bit `index` of `word` is set.
pub open spec fn bit_set(word: u32, index: int) -> bool
    recommends
        0 <= index < 32,
{
    field(word, index, index) == 1
}

/// `value` read as a `width`-bit two's-complement quantity and widened to 32
/// bits: when bit `width - 1` is set every higher bit becomes one, otherwise
/// the value is returned as it is.
pub open spec fn sign_extended(value: u32, width: int) -> int
    recommends
        1 <= width <= 32,
{
    if bit_set(value, width - 1) {
        value as int % (pow2(width as nat) as int) + (pow2(32) - pow2(width as nat))
    } else {
        value as int
    }
}

/// The integer that a 32-bit pattern stands for in two's complement.
pub open spec fn as_signed(pattern: int) -> int {
    if pattern >= 0x8000_0000 {
        pattern - 0x1_0000_0000
    } else {
        pattern
    }
}

/// The word whose lowest `width` bits are set and no others.
pub open spec fn low_mask(width: u32) -> u32 {
    if width >= 32 {
        0xFFFF_FFFFu32
    } else {
        ((1u32 << width) - 1) as u32
    }
}

/// `low_mask(width)` is `2^width - 1`.
pub proof fn lemma_low_mask_value(width: u32)
    requires
        width <= 32,
    ensures
        low_mask(width) == pow2(width as nat) - 1,
        width < 32 ==> (1u32 << width) == pow2(width as nat),
        1 <= pow2(width as nat) <= 0x1_0000_0000,
{
    lemma_pow2_pos(width as nat);
    lemma2_to64();
    lemma2_to64_rest();
    if width < 32 {
        lemma_u32_pow2_no_overflow(width as nat);
        lemma_u32_shl_is_mul(1u32, width);
    }
}

/// A field is a value of `high - low + 1` bits.
pub proof fn lemma_field_bound(word: u32, high: int, low: int)
    requires
        0 <= low <= high < 32,
    ensures
        0 <= field(word, high, low) < pow2((high - low + 1) as nat),
        field(word, high, low) <= u32::MAX,
{
    let width = (high - low + 1) as nat;
    lemma_pow2_pos(low as nat);
    lemma_pow2_pos(width);
    lemma2_to64();
    if width < 32 {
        lemma_u32_pow2_no_overflow(width);
    }
}

/// Extraction written with a shift and a mask agrees with `field`.
pub proof fn lemma_field_as_bits(word: u32, high: u32, low: u32)
    requires
        low <= high < 32,
    ensures
        field(word, high as int, low as int) == (word >> low) & low_mask((high - low + 1) as u32),
{
    let width = (high - low + 1) as u32;
    let shifted = word >> low;
    lemma_low_mask_value(width);
    lemma_u32_shr_is_div(word, low);
    assert(shifted == word as int / pow2(low as nat) as int);
    if width < 32 {
        lemma_u32_low_bits_mask_is_mod(shifted, width as nat);
        assert(low_bits_mask(width as nat) as u32 == low_mask(width));
        assert(shifted & low_mask(width) == shifted as int % pow2(width as nat) as int);
    } else {
        assert(shifted & 0xFFFF_FFFFu32 == shifted) by (bit_vector);
        assert(shifted as int % pow2(32) as int == shifted);
    }
}

/// Sign extension written with a shift, a mask and an or agrees with
/// `sign_extended`.
pub proof fn lemma_sign_extended_as_bits(value: u32, width: u32)
    requires
        1 <= width <= 32,
    ensures
        sign_extended(value, width as int) == if (value >> ((width - 1) as u32)) & 1 == 1 {
            value | !low_mask(width)
        } else {
            value
        },
{
    let sign = (width - 1) as u32;
    let mask = low_mask(width);
    lemma_field_as_bits(value, sign, sign);
    assert(low_mask(1) == 1) by (bit_vector);
    lemma_low_mask_value(width);
    lemma2_to64();
    lemma2_to64_rest();
    if width < 32 {
        lemma_u32_pow2_no_overflow(width as nat);
        lemma_u32_low_bits_mask_is_mod(value, width as nat);
    } else {
        assert(value & 0xFFFF_FFFFu32 == value) by (bit_vector);
    }
    assert((value | !mask) == (value & mask) + (0xFFFF_FFFFu32 - mask)) by (bit_vector);
}

/// Sign extension keeps the number that the narrow pattern stands for: a
/// `width`-bit value below `2^(width - 1)` is unchanged, and one at or above it
/// stands for `value - 2^width`.
pub proof fn lemma_sign_extended_value(value: u32, width: int)
    requires
        1 <= width <= 32,
        value < pow2(width as nat),
    ensures
        0 <= sign_extended(value, width) <= u32::MAX,
        as_signed(sign_extended(value, width)) == if value >= pow2((width - 1) as nat) {
            value - pow2(width as nat)
        } else {
            value as int
        },
{
    let half = pow2((width - 1) as nat) as int;
    let full = pow2(width as nat) as int;
    lemma2_to64();
    lemma2_to64_rest();
    lemma_pow2_unfold(width as nat);
    lemma_pow2_pos((width - 1) as nat);
    lemma_pow2_strictly_increases((width - 1) as nat, 32);
    if width < 32 {
        lemma_pow2_strictly_increases(width as nat, 32);
    }
    let v = value as int;
    assert(v / half == if v >= half { 1int } else { 0int }) by (nonlinear_arith)
        requires
            0 <= v < 2 * half,
            0 < half,
    ;
    assert(v % full == v) by (nonlinear_arith)
        requires
            0 <= v < full,
    ;
    assert(full == 2 * half);
    assert(full <= 0x1_0000_0000);
    assert(field(value, width - 1, width - 1) == (v / half) % 2);
    assert(bit_set(value, width - 1) == (v >= half));
}

/// Slice `word[high ..= low]`, both ends inclusive, right-justified.
pub fn bitrange(word: u32, high: usize, low: usize) -> (r: u32)
    requires
        low <= high < WORD_BITS,
    ensures
        r == field(word, high as int, low as int),
{
    let shift: u32 = low as u32;
    let width: u32 = (high - low + 1) as u32;
    proof {
        lemma_field_as_bits(word, high as u32, shift);
        lemma_low_mask_value(width);
    }
    if width == 32 {
        assert(word >> 0u32 == word) by (bit_vector);
        assert(word & 0xFFFF_FFFFu32 == word) by (bit_vector);
        word
    } else {
        (word >> shift) & ((1u32 << width) - 1)
    }
}

/// Extend `value` to 32 bits while preserving its sign, with bit `width - 1`
/// read as the sign bit.
pub fn sign_ext(value: u32, width: usize) -> (r: u32)
    requires
        1 <= width <= WORD_BITS,
    ensures
        r == sign_extended(value, width as int),
{
    let bits: u32 = width as u32;
    proof {
        lemma_sign_extended_as_bits(value, bits);
        lemma_low_mask_value(bits);
    }
    if (value >> (bits - 1)) & 1 == 1 {
        if bits == 32 {
            assert(value | !0xFFFF_FFFFu32 == value) by (bit_vector);
            value
        } else {
            value | !((1u32 << bits) - 1)
        }
    } else {
        value
    }
}

} // verus!
