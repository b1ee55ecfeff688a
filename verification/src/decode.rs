//! The instruction-format decoder: opcode, function codes, register operands
//! and the five immediate encodings of one 32-bit instruction word.

use crate::bits::{
    as_signed, bitrange, field, lemma_field_as_bits, lemma_field_bound,
    lemma_sign_extended_as_bits, lemma_sign_extended_value, low_mask, sign_ext, sign_extended,
};
use vstd::arithmetic::power2::{lemma2_to64, lemma2_to64_rest};
use vstd::prelude::*;

verus! {

/// Everything that the encoding of one instruction word holds. All five
/// immediates are present whatever the format of the instruction is; the one
/// that belongs to the opcode's format is the meaningful one.
#[derive(Clone, Copy, Debug, PartialEq, Eq)]
pub struct DecodedInstruction {
    /// Bits 6..=0.
    pub opcode: u32,
    /// Bits 14..=12.
    pub funct3: u32,
    /// Bits 31..=25.
    pub funct7: u32,
    /// Destination register, bits 11..=7.
    pub rd: u32,
    /// First source register, bits 19..=15.
    pub rs1: u32,
    /// Second source register, bits 24..=20.
    pub rs2: u32,
    /// I-type immediate, sign-extended from 12 bits.
    pub imm_i: u32,
    /// S-type immediate, sign-extended from 12 bits.
    pub imm_s: u32,
    /// B-type immediate, sign-extended from 13 bits; its lowest bit is zero.
    pub imm_b: u32,
    /// U-type immediate: the upper twenty bits, in place.
    pub imm_u: u32,
    /// J-type immediate, sign-extended from 21 bits; its lowest bit is zero.
    pub imm_j: u32,
}

/// The I-type immediate before sign extension: bits 31..=20.
pub open spec fn imm_i_raw(word: u32) -> int {
    field(word, 31, 20)
}

/// The S-type immediate before sign extension: bits 31..=25 above bits 11..=7.
pub open spec fn imm_s_raw(word: u32) -> int {
    field(word, 31, 25) * 0x20 + field(word, 11, 7)
}

/// The B-type immediate before sign extension: bit 31, bit 7, bits 30..=25
/// and bits 11..=8, from the top down, above a zero bit.
pub open spec fn imm_b_raw(word: u32) -> int {
    field(word, 31, 31) * 0x1000 + field(word, 7, 7) * 0x800 + field(word, 30, 25) * 0x20 + field(
        word,
        11,
        8,
    ) * 2
}

/// The U-type immediate before sign extension: bits 31..=12, in place.
pub open spec fn imm_u_raw(word: u32) -> int {
    field(word, 31, 12) * 0x1000
}

/// The J-type immediate before sign extension: bit 31, bits 19..=12, bit 20
/// and bits 30..=21, from the top down, above a zero bit.
pub open spec fn imm_j_raw(word: u32) -> int {
    field(word, 31, 31) * 0x10_0000 + field(word, 19, 12) * 0x1000 + field(word, 20, 20) * 0x800
        + field(word, 30, 21) * 2
}

/// What `word` decodes to.
pub open spec fn decoded(word: u32) -> DecodedInstruction {
    DecodedInstruction {
        opcode: field(word, 6, 0) as u32,
        funct3: field(word, 14, 12) as u32,
        funct7: field(word, 31, 25) as u32,
        rd: field(word, 11, 7) as u32,
        rs1: field(word, 19, 15) as u32,
        rs2: field(word, 24, 20) as u32,
        imm_i: sign_extended(imm_i_raw(word) as u32, 12) as u32,
        imm_s: sign_extended(imm_s_raw(word) as u32, 12) as u32,
        imm_b: sign_extended(imm_b_raw(word) as u32, 13) as u32,
        imm_u: sign_extended(imm_u_raw(word) as u32, 32) as u32,
        imm_j: sign_extended(imm_j_raw(word) as u32, 21) as u32,
    }
}

/// Every fixed field of a word fits its width: the register operands are
/// valid register indices.
pub proof fn lemma_decoded_bounds(word: u32)
    ensures
        decoded(word).opcode < 0x80,
        decoded(word).funct3 < 8,
        decoded(word).funct7 < 0x80,
        decoded(word).rd < 32,
        decoded(word).rs1 < 32,
        decoded(word).rs2 < 32,
{
    lemma2_to64();
    lemma_field_bound(word, 6, 0);
    lemma_field_bound(word, 14, 12);
    lemma_field_bound(word, 31, 25);
    lemma_field_bound(word, 11, 7);
    lemma_field_bound(word, 19, 15);
    lemma_field_bound(word, 24, 20);
}

/// Read as signed numbers, the I-type and S-type immediates are twelve-bit
/// values, the B-type immediate is an even thirteen-bit value and the J-type
/// immediate an even twenty-one-bit value; the U-type immediate is a multiple
/// of `0x1000`.
pub proof fn lemma_immediate_ranges(word: u32)
    ensures
        -0x800 <= as_signed(decoded(word).imm_i as int) < 0x800,
        -0x800 <= as_signed(decoded(word).imm_s as int) < 0x800,
        -0x1000 <= as_signed(decoded(word).imm_b as int) < 0x1000,
        as_signed(decoded(word).imm_b as int) % 2 == 0,
        -0x10_0000 <= as_signed(decoded(word).imm_j as int) < 0x10_0000,
        as_signed(decoded(word).imm_j as int) % 2 == 0,
        decoded(word).imm_u % 0x1000 == 0,
{
    lemma2_to64();
    lemma2_to64_rest();
    lemma_field_bound(word, 31, 20);
    lemma_field_bound(word, 31, 25);
    lemma_field_bound(word, 11, 7);
    lemma_field_bound(word, 31, 31);
    lemma_field_bound(word, 7, 7);
    lemma_field_bound(word, 30, 25);
    lemma_field_bound(word, 11, 8);
    lemma_field_bound(word, 31, 12);
    lemma_field_bound(word, 19, 12);
    lemma_field_bound(word, 20, 20);
    lemma_field_bound(word, 30, 21);
    lemma_sign_extended_value(imm_i_raw(word) as u32, 12);
    lemma_sign_extended_value(imm_s_raw(word) as u32, 12);
    lemma_sign_extended_value(imm_b_raw(word) as u32, 13);
    lemma_sign_extended_value(imm_u_raw(word) as u32, 32);
    lemma_sign_extended_value(imm_j_raw(word) as u32, 21);
}

/// The I-type immediate carries bits 31..=20 of the word in its bits 11..=0,
/// and the word's bit 31 in every bit above them.
pub proof fn lemma_imm_i_layout(word: u32)
    ensures
        field(decoded(word).imm_i, 11, 0) == field(word, 31, 20),
        field(decoded(word).imm_i, 31, 12) == field(word, 31, 31) * 0xF_FFFF,
{
    let raw = imm_i_raw(word) as u32;
    let imm = decoded(word).imm_i;
    lemma_field_bound(word, 31, 20);
    lemma_field_as_bits(word, 31, 20);
    lemma_field_as_bits(word, 31, 31);
    lemma_sign_extended_as_bits(raw, 12);
    lemma_field_as_bits(imm, 11, 0);
    lemma_field_as_bits(imm, 31, 12);
    assert((imm >> 0u32) & low_mask(12) == (word >> 20u32) & low_mask(12) && (imm >> 12u32)
        & low_mask(20) == ((word >> 31u32) & low_mask(1)) * 0xF_FFFF) by (bit_vector)
        requires
            raw == (word >> 20u32) & low_mask(12),
            imm == if (raw >> 11u32) & 1 == 1 {
                raw | !low_mask(12)
            } else {
                raw
            },
    ;
}

/// The S-type immediate carries bits 11..=7 of the word in its bits 4..=0,
/// bits 30..=25 in its bits 10..=5, and the word's bit 31 in every bit above
/// them.
pub proof fn lemma_imm_s_layout(word: u32)
    ensures
        field(decoded(word).imm_s, 4, 0) == field(word, 11, 7),
        field(decoded(word).imm_s, 10, 5) == field(word, 30, 25),
        field(decoded(word).imm_s, 31, 11) == field(word, 31, 31) * 0x1F_FFFF,
{
    let raw = imm_s_raw(word) as u32;
    let imm = decoded(word).imm_s;
    let high = field(word, 31, 25) as u32;
    let low = field(word, 11, 7) as u32;
    lemma2_to64();
    lemma_field_bound(word, 31, 25);
    lemma_field_bound(word, 11, 7);
    lemma_field_as_bits(word, 31, 25);
    lemma_field_as_bits(word, 11, 7);
    lemma_field_as_bits(word, 30, 25);
    lemma_field_as_bits(word, 31, 31);
    assert((high << 5u32) | low == high * 0x20 + low) by (bit_vector)
        requires
            high < 0x80,
            low < 0x20,
    ;
    lemma_sign_extended_as_bits(raw, 12);
    lemma_field_as_bits(imm, 4, 0);
    lemma_field_as_bits(imm, 10, 5);
    lemma_field_as_bits(imm, 31, 11);
    assert((imm >> 0u32) & low_mask(5) == (word >> 7u32) & low_mask(5) && (imm >> 5u32) & low_mask(
        6,
    ) == (word >> 25u32) & low_mask(6) && (imm >> 11u32) & low_mask(21) == ((word >> 31u32)
        & low_mask(1)) * 0x1F_FFFF) by (bit_vector)
        requires
            raw == (((word >> 25u32) & low_mask(7)) << 5u32) | ((word >> 7u32) & low_mask(5)),
            imm == if (raw >> 11u32) & 1 == 1 {
                raw | !low_mask(12)
            } else {
                raw
            },
    ;
}

/// The B-type immediate is even; it carries bits 11..=8 of the word in its
/// bits 4..=1, bits 30..=25 in its bits 10..=5, bit 7 in its bit 11, and the
/// word's bit 31 in every bit above them.
pub proof fn lemma_imm_b_layout(word: u32)
    ensures
        field(decoded(word).imm_b, 0, 0) == 0,
        field(decoded(word).imm_b, 4, 1) == field(word, 11, 8),
        field(decoded(word).imm_b, 10, 5) == field(word, 30, 25),
        field(decoded(word).imm_b, 11, 11) == field(word, 7, 7),
        field(decoded(word).imm_b, 31, 12) == field(word, 31, 31) * 0xF_FFFF,
{
    let raw = imm_b_raw(word) as u32;
    let imm = decoded(word).imm_b;
    let top = field(word, 31, 31) as u32;
    let eleven = field(word, 7, 7) as u32;
    let mid = field(word, 30, 25) as u32;
    let low = field(word, 11, 8) as u32;
    lemma2_to64();
    lemma_field_bound(word, 31, 31);
    lemma_field_bound(word, 7, 7);
    lemma_field_bound(word, 30, 25);
    lemma_field_bound(word, 11, 8);
    lemma_field_as_bits(word, 31, 31);
    lemma_field_as_bits(word, 7, 7);
    lemma_field_as_bits(word, 30, 25);
    lemma_field_as_bits(word, 11, 8);
    assert((top << 12u32) | (eleven << 11u32) | (mid << 5u32) | (low << 1u32) == top * 0x1000
        + eleven * 0x800 + mid * 0x20 + low * 2) by (bit_vector)
        requires
            top < 2,
            eleven < 2,
            mid < 0x40,
            low < 0x10,
    ;
    lemma_sign_extended_as_bits(raw, 13);
    lemma_field_as_bits(imm, 0, 0);
    lemma_field_as_bits(imm, 4, 1);
    lemma_field_as_bits(imm, 10, 5);
    lemma_field_as_bits(imm, 11, 11);
    lemma_field_as_bits(imm, 31, 12);
    assert((imm >> 0u32) & low_mask(1) == 0 && (imm >> 1u32) & low_mask(4) == (word >> 8u32)
        & low_mask(4) && (imm >> 5u32) & low_mask(6) == (word >> 25u32) & low_mask(6) && (imm
        >> 11u32) & low_mask(1) == (word >> 7u32) & low_mask(1) && (imm >> 12u32) & low_mask(20)
        == ((word >> 31u32) & low_mask(1)) * 0xF_FFFF) by (bit_vector)
        requires
            raw == (((word >> 31u32) & low_mask(1)) << 12u32) | (((word >> 7u32) & low_mask(1))
                << 11u32) | (((word >> 25u32) & low_mask(6)) << 5u32) | (((word >> 8u32)
                & low_mask(4)) << 1u32),
            imm == if (raw >> 12u32) & 1 == 1 {
                raw | !low_mask(13)
            } else {
                raw
            },
    ;
}

/// The U-type immediate carries bits 31..=12 of the word in place, above
/// twelve zero bits.
pub proof fn lemma_imm_u_layout(word: u32)
    ensures
        field(decoded(word).imm_u, 11, 0) == 0,
        field(decoded(word).imm_u, 31, 12) == field(word, 31, 12),
        decoded(word).imm_u == word - word % 0x1000,
{
    let raw = imm_u_raw(word) as u32;
    let imm = decoded(word).imm_u;
    let upper = field(word, 31, 12) as u32;
    lemma2_to64();
    lemma_field_bound(word, 31, 12);
    lemma_field_as_bits(word, 31, 12);
    assert(upper << 12u32 == upper * 0x1000) by (bit_vector)
        requires
            upper < 0x10_0000,
    ;
    lemma_sign_extended_as_bits(raw, 32);
    lemma_field_as_bits(imm, 11, 0);
    lemma_field_as_bits(imm, 31, 12);
    assert((imm >> 0u32) & low_mask(12) == 0 && (imm >> 12u32) & low_mask(20) == (word >> 12u32)
        & low_mask(20) && imm == word - word % 0x1000) by (bit_vector)
        requires
            raw == ((word >> 12u32) & low_mask(20)) << 12u32,
            imm == if (raw >> 31u32) & 1 == 1 {
                raw | !low_mask(32)
            } else {
                raw
            },
    ;
}

/// The J-type immediate is even; it carries bits 30..=21 of the word in its
/// bits 10..=1, bit 20 in its bit 11, bits 19..=12 in place, and the word's
/// bit 31 in every bit above them.
pub proof fn lemma_imm_j_layout(word: u32)
    ensures
        field(decoded(word).imm_j, 0, 0) == 0,
        field(decoded(word).imm_j, 10, 1) == field(word, 30, 21),
        field(decoded(word).imm_j, 11, 11) == field(word, 20, 20),
        field(decoded(word).imm_j, 19, 12) == field(word, 19, 12),
        field(decoded(word).imm_j, 31, 20) == field(word, 31, 31) * 0xFFF,
{
    let raw = imm_j_raw(word) as u32;
    let imm = decoded(word).imm_j;
    let top = field(word, 31, 31) as u32;
    let page = field(word, 19, 12) as u32;
    let eleven = field(word, 20, 20) as u32;
    let run = field(word, 30, 21) as u32;
    lemma2_to64();
    lemma_field_bound(word, 31, 31);
    lemma_field_bound(word, 19, 12);
    lemma_field_bound(word, 20, 20);
    lemma_field_bound(word, 30, 21);
    lemma_field_as_bits(word, 31, 31);
    lemma_field_as_bits(word, 19, 12);
    lemma_field_as_bits(word, 20, 20);
    lemma_field_as_bits(word, 30, 21);
    assert((top << 20u32) | (page << 12u32) | (eleven << 11u32) | (run << 1u32) == top * 0x10_0000
        + page * 0x1000 + eleven * 0x800 + run * 2) by (bit_vector)
        requires
            top < 2,
            eleven < 2,
            page < 0x100,
            run < 0x400,
    ;
    lemma_sign_extended_as_bits(raw, 21);
    lemma_field_as_bits(imm, 0, 0);
    lemma_field_as_bits(imm, 10, 1);
    lemma_field_as_bits(imm, 11, 11);
    lemma_field_as_bits(imm, 19, 12);
    lemma_field_as_bits(imm, 31, 20);
    assert((imm >> 0u32) & low_mask(1) == 0 && (imm >> 1u32) & low_mask(10) == (word >> 21u32)
        & low_mask(10) && (imm >> 11u32) & low_mask(1) == (word >> 20u32) & low_mask(1) && (imm
        >> 12u32) & low_mask(8) == (word >> 12u32) & low_mask(8) && (imm >> 20u32) & low_mask(12)
        == ((word >> 31u32) & low_mask(1)) * 0xFFF) by (bit_vector)
        requires
            raw == (((word >> 31u32) & low_mask(1)) << 20u32) | (((word >> 12u32) & low_mask(8))
                << 12u32) | (((word >> 20u32) & low_mask(1)) << 11u32) | (((word >> 21u32)
                & low_mask(10)) << 1u32),
            imm == if (raw >> 20u32) & 1 == 1 {
                raw | !low_mask(21)
            } else {
                raw
            },
    ;
}

/// Decode one instruction word.
pub fn decode(word: u32) -> (d: DecodedInstruction)
    ensures
        d == decoded(word),
        d.rd < 32,
        d.rs1 < 32,
        d.rs2 < 32,
{
    proof {
        lemma2_to64();
        lemma2_to64_rest();
        lemma_decoded_bounds(word);
        lemma_field_bound(word, 31, 31);
        lemma_field_bound(word, 30, 25);
        lemma_field_bound(word, 11, 8);
        lemma_field_bound(word, 7, 7);
        lemma_field_bound(word, 31, 12);
        lemma_field_bound(word, 19, 12);
        lemma_field_bound(word, 20, 20);
        lemma_field_bound(word, 30, 21);
    }
    let opcode: u32 = bitrange(word, 6, 0);
    let funct3: u32 = bitrange(word, 14, 12);
    let funct7: u32 = bitrange(word, 31, 25);
    let rd: u32 = bitrange(word, 11, 7);
    let rs1: u32 = bitrange(word, 19, 15);
    let rs2: u32 = bitrange(word, 24, 20);

    let bit31: u32 = bitrange(word, 31, 31);
    let bit20: u32 = bitrange(word, 20, 20);
    let bit7: u32 = bitrange(word, 7, 7);
    let mid: u32 = bitrange(word, 30, 25);
    let low: u32 = bitrange(word, 11, 8);
    let page: u32 = bitrange(word, 19, 12);
    let run: u32 = bitrange(word, 30, 21);
    let upper: u32 = bitrange(word, 31, 12);

    assert((funct7 << 5) | rd == funct7 * 0x20 + rd) by (bit_vector)
        requires
            funct7 < 0x80,
            rd < 0x20,
    ;
    assert((bit31 << 12) | (mid << 5) | (low << 1) | (bit7 << 11) == bit31 * 0x1000 + bit7 * 0x800
        + mid * 0x20 + low * 2) by (bit_vector)
        requires
            bit31 < 2,
            bit7 < 2,
            mid < 0x40,
            low < 0x10,
    ;
    assert(upper << 12 == upper * 0x1000) by (bit_vector)
        requires
            upper < 0x10_0000,
    ;
    assert((bit31 << 20) | (page << 12) | (bit20 << 11) | (run << 1) == bit31 * 0x10_0000 + page
        * 0x1000 + bit20 * 0x800 + run * 2) by (bit_vector)
        requires
            bit31 < 2,
            bit20 < 2,
            page < 0x100,
            run < 0x400,
    ;

    let imm_i: u32 = sign_ext(bitrange(word, 31, 20), 12);
    let imm_s: u32 = sign_ext((funct7 << 5) | rd, 12);
    let imm_b: u32 = sign_ext((bit31 << 12) | (mid << 5) | (low << 1) | (bit7 << 11), 13);
    let imm_u: u32 = sign_ext(upper << 12, 32);
    let imm_j: u32 = sign_ext((bit31 << 20) | (page << 12) | (bit20 << 11) | (run << 1), 21);

    DecodedInstruction { opcode, funct3, funct7, rd, rs1, rs2, imm_i, imm_s, imm_b, imm_u, imm_j }
}

} // verus!
