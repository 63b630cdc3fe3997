//! The bit fields of a 32-bit instruction word and the immediates that the
//! I, S, B, U and J formats assemble from them.
//!
//! Every immediate is sign-extended into a signed 64-bit value, so that it
//! can be added to a register or to the program counter as it stands.

use vstd::prelude::*;

verus! {

/// `value` read as a two's-complement number whose sign bit has the weight
/// `sign`: values from `sign` upwards stand for `value - 2 * sign`.
pub open spec fn sext(value: int, sign: int) -> int {
    if value >= sign {
        value - 2 * sign
    } else {
        value
    }
}

pub open spec fn spec_opcode(raw: u32) -> u32 {
    raw & 0x7F
}

pub open spec fn spec_rd(raw: u32) -> u32 {
    (raw >> 7) & 0x1F
}

pub open spec fn spec_funct3(raw: u32) -> u32 {
    (raw >> 12) & 0x7
}

pub open spec fn spec_rs1(raw: u32) -> u32 {
    (raw >> 15) & 0x1F
}

pub open spec fn spec_rs2(raw: u32) -> u32 {
    (raw >> 20) & 0x1F
}

pub open spec fn spec_funct7(raw: u32) -> u32 {
    (raw >> 25) & 0x7F
}

/// The upper six bits of the word. The 64-bit shifts by an immediate tell
/// logical from arithmetic here, because their shift amount takes six bits.
pub open spec fn spec_funct6(raw: u32) -> u32 {
    raw >> 26
}

/// The six-bit shift amount of the 64-bit shifts by an immediate.
pub open spec fn spec_shamt(raw: u32) -> u32 {
    (raw >> 20) & 0x3F
}

/// The 12 bits of the I-immediate, before sign extension.
pub open spec fn i_bits(raw: u32) -> u32 {
    raw >> 20
}

/// The 12 bits of the S-immediate, before sign extension.
pub open spec fn s_bits(raw: u32) -> u32 {
    ((raw >> 25) << 5) | ((raw >> 7) & 0x1F)
}

/// The 13 bits of the B-immediate, before sign extension: word bit 31 goes
/// to bit 12, bit 7 to bit 11, bits 30..25 to 10..5 and bits 11..8 to 4..1.
pub open spec fn b_bits(raw: u32) -> u32 {
    ((raw >> 31) << 12) | (((raw >> 7) & 0x1) << 11) | (((raw >> 25) & 0x3F) << 5) | (((raw >> 8)
        & 0xF) << 1)
}

/// The 32 bits of the U-immediate, before sign extension.
pub open spec fn u_bits(raw: u32) -> u32 {
    raw & 0xFFFF_F000
}

/// The 21 bits of the J-immediate, before sign extension: word bit 31 goes
/// to bit 20, bits 19..12 stay, bit 20 goes to bit 11 and bits 30..21 to
/// 10..1.
pub open spec fn j_bits(raw: u32) -> u32 {
    ((raw >> 31) << 20) | (((raw >> 12) & 0xFF) << 12) | (((raw >> 20) & 0x1) << 11) | (((raw
        >> 21) & 0x3FF) << 1)
}

pub open spec fn spec_imm_i(raw: u32) -> int {
    sext(i_bits(raw) as int, 0x800)
}

pub open spec fn spec_imm_s(raw: u32) -> int {
    sext(s_bits(raw) as int, 0x800)
}

pub open spec fn spec_imm_b(raw: u32) -> int {
    sext(b_bits(raw) as int, 0x1000)
}

pub open spec fn spec_imm_u(raw: u32) -> int {
    sext(u_bits(raw) as int, 0x8000_0000)
}

pub open spec fn spec_imm_j(raw: u32) -> int {
    sext(j_bits(raw) as int, 0x10_0000)
}

/// The widths of the fields: what each extraction can yield at most.
pub proof fn lemma_field_ranges(raw: u32)
    by (bit_vector)
    ensures
        raw & 0x7F < 0x80,
        (raw >> 7) & 0x1F < 32,
        (raw >> 12) & 0x7 < 8,
        (raw >> 15) & 0x1F < 32,
        (raw >> 20) & 0x1F < 32,
        (raw >> 25) & 0x7F < 0x80,
        raw >> 26 < 64,
        (raw >> 20) & 0x3F < 64,
        raw >> 20 < 0x1000,
        ((raw >> 25) << 5) | ((raw >> 7) & 0x1F) < 0x1000,
        ((raw >> 31) << 12) | (((raw >> 7) & 0x1) << 11) | (((raw >> 25) & 0x3F) << 5) | (((raw
            >> 8) & 0xF) << 1) < 0x2000,
        ((raw >> 31) << 20) | (((raw >> 12) & 0xFF) << 12) | (((raw >> 20) & 0x1) << 11) | (((raw
            >> 21) & 0x3FF) << 1) < 0x20_0000,
{
}

/// The operation selector in bits 6..0.
#[verifier::when_used_as_spec(spec_opcode)]
pub fn opcode(raw: u32) -> (r: u32)
    ensures
        r == spec_opcode(raw),
        r < 0x80,
{
    proof {
        lemma_field_ranges(raw);
    }
    raw & 0x7F
}

/// The destination register in bits 11..7.
#[verifier::when_used_as_spec(spec_rd)]
pub fn rd(raw: u32) -> (r: u32)
    ensures
        r == spec_rd(raw),
        r < 32,
{
    proof {
        lemma_field_ranges(raw);
    }
    (raw >> 7) & 0x1F
}

/// The minor selector in bits 14..12.
#[verifier::when_used_as_spec(spec_funct3)]
pub fn funct3(raw: u32) -> (r: u32)
    ensures
        r == spec_funct3(raw),
        r < 8,
{
    proof {
        lemma_field_ranges(raw);
    }
    (raw >> 12) & 0x7
}

/// The first source register in bits 19..15.
#[verifier::when_used_as_spec(spec_rs1)]
pub fn rs1(raw: u32) -> (r: u32)
    ensures
        r == spec_rs1(raw),
        r < 32,
{
    proof {
        lemma_field_ranges(raw);
    }
    (raw >> 15) & 0x1F
}

/// The second source register in bits 24..20.
#[verifier::when_used_as_spec(spec_rs2)]
pub fn rs2(raw: u32) -> (r: u32)
    ensures
        r == spec_rs2(raw),
        r < 32,
{
    proof {
        lemma_field_ranges(raw);
    }
    (raw >> 20) & 0x1F
}

/// The major selector in bits 31..25.
#[verifier::when_used_as_spec(spec_funct7)]
pub fn funct7(raw: u32) -> (r: u32)
    ensures
        r == spec_funct7(raw),
        r < 0x80,
{
    proof {
        lemma_field_ranges(raw);
    }
    (raw >> 25) & 0x7F
}

/// Bits 31..26.
#[verifier::when_used_as_spec(spec_funct6)]
pub fn funct6(raw: u32) -> (r: u32)
    ensures
        r == spec_funct6(raw),
        r < 64,
{
    proof {
        lemma_field_ranges(raw);
    }
    raw >> 26
}

/// Bits 25..20 as a shift amount.
#[verifier::when_used_as_spec(spec_shamt)]
pub fn shamt(raw: u32) -> (r: u32)
    ensures
        r == spec_shamt(raw),
        r < 64,
{
    proof {
        lemma_field_ranges(raw);
    }
    (raw >> 20) & 0x3F
}

/// The I-immediate: bits 31..20, sign-extended from 12 bits.
pub fn imm_i(raw: u32) -> (r: i64)
    ensures
        r == spec_imm_i(raw),
        -0x800 <= r < 0x800,
{
    proof {
        lemma_field_ranges(raw);
    }
    let bits = raw >> 20;
    if bits >= 0x800 {
        bits as i64 - 0x1000
    } else {
        bits as i64
    }
}

/// The S-immediate: bits 31..25 over bits 11..7, sign-extended from 12 bits.
pub fn imm_s(raw: u32) -> (r: i64)
    ensures
        r == spec_imm_s(raw),
        -0x800 <= r < 0x800,
{
    proof {
        lemma_field_ranges(raw);
    }
    let bits = ((raw >> 25) << 5) | ((raw >> 7) & 0x1F);
    if bits >= 0x800 {
        bits as i64 - 0x1000
    } else {
        bits as i64
    }
}

/// The B-immediate, sign-extended from 13 bits. Its lowest bit is zero.
pub fn imm_b(raw: u32) -> (r: i64)
    ensures
        r == spec_imm_b(raw),
        -0x1000 <= r < 0x1000,
{
    proof {
        lemma_field_ranges(raw);
    }
    let bits = ((raw >> 31) << 12) | (((raw >> 7) & 0x1) << 11) | (((raw >> 25) & 0x3F) << 5) | (((
    raw >> 8) & 0xF) << 1);
    if bits >= 0x1000 {
        bits as i64 - 0x2000
    } else {
        bits as i64
    }
}

/// The U-immediate: bits 31..12 in place over twelve zero bits, sign-extended
/// from 32 bits.
pub fn imm_u(raw: u32) -> (r: i64)
    ensures
        r == spec_imm_u(raw),
        -0x8000_0000 <= r < 0x8000_0000,
{
    let bits = raw & 0xFFFF_F000;
    if bits >= 0x8000_0000 {
        bits as i64 - 0x1_0000_0000
    } else {
        bits as i64
    }
}

/// The J-immediate, sign-extended from 21 bits. Its lowest bit is zero.
pub fn imm_j(raw: u32) -> (r: i64)
    ensures
        r == spec_imm_j(raw),
        -0x10_0000 <= r < 0x10_0000,
{
    proof {
        lemma_field_ranges(raw);
    }
    let bits = ((raw >> 31) << 20) | (((raw >> 12) & 0xFF) << 12) | (((raw >> 20) & 0x1) << 11) | (((
    raw >> 21) & 0x3FF) << 1);
    if bits >= 0x10_0000 {
        bits as i64 - 0x20_0000
    } else {
        bits as i64
    }
}

/// What a conditional branch needs from its word: the displacement and the
/// two registers it compares.
pub fn __extract_branch(raw: u32) -> (r: (i32, u32, u32))
    ensures
        r.0 == spec_imm_b(raw),
        r.1 == spec_rs1(raw),
        r.2 == spec_rs2(raw),
{
    let imm = imm_b(raw);
    (imm as i32, rs1(raw), rs2(raw))
}

} // verus!
