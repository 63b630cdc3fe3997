//! The arithmetic of the integer instructions.
//!
//! Registers hold 64-bit patterns. Additions, subtractions and products
//! wrap around; comparisons, divisions and arithmetic shifts read a pattern
//! as a two's-complement number where the instruction is a signed one.

use vstd::prelude::*;
use vstd::arithmetic::div_mod::lemma_small_mod;
use crate::instruction::Instructions;
use crate::instruction::fields::sext;

verus! {

/// The 64-bit pattern of an integer: its residue modulo `2^64`.
pub open spec fn wrap64(x: int) -> u64 {
    (x % 0x1_0000_0000_0000_0000) as u64
}

/// The 32-bit pattern of an integer: its residue modulo `2^32`.
pub open spec fn wrap32(x: int) -> u32 {
    (x % 0x1_0000_0000) as u32
}

/// A 64-bit pattern read as a two's-complement number.
pub open spec fn signed64(x: u64) -> int {
    sext(x as int, 0x8000_0000_0000_0000)
}

/// The low 32 bits of a register.
pub open spec fn low32(x: u64) -> u32 {
    (x % 0x1_0000_0000) as u32
}

/// A 32-bit result widened to a register: the sign bit fills the upper
/// half.
pub open spec fn sext32(x: u32) -> u64 {
    wrap64(sext(x as int, 0x8000_0000))
}

/// `x` shifted right by `shift` bits, with the sign bit filling in.
pub open spec fn sra64(x: u64, shift: u64) -> u64 {
    ((x as i64) >> shift) as u64
}

/// The same on 32 bits.
pub open spec fn sra32(x: u32, shift: u64) -> u32 {
    ((x as i32) >> shift) as u32
}

/// The quotient of `x` by `d` rounded toward zero, for `d` other than zero.
pub open spec fn trunc_div(x: int, d: int) -> int {
    if x >= 0 && d > 0 {
        x / d
    } else if x < 0 && d < 0 {
        (-x) / (-d)
    } else if x < 0 {
        -((-x) / d)
    } else {
        -(x / (-d))
    }
}

/// The remainder that goes with [`trunc_div`]. It has the sign of `x`.
pub open spec fn trunc_rem(x: int, d: int) -> int {
    if x >= 0 && d > 0 {
        x % d
    } else if x < 0 && d < 0 {
        -((-x) % (-d))
    } else if x < 0 {
        -((-x) % d)
    } else {
        x % (-d)
    }
}

/// Signed division. A division by zero yields the pattern of all ones, and
/// the one quotient that does not fit, `-2^63 / -1`, wraps around to
/// `-2^63`.
pub open spec fn div64(a: u64, b: u64) -> u64 {
    if b == 0 {
        u64::MAX
    } else {
        wrap64(trunc_div(signed64(a), signed64(b)))
    }
}

/// Signed remainder. A division by zero yields the dividend.
pub open spec fn rem64(a: u64, b: u64) -> u64 {
    if b == 0 {
        a
    } else {
        wrap64(trunc_rem(signed64(a), signed64(b)))
    }
}

/// `1` where the condition holds and `0` where it does not.
pub open spec fn flag(condition: bool) -> u64 {
    if condition {
        1
    } else {
        0
    }
}

/// The result of an arithmetic or logic instruction on the operands `a` and
/// `b`. For an instruction with an immediate, `b` is the pattern of the
/// sign-extended immediate, so that a shift by an immediate takes its
/// amount from the low bits of the immediate. For any other instruction the
/// result is zero.
pub open spec fn alu_spec(i: Instructions, a: u64, b: u64) -> u64 {
    match i {
        Instructions::Add | Instructions::Addi => wrap64(a + b),
        Instructions::Sub => wrap64(a - b),
        Instructions::Slt | Instructions::Slti => flag(signed64(a) < signed64(b)),
        Instructions::Sltu | Instructions::Sltiu => flag(a < b),
        Instructions::Xor | Instructions::Xori => a ^ b,
        Instructions::Or | Instructions::Ori => a | b,
        Instructions::And | Instructions::Andi => a & b,
        Instructions::Sll | Instructions::Slli => a << (b & 0x3F),
        Instructions::Srl | Instructions::Srli => a >> (b & 0x3F),
        Instructions::Sra | Instructions::Srai => sra64(a, b & 0x3F),
        Instructions::Mul => wrap64(a * b),
        Instructions::Div => div64(a, b),
        Instructions::Rem => rem64(a, b),
        Instructions::Addw | Instructions::Addiw => sext32(wrap32(low32(a) + low32(b))),
        Instructions::Subw => sext32(wrap32(low32(a) - low32(b))),
        Instructions::Sllw | Instructions::Slliw => sext32(low32(a) << (b & 0x1F)),
        Instructions::Srlw | Instructions::Srliw => sext32(low32(a) >> (b & 0x1F)),
        Instructions::Sraw | Instructions::Sraiw => sext32(sra32(low32(a), b & 0x1F)),
        _ => 0,
    }
}

/// Whether a conditional branch on the operands `a` and `b` is taken. For
/// any other instruction the answer is no.
pub open spec fn branch_taken(i: Instructions, a: u64, b: u64) -> bool {
    match i {
        Instructions::Beq => a == b,
        Instructions::Bne => a != b,
        Instructions::Blt => signed64(a) < signed64(b),
        Instructions::Bge => signed64(a) >= signed64(b),
        Instructions::Bltu => a < b,
        Instructions::Bgeu => a >= b,
        _ => false,
    }
}

/// Shift amounts of six and of five bits stay below the width they shift.
pub proof fn lemma_shift_amounts(b: u64)
    by (bit_vector)
    ensures
        b & 0x3F < 64,
        b & 0x1F < 32,
{
}

/// A register read as a signed number.
pub fn to_signed(x: u64) -> (r: i64)
    ensures
        r == signed64(x),
        r == x as i64,
{
    assert(x as i64 == if x >= 0x8000_0000_0000_0000u64 {
        x - 0x1_0000_0000_0000_0000
    } else {
        x as int
    }) by (bit_vector);
    x as i64
}

/// The pattern of a signed number.
pub fn from_signed(x: i64) -> (r: u64)
    ensures
        r == wrap64(x as int),
        signed64(r) == x,
{
    assert(x as u64 == if x < 0 {
        x + 0x1_0000_0000_0000_0000
    } else {
        x as int
    }) by (bit_vector);
    x as u64
}

/// The low half of a register.
pub fn low_word(x: u64) -> (r: u32)
    ensures
        r == low32(x),
{
    (x % 0x1_0000_0000) as u32
}

/// Widens a 32-bit result to a register.
pub fn sign_extend_word(x: u32) -> (r: u64)
    ensures
        r == sext32(x),
{
    if x >= 0x8000_0000 {
        x as u64 + 0xFFFF_FFFF_0000_0000
    } else {
        x as u64
    }
}

/// Signed division as [`div64`] defines it.
pub fn divide(a: u64, b: u64) -> (r: u64)
    ensures
        r == div64(a, b),
{
    let x = to_signed(a);
    let d = to_signed(b);
    if d == 0 {
        u64::MAX
    } else {
        match x.checked_div(d) {
            Some(q) => from_signed(q),
            None => a,
        }
    }
}

/// Signed remainder as [`rem64`] defines it.
pub fn remainder(a: u64, b: u64) -> (r: u64)
    ensures
        r == rem64(a, b),
{
    let x = to_signed(a);
    let d = to_signed(b);
    proof {
        if x == 0 && d != 0 {
            lemma_small_mod(0, if d > 0 { d as nat } else { (-d) as nat });
        }
    }
    if d == 0 {
        a
    } else {
        match x.checked_rem(d) {
            Some(m) => from_signed(m),
            None => 0,
        }
    }
}

/// Computes the result of the arithmetic or logic instruction `i`.
pub fn alu(i: Instructions, a: u64, b: u64) -> (r: u64)
    ensures
        r == alu_spec(i, a, b),
{
    proof {
        lemma_shift_amounts(b);
    }
    match i {
        Instructions::Add | Instructions::Addi => a.wrapping_add(b),
        Instructions::Sub => a.wrapping_sub(b),
        Instructions::Slt | Instructions::Slti => if to_signed(a) < to_signed(b) {
            1
        } else {
            0
        },
        Instructions::Sltu | Instructions::Sltiu => if a < b {
            1
        } else {
            0
        },
        Instructions::Xor | Instructions::Xori => a ^ b,
        Instructions::Or | Instructions::Ori => a | b,
        Instructions::And | Instructions::Andi => a & b,
        Instructions::Sll | Instructions::Slli => a << (b & 0x3F),
        Instructions::Srl | Instructions::Srli => a >> (b & 0x3F),
        Instructions::Sra | Instructions::Srai => ((a as i64) >> (b & 0x3F)) as u64,
        Instructions::Mul => a.wrapping_mul(b),
        Instructions::Div => divide(a, b),
        Instructions::Rem => remainder(a, b),
        Instructions::Addw | Instructions::Addiw => sign_extend_word(
            low_word(a).wrapping_add(low_word(b)),
        ),
        Instructions::Subw => sign_extend_word(low_word(a).wrapping_sub(low_word(b))),
        Instructions::Sllw | Instructions::Slliw => sign_extend_word(low_word(a) << (b & 0x1F)),
        Instructions::Srlw | Instructions::Srliw => sign_extend_word(low_word(a) >> (b & 0x1F)),
        Instructions::Sraw | Instructions::Sraiw => sign_extend_word(
            ((low_word(a) as i32) >> (b & 0x1F)) as u32,
        ),
        _ => 0,
    }
}

/// Decides the conditional branch `i`.
pub fn branch(i: Instructions, a: u64, b: u64) -> (taken: bool)
    ensures
        taken == branch_taken(i, a, b),
{
    match i {
        Instructions::Beq => a == b,
        Instructions::Bne => a != b,
        Instructions::Blt => to_signed(a) < to_signed(b),
        Instructions::Bge => to_signed(a) >= to_signed(b),
        Instructions::Bltu => a < b,
        Instructions::Bgeu => a >= b,
        _ => false,
    }
}

} // verus!
