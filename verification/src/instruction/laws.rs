//! Laws of the instruction set, proved of the execution model.

use vstd::prelude::*;
use vstd::arithmetic::div_mod::{lemma_mod_mod, lemma_mod_multiples_vanish};
use crate::cpu::{A1, A2};
use crate::dram::lemma_store_keeps_the_rest;
use crate::endian::in_range;
use crate::instruction::{lemma_decode, Instructions};
use crate::instruction::alu::{branch_taken, wrap32, wrap64};
use crate::instruction::fields::{
    j_bits, lemma_field_ranges, spec_imm_b, spec_imm_i, spec_imm_j, spec_imm_s, spec_imm_u,
    spec_rd, spec_rs1, spec_rs2, u_bits,
};
use crate::instruction::semantics::{
    access_width, done, execute_spec, indirect_target, is_branch, is_load, is_store, State,
};

verus! {

/// Register `x0` stays zero: an instruction that runs in a state with 32
/// registers and a zero in `x0` leaves such a state behind.
pub proof fn lemma_zero_register_stays_zero(s: State, raw: u32)
    requires
        s.cpu.wf(),
    ensures
        execute_spec(s, raw) matches Ok(executed) ==> executed.state.cpu.wf()
            && executed.state.reg(0) == 0,
{
    lemma_field_ranges(raw);
}

/// The program counter after the instruction `raw` has run in state `s`.
pub open spec fn next_pc(s: State, raw: u32) -> u32 {
    let i = Instructions::decode(raw);
    if i == Instructions::Jal {
        wrap32(s.cpu.pc + spec_imm_j(raw))
    } else if i == Instructions::Jalr {
        indirect_target(s.reg(spec_rs1(raw)), spec_imm_i(raw))
    } else if is_branch(i) && branch_taken(i, s.reg(spec_rs1(raw)), s.reg(spec_rs2(raw))) {
        wrap32(s.cpu.pc + spec_imm_b(raw))
    } else {
        wrap32(s.cpu.pc + 4)
    }
}

/// An instruction that runs to its end leaves the program counter at the
/// target of the jump or taken branch that it is, and at the next word if
/// it is neither.
pub proof fn lemma_next_pc(s: State, raw: u32)
    ensures
        execute_spec(s, raw) matches Ok(executed) ==> executed.state.cpu.pc == next_pc(s, raw),
{
}

/// Wrapping a multiple of 4 to 32 bits gives a multiple of 4.
proof fn lemma_wrap32_aligned(x: int)
    requires
        x % 4 == 0,
    ensures
        wrap32(x) % 4 == 0,
{
    lemma_mod_mod(x, 4, 0x4000_0000);
}

/// The program counter stays a multiple of 4, as long as no jump or taken
/// branch aims at an address that is none: from an aligned program counter
/// every instruction that is not such a transfer leads to an aligned one.
pub proof fn lemma_pc_stays_aligned(s: State, raw: u32)
    requires
        s.cpu.pc % 4 == 0,
        Instructions::decode(raw) == Instructions::Jal ==> spec_imm_j(raw) % 4 == 0,
        Instructions::decode(raw) == Instructions::Jalr ==> indirect_target(
            s.reg(spec_rs1(raw)),
            spec_imm_i(raw),
        ) % 4 == 0,
        is_branch(Instructions::decode(raw)) && branch_taken(
            Instructions::decode(raw),
            s.reg(spec_rs1(raw)),
            s.reg(spec_rs2(raw)),
        ) ==> spec_imm_b(raw) % 4 == 0,
    ensures
        execute_spec(s, raw) matches Ok(executed) ==> executed.state.cpu.pc % 4 == 0,
{
    lemma_next_pc(s, raw);
    let i = Instructions::decode(raw);
    if i == Instructions::Jal {
        lemma_wrap32_aligned(s.cpu.pc + spec_imm_j(raw));
    } else if i == Instructions::Jalr {
    } else if is_branch(i) && branch_taken(i, s.reg(spec_rs1(raw)), s.reg(spec_rs2(raw))) {
        lemma_wrap32_aligned(s.cpu.pc + spec_imm_b(raw));
    } else {
        lemma_wrap32_aligned(s.cpu.pc + 4);
    }
}

/// Every memory access lies inside the memory: an instruction that runs
/// to its end has addressed only bytes that the memory has, and leaves the
/// memory at its length.
pub proof fn lemma_accesses_lie_inside(s: State, raw: u32)
    ensures
        execute_spec(s, raw) matches Ok(executed) ==> {
            let i = Instructions::decode(raw);
            &&& executed.state.mem.len() == s.mem.len()
            &&& is_load(i) ==> in_range(
                s.mem.len(),
                wrap64(s.reg(spec_rs1(raw)) + spec_imm_i(raw)) as int,
                access_width(i),
            )
            &&& is_store(i) ==> in_range(
                s.mem.len(),
                wrap64(s.reg(spec_rs1(raw)) + spec_imm_s(raw)) as int,
                access_width(i),
            )
            &&& i == Instructions::Ecall ==> in_range(
                s.mem.len(),
                s.reg(A1) as int,
                s.reg(A2) as nat,
            )
        },
{
    let i = Instructions::decode(raw);
    if is_store(i) {
        lemma_store_keeps_the_rest(
            s.mem,
            wrap64(s.reg(spec_rs1(raw)) + spec_imm_s(raw)) as int,
            access_width(i),
            s.reg(spec_rs2(raw)) as nat,
        );
    }
}

/// The upper immediate has twelve zero bits at its low end. So `lui` loads
/// a value whose low twelve bits are zero, and `auipc` a value whose low
/// twelve bits are those of the program counter.
pub proof fn lemma_upper_immediate_low_bits(s: State, raw: u32)
    ensures
        spec_imm_u(raw) % 0x1000 == 0,
        Instructions::decode(raw) == Instructions::Lui ==> execute_spec(s, raw) == done(
            s.write(spec_rd(raw), wrap64(spec_imm_u(raw))).advance(),
        ),
        wrap64(spec_imm_u(raw)) % 0x1000 == 0,
        Instructions::decode(raw) == Instructions::Auipc ==> execute_spec(s, raw) == done(
            s.write(spec_rd(raw), wrap64(s.cpu.pc + spec_imm_u(raw))).advance(),
        ),
        wrap64(s.cpu.pc + spec_imm_u(raw)) % 0x1000 == s.cpu.pc % 0x1000,
{
    let imm = spec_imm_u(raw);
    assert(imm % 0x1000 == 0) by {
        assert((raw & 0xFFFF_F000) % 0x1000 == 0) by (bit_vector);
    }
    lemma_wrap_keeps_low_bits(imm);
    lemma_wrap_keeps_low_bits(s.cpu.pc + imm);
    assert((s.cpu.pc + imm) % 0x1000 == s.cpu.pc % 0x1000) by {
        lemma_mod_multiples_vanish(imm / 0x1000, s.cpu.pc as int, 0x1000);
    }
}

/// Wrapping to 64 bits keeps the low twelve bits.
proof fn lemma_wrap_keeps_low_bits(x: int)
    ensures
        wrap64(x) % 0x1000 == x % 0x1000,
{
    lemma_mod_mod(x, 0x1000, 0x10_0000_0000_0000);
}

/// Bit 30 of the word, and nothing else, tells `sub` from `add`, `sra` from
/// `srl` and `srai` from `srli`: a word encodes the first of a pair exactly
/// if it has bit 30 set and encodes the second once that bit is cleared.
pub proof fn lemma_bit_30_selects(raw: u32)
    ensures
        Instructions::decode(raw) == Instructions::Sub <==> raw & 0x4000_0000 != 0
            && Instructions::decode(raw & 0xBFFF_FFFF) == Instructions::Add,
        Instructions::decode(raw) == Instructions::Sra <==> raw & 0x4000_0000 != 0
            && Instructions::decode(raw & 0xBFFF_FFFF) == Instructions::Srl,
        Instructions::decode(raw) == Instructions::Srai <==> raw & 0x4000_0000 != 0
            && Instructions::decode(raw & 0xBFFF_FFFF) == Instructions::Srli,
{
    let cleared = raw & 0xBFFF_FFFF;
    assert({
        let cleared = raw & 0xBFFF_FFFF;
        &&& cleared & 0x7F == raw & 0x7F
        &&& (cleared >> 12) & 0x7 == (raw >> 12) & 0x7
        &&& ((raw >> 25) & 0x7F == 0x20 <==> raw & 0x4000_0000 != 0 && (cleared >> 25) & 0x7F
            == 0)
        &&& (raw >> 26 == 0x10 <==> raw & 0x4000_0000 != 0 && cleared >> 26 == 0)
    }) by (bit_vector);
    lemma_decode(raw, Instructions::Sub);
    lemma_decode(raw, Instructions::Sra);
    lemma_decode(raw, Instructions::Srai);
    lemma_decode(cleared, Instructions::Add);
    lemma_decode(cleared, Instructions::Srl);
    lemma_decode(cleared, Instructions::Srli);
}

/// The immediates that are added to the program counter are signed: each
/// is its bit pattern where bit 31 of the word is clear, and that pattern
/// less `2^32` (U) or `2^21` (J) where it is set. `auipc` and `jal` add
/// them to the program counter as such numbers.
pub proof fn lemma_pc_relative_immediates_are_signed(s: State, raw: u32)
    ensures
        spec_imm_u(raw) == u_bits(raw) - if raw >= 0x8000_0000 {
            0x1_0000_0000int
        } else {
            0
        },
        spec_imm_j(raw) == j_bits(raw) - if raw >= 0x8000_0000 {
            0x20_0000int
        } else {
            0
        },
        Instructions::decode(raw) == Instructions::Auipc ==> execute_spec(s, raw) == done(
            s.write(spec_rd(raw), wrap64(s.cpu.pc + spec_imm_u(raw))).advance(),
        ),
        Instructions::decode(raw) == Instructions::Jal ==> execute_spec(s, raw) == done(
            s.write(spec_rd(raw), (s.cpu.pc + 4) as u64).jump(
                wrap32(s.cpu.pc + spec_imm_j(raw)),
            ),
        ),
{
    assert({
        &&& (raw & 0xFFFF_F000 >= 0x8000_0000 <==> raw >= 0x8000_0000)
        &&& (((raw >> 31) << 20) | (((raw >> 12) & 0xFF) << 12) | (((raw >> 20) & 0x1) << 11) | (((
        raw >> 21) & 0x3FF) << 1) >= 0x10_0000 <==> raw >= 0x8000_0000)
    }) by (bit_vector);
}

/// A conditional branch goes to `pc + offset` where its condition holds
/// and to `pc + 4` where it does not, and does nothing else.
pub proof fn lemma_branch_is_a_choice_of_two(s: State, raw: u32)
    requires
        is_branch(Instructions::decode(raw)),
    ensures
        execute_spec(s, raw) == done(
            if branch_taken(Instructions::decode(raw), s.reg(spec_rs1(raw)), s.reg(spec_rs2(raw))) {
                s.jump(wrap32(s.cpu.pc + spec_imm_b(raw)))
            } else {
                s.jump(wrap32(s.cpu.pc + 4))
            },
        ),
{
}

/// Whether `raw` is one of the two fences.
pub open spec fn is_fence(raw: u32) -> bool {
    Instructions::decode(raw) == Instructions::Fence || Instructions::decode(raw)
        == Instructions::FenceI
}

/// A fence moves the program counter on and does nothing else. So after
/// two fences in a row the registers, the memory and the output are what
/// they are after one.
pub proof fn lemma_two_fences_are_one(s: State, first: u32, second: u32)
    requires
        is_fence(first),
        is_fence(second),
    ensures
        execute_spec(s, first) == done(s.advance()),
        execute_spec(s.advance(), second) == done(s.advance().advance()),
        s.advance().advance().cpu.regs == s.advance().cpu.regs,
        s.advance().advance().mem == s.advance().mem,
{
}

} // verus!
