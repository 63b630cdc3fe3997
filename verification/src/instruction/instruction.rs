//! Fetching an instruction word and executing it.

use vstd::prelude::*;
use vstd::slice::slice_to_vec;
use crate::cpu::{CpuState, CpuView, A0, A1, A2, A7};
use crate::dram::{Dram, DRAM_SIZE};
use crate::endian::{lemma_le_store_low, lemma_pow256_values, read_u32};
use crate::error::EmulatorError;
use crate::instruction::{fetch, Instructions};
use crate::instruction::alu::{alu, branch, from_signed, wrap32};
use crate::instruction::fields::{imm_b, imm_i, imm_j, imm_s, imm_u, rd, rs1, rs2};
use crate::instruction::semantics::{
    branch_spec, done, ecall_spec, execute_spec, instruction_spec, is_branch, is_load, is_store,
    load_spec, store_spec, Executed, State,
};

verus! {

/// The bytes that an instruction hands out, as a sequence.
pub open spec fn output_view(output: Option<Vec<u8>>) -> Option<Seq<u8>> {
    match output {
        Some(bytes) => Some(bytes@),
        None => None,
    }
}

/// How the result of an execution relates the state before and after it to
/// what the model expects: on success the state and the output are the
/// expected ones, on failure the error is the expected one and the state
/// is untouched.
pub open spec fn outcome_matches(
    before: State,
    after: State,
    r: Result<Option<Vec<u8>>, EmulatorError>,
    expected: Result<Executed, EmulatorError>,
) -> bool {
    match expected {
        Ok(executed) => r is Ok && output_view(r->Ok_0) == executed.output && after
            == executed.state,
        Err(e) => r == Err::<Option<Vec<u8>>, EmulatorError>(e) && after == before,
    }
}

/// The instruction word at `pc`.
pub fn get_instructions(prog_bits: &[u8], pc: u32) -> (r: Result<u32, EmulatorError>)
    ensures
        r == fetch(prog_bits@, pc),
{
    let len = prog_bits.len();
    if len < 4 || pc as usize > len - 4 {
        return Err(EmulatorError::BadAddress);
    }
    Ok(read_u32(prog_bits, pc as usize))
}

/// Moves the program counter to the next word.
fn advance(cpu: &mut CpuState)
    ensures
        final(cpu)@.wf(),
        final(cpu)@ == (CpuView { regs: old(cpu)@.regs, pc: wrap32(old(cpu)@.pc + 4) }),
{
    let pc = cpu.pc();
    cpu.set_pc(pc.wrapping_add(4));
}

/// A conditional branch. The memory plays no part in it.
fn exec_branch(i: Instructions, op: u32, cpu: &mut CpuState, Ghost(mem): Ghost<Seq<u8>>)
    requires
        is_branch(i),
    ensures
        final(cpu)@.wf(),
        (State { cpu: final(cpu)@, mem }) == branch_spec(i, State { cpu: old(cpu)@, mem }, op),
{
    let a = cpu.read_reg(rs1(op));
    let b = cpu.read_reg(rs2(op));
    if branch(i, a, b) {
        let pc = cpu.pc();
        cpu.set_pc(pc.wrapping_add_signed(imm_b(op) as i32));
    } else {
        advance(cpu);
    }
}

/// A load. The address must lie inside the memory as a 64-bit number
/// before it is used as an index.
fn exec_load(i: Instructions, op: u32, cpu: &mut CpuState, dram: &Dram) -> (r: Result<
    Option<Vec<u8>>,
    EmulatorError,
>)
    requires
        is_load(i),
    ensures
        final(cpu)@.wf(),
        outcome_matches(
            State { cpu: old(cpu)@, mem: dram@ },
            State { cpu: final(cpu)@, mem: dram@ },
            r,
            load_spec(i, State { cpu: old(cpu)@, mem: dram@ }, op),
        ),
{
    let base = cpu.read_reg(rs1(op));
    let wide = base.wrapping_add_signed(imm_i(op));
    let size = dram.len();
    if wide >= size as u64 {
        return Err(EmulatorError::BadAddress);
    }
    let addr = wide as usize;
    let value = match i {
        Instructions::Lb => {
            let v = dram.get_u8(addr)? as u64;
            if v >= 0x80 {
                v + 0xFFFF_FFFF_FFFF_FF00
            } else {
                v
            }
        },
        Instructions::Lh => {
            let v = dram.get_u16(addr)? as u64;
            if v >= 0x8000 {
                v + 0xFFFF_FFFF_FFFF_0000
            } else {
                v
            }
        },
        Instructions::Lw => {
            let v = dram.get_u32(addr)? as u64;
            if v >= 0x8000_0000 {
                v + 0xFFFF_FFFF_0000_0000
            } else {
                v
            }
        },
        Instructions::Ld => dram.get_u64(addr)?,
        Instructions::Lbu => dram.get_u8(addr)? as u64,
        Instructions::Lhu => dram.get_u16(addr)? as u64,
        _ => dram.get_u32(addr)? as u64,
    };
    cpu.write_reg(rd(op), value);
    advance(cpu);
    Ok(None)
}

/// A store of the low one, two, four or eight bytes of a register.
fn exec_store(i: Instructions, op: u32, cpu: &mut CpuState, dram: &mut Dram) -> (r: Result<
    Option<Vec<u8>>,
    EmulatorError,
>)
    requires
        is_store(i),
    ensures
        final(cpu)@.wf(),
        final(dram)@.len() == DRAM_SIZE,
        outcome_matches(
            State { cpu: old(cpu)@, mem: old(dram)@ },
            State { cpu: final(cpu)@, mem: final(dram)@ },
            r,
            store_spec(i, State { cpu: old(cpu)@, mem: old(dram)@ }, op),
        ),
{
    let base = cpu.read_reg(rs1(op));
    let value = cpu.read_reg(rs2(op));
    let wide = base.wrapping_add_signed(imm_s(op));
    let size = dram.len();
    if wide >= size as u64 {
        return Err(EmulatorError::BadAddress);
    }
    let addr = wide as usize;
    proof {
        lemma_pow256_values();
        lemma_le_store_low(dram@, addr as int, 1, value as nat, (value % 0x100) as nat);
        lemma_le_store_low(dram@, addr as int, 2, value as nat, (value % 0x1_0000) as nat);
        lemma_le_store_low(dram@, addr as int, 4, value as nat, (value % 0x1_0000_0000) as nat);
    }
    match i {
        Instructions::Sb => dram.set_u8(addr, (value % 0x100) as u8)?,
        Instructions::Sh => dram.set_u16(addr, (value % 0x1_0000) as u16)?,
        Instructions::Sw => dram.set_u32(addr, (value % 0x1_0000_0000) as u32)?,
        _ => dram.set_u64(addr, value)?,
    }
    advance(cpu);
    Ok(None)
}

/// The environment call: hands out a copy of the bytes to write.
fn exec_ecall(cpu: &mut CpuState, dram: &Dram) -> (r: Result<Option<Vec<u8>>, EmulatorError>)
    ensures
        final(cpu)@.wf(),
        outcome_matches(
            State { cpu: old(cpu)@, mem: dram@ },
            State { cpu: final(cpu)@, mem: dram@ },
            r,
            ecall_spec(State { cpu: old(cpu)@, mem: dram@ }),
        ),
{
    if cpu.read_reg(A7) != 64 || cpu.read_reg(A0) != 1 {
        return Err(EmulatorError::UnknownSyscall);
    }
    let addr = cpu.read_reg(A1);
    let len = cpu.read_reg(A2);
    let size = dram.len() as u64;
    if addr > size || len > size - addr {
        return Err(EmulatorError::BadAddress);
    }
    let run = dram.bytes(addr as usize, len as usize)?;
    let output = slice_to_vec(run);
    advance(cpu);
    Ok(Some(output))
}

/// The instructions that touch nothing but registers and program counter.
#[verifier::rlimit(50)]
fn exec_register_only(
    i: Instructions,
    op: u32,
    pc: u32,
    cpu: &mut CpuState,
    Ghost(mem): Ghost<Seq<u8>>,
)
    requires
        pc == old(cpu)@.pc,
        i != Instructions::Unknown,
        i != Instructions::Ecall,
        !is_load(i),
        !is_store(i),
    ensures
        final(cpu)@.wf(),
        instruction_spec(i, State { cpu: old(cpu)@, mem }, op) == done(
            State { cpu: final(cpu)@, mem },
        ),
{
    match i {
        Instructions::Lui => {
            cpu.write_reg(rd(op), from_signed(imm_u(op)));
            advance(cpu);
        },
        Instructions::Auipc => {
            cpu.write_reg(rd(op), (pc as u64).wrapping_add_signed(imm_u(op)));
            advance(cpu);
        },
        Instructions::Jal => {
            cpu.write_reg(rd(op), pc as u64 + 4);
            cpu.set_pc(pc.wrapping_add_signed(imm_j(op) as i32));
        },
        Instructions::Jalr => {
            let sum = cpu.read_reg(rs1(op)).wrapping_add_signed(imm_i(op));
            let target = ((sum - sum % 2) % 0x1_0000_0000) as u32;
            cpu.write_reg(rd(op), pc as u64 + 4);
            cpu.set_pc(target);
        },
        Instructions::Beq
        | Instructions::Bne
        | Instructions::Blt
        | Instructions::Bge
        | Instructions::Bltu
        | Instructions::Bgeu => {
            exec_branch(i, op, cpu, Ghost(mem));
        },
        Instructions::Addi
        | Instructions::Slti
        | Instructions::Sltiu
        | Instructions::Xori
        | Instructions::Ori
        | Instructions::Andi
        | Instructions::Slli
        | Instructions::Srli
        | Instructions::Srai
        | Instructions::Addiw
        | Instructions::Slliw
        | Instructions::Srliw
        | Instructions::Sraiw => {
            let a = cpu.read_reg(rs1(op));
            cpu.write_reg(rd(op), alu(i, a, from_signed(imm_i(op))));
            advance(cpu);
        },
        Instructions::Fence | Instructions::FenceI | Instructions::Ebreak => {
            advance(cpu);
        },
        _ => {
            let a = cpu.read_reg(rs1(op));
            let b = cpu.read_reg(rs2(op));
            cpu.write_reg(rd(op), alu(i, a, b));
            advance(cpu);
        },
    }
}

/// Executes the instruction word `op` on the registers and the memory.
///
/// On success the program counter points at the instruction to execute
/// next, and the result holds the bytes that an environment call asks to
/// have written to standard output. On failure nothing has changed. Either
/// way register `x0` holds zero and the memory has kept its size.
pub fn execute_32(op: u32, cpu: &mut CpuState, dram: &mut Dram) -> (r: Result<
    Option<Vec<u8>>,
    EmulatorError,
>)
    ensures
        final(cpu)@.wf(),
        final(cpu)@.regs[0] == 0,
        final(dram)@.len() == DRAM_SIZE,
        outcome_matches(
            State { cpu: old(cpu)@, mem: old(dram)@ },
            State { cpu: final(cpu)@, mem: final(dram)@ },
            r,
            execute_spec(State { cpu: old(cpu)@, mem: old(dram)@ }, op),
        ),
{
    let i = Instructions::parse(op);
    let pc = cpu.pc();
    proof {
        use_type_invariant(&*dram);
    }
    match i {
        Instructions::Unknown => Err(EmulatorError::IllegalInstruction),
        Instructions::Lb
        | Instructions::Lh
        | Instructions::Lw
        | Instructions::Ld
        | Instructions::Lbu
        | Instructions::Lhu
        | Instructions::Lwu => exec_load(i, op, cpu, dram),
        Instructions::Sb | Instructions::Sh | Instructions::Sw | Instructions::Sd => exec_store(
            i,
            op,
            cpu,
            dram,
        ),
        Instructions::Ecall => exec_ecall(cpu, dram),
        _ => {
            exec_register_only(i, op, pc, cpu, Ghost(dram@));
            Ok(None)
        },
    }
}

} // verus!
