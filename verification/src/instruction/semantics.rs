//! What one instruction does to the machine, as a function on its state.

use vstd::prelude::*;
use crate::cpu::CpuView;
use crate::dram::{checked_bytes, checked_load, checked_store};
use crate::error::EmulatorError;
use crate::instruction::Instructions;
use crate::instruction::alu::{alu_spec, branch_taken, wrap32, wrap64};
use crate::instruction::fields::{
    sext, spec_imm_b, spec_imm_i, spec_imm_j, spec_imm_s, spec_imm_u, spec_rd, spec_rs1, spec_rs2,
};

verus! {

/// The state of the machine: registers, program counter and memory.
pub struct State {
    pub cpu: CpuView,
    pub mem: Seq<u8>,
}

/// What an instruction that ran to its end leaves behind.
pub struct Executed {
    /// The state after the instruction.
    pub state: State,
    /// The bytes that the instruction asks to have written to standard
    /// output, if it asks for any.
    pub output: Option<Seq<u8>>,
}

impl State {
    /// The value of register `index`.
    pub open spec fn reg(self, index: u32) -> u64 {
        self.cpu.regs[index as int]
    }

    /// The state after a write to register `index`.
    pub open spec fn write(self, index: u32, value: u64) -> State {
        State { cpu: self.cpu.write(index, value), mem: self.mem }
    }

    /// The state with the program counter at `pc`.
    pub open spec fn jump(self, pc: u32) -> State {
        State { cpu: CpuView { regs: self.cpu.regs, pc }, mem: self.mem }
    }

    /// The state with the program counter at the next word.
    pub open spec fn advance(self) -> State {
        self.jump(wrap32(self.cpu.pc + 4))
    }

    /// The state with another memory.
    pub open spec fn with_mem(self, mem: Seq<u8>) -> State {
        State { cpu: self.cpu, mem }
    }
}

/// The instruction ends without output in `state`.
pub open spec fn done(state: State) -> Result<Executed, EmulatorError> {
    Ok(Executed { state, output: None })
}

/// Whether `i` is a conditional branch.
pub open spec fn is_branch(i: Instructions) -> bool {
    i == Instructions::Beq || i == Instructions::Bne || i == Instructions::Blt || i
        == Instructions::Bge || i == Instructions::Bltu || i == Instructions::Bgeu
}

/// The number of bytes that a load or a store moves; zero for any other
/// instruction.
pub open spec fn access_width(i: Instructions) -> nat {
    match i {
        Instructions::Lb | Instructions::Lbu | Instructions::Sb => 1,
        Instructions::Lh | Instructions::Lhu | Instructions::Sh => 2,
        Instructions::Lw | Instructions::Lwu | Instructions::Sw => 4,
        Instructions::Ld | Instructions::Sd => 8,
        _ => 0,
    }
}

/// Whether `i` is a load.
pub open spec fn is_load(i: Instructions) -> bool {
    i == Instructions::Lb || i == Instructions::Lh || i == Instructions::Lw || i
        == Instructions::Ld || i == Instructions::Lbu || i == Instructions::Lhu || i
        == Instructions::Lwu
}

/// Whether `i` is a store.
pub open spec fn is_store(i: Instructions) -> bool {
    i == Instructions::Sb || i == Instructions::Sh || i == Instructions::Sw || i
        == Instructions::Sd
}

/// Whether `i` computes from a register and an immediate.
pub open spec fn is_alu_immediate(i: Instructions) -> bool {
    i == Instructions::Addi || i == Instructions::Slti || i == Instructions::Sltiu || i
        == Instructions::Xori || i == Instructions::Ori || i == Instructions::Andi || i
        == Instructions::Slli || i == Instructions::Srli || i == Instructions::Srai || i
        == Instructions::Addiw || i == Instructions::Slliw || i == Instructions::Srliw || i
        == Instructions::Sraiw
}

/// Whether `i` computes from two registers.
pub open spec fn is_alu_register(i: Instructions) -> bool {
    i == Instructions::Add || i == Instructions::Sub || i == Instructions::Sll || i
        == Instructions::Slt || i == Instructions::Sltu || i == Instructions::Xor || i
        == Instructions::Srl || i == Instructions::Sra || i == Instructions::Or || i
        == Instructions::And || i == Instructions::Mul || i == Instructions::Div || i
        == Instructions::Rem || i == Instructions::Addw || i == Instructions::Subw || i
        == Instructions::Sllw || i == Instructions::Srlw || i == Instructions::Sraw
}

/// The register value that a load makes of the `value` it read: the signed
/// loads extend the sign bit of what they read, the others extend with
/// zeros.
pub open spec fn loaded(i: Instructions, value: nat) -> u64 {
    match i {
        Instructions::Lb => wrap64(sext(value as int, 0x80)),
        Instructions::Lh => wrap64(sext(value as int, 0x8000)),
        Instructions::Lw => wrap64(sext(value as int, 0x8000_0000)),
        _ => value as u64,
    }
}

/// The target of an indirect jump: `base + offset` with bit 0 cleared, as a
/// program counter.
pub open spec fn indirect_target(base: u64, offset: int) -> u32 {
    let sum = wrap64(base + offset);
    wrap32(sum - sum % 2)
}

/// A conditional branch: to `pc + offset` where it is taken, to the next
/// word where it is not.
pub open spec fn branch_spec(i: Instructions, s: State, raw: u32) -> State {
    if branch_taken(i, s.reg(spec_rs1(raw)), s.reg(spec_rs2(raw))) {
        s.jump(wrap32(s.cpu.pc + spec_imm_b(raw)))
    } else {
        s.advance()
    }
}

/// A load from `rs1 + offset` into `rd`.
pub open spec fn load_spec(i: Instructions, s: State, raw: u32) -> Result<Executed, EmulatorError> {
    let addr = wrap64(s.reg(spec_rs1(raw)) + spec_imm_i(raw));
    match checked_load(s.mem, addr as int, access_width(i)) {
        Ok(value) => done(s.write(spec_rd(raw), loaded(i, value)).advance()),
        Err(e) => Err(e),
    }
}

/// A store of the low bytes of `rs2` to `rs1 + offset`.
pub open spec fn store_spec(i: Instructions, s: State, raw: u32) -> Result<
    Executed,
    EmulatorError,
> {
    let addr = wrap64(s.reg(spec_rs1(raw)) + spec_imm_s(raw));
    match checked_store(s.mem, addr as int, access_width(i), s.reg(spec_rs2(raw)) as nat) {
        Ok(mem) => done(s.with_mem(mem).advance()),
        Err(e) => Err(e),
    }
}

/// The environment call. The one call that exists writes to standard
/// output: `a7` is 64, `a0` is 1, `a1` the address and `a2` the length of
/// the bytes to write.
pub open spec fn ecall_spec(s: State) -> Result<Executed, EmulatorError> {
    if s.reg(crate::cpu::A7) == 64 && s.reg(crate::cpu::A0) == 1 {
        match checked_bytes(s.mem, s.reg(crate::cpu::A1) as int, s.reg(crate::cpu::A2) as nat) {
            Ok(bytes) => Ok(Executed { state: s.advance(), output: Some(bytes) }),
            Err(e) => Err(e),
        }
    } else {
        Err(EmulatorError::UnknownSyscall)
    }
}

/// What the instruction `i`, encoded by `raw`, does in state `s`.
pub open spec fn instruction_spec(i: Instructions, s: State, raw: u32) -> Result<
    Executed,
    EmulatorError,
> {
    let rd = spec_rd(raw);
    let a = s.reg(spec_rs1(raw));
    let b = s.reg(spec_rs2(raw));
    let link = (s.cpu.pc + 4) as u64;
    if i == Instructions::Lui {
        done(s.write(rd, wrap64(spec_imm_u(raw))).advance())
    } else if i == Instructions::Auipc {
        done(s.write(rd, wrap64(s.cpu.pc + spec_imm_u(raw))).advance())
    } else if i == Instructions::Jal {
        done(s.write(rd, link).jump(wrap32(s.cpu.pc + spec_imm_j(raw))))
    } else if i == Instructions::Jalr {
        done(s.write(rd, link).jump(indirect_target(a, spec_imm_i(raw))))
    } else if is_branch(i) {
        done(branch_spec(i, s, raw))
    } else if is_load(i) {
        load_spec(i, s, raw)
    } else if is_store(i) {
        store_spec(i, s, raw)
    } else if is_alu_immediate(i) {
        done(s.write(rd, alu_spec(i, a, wrap64(spec_imm_i(raw)))).advance())
    } else if is_alu_register(i) {
        done(s.write(rd, alu_spec(i, a, b)).advance())
    } else if i == Instructions::Fence || i == Instructions::FenceI || i == Instructions::Ebreak {
        done(s.advance())
    } else if i == Instructions::Ecall {
        ecall_spec(s)
    } else {
        Err(EmulatorError::IllegalInstruction)
    }
}

/// What the instruction word `raw` does in state `s`. A word that encodes
/// no instruction is an illegal instruction. An instruction that fails
/// leaves no state behind: the machine stays as it was.
pub open spec fn execute_spec(s: State, raw: u32) -> Result<Executed, EmulatorError> {
    instruction_spec(Instructions::decode(raw), s, raw)
}

} // verus!
