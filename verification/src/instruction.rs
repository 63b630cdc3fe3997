//! Instruction words: their fields, their decoding and their execution.
//!
//! An instruction is recognised by its opcode and, where the opcode is
//! shared, by `funct3` and the upper bits of the word. The table is
//! [`Instructions::encoding`]; a word that no row of it matches decodes to
//! [`Instructions::Unknown`].

pub mod alu;
pub mod fields;
pub mod instruction;
pub mod laws;
pub mod semantics;

use vstd::prelude::*;
use crate::dram::checked_load;
use crate::endian::read_u32;
use crate::error::EmulatorError;
use crate::instruction::fields::{
    funct3, funct6, funct7, opcode, spec_funct3, spec_funct6, spec_funct7, spec_opcode,
};

verus! {

/// The instructions of RV64IM that the emulator knows, and `Unknown` for
/// every other word.
#[derive(Debug, Clone, Copy, PartialEq, Eq, Structural)]
pub enum Instructions {
    Unknown,
    // upper immediates
    Lui,
    Auipc,
    // jumps
    Jal,
    Jalr,
    // conditional branches
    Beq,
    Bne,
    Blt,
    Bge,
    Bltu,
    Bgeu,
    // loads
    Lb,
    Lh,
    Lw,
    Ld,
    Lbu,
    Lhu,
    Lwu,
    // stores
    Sb,
    Sh,
    Sw,
    Sd,
    // register-immediate
    Addi,
    Slti,
    Sltiu,
    Xori,
    Ori,
    Andi,
    Slli,
    Srli,
    Srai,
    // register-immediate on the low 32 bits
    Addiw,
    Slliw,
    Srliw,
    Sraiw,
    // register-register
    Add,
    Sub,
    Sll,
    Slt,
    Sltu,
    Xor,
    Srl,
    Sra,
    Or,
    And,
    // multiplication and division
    Mul,
    Div,
    Rem,
    // register-register on the low 32 bits
    Addw,
    Subw,
    Sllw,
    Srlw,
    Sraw,
    // memory ordering
    Fence,
    FenceI,
    // environment
    Ecall,
    Ebreak,
}

/// What of a word has to match for it to be a given instruction.
pub enum Encoding {
    /// No word at all.
    Never,
    /// The opcode.
    Opcode(u32),
    /// The opcode and `funct3`.
    Funct3(u32, u32),
    /// The opcode, `funct3` and the upper six bits of the word.
    Funct6(u32, u32, u32),
    /// The opcode, `funct3` and `funct7`.
    Funct7(u32, u32, u32),
    /// The whole word.
    Word(u32),
}

impl Encoding {
    /// Whether `raw` has the fields that this encoding asks for.
    pub open spec fn matches(self, raw: u32) -> bool {
        match self {
            Encoding::Never => false,
            Encoding::Opcode(op) => spec_opcode(raw) == op,
            Encoding::Funct3(op, f3) => spec_opcode(raw) == op && spec_funct3(raw) == f3,
            Encoding::Funct6(op, f3, f6) => spec_opcode(raw) == op && spec_funct3(raw) == f3
                && spec_funct6(raw) == f6,
            Encoding::Funct7(op, f3, f7) => spec_opcode(raw) == op && spec_funct3(raw) == f3
                && spec_funct7(raw) == f7,
            Encoding::Word(word) => raw == word,
        }
    }
}

impl Instructions {
    /// The encoding table.
    pub open spec fn encoding(self) -> Encoding {
        match self {
            Instructions::Unknown => Encoding::Never,
            Instructions::Lui => Encoding::Opcode(0b0110111),
            Instructions::Auipc => Encoding::Opcode(0b0010111),
            Instructions::Jal => Encoding::Opcode(0b1101111),
            Instructions::Jalr => Encoding::Opcode(0b1100111),
            Instructions::Beq => Encoding::Funct3(0b1100011, 0b000),
            Instructions::Bne => Encoding::Funct3(0b1100011, 0b001),
            Instructions::Blt => Encoding::Funct3(0b1100011, 0b100),
            Instructions::Bge => Encoding::Funct3(0b1100011, 0b101),
            Instructions::Bltu => Encoding::Funct3(0b1100011, 0b110),
            Instructions::Bgeu => Encoding::Funct3(0b1100011, 0b111),
            Instructions::Lb => Encoding::Funct3(0b0000011, 0b000),
            Instructions::Lh => Encoding::Funct3(0b0000011, 0b001),
            Instructions::Lw => Encoding::Funct3(0b0000011, 0b010),
            Instructions::Ld => Encoding::Funct3(0b0000011, 0b011),
            Instructions::Lbu => Encoding::Funct3(0b0000011, 0b100),
            Instructions::Lhu => Encoding::Funct3(0b0000011, 0b101),
            Instructions::Lwu => Encoding::Funct3(0b0000011, 0b110),
            Instructions::Sb => Encoding::Funct3(0b0100011, 0b000),
            Instructions::Sh => Encoding::Funct3(0b0100011, 0b001),
            Instructions::Sw => Encoding::Funct3(0b0100011, 0b010),
            Instructions::Sd => Encoding::Funct3(0b0100011, 0b011),
            Instructions::Addi => Encoding::Funct3(0b0010011, 0b000),
            Instructions::Slti => Encoding::Funct3(0b0010011, 0b010),
            Instructions::Sltiu => Encoding::Funct3(0b0010011, 0b011),
            Instructions::Xori => Encoding::Funct3(0b0010011, 0b100),
            Instructions::Ori => Encoding::Funct3(0b0010011, 0b110),
            Instructions::Andi => Encoding::Funct3(0b0010011, 0b111),
            Instructions::Slli => Encoding::Funct6(0b0010011, 0b001, 0b000000),
            Instructions::Srli => Encoding::Funct6(0b0010011, 0b101, 0b000000),
            Instructions::Srai => Encoding::Funct6(0b0010011, 0b101, 0b010000),
            Instructions::Addiw => Encoding::Funct3(0b0011011, 0b000),
            Instructions::Slliw => Encoding::Funct7(0b0011011, 0b001, 0b0000000),
            Instructions::Srliw => Encoding::Funct7(0b0011011, 0b101, 0b0000000),
            Instructions::Sraiw => Encoding::Funct7(0b0011011, 0b101, 0b0100000),
            Instructions::Add => Encoding::Funct7(0b0110011, 0b000, 0b0000000),
            Instructions::Sub => Encoding::Funct7(0b0110011, 0b000, 0b0100000),
            Instructions::Sll => Encoding::Funct7(0b0110011, 0b001, 0b0000000),
            Instructions::Slt => Encoding::Funct7(0b0110011, 0b010, 0b0000000),
            Instructions::Sltu => Encoding::Funct7(0b0110011, 0b011, 0b0000000),
            Instructions::Xor => Encoding::Funct7(0b0110011, 0b100, 0b0000000),
            Instructions::Srl => Encoding::Funct7(0b0110011, 0b101, 0b0000000),
            Instructions::Sra => Encoding::Funct7(0b0110011, 0b101, 0b0100000),
            Instructions::Or => Encoding::Funct7(0b0110011, 0b110, 0b0000000),
            Instructions::And => Encoding::Funct7(0b0110011, 0b111, 0b0000000),
            Instructions::Mul => Encoding::Funct7(0b0110011, 0b000, 0b0000001),
            Instructions::Div => Encoding::Funct7(0b0110011, 0b100, 0b0000001),
            Instructions::Rem => Encoding::Funct7(0b0110011, 0b110, 0b0000001),
            Instructions::Addw => Encoding::Funct7(0b0111011, 0b000, 0b0000000),
            Instructions::Subw => Encoding::Funct7(0b0111011, 0b000, 0b0100000),
            Instructions::Sllw => Encoding::Funct7(0b0111011, 0b001, 0b0000000),
            Instructions::Srlw => Encoding::Funct7(0b0111011, 0b101, 0b0000000),
            Instructions::Sraw => Encoding::Funct7(0b0111011, 0b101, 0b0100000),
            Instructions::Fence => Encoding::Funct3(0b0001111, 0b000),
            Instructions::FenceI => Encoding::Funct3(0b0001111, 0b001),
            Instructions::Ecall => Encoding::Word(0x0000_0073),
            Instructions::Ebreak => Encoding::Word(0x0010_0073),
        }
    }

    /// Whether `raw` is an encoding of this instruction.
    pub open spec fn encodes(self, raw: u32) -> bool {
        self.encoding().matches(raw)
    }

    /// The instruction that `raw` encodes, or `Unknown` where it encodes
    /// none.
    pub open spec fn decode(raw: u32) -> Instructions {
        if exists|i: Instructions| i.encodes(raw) {
            choose|i: Instructions| i.encodes(raw)
        } else {
            Instructions::Unknown
        }
    }

    /// Decodes an instruction word.
    #[verifier::rlimit(50)]
    pub fn parse(op: u32) -> (r: Self)
        ensures
            r == Self::decode(op),
    {
        let f3 = funct3(op);
        let r = match opcode(op) {
            0b0110111 => Self::Lui,
            0b0010111 => Self::Auipc,
            0b1101111 => Self::Jal,
            0b1100111 => Self::Jalr,
            0b1100011 => match f3 {
                0b000 => Self::Beq,
                0b001 => Self::Bne,
                0b100 => Self::Blt,
                0b101 => Self::Bge,
                0b110 => Self::Bltu,
                0b111 => Self::Bgeu,
                _ => Self::Unknown,
            },
            0b0000011 => match f3 {
                0b000 => Self::Lb,
                0b001 => Self::Lh,
                0b010 => Self::Lw,
                0b011 => Self::Ld,
                0b100 => Self::Lbu,
                0b101 => Self::Lhu,
                0b110 => Self::Lwu,
                _ => Self::Unknown,
            },
            0b0100011 => match f3 {
                0b000 => Self::Sb,
                0b001 => Self::Sh,
                0b010 => Self::Sw,
                0b011 => Self::Sd,
                _ => Self::Unknown,
            },
            0b0010011 => match (f3, funct6(op)) {
                (0b000, _) => Self::Addi,
                (0b010, _) => Self::Slti,
                (0b011, _) => Self::Sltiu,
                (0b100, _) => Self::Xori,
                (0b110, _) => Self::Ori,
                (0b111, _) => Self::Andi,
                (0b001, 0b000000) => Self::Slli,
                (0b101, 0b000000) => Self::Srli,
                (0b101, 0b010000) => Self::Srai,
                _ => Self::Unknown,
            },
            0b0011011 => match (f3, funct7(op)) {
                (0b000, _) => Self::Addiw,
                (0b001, 0b0000000) => Self::Slliw,
                (0b101, 0b0000000) => Self::Srliw,
                (0b101, 0b0100000) => Self::Sraiw,
                _ => Self::Unknown,
            },
            0b0110011 => match (funct7(op), f3) {
                (0b0000000, 0b000) => Self::Add,
                (0b0100000, 0b000) => Self::Sub,
                (0b0000000, 0b001) => Self::Sll,
                (0b0000000, 0b010) => Self::Slt,
                (0b0000000, 0b011) => Self::Sltu,
                (0b0000000, 0b100) => Self::Xor,
                (0b0000000, 0b101) => Self::Srl,
                (0b0100000, 0b101) => Self::Sra,
                (0b0000000, 0b110) => Self::Or,
                (0b0000000, 0b111) => Self::And,
                (0b0000001, 0b000) => Self::Mul,
                (0b0000001, 0b100) => Self::Div,
                (0b0000001, 0b110) => Self::Rem,
                _ => Self::Unknown,
            },
            0b0111011 => match (funct7(op), f3) {
                (0b0000000, 0b000) => Self::Addw,
                (0b0100000, 0b000) => Self::Subw,
                (0b0000000, 0b001) => Self::Sllw,
                (0b0000000, 0b101) => Self::Srlw,
                (0b0100000, 0b101) => Self::Sraw,
                _ => Self::Unknown,
            },
            0b0001111 => match f3 {
                0b000 => Self::Fence,
                0b001 => Self::FenceI,
                _ => Self::Unknown,
            },
            0b1110011 => if op == 0x0000_0073 {
                Self::Ecall
            } else if op == 0x0010_0073 {
                Self::Ebreak
            } else {
                Self::Unknown
            },
            _ => Self::Unknown,
        };
        proof {
            lemma_whole_words();
            if r == Self::Unknown {
                assert forall|i: Instructions| !i.encodes(op) by {}
            } else {
                assert(r.encodes(op));
                lemma_decode(op, r);
            }
        }
        r
    }
}

/// The opcode of the two instructions that are recognised by their whole
/// word.
proof fn lemma_whole_words()
    ensures
        spec_opcode(0x0000_0073) == 0b1110011,
        spec_opcode(0x0010_0073) == 0b1110011,
{
    assert(0x0000_0073u32 & 0x7F == 0b1110011 && 0x0010_0073u32 & 0x7F == 0b1110011)
        by (bit_vector);
}

/// No word encodes two instructions.
#[verifier::rlimit(50)]
pub proof fn lemma_encodings_disjoint(raw: u32, a: Instructions, b: Instructions)
    requires
        a.encodes(raw),
        b.encodes(raw),
    ensures
        a == b,
{
    lemma_whole_words();
}

/// A word decodes to exactly the instruction that it encodes.
pub proof fn lemma_decode(raw: u32, i: Instructions)
    ensures
        i.encodes(raw) <==> (i != Instructions::Unknown && Instructions::decode(raw) == i),
{
    if i.encodes(raw) {
        let c = choose|c: Instructions| c.encodes(raw);
        lemma_encodings_disjoint(raw, c, i);
    }
}

/// What a fetch at `pc` yields: the four bytes there, as a little-endian
/// word.
pub open spec fn fetch(mem: Seq<u8>, pc: u32) -> Result<u32, EmulatorError> {
    match checked_load(mem, pc as int, 4) {
        Ok(word) => Ok(word as u32),
        Err(e) => Err(e),
    }
}

/// An instruction word together with what it decodes to.
#[derive(Debug, Clone, Copy, PartialEq, Eq, Structural)]
pub struct Instruction {
    pub instruction_raw: u32,
    pub instruction: Instructions,
}

/// Fetches the word at `pc` from `prog_bits` and decodes it.
pub fn get_instructions(prog_bits: &[u8], pc: u32) -> (r: Result<Instruction, EmulatorError>)
    ensures
        r == match fetch(prog_bits@, pc) {
            Ok(word) => Ok::<Instruction, EmulatorError>(
                Instruction { instruction_raw: word, instruction: Instructions::decode(word) },
            ),
            Err(e) => Err::<Instruction, EmulatorError>(e),
        },
{
    let len = prog_bits.len();
    if len < 4 || pc as usize > len - 4 {
        return Err(EmulatorError::BadAddress);
    }
    let word = read_u32(prog_bits, pc as usize);
    Ok(Instruction { instruction_raw: word, instruction: Instructions::parse(word) })
}

} // verus!
