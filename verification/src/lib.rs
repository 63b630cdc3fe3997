//! A user-mode emulator core for 64-bit RISC-V (RV64IM).
//!
//! The crate loads a statically linked object file into a flat memory,
//! decodes 32-bit instruction words and executes them one at a time. Every
//! executable function carries a contract over a mathematical model of the
//! machine: a register sequence, a program counter and a byte sequence.

pub mod cpu;
pub mod endian;
pub mod error;
pub mod dram;
pub mod elf_parser;
pub mod instruction;
pub mod machine;
