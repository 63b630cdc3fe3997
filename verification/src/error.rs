//! The ways in which loading or running a guest program can fail.

use vstd::prelude::*;
use std::string::FromUtf8Error;

verus! {

/// A fatal condition. None of them is retried: the caller reports it and stops.
#[derive(Debug, Clone, Copy, PartialEq, Eq, Structural)]
pub enum EmulatorError {
    /// The file does not start with the four magic bytes `0x7F 'E' 'L' 'F'`.
    InvalidMagic,
    /// The machine field is neither RISC-V nor unspecified.
    UnsupportedMachine,
    /// The file header or one of its tables is malformed or does not fit in
    /// the file.
    WrongHeaderProvieded,
    /// No section of string-table type exists, so names cannot be resolved.
    StrTabError,
    /// No section is named `.text`.
    NoTextSection,
    /// A section name is not valid UTF-8.
    FromUtf8,
    /// A memory access reaches outside the memory.
    BadAddress,
    /// The instruction word matches no supported encoding.
    IllegalInstruction,
    /// An environment call other than "write to standard output".
    UnknownSyscall,
}

/// The error of `std::string::String::from_utf8`, which says where the
/// bytes stop being UTF-8.
#[verifier::external_type_specification]
#[verifier::external_body]
pub struct ExFromUtf8Error(FromUtf8Error);

impl From<FromUtf8Error> for EmulatorError {
    fn from(value: FromUtf8Error) -> (r: Self) {
        EmulatorError::FromUtf8
    }
}

impl vstd::std_specs::convert::FromSpecImpl<FromUtf8Error> for EmulatorError {
    open spec fn obeys_from_spec() -> bool {
        true
    }

    open spec fn from_spec(value: FromUtf8Error) -> Self {
        EmulatorError::FromUtf8
    }
}

} // verus!
