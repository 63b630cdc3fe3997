//! The integer register file and the program counter.
//!
//! Register `x0` is hard-wired to zero: the type keeps it at zero, a write
//! to it is ignored, and so every read of it gives zero.

use vstd::prelude::*;

verus! {

/// The number of integer registers.
pub const REGISTER_COUNT: u32 = 32;

/// Index of the register that always reads zero.
pub const ZERO: u32 = 0;

/// Index of the stack pointer.
pub const SP: u32 = 2;

/// Index of the global pointer.
pub const GP: u32 = 3;

/// Index of the first argument register.
pub const A0: u32 = 10;

/// Index of the second argument register.
pub const A1: u32 = 11;

/// Index of the third argument register.
pub const A2: u32 = 12;

/// Index of the fourth argument register.
pub const A3: u32 = 13;

/// Index of the fifth argument register.
pub const A4: u32 = 14;

/// Index of the sixth argument register.
pub const A5: u32 = 15;

/// Index of the seventh argument register.
pub const A6: u32 = 16;

/// Index of the eighth argument register, which selects the system call.
pub const A7: u32 = 17;

/// The mathematical content of a [`CpuState`].
pub struct CpuView {
    /// The 32 registers, `x0` first.
    pub regs: Seq<u64>,
    /// The address of the next instruction.
    pub pc: u32,
}

impl CpuView {
    /// There are 32 registers and `x0` holds zero.
    pub open spec fn wf(self) -> bool {
        self.regs.len() == 32 && self.regs[0] == 0
    }

    /// The registers after a write of `value` to register `index`. A write
    /// to `x0` changes nothing.
    pub open spec fn write(self, index: u32, value: u64) -> CpuView {
        if index == 0 {
            self
        } else {
            CpuView { regs: self.regs.update(index as int, value), pc: self.pc }
        }
    }
}

/// The registers and the program counter of the one hart.
pub struct CpuState {
    regs: [u64; 32],
    pc: u32,
}

impl View for CpuState {
    type V = CpuView;

    closed spec fn view(&self) -> CpuView {
        CpuView { regs: self.regs@, pc: self.pc }
    }
}

impl CpuState {
    /// Holds of every register file that exists: `x0` is zero.
    #[verifier::type_invariant]
    pub open spec fn inv(self) -> bool {
        self@.wf()
    }

    /// All registers and the program counter at zero.
    pub fn new() -> (r: Self)
        ensures
            r@.wf(),
            r@.regs == Seq::new(32, |i: int| 0u64),
            r@.pc == 0,
    {
        let r = Self { regs: [0u64;32], pc: 0 };
        assert(r.regs@ =~= Seq::new(32, |i: int| 0u64));
        r
    }

    /// The value of register `index`.
    pub fn read_reg(&self, index: u32) -> (value: u64)
        requires
            index < 32,
        ensures
            self@.wf(),
            value == self@.regs[index as int],
    {
        proof {
            use_type_invariant(self);
        }
        self.regs[index as usize]
    }

    /// Writes `value` to register `index`, unless that is `x0`.
    pub fn write_reg(&mut self, index: u32, value: u64)
        requires
            index < 32,
        ensures
            final(self)@.wf(),
            final(self)@ == old(self)@.write(index, value),
    {
        proof {
            use_type_invariant(&*self);
        }
        if index != 0 {
            self.regs[index as usize] = value;
        }
    }

    /// The program counter.
    pub fn pc(&self) -> (pc: u32)
        ensures
            self@.wf(),
            pc == self@.pc,
    {
        proof {
            use_type_invariant(self);
        }
        self.pc
    }

    /// Sets the program counter and leaves the registers alone.
    pub fn set_pc(&mut self, pc: u32)
        ensures
            final(self)@.wf(),
            final(self)@ == (CpuView { regs: old(self)@.regs, pc }),
    {
        proof {
            use_type_invariant(&*self);
        }
        self.pc = pc;
    }
}

} // verus!
