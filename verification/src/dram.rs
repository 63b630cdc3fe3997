//! The guest's memory: a fixed run of bytes with little-endian accessors.
//!
//! Accesses of 1, 2, 4 and 8 bytes are allowed at any byte offset. An access
//! that does not lie wholly inside the memory fails with
//! [`EmulatorError::BadAddress`] and changes nothing.

use vstd::prelude::*;
use vstd::slice::slice_subrange;
use crate::endian::{
    in_range, le_store, le_value, lemma_le_store_frame, lemma_le_store_then_value,
    lemma_pow256_values, pow256, read_u16, read_u32, read_u64,
};
use crate::error::EmulatorError;

verus! {

/// The size of the memory in bytes: 64 MiB.
pub const DRAM_SIZE: usize = 0x400_0000;

/// What a load of `n` bytes at `addr` yields.
pub open spec fn checked_load(mem: Seq<u8>, addr: int, n: nat) -> Result<nat, EmulatorError> {
    if in_range(mem.len(), addr, n) {
        Ok(le_value(mem, addr, n))
    } else {
        Err(EmulatorError::BadAddress)
    }
}

/// The memory after a store of the low `n` bytes of `value` at `addr`.
pub open spec fn checked_store(mem: Seq<u8>, addr: int, n: nat, value: nat) -> Result<
    Seq<u8>,
    EmulatorError,
> {
    if in_range(mem.len(), addr, n) {
        Ok(le_store(mem, addr, n, value))
    } else {
        Err(EmulatorError::BadAddress)
    }
}

/// The `len` bytes that start at `addr`.
pub open spec fn checked_bytes(mem: Seq<u8>, addr: int, len: nat) -> Result<
    Seq<u8>,
    EmulatorError,
> {
    if in_range(mem.len(), addr, len) {
        Ok(mem.subrange(addr, addr + len))
    } else {
        Err(EmulatorError::BadAddress)
    }
}

/// `mem` with `bytes` placed at `addr`.
pub open spec fn placed(mem: Seq<u8>, addr: int, bytes: Seq<u8>) -> Seq<u8> {
    Seq::new(
        mem.len(),
        |i: int|
            if addr <= i < addr + bytes.len() {
                bytes[i - addr]
            } else {
                mem[i]
            },
    )
}

/// The memory after `bytes` have been placed at `addr`.
pub open spec fn checked_place(mem: Seq<u8>, addr: int, bytes: Seq<u8>) -> Result<
    Seq<u8>,
    EmulatorError,
> {
    if in_range(mem.len(), addr, bytes.len()) {
        Ok(placed(mem, addr, bytes))
    } else {
        Err(EmulatorError::BadAddress)
    }
}

/// How a store's result relates the memory before and after it.
pub open spec fn store_outcome(
    before: Seq<u8>,
    after: Seq<u8>,
    r: Result<(), EmulatorError>,
    expected: Result<Seq<u8>, EmulatorError>,
) -> bool {
    match expected {
        Ok(mem) => r is Ok && after == mem,
        Err(e) => r == Err::<(), EmulatorError>(e) && after == before,
    }
}

/// The memory. Its length never changes.
pub struct Dram {
    vec: Vec<u8>,
}

impl View for Dram {
    type V = Seq<u8>;

    closed spec fn view(&self) -> Seq<u8> {
        self.vec@
    }
}

impl std::ops::Deref for Dram {
    type Target = Vec<u8>;

    /// The bytes of the memory, for reading.
    fn deref(&self) -> (bytes: &Vec<u8>)
        ensures
            bytes@ == self@,
    {
        &self.vec
    }
}

impl Dram {
    /// Holds of every memory that exists: it has `DRAM_SIZE` bytes.
    #[verifier::type_invariant]
    pub open spec fn inv(self) -> bool {
        self@.len() == DRAM_SIZE
    }

    /// A memory of `DRAM_SIZE` zero bytes.
    pub fn new_dram() -> (r: Self)
        ensures
            r@ == Seq::new(DRAM_SIZE as nat, |i: int| 0u8),
    {
        let r = Self { vec: vec![0u8;DRAM_SIZE] };
        assert(r.vec@ =~= Seq::new(DRAM_SIZE as nat, |i: int| 0u8));
        r
    }

    /// The number of bytes, which is always `DRAM_SIZE`.
    pub fn len(&self) -> (n: usize)
        ensures
            n == DRAM_SIZE,
            self@.len() == DRAM_SIZE,
    {
        proof {
            use_type_invariant(self);
        }
        self.vec.len()
    }

    /// The whole memory as a slice.
    pub fn as_slice(&self) -> (s: &[u8])
        ensures
            s@ == self@,
            self@.len() == DRAM_SIZE,
    {
        proof {
            use_type_invariant(self);
        }
        self.vec.as_slice()
    }

    /// The `len` bytes that start at `addr`, borrowed from the memory.
    pub fn bytes(&self, addr: usize, len: usize) -> (r: Result<&[u8], EmulatorError>)
        ensures
            self@.len() == DRAM_SIZE,
            match checked_bytes(self@, addr as int, len as nat) {
                Ok(run) => r is Ok && r->Ok_0@ == run,
                Err(e) => r == Err::<&[u8], EmulatorError>(e),
            },
    {
        proof {
            use_type_invariant(self);
        }
        if addr > DRAM_SIZE || len > DRAM_SIZE - addr {
            return Err(EmulatorError::BadAddress);
        }
        Ok(slice_subrange(self.vec.as_slice(), addr, addr + len))
    }

    /// Copies `src` into the memory, first byte at `addr`.
    pub fn write_bytes(&mut self, addr: usize, src: &[u8]) -> (r: Result<(), EmulatorError>)
        ensures
            final(self)@.len() == DRAM_SIZE,
            store_outcome(
                old(self)@,
                final(self)@,
                r,
                checked_place(old(self)@, addr as int, src@),
            ),
    {
        proof {
            use_type_invariant(&*self);
        }
        let count = src.len();
        if addr > DRAM_SIZE || count > DRAM_SIZE - addr {
            return Err(EmulatorError::BadAddress);
        }
        let mut i: usize = 0;
        assert(self.vec@ =~= placed(old(self)@, addr as int, src@.subrange(0, 0)));
        while i < count
            invariant
                count == src@.len(),
                addr + count <= DRAM_SIZE,
                i <= count,
                old(self)@.len() == DRAM_SIZE,
                self.vec@ == placed(old(self)@, addr as int, src@.subrange(0, i as int)),
            decreases count - i,
        {
            self.vec[addr + i] = src[i];
            i += 1;
            assert(self.vec@ =~= placed(old(self)@, addr as int, src@.subrange(0, i as int)));
        }
        assert(src@.subrange(0, count as int) =~= src@);
        Ok(())
    }

    /// Stores one byte.
    pub fn set_u8(&mut self, addr: usize, val: u8) -> (r: Result<(), EmulatorError>)
        ensures
            final(self)@.len() == DRAM_SIZE,
            store_outcome(
                old(self)@,
                final(self)@,
                r,
                checked_store(old(self)@, addr as int, 1, val as nat),
            ),
    {
        proof {
            use_type_invariant(&*self);
            reveal_with_fuel(le_store, 2);
        }
        if addr >= DRAM_SIZE {
            return Err(EmulatorError::BadAddress);
        }
        self.vec[addr] = val;
        Ok(())
    }

    /// Stores two bytes, low byte first.
    pub fn set_u16(&mut self, addr: usize, val: u16) -> (r: Result<(), EmulatorError>)
        ensures
            final(self)@.len() == DRAM_SIZE,
            store_outcome(
                old(self)@,
                final(self)@,
                r,
                checked_store(old(self)@, addr as int, 2, val as nat),
            ),
    {
        proof {
            use_type_invariant(&*self);
            reveal_with_fuel(le_store, 3);
        }
        if addr > DRAM_SIZE - 2 {
            return Err(EmulatorError::BadAddress);
        }
        self.vec[addr] = (val % 256) as u8;
        self.vec[addr + 1] = (val / 256) as u8;
        Ok(())
    }

    /// Stores four bytes, low byte first.
    pub fn set_u32(&mut self, addr: usize, val: u32) -> (r: Result<(), EmulatorError>)
        ensures
            final(self)@.len() == DRAM_SIZE,
            store_outcome(
                old(self)@,
                final(self)@,
                r,
                checked_store(old(self)@, addr as int, 4, val as nat),
            ),
    {
        proof {
            use_type_invariant(&*self);
            reveal_with_fuel(le_store, 5);
        }
        if addr > DRAM_SIZE - 4 {
            return Err(EmulatorError::BadAddress);
        }
        let r1 = val / 256;
        let r2 = r1 / 256;
        let r3 = r2 / 256;
        self.vec[addr] = (val % 256) as u8;
        self.vec[addr + 1] = (r1 % 256) as u8;
        self.vec[addr + 2] = (r2 % 256) as u8;
        self.vec[addr + 3] = r3 as u8;
        Ok(())
    }

    /// Stores eight bytes, low byte first.
    pub fn set_u64(&mut self, addr: usize, val: u64) -> (r: Result<(), EmulatorError>)
        ensures
            final(self)@.len() == DRAM_SIZE,
            store_outcome(
                old(self)@,
                final(self)@,
                r,
                checked_store(old(self)@, addr as int, 8, val as nat),
            ),
    {
        proof {
            use_type_invariant(&*self);
            reveal_with_fuel(le_store, 9);
        }
        if addr > DRAM_SIZE - 8 {
            return Err(EmulatorError::BadAddress);
        }
        let r1 = val / 256;
        let r2 = r1 / 256;
        let r3 = r2 / 256;
        let r4 = r3 / 256;
        let r5 = r4 / 256;
        let r6 = r5 / 256;
        let r7 = r6 / 256;
        self.vec[addr] = (val % 256) as u8;
        self.vec[addr + 1] = (r1 % 256) as u8;
        self.vec[addr + 2] = (r2 % 256) as u8;
        self.vec[addr + 3] = (r3 % 256) as u8;
        self.vec[addr + 4] = (r4 % 256) as u8;
        self.vec[addr + 5] = (r5 % 256) as u8;
        self.vec[addr + 6] = (r6 % 256) as u8;
        self.vec[addr + 7] = r7 as u8;
        Ok(())
    }

    /// Loads one byte.
    pub fn get_u8(&self, addr: usize) -> (r: Result<u8, EmulatorError>)
        ensures
            self@.len() == DRAM_SIZE,
            match checked_load(self@, addr as int, 1) {
                Ok(v) => r == Ok::<u8, EmulatorError>(v as u8) && v <= u8::MAX,
                Err(e) => r == Err::<u8, EmulatorError>(e),
            },
    {
        proof {
            use_type_invariant(self);
            reveal_with_fuel(le_value, 2);
        }
        if addr >= DRAM_SIZE {
            return Err(EmulatorError::BadAddress);
        }
        Ok(self.vec[addr])
    }

    /// Loads two bytes, low byte first.
    pub fn get_u16(&self, addr: usize) -> (r: Result<u16, EmulatorError>)
        ensures
            self@.len() == DRAM_SIZE,
            match checked_load(self@, addr as int, 2) {
                Ok(v) => r == Ok::<u16, EmulatorError>(v as u16) && v <= u16::MAX,
                Err(e) => r == Err::<u16, EmulatorError>(e),
            },
    {
        proof {
            use_type_invariant(self);
        }
        if addr > DRAM_SIZE - 2 {
            return Err(EmulatorError::BadAddress);
        }
        Ok(read_u16(self.vec.as_slice(), addr))
    }

    /// Loads four bytes, low byte first.
    pub fn get_u32(&self, addr: usize) -> (r: Result<u32, EmulatorError>)
        ensures
            self@.len() == DRAM_SIZE,
            match checked_load(self@, addr as int, 4) {
                Ok(v) => r == Ok::<u32, EmulatorError>(v as u32) && v <= u32::MAX,
                Err(e) => r == Err::<u32, EmulatorError>(e),
            },
    {
        proof {
            use_type_invariant(self);
        }
        if addr > DRAM_SIZE - 4 {
            return Err(EmulatorError::BadAddress);
        }
        Ok(read_u32(self.vec.as_slice(), addr))
    }

    /// Loads eight bytes, low byte first.
    pub fn get_u64(&self, addr: usize) -> (r: Result<u64, EmulatorError>)
        ensures
            self@.len() == DRAM_SIZE,
            match checked_load(self@, addr as int, 8) {
                Ok(v) => r == Ok::<u64, EmulatorError>(v as u64) && v <= u64::MAX,
                Err(e) => r == Err::<u64, EmulatorError>(e),
            },
    {
        proof {
            use_type_invariant(self);
        }
        if addr > DRAM_SIZE - 8 {
            return Err(EmulatorError::BadAddress);
        }
        Ok(read_u64(self.vec.as_slice(), addr))
    }
}

/// A successful store keeps the length of the memory and every byte outside
/// the stored range.
pub proof fn lemma_store_keeps_the_rest(mem: Seq<u8>, addr: int, n: nat, value: nat)
    ensures
        checked_store(mem, addr, n, value) matches Ok(after) ==> after.len() == mem.len() && (
        forall|i: int| 0 <= i < mem.len() && !(addr <= i < addr + n) ==> after[i] == mem[i]),
{
    if in_range(mem.len(), addr, n) {
        lemma_le_store_frame(mem, addr, n, value);
    }
}

/// A load that follows a store of the same width at the same address
/// succeeds and yields the stored value, reduced to that width.
pub proof fn lemma_store_then_load(mem: Seq<u8>, addr: int, n: nat, value: nat)
    ensures
        checked_store(mem, addr, n, value) matches Ok(after) ==> checked_load(after, addr, n)
            == Ok::<nat, EmulatorError>(value % pow256(n)),
{
    if in_range(mem.len(), addr, n) {
        lemma_le_store_frame(mem, addr, n, value);
        lemma_le_store_then_value(mem, addr, n, value);
    }
}

/// The same for the four access widths, in terms of bit masks: what is read
/// back is `value & 0xFF`, `value & 0xFFFF`, `value & 0xFFFF_FFFF` or
/// `value` itself.
pub proof fn lemma_store_then_load_masks(mem: Seq<u8>, addr: int, value: u64)
    ensures
        checked_store(mem, addr, 1, value as nat) matches Ok(after) ==> checked_load(after, addr, 1)
            == Ok::<nat, EmulatorError>((value & 0xFF) as nat),
        checked_store(mem, addr, 2, value as nat) matches Ok(after) ==> checked_load(after, addr, 2)
            == Ok::<nat, EmulatorError>((value & 0xFFFF) as nat),
        checked_store(mem, addr, 4, value as nat) matches Ok(after) ==> checked_load(after, addr, 4)
            == Ok::<nat, EmulatorError>((value & 0xFFFF_FFFF) as nat),
        checked_store(mem, addr, 8, value as nat) matches Ok(after) ==> checked_load(after, addr, 8)
            == Ok::<nat, EmulatorError>(value as nat),
{
    lemma_pow256_values();
    lemma_store_then_load(mem, addr, 1, value as nat);
    lemma_store_then_load(mem, addr, 2, value as nat);
    lemma_store_then_load(mem, addr, 4, value as nat);
    lemma_store_then_load(mem, addr, 8, value as nat);
    assert(value & 0xFF == value % 0x100 && value & 0xFFFF == value % 0x1_0000 && value
        & 0xFFFF_FFFF == value % 0x1_0000_0000) by (bit_vector);
}

} // verus!
