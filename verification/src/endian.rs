//! Little-endian integers inside byte sequences.
//!
//! The model is arithmetic: the value of `n` bytes starting at `at` is
//! `b[at] + 256 * b[at + 1] + 256^2 * b[at + 2] + ...`. No alignment is
//! assumed anywhere.

use vstd::prelude::*;
use vstd::arithmetic::div_mod::{lemma_breakdown, lemma_div_denominator};

verus! {

/// `256^n`, the number of values that `n` bytes can hold.
pub open spec fn pow256(n: nat) -> nat
    decreases n,
{
    if n == 0 {
        1
    } else {
        256 * pow256((n - 1) as nat)
    }
}

/// The little-endian value of the `n` bytes of `bytes` that start at `at`.
pub open spec fn le_value(bytes: Seq<u8>, at: int, n: nat) -> nat
    decreases n,
{
    if n == 0 {
        0
    } else {
        bytes[at] as nat + 256 * le_value(bytes, at + 1, (n - 1) as nat)
    }
}

/// `bytes` with the `n` bytes that start at `at` replaced by the low `n`
/// bytes of `value`, least significant byte first.
pub open spec fn le_store(bytes: Seq<u8>, at: int, n: nat, value: nat) -> Seq<u8>
    decreases n,
{
    if n == 0 {
        bytes
    } else {
        le_store(bytes.update(at, (value % 256) as u8), at + 1, (n - 1) as nat, value / 256)
    }
}

/// Whether the `n` bytes starting at `at` all lie inside a sequence of
/// length `len`.
pub open spec fn in_range(len: nat, at: int, n: nat) -> bool {
    0 <= at && at + n <= len
}

/// The powers of 256 that belong to the four access widths.
pub proof fn lemma_pow256_values()
    ensures
        pow256(0) == 1,
        pow256(1) == 0x100,
        pow256(2) == 0x1_0000,
        pow256(4) == 0x1_0000_0000,
        pow256(8) == 0x1_0000_0000_0000_0000,
{
    reveal_with_fuel(pow256, 9);
}

/// No power of 256 is zero.
pub proof fn lemma_pow256_positive(n: nat)
    ensures
        pow256(n) > 0,
    decreases n,
{
    if n > 0 {
        lemma_pow256_positive((n - 1) as nat);
    }
}

/// A store keeps the length and touches only the bytes it addresses.
pub proof fn lemma_le_store_frame(bytes: Seq<u8>, at: int, n: nat, value: nat)
    requires
        in_range(bytes.len(), at, n),
    ensures
        le_store(bytes, at, n, value).len() == bytes.len(),
        forall|i: int|
            0 <= i < bytes.len() && !(at <= i < at + n) ==> le_store(bytes, at, n, value)[i]
                == bytes[i],
    decreases n,
{
    if n > 0 {
        let first = bytes.update(at, (value % 256) as u8);
        lemma_le_store_frame(first, at + 1, (n - 1) as nat, value / 256);
        assert forall|i: int| 0 <= i < bytes.len() && !(at <= i < at + n) implies le_store(
            bytes,
            at,
            n,
            value,
        )[i] == bytes[i] by {
            assert(le_store(first, at + 1, (n - 1) as nat, value / 256)[i] == first[i]);
        }
    }
}

/// What a store writes: byte `k` of the stored range is digit `k` of the
/// value in base 256.
pub proof fn lemma_le_store_bytes(bytes: Seq<u8>, at: int, n: nat, value: nat, k: nat)
    requires
        in_range(bytes.len(), at, n),
        k < n,
    ensures
        le_store(bytes, at, n, value)[at + k] == (value / pow256(k)) % 256,
    decreases n,
{
    let first = bytes.update(at, (value % 256) as u8);
    let rest = (n - 1) as nat;
    if k == 0 {
        lemma_le_store_frame(first, at + 1, rest, value / 256);
        assert(le_store(bytes, at, n, value)[at] == first[at]);
        assert(pow256(0) == 1);
    } else {
        let j = (k - 1) as nat;
        lemma_le_store_bytes(first, at + 1, rest, value / 256, j);
        lemma_pow256_positive(j);
        lemma_div_denominator(value as int, 256, pow256(j) as int);
        assert(256 * pow256(j) == pow256(k));
        assert((value / 256) / pow256(j) == value / pow256(k));
    }
}

/// Reading back what was stored gives the stored value, reduced to the
/// width of the access.
pub proof fn lemma_le_store_then_value(bytes: Seq<u8>, at: int, n: nat, value: nat)
    requires
        in_range(bytes.len(), at, n),
    ensures
        le_value(le_store(bytes, at, n, value), at, n) == value % pow256(n),
    decreases n,
{
    if n > 0 {
        let first = bytes.update(at, (value % 256) as u8);
        let rest = (n - 1) as nat;
        let stored = le_store(bytes, at, n, value);
        lemma_le_store_then_value(first, at + 1, rest, value / 256);
        lemma_le_store_frame(first, at + 1, rest, value / 256);
        assert(stored[at] == first[at]);
        lemma_pow256_positive(rest);
        lemma_breakdown(value as int, 256, pow256(rest) as int);
        assert(256 * pow256(rest) == pow256(n));
    }
}

/// A store of `n` bytes looks only at the low `n` bytes of the value.
pub proof fn lemma_le_store_low(bytes: Seq<u8>, at: int, n: nat, v1: nat, v2: nat)
    requires
        v1 % pow256(n) == v2 % pow256(n),
    ensures
        le_store(bytes, at, n, v1) == le_store(bytes, at, n, v2),
    decreases n,
{
    if n > 0 {
        let rest = (n - 1) as nat;
        lemma_pow256_positive(rest);
        lemma_breakdown(v1 as int, 256, pow256(rest) as int);
        lemma_breakdown(v2 as int, 256, pow256(rest) as int);
        assert(256 * pow256(rest) == pow256(n));
        assert(v1 % 256 == v2 % 256 && (v1 / 256) % pow256(rest) == (v2 / 256) % pow256(rest));
        lemma_le_store_low(bytes.update(at, (v1 % 256) as u8), at + 1, rest, v1 / 256, v2 / 256);
    }
}

/// The two-byte value at `at`. The caller keeps the access inside `data`.
pub fn read_u16(data: &[u8], at: usize) -> (r: u16)
    requires
        in_range(data.len() as nat, at as int, 2),
    ensures
        r == le_value(data@, at as int, 2),
{
    proof {
        reveal_with_fuel(le_value, 3);
    }
    let b0 = data[at] as u16;
    let b1 = data[at + 1] as u16;
    b0 + b1 * 0x100
}

/// The four-byte value at `at`.
pub fn read_u32(data: &[u8], at: usize) -> (r: u32)
    requires
        in_range(data.len() as nat, at as int, 4),
    ensures
        r == le_value(data@, at as int, 4),
{
    proof {
        reveal_with_fuel(le_value, 5);
    }
    let lo = read_u16(data, at) as u32;
    let hi = read_u16(data, at + 2) as u32;
    lo + hi * 0x1_0000
}

/// The eight-byte value at `at`.
pub fn read_u64(data: &[u8], at: usize) -> (r: u64)
    requires
        in_range(data.len() as nat, at as int, 8),
    ensures
        r == le_value(data@, at as int, 8),
{
    proof {
        reveal_with_fuel(le_value, 9);
    }
    let lo = read_u32(data, at) as u64;
    let hi = read_u32(data, at + 4) as u64;
    lo + hi * 0x1_0000_0000
}

} // verus!
