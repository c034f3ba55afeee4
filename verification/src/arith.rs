//! Arithmetic that stays within 32 bits.

use vstd::prelude::*;

verus! {

/// The number itself, or the largest of 32 bits where it exceeds that.
pub open spec fn capped(n: int) -> u32 {
    if n <= u32::MAX {
        n as u32
    } else {
        u32::MAX
    }
}

/// The number itself, or the largest of 64 bits where it exceeds that.
pub open spec fn capped64(n: int) -> u64 {
    if n <= u64::MAX {
        n as u64
    } else {
        u64::MAX
    }
}

/// What remains after `b` is taken from `a`, and zero where `b` is larger.
pub open spec fn monus(a: int, b: int) -> int {
    if a >= b {
        a - b
    } else {
        0
    }
}

/// The smaller of two numbers.
pub open spec fn least(a: int, b: int) -> int {
    if a <= b {
        a
    } else {
        b
    }
}

/// The low 32 bits of a number.
pub open spec fn low32(n: int) -> u32 {
    (n % 0x1_0000_0000) as u32
}

/// The product, or the largest number of 32 bits where it exceeds that.
pub fn mul_capped(a: u32, b: u32) -> (r: u32)
    ensures
        r == capped(a * b),
{
    assert(0 <= a * b <= 0xffff_ffff * 0xffff_ffff) by (nonlinear_arith)
        requires
            0 <= a <= 0xffff_ffff,
            0 <= b <= 0xffff_ffff,
    ;
    let p: u64 = (a as u64) * (b as u64);
    if p <= 0xffff_ffff {
        p as u32
    } else {
        u32::MAX
    }
}

/// The low 32 bits of `n`.
pub fn truncate(n: u64) -> (r: u32)
    ensures
        r == low32(n as int),
{
    (n % 0x1_0000_0000) as u32
}

} // verus!
