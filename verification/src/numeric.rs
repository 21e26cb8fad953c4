//! Conversions of lengths.

use vstd::prelude::*;

verus! {

/// A length as a `u32`; one that does not fit becomes the largest.
pub open spec fn clamped(n: nat) -> u32 {
    if n <= u32::MAX {
        n as u32
    } else {
        u32::MAX
    }
}

/// A length as a `u32`; one that does not fit becomes the largest.
pub fn clamp(n: usize) -> (r: u32)
    ensures
        r == clamped(n as nat),
{
    if n as u64 <= 0xffff_ffff {
        n as u32
    } else {
        0xffff_ffff
    }
}

/// The sum of two numbers, or the largest where it does not fit.
pub open spec fn saturating_sum(a: u64, b: u64) -> u64 {
    if a + b <= u64::MAX {
        (a + b) as u64
    } else {
        u64::MAX
    }
}

} // verus!
