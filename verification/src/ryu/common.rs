//! Shared helpers of the shortest-decimal engine: digit counting for 32-bit
//! mantissas and the fixed-point logarithm approximations that steer the
//! power-of-five table lookups.

use crate::digits::{dec_len, lemma_dec_len_ge, lemma_dec_len_le, lemma_pow10_values};
use vstd::prelude::*;

verus! {

/// Returns the number of decimal digits in `v`, which must not contain more
/// than 9 digits.
pub fn decimal_length9(v: u32) -> (r: u32)
    requires
        v < 1000000000,
    ensures
        r == dec_len(v as nat),
        1 <= r <= 9,
{
    proof {
        lemma_pow10_values();
        let k: nat = if v >= 100000000 {
            9
        } else if v >= 10000000 {
            8
        } else if v >= 1000000 {
            7
        } else if v >= 100000 {
            6
        } else if v >= 10000 {
            5
        } else if v >= 1000 {
            4
        } else if v >= 100 {
            3
        } else if v >= 10 {
            2
        } else {
            1
        };
        lemma_dec_len_le(v as nat, k);
        if v >= 1 {
            lemma_dec_len_ge(v as nat, k);
        }
    }
    if v >= 100000000 {
        9
    } else if v >= 10000000 {
        8
    } else if v >= 1000000 {
        7
    } else if v >= 100000 {
        6
    } else if v >= 10000 {
        5
    } else if v >= 1000 {
        4
    } else if v >= 100 {
        3
    } else if v >= 10 {
        2
    } else {
        1
    }
}

/// `floor(log2(5^e))`, or 0 at `e == 0`; exact for the argument range used
/// here.
pub fn log2_pow5(e: i32) -> (r: i32)
    requires
        0 <= e <= 3528,
    ensures
        r == (e * 1217359) / 0x80000,
        0 <= r <= 8192,
{
    proof {
        vstd::arithmetic::power2::lemma2_to64();
        vstd::bits::lemma_u32_shr_is_div((e as u32 * 1217359) as u32, 19);
    }
    ((e as u32 * 1217359) >> 19) as i32
}

/// `ceil(log2(5^e))` for positive `e`, and 1 at `e == 0`.
pub fn pow5bits(e: i32) -> (r: i32)
    requires
        0 <= e <= 3528,
    ensures
        r == (e * 1217359) / 0x80000 + 1,
        1 <= r <= 8193,
{
    let r = log2_pow5(e);
    r + 1
}

/// `floor(log10(2^e))`; exact for the argument range used here.
pub fn log10_pow2(e: i32) -> (r: u32)
    requires
        0 <= e <= 1650,
    ensures
        r == (e * 78913) / 0x40000,
        r <= 496,
{
    proof {
        vstd::arithmetic::power2::lemma2_to64();
        vstd::bits::lemma_u32_shr_is_div((e as u32 * 78913) as u32, 18);
    }
    (e as u32 * 78913) >> 18
}

/// `floor(log10(5^e))`; exact for the argument range used here.
pub fn log10_pow5(e: i32) -> (r: u32)
    requires
        0 <= e <= 2620,
    ensures
        r == (e * 732923) / 0x100000,
        r <= 1831,
{
    proof {
        vstd::arithmetic::power2::lemma2_to64();
        vstd::bits::lemma_u32_shr_is_div((e as u32 * 732923) as u32, 20);
    }
    (e as u32 * 732923) >> 20
}

} // verus!
