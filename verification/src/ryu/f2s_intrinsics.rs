//! Fixed-width arithmetic of the 32-bit shortest-decimal engine. The 32-bit
//! path reuses the high word of the 64-bit power-of-five tables; each
//! operation is proved equal to its specification mirror.

use crate::ryu::d2s_full_table::{DOUBLE_POW5_INV_SPLIT, DOUBLE_POW5_SPLIT};
use vstd::arithmetic::power2::pow2;
use vstd::prelude::*;

verus! {

pub const FLOAT_POW5_INV_BITCOUNT: i32 = 61;

pub const FLOAT_POW5_BITCOUNT: i32 = 61;

/// How many times 5 divides `value`, capped far above any machine word's
/// factor count.
pub open spec fn spec_pow5factor_32(value: u32, count: u32) -> u32
    decreases value,
{
    if value == 0 || value % 5 != 0 {
        count
    } else {
        spec_pow5factor_32(
            value / 5,
            if count < 32 {
                (count + 1) as u32
            } else {
                count
            },
        )
    }
}

/// How many times 5 divides `value`.
fn pow5factor_32(value: u32) -> (count: u32)
    requires
        value >= 1,
    ensures
        count == spec_pow5factor_32(value, 0),
{
    let ghost v0 = value;
    let mut value: u32 = value;
    let mut count: u32 = 0;
    while value % 5 == 0
        invariant
            value >= 1,
            count <= 32,
            spec_pow5factor_32(value, count) == spec_pow5factor_32(v0, 0),
        decreases value,
    {
        proof {
            vstd::arithmetic::div_mod::lemma_fundamental_div_mod(value as int, 5);
        }
        value = value / 5;
        if count < 32 {
            count = count + 1;
        }
    }
    count
}

/// Whether `5^p` divides `value`.
pub open spec fn spec_multiple_of_power_of_5_32(value: u32, p: u32) -> bool {
    spec_pow5factor_32(value, 0) >= p
}

/// Returns true if value is divisible by `5^p`.
pub fn multiple_of_power_of_5_32(value: u32, p: u32) -> (r: bool)
    requires
        value >= 1,
    ensures
        r == spec_multiple_of_power_of_5_32(value, p),
{
    pow5factor_32(value) >= p
}

/// Whether `2^p` divides `value`.
pub open spec fn spec_multiple_of_power_of_2_32(value: u32, p: u32) -> bool {
    value as nat % pow2(p as nat) == 0
}

/// Returns true if value is divisible by `2^p`.
pub fn multiple_of_power_of_2_32(value: u32, p: u32) -> (r: bool)
    requires
        p < 32,
    ensures
        r == spec_multiple_of_power_of_2_32(value, p),
{
    proof {
        vstd::arithmetic::power2::lemma2_to64();
        if p < 31 {
            vstd::arithmetic::power2::lemma_pow2_strictly_increases(p as nat, 31);
        }
        vstd::bits::lemma_u32_shl_is_mul(1u32, p);
        vstd::bits::lemma_u32_low_bits_mask_is_mod(value, p as nat);
    }
    (value & (((1u32 << p) as u32) - 1)) == 0
}

/// The high word of `m * factor` shifted down by `shift - 32` more bits.
pub open spec fn spec_mul_shift_32(m: u32, factor: u64, shift: i32) -> u32 {
    let bits0 = (m as nat) * ((factor as nat) % 0x100000000);
    let bits1 = (m as nat) * ((factor as nat) / 0x100000000);
    ((((bits0 / 0x100000000) + bits1) / pow2((shift - 32) as nat)) % 0x100000000) as u32
}

fn mul_shift_32(m: u32, factor: u64, shift: i32) -> (r: u32)
    requires
        32 < shift < 96,
    ensures
        r == spec_mul_shift_32(m, factor, shift),
{
    proof {
        vstd::arithmetic::power2::lemma2_to64();
        vstd::bits::lemma_u64_shr_is_div(factor, 32u64);
        vstd::arithmetic::div_mod::lemma_mod_bound(factor as int, 0x100000000);
    }
    let factor_lo: u32 = (factor % 0x100000000u64) as u32;
    let factor_hi: u32 = (factor >> 32) as u32;
    proof {
        vstd::arithmetic::mul::lemma_mul_upper_bound(
            m as int,
            0xffffffff,
            factor_lo as int,
            0xffffffff,
        );
        vstd::arithmetic::mul::lemma_mul_upper_bound(
            m as int,
            0xffffffff,
            factor_hi as int,
            0xffffffff,
        );
    }
    let bits0: u64 = (m as u64) * (factor_lo as u64);
    let bits1: u64 = (m as u64) * (factor_hi as u64);
    proof {
        vstd::bits::lemma_u64_shr_is_div(bits0, 32u64);
        vstd::arithmetic::div_mod::lemma_div_is_ordered(
            bits0 as int,
            0xfffffffe00000001,
            0x100000000,
        );
    }
    let sum: u64 = (bits0 >> 32) + bits1;
    proof {
        vstd::bits::lemma_u64_shr_is_div(sum, (shift - 32) as u64);
    }
    let shifted_sum: u64 = sum >> ((shift - 32) as u32);
    proof {
        vstd::arithmetic::div_mod::lemma_mod_bound(shifted_sum as int, 0x100000000);
    }
    (shifted_sum % 0x100000000u64) as u32
}

/// `m * (2^k / 5^q + 1) / 2^j`, through the shared inverse table.
pub open spec fn spec_mul_pow5_inv_div_pow2(m: u32, q: int, j: int) -> u32 {
    let w = DOUBLE_POW5_INV_SPLIT[q].1;
    let factor = if w < 0xffffffffffffffffu64 {
        (w + 1) as u64
    } else {
        0u64
    };
    spec_mul_shift_32(m, factor, j as i32)
}

pub fn mul_pow5_inv_div_pow2(m: u32, q: u32, j: i32) -> (r: u32)
    requires
        q < 342,
        32 < j < 96,
    ensures
        r == spec_mul_pow5_inv_div_pow2(m, q as int, j as int),
{
    let w: u64 = DOUBLE_POW5_INV_SPLIT[q as usize].1;
    let factor: u64 = if w < 0xffffffffffffffffu64 {
        w + 1
    } else {
        0
    };
    mul_shift_32(m, factor, j)
}

/// `m * 5^i / 2^j`, through the shared power table.
pub open spec fn spec_mul_pow5_div_pow2(m: u32, i: int, j: int) -> u32 {
    spec_mul_shift_32(m, DOUBLE_POW5_SPLIT[i].1, j as i32)
}

pub fn mul_pow5_div_pow2(m: u32, i: u32, j: i32) -> (r: u32)
    requires
        i < 326,
        32 < j < 96,
    ensures
        r == spec_mul_pow5_div_pow2(m, i as int, j as int),
{
    mul_shift_32(m, DOUBLE_POW5_SPLIT[i as usize].1, j)
}

} // verus!
