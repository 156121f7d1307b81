//! Fixed-width arithmetic of the 64-bit shortest-decimal engine: the
//! 128-bit multiply-and-shift against a split power-of-five word pair, and
//! the divisibility probes that steer trailing-zero handling. Each operation
//! is proved equal to its specification mirror, so the whole decomposition
//! is a mathematical function of its inputs.

use vstd::arithmetic::power2::pow2;
use vstd::prelude::*;

verus! {

pub fn div100(x: u64) -> (r: u64)
    ensures
        r == x as nat / 100,
{
    x / 100
}

/// How many times 5 divides `value`, capped far above any machine word's
/// factor count.
pub open spec fn spec_pow5_factor(value: u64, count: u32) -> u32
    decreases value,
{
    if value == 0 || value % 5 != 0 {
        count
    } else {
        spec_pow5_factor(
            value / 5,
            if count < 64 {
                (count + 1) as u32
            } else {
                count
            },
        )
    }
}

/// How many times 5 divides `value`.
pub(crate) fn pow5_factor(value: u64) -> (count: u32)
    requires
        value >= 1,
    ensures
        count == spec_pow5_factor(value, 0),
{
    let ghost v0 = value;
    let mut value: u64 = value;
    let mut count: u32 = 0;
    while value % 5 == 0
        invariant
            value >= 1,
            count <= 64,
            spec_pow5_factor(value, count) == spec_pow5_factor(v0, 0),
        decreases value,
    {
        proof {
            vstd::arithmetic::div_mod::lemma_fundamental_div_mod(value as int, 5);
        }
        value = value / 5;
        if count < 64 {
            count = count + 1;
        }
    }
    count
}

/// Whether `5^p` divides `value`.
pub open spec fn spec_multiple_of_power_of_5(value: u64, p: u32) -> bool {
    spec_pow5_factor(value, 0) >= p
}

/// Returns true if value is divisible by `5^p`.
pub fn multiple_of_power_of_5(value: u64, p: u32) -> (r: bool)
    requires
        value >= 1,
    ensures
        r == spec_multiple_of_power_of_5(value, p),
{
    pow5_factor(value) >= p
}

/// Whether `2^p` divides `value`.
pub open spec fn spec_multiple_of_power_of_2(value: u64, p: u32) -> bool {
    value as nat % pow2(p as nat) == 0
}

/// Returns true if value is divisible by `2^p`.
pub fn multiple_of_power_of_2(value: u64, p: u32) -> (r: bool)
    requires
        p < 64,
    ensures
        r == spec_multiple_of_power_of_2(value, p),
{
    proof {
        vstd::arithmetic::power2::lemma2_to64();
        vstd::arithmetic::power2::lemma2_to64_rest();
        if p < 63 {
            vstd::arithmetic::power2::lemma_pow2_strictly_increases(p as nat, 63);
        }
        vstd::bits::lemma_u64_shl_is_mul(1u64, p as u64);
        vstd::bits::lemma_u64_low_bits_mask_is_mod(value, p as nat);
    }
    (value & (((1u64 << p) as u64) - 1)) == 0
}

/// The high word of `m * mul`, a 64x128-bit product, shifted down by
/// `j - 64` more bits.
pub open spec fn spec_mul_shift_64(m: u64, mul: (u64, u64), j: u32) -> u64 {
    let b0 = (m as nat) * (mul.0 as nat);
    let b2 = (m as nat) * (mul.1 as nat);
    ((((b0 / 0x10000000000000000) + b2) / pow2((j - 64) as nat)) % 0x10000000000000000) as u64
}

pub fn mul_shift_64(m: u64, mul: (u64, u64), j: u32) -> (r: u64)
    requires
        64 <= j < 192,
    ensures
        r == spec_mul_shift_64(m, mul, j),
{
    proof {
        vstd::arithmetic::mul::lemma_mul_upper_bound(
            m as int,
            0xffffffffffffffff,
            mul.0 as int,
            0xffffffffffffffff,
        );
        vstd::arithmetic::mul::lemma_mul_upper_bound(
            m as int,
            0xffffffffffffffff,
            mul.1 as int,
            0xffffffffffffffff,
        );
    }
    let b0: u128 = (m as u128) * (mul.0 as u128);
    let b2: u128 = (m as u128) * (mul.1 as u128);
    proof {
        vstd::arithmetic::power2::lemma2_to64();
        vstd::bits::lemma_u128_shr_is_div(b0, 64);
        vstd::arithmetic::div_mod::lemma_div_is_ordered(
            b0 as int,
            0xfffffffffffffffe0000000000000001,
            0x10000000000000000,
        );
    }
    let sum: u128 = (b0 >> 64) + b2;
    proof {
        vstd::bits::lemma_u128_shr_is_div(sum, (j - 64) as u128);
    }
    let shifted: u128 = sum >> ((j - 64) as u32);
    proof {
        vstd::arithmetic::div_mod::lemma_mod_bound(shifted as int, 0x10000000000000000);
    }
    (shifted % 0x10000000000000000u128) as u64
}

/// The three scaled interval bounds of one decomposition: the midpoint
/// `4 m`, the upper bound `4 m + 2`, and the lower bound `4 m - 1 -
/// mm_shift`, each multiplied and shifted alike, as `(vr, vp, vm)`.
pub open spec fn spec_mul_shift_all_64(m: u64, mul: (u64, u64), j: u32, mm_shift: u32) -> (
    u64,
    u64,
    u64,
) {
    (
        spec_mul_shift_64((4 * m) as u64, mul, j),
        spec_mul_shift_64((4 * m + 2) as u64, mul, j),
        spec_mul_shift_64((4 * m - 1 - mm_shift) as u64, mul, j),
    )
}

pub fn mul_shift_all_64(m: u64, mul: (u64, u64), j: u32, mm_shift: u32) -> (r: (u64, u64, u64))
    requires
        64 <= j < 192,
        1 <= m < 0x1000000000000000,
        mm_shift <= 1,
    ensures
        r == spec_mul_shift_all_64(m, mul, j, mm_shift),
{
    let vp = mul_shift_64(4 * m + 2, mul, j);
    let vm = mul_shift_64(4 * m - 1 - mm_shift as u64, mul, j);
    let vr = mul_shift_64(4 * m, mul, j);
    (vr, vp, vm)
}

} // verus!
