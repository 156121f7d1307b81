//! The 32-bit shortest-decimal engine, the binary32 counterpart of the
//! 64-bit decomposition, working in 32- and 64-bit arithmetic throughout.
//!
//! As with the 64-bit engine, the decomposition is proved equal to its
//! specification mirror [`spec_f2d`]; shortest-round-trip behaviour is
//! validated against a reference conversion by the test suite.

use crate::digits::{lemma_pow10_increases, lemma_pow10_values, pow10};
use crate::ryu::common::{log10_pow2, log10_pow5, pow5bits};
use crate::ryu::f2s_intrinsics::{
    mul_pow5_div_pow2, mul_pow5_inv_div_pow2, multiple_of_power_of_2_32,
    multiple_of_power_of_5_32, spec_mul_pow5_div_pow2, spec_mul_pow5_inv_div_pow2,
    spec_multiple_of_power_of_2_32, spec_multiple_of_power_of_5_32, FLOAT_POW5_BITCOUNT,
    FLOAT_POW5_INV_BITCOUNT,
};
use vstd::prelude::*;

verus! {

pub const FLOAT_MANTISSA_BITS: u32 = 23;

pub const FLOAT_EXPONENT_BITS: u32 = 8;

pub const FLOAT_BIAS: i32 = 127;

/// A floating decimal representing `mantissa * 10^exponent`.
pub struct FloatingDecimal32 {
    pub mantissa: u32,
    /// The decimal exponent of a binary32 stays within `[-50, 80]`.
    pub exponent: i32,
}

/// `d * (x / d)` brackets `x` to within `d`.
proof fn lemma_div_range(x: int, d: int)
    requires
        d > 0,
        x >= 0,
    ensures
        d * (x / d) <= x < d * (x / d) + d,
{
    vstd::arithmetic::div_mod::lemma_fundamental_div_mod(x, d);
    vstd::arithmetic::div_mod::lemma_mod_bound(x, d);
}

/// Scale the significand interval into the decimal base, fetch the one
/// digit below the kept precision, and settle the trailing-zero flags:
/// yields `(vr, vp, vm, vm_trailing, vr_trailing, last_removed_digit,
/// e10)`.
pub open spec fn spec_f2d_scaled(
    m2: u32,
    e2: int,
    mv: u32,
    mp: u32,
    mm: u32,
    mm_shift: u32,
    even: bool,
) -> (u32, u32, u32, bool, bool, u8, int) {
    if e2 >= 0 {
        let q = (e2 * 78913) / 0x40000;
        let k = FLOAT_POW5_INV_BITCOUNT + ((q * 1217359) / 0x80000 + 1) - 1;
        let i = -e2 + q + k;
        let vr = spec_mul_pow5_inv_div_pow2(mv, q, i);
        let vp = spec_mul_pow5_inv_div_pow2(mp, q, i);
        let vm = spec_mul_pow5_inv_div_pow2(mm, q, i);
        let lrd: u8 = if q != 0 && vp > 0 && (vp - 1) / 10 <= vm / 10 {
            let l = FLOAT_POW5_INV_BITCOUNT + (((q - 1) * 1217359) / 0x80000 + 1) - 1;
            (spec_mul_pow5_inv_div_pow2(mv, q - 1, -e2 + q - 1 + l) % 10) as u8
        } else {
            0u8
        };
        if q <= 9 {
            if mv % 5 == 0 {
                (vr, vp, vm, false, spec_multiple_of_power_of_5_32(mv, q as u32), lrd, q)
            } else if even {
                (vr, vp, vm, spec_multiple_of_power_of_5_32(mm, q as u32), false, lrd, q)
            } else if spec_multiple_of_power_of_5_32(mp, q as u32) && vp > 0 {
                (vr, (vp - 1) as u32, vm, false, false, lrd, q)
            } else {
                (vr, vp, vm, false, false, lrd, q)
            }
        } else {
            (vr, vp, vm, false, false, lrd, q)
        }
    } else {
        let n = -e2;
        let q = (n * 732923) / 0x100000;
        let e10 = q + e2;
        let i = n - q;
        let k = ((i * 1217359) / 0x80000 + 1) - FLOAT_POW5_BITCOUNT;
        let j = q - k;
        let vr = spec_mul_pow5_div_pow2(mv, i, j);
        let vp = spec_mul_pow5_div_pow2(mp, i, j);
        let vm = spec_mul_pow5_div_pow2(mm, i, j);
        let lrd: u8 = if q != 0 && vp > 0 && (vp - 1) / 10 <= vm / 10 {
            let j2 = q - 1 - ((((i + 1) * 1217359) / 0x80000 + 1) - FLOAT_POW5_BITCOUNT);
            (spec_mul_pow5_div_pow2(mv, i + 1, j2) % 10) as u8
        } else {
            0u8
        };
        if q <= 1 {
            if even {
                (vr, vp, vm, mm_shift == 1, true, lrd, e10)
            } else if vp > 0 {
                (vr, (vp - 1) as u32, vm, false, true, lrd, e10)
            } else {
                (vr, vp, vm, false, true, lrd, e10)
            }
        } else if q < 31 {
            (vr, vp, vm, false, spec_multiple_of_power_of_2_32(mv, (q - 1) as u32), lrd, e10)
        } else {
            (vr, vp, vm, false, false, lrd, e10)
        }
    }
}

/// The rare trimming loop; yields `(vp, vr, vm, vm_trailing, vr_trailing,
/// last_removed_digit, removed)`.
pub open spec fn spec_trim_rare32(
    vp: u32,
    vr: u32,
    vm: u32,
    vmz: bool,
    vrz: bool,
    lrd: u8,
    removed: int,
) -> (u32, u32, u32, bool, bool, u8, int)
    decreases vp,
{
    if vp / 10 > vm / 10 {
        spec_trim_rare32(
            vp / 10,
            vr / 10,
            vm / 10,
            vmz && vm % 10 == 0,
            vrz && lrd == 0,
            (vr % 10) as u8,
            removed + 1,
        )
    } else {
        (vp, vr, vm, vmz, vrz, lrd, removed)
    }
}

/// The extra trimming loop over the lower bound's trailing zeros; yields
/// `(vp, vr, vm, vr_trailing, last_removed_digit, removed)`.
pub open spec fn spec_trim_extra32(
    vp: u32,
    vr: u32,
    vm: u32,
    vrz: bool,
    lrd: u8,
    removed: int,
) -> (u32, u32, u32, bool, u8, int)
    decreases vm,
{
    if vm % 10 == 0 && vm > 0 {
        spec_trim_extra32(vp / 10, vr / 10, vm / 10, vrz && lrd == 0, (vr % 10) as u8, removed + 1)
    } else {
        (vp, vr, vm, vrz, lrd, removed)
    }
}

/// The common trimming loop; yields `(vr, vm, last_removed_digit,
/// removed)`.
pub open spec fn spec_trim_common32(vp: u32, vr: u32, vm: u32, lrd: u8, removed: int) -> (
    u32,
    u32,
    u8,
    int,
)
    decreases vp,
{
    if vp / 10 > vm / 10 {
        spec_trim_common32(vp / 10, vr / 10, vm / 10, (vr % 10) as u8, removed + 1)
    } else {
        (vr, vm, lrd, removed)
    }
}

/// The whole decomposition of a finite nonzero binary32's raw fields into
/// its decimal mantissa and exponent: what [`f2d`] returns, as a
/// mathematical function.
pub open spec fn spec_f2d(ieee_mantissa: u32, ieee_exponent: u32) -> (u32, int) {
    let e2: int = if ieee_exponent == 0 {
        1 - FLOAT_BIAS - FLOAT_MANTISSA_BITS - 2
    } else {
        ieee_exponent - FLOAT_BIAS - FLOAT_MANTISSA_BITS - 2
    };
    let m2: u32 = if ieee_exponent == 0 {
        ieee_mantissa
    } else {
        (0x800000 + ieee_mantissa) as u32
    };
    let even = m2 % 2 == 0;
    let mv = (4 * m2) as u32;
    let mp = (4 * m2 + 2) as u32;
    let mm_shift: u32 = if ieee_mantissa != 0 || ieee_exponent <= 1 {
        1
    } else {
        0
    };
    let mm = (4 * m2 - 1 - mm_shift) as u32;
    let s = spec_f2d_scaled(m2, e2, mv, mp, mm, mm_shift, even);
    let e10 = s.6;
    if s.3 || s.4 {
        let t = spec_trim_rare32(s.1, s.0, s.2, s.3, s.4, s.5, 0);
        let t2 = if t.3 {
            spec_trim_extra32(t.0, t.1, t.2, t.4, t.5, t.6)
        } else {
            (t.0, t.1, t.2, t.4, t.5, t.6)
        };
        let lrd = if t2.3 && t2.4 == 5 && t2.1 % 2 == 0 {
            4u8
        } else {
            t2.4
        };
        let bump = (t2.1 == t2.2 && (!even || !t.3)) || lrd >= 5;
        let out = if bump && t2.1 < 0xffffffffu32 {
            (t2.1 + 1) as u32
        } else {
            t2.1
        };
        (out, e10 + t2.5)
    } else {
        let t = spec_trim_common32(s.1, s.0, s.2, s.5, 0);
        let bump = t.0 == t.1 || t.2 >= 5;
        let out = if bump && t.0 < 0xffffffffu32 {
            (t.0 + 1) as u32
        } else {
            t.0
        };
        (out, e10 + t.3)
    }
}

/// One trimming step, as in the 64-bit engine.
proof fn lemma_removed_step32(vp: nat, removed: nat, vp0: nat)
    requires
        vp * pow10(removed) <= vp0,
        vp0 < 0x100000000,
        vp >= 10,
    ensures
        (vp / 10) * pow10(removed + 1) <= vp0,
        removed + 1 <= 10,
        removed + 1 == 10 ==> vp / 10 == 0,
        vp / 10 >= 1 || vp < 10,
{
    lemma_pow10_values();
    crate::digits::lemma_pow10_pos(removed);
    assert(pow10(removed + 1) == 10 * pow10(removed)) by {
        assert((removed + 1) as nat >= 1);
    }
    vstd::arithmetic::div_mod::lemma_fundamental_div_mod(vp as int, 10);
    assert((vp / 10) * (10 * pow10(removed)) <= vp * pow10(removed)) by (nonlinear_arith)
        requires
            (vp / 10) * 10 <= vp,
            pow10(removed) >= 0,
    ;
    assert((vp / 10) * pow10(removed + 1) == (vp / 10) * (10 * pow10(removed)))
        by (nonlinear_arith)
        requires
            pow10(removed + 1) == 10 * pow10(removed),
    ;
    assert(10 * pow10(removed) <= vp * pow10(removed)) by (nonlinear_arith)
        requires
            vp >= 10,
            pow10(removed) >= 1,
    ;
    if removed + 1 > 10 {
        crate::digits::lemma_pow10_increases(11, removed + 1);
        assert(false);
    }
    if removed + 1 == 10 && vp / 10 >= 1 {
        assert((vp / 10) * pow10(removed + 1) >= pow10(removed + 1)) by (nonlinear_arith)
            requires
                vp / 10 >= 1,
                pow10(removed + 1) >= 0,
        ;
        assert(false);
    }
}

/// The rare trimming loop as executable code.
fn trim_rare32(vp: u32, vr: u32, vm: u32, vmz: bool, vrz: bool, lrd: u8) -> (t: (
    u32,
    u32,
    u32,
    bool,
    bool,
    u8,
    i32,
))
    ensures
        (t.0, t.1, t.2, t.3, t.4, t.5, t.6 as int) == spec_trim_rare32(
            vp,
            vr,
            vm,
            vmz,
            vrz,
            lrd,
            0,
        ),
        0 <= t.6 <= 10,
{
    let ghost goal = spec_trim_rare32(vp, vr, vm, vmz, vrz, lrd, 0);
    let ghost vp0 = vp as nat;
    let mut vp = vp;
    let mut vr = vr;
    let mut vm = vm;
    let mut vmz = vmz;
    let mut vrz = vrz;
    let mut lrd = lrd;
    let mut removed: i32 = 0;
    proof {
        lemma_pow10_values();
        assert(vp as nat * pow10(0nat) <= vp0) by (nonlinear_arith)
            requires
                pow10(0nat) == 1,
                vp as nat == vp0,
        ;
    }
    while vp / 10 > vm / 10
        invariant
            0 <= removed <= 10,
            vp0 < 0x100000000,
            vp as nat * pow10(removed as nat) <= vp0,
            removed < 10 || vp < 10,
            goal == spec_trim_rare32(vp, vr, vm, vmz, vrz, lrd, removed as int),
        decreases vp,
    {
        proof {
            lemma_pow10_values();
            lemma_removed_step32(vp as nat, removed as nat, vp0);
        }
        let vm_mod10 = vm % 10;
        vmz = vmz && vm_mod10 == 0;
        vrz = vrz && lrd == 0;
        lrd = (vr % 10) as u8;
        vr = vr / 10;
        vp = vp / 10;
        vm = vm / 10;
        removed = removed + 1;
    }
    (vp, vr, vm, vmz, vrz, lrd, removed)
}

/// The extra trimming loop over the lower bound's trailing zeros, as
/// executable code.
fn trim_extra32(vp: u32, vr: u32, vm: u32, vrz: bool, lrd: u8, removed: i32) -> (t: (
    u32,
    u32,
    u32,
    bool,
    u8,
    i32,
))
    requires
        0 <= removed <= 20,
    ensures
        (t.0, t.1, t.2, t.3, t.4, t.5 as int) == spec_trim_extra32(
            vp,
            vr,
            vm,
            vrz,
            lrd,
            removed as int,
        ),
        removed <= t.5 <= removed + 10,
{
    let ghost goal = spec_trim_extra32(vp, vr, vm, vrz, lrd, removed as int);
    let ghost vm0 = vm as nat;
    let ghost removed_in = removed as nat;
    let mut vp = vp;
    let mut vr = vr;
    let mut vm = vm;
    let mut vrz = vrz;
    let mut lrd = lrd;
    let mut removed = removed;
    proof {
        lemma_pow10_values();
        assert(vm as nat * pow10(0nat) <= vm0) by (nonlinear_arith)
            requires
                pow10(0nat) == 1,
                vm as nat == vm0,
        ;
    }
    while vm % 10 == 0 && vm > 0
        invariant
            removed_in <= removed <= removed_in + 10 <= 30,
            vm0 < 0x100000000,
            vm as nat * pow10((removed - removed_in) as nat) <= vm0,
            removed < removed_in + 10 || vm < 10,
            goal == spec_trim_extra32(vp, vr, vm, vrz, lrd, removed as int),
        decreases vm,
    {
        proof {
            lemma_pow10_values();
            lemma_removed_step32(vm as nat, (removed - removed_in) as nat, vm0);
        }
        vrz = vrz && lrd == 0;
        lrd = (vr % 10) as u8;
        vr = vr / 10;
        vp = vp / 10;
        vm = vm / 10;
        removed = removed + 1;
    }
    (vp, vr, vm, vrz, lrd, removed)
}

/// The common trimming loop as executable code.
fn trim_common32(vp: u32, vr: u32, vm: u32, lrd: u8) -> (t: (u32, u32, u8, i32))
    ensures
        (t.0, t.1, t.2, t.3 as int) == spec_trim_common32(vp, vr, vm, lrd, 0),
        0 <= t.3 <= 10,
{
    let ghost goal = spec_trim_common32(vp, vr, vm, lrd, 0);
    let ghost vp0 = vp as nat;
    let mut vp = vp;
    let mut vr = vr;
    let mut vm = vm;
    let mut lrd = lrd;
    let mut removed: i32 = 0;
    proof {
        lemma_pow10_values();
        assert(vp as nat * pow10(0nat) <= vp0) by (nonlinear_arith)
            requires
                pow10(0nat) == 1,
                vp as nat == vp0,
        ;
    }
    while vp / 10 > vm / 10
        invariant
            0 <= removed <= 10,
            vp0 < 0x100000000,
            vp as nat * pow10(removed as nat) <= vp0,
            removed < 10 || vp < 10,
            goal == spec_trim_common32(vp, vr, vm, lrd, removed as int),
        decreases vp,
    {
        proof {
            lemma_pow10_values();
            lemma_removed_step32(vp as nat, removed as nat, vp0);
        }
        lrd = (vr % 10) as u8;
        vr = vr / 10;
        vp = vp / 10;
        vm = vm / 10;
        removed = removed + 1;
    }
    (vr, vm, lrd, removed)
}

/// Compute the shortest decimal form of the finite, nonzero binary32 with
/// the given raw significand and biased-exponent fields.
#[verifier::rlimit(100)]
pub fn f2d(ieee_mantissa: u32, ieee_exponent: u32) -> (v: FloatingDecimal32)
    requires
        ieee_mantissa < 0x800000,
        ieee_exponent < 255,
        !(ieee_mantissa == 0 && ieee_exponent == 0),
    ensures
        (v.mantissa, v.exponent as int) == spec_f2d(ieee_mantissa, ieee_exponent),
        -50 <= v.exponent <= 80,
{
    let e2: i32;
    let m2: u32;
    if ieee_exponent == 0 {
        // We subtract 2 so that the bounds computation has 2 additional bits.
        e2 = 1 - FLOAT_BIAS - FLOAT_MANTISSA_BITS as i32 - 2;
        m2 = ieee_mantissa;
    } else {
        e2 = ieee_exponent as i32 - FLOAT_BIAS - FLOAT_MANTISSA_BITS as i32 - 2;
        m2 = 0x800000u32 + ieee_mantissa;
    }
    let even = m2 % 2 == 0;
    let accept_bounds = even;

    // Step 2: determine the interval of valid decimal representations.
    let mv: u32 = 4 * m2;
    let mp: u32 = 4 * m2 + 2;
    let mm_shift: u32 = if ieee_mantissa != 0 || ieee_exponent <= 1 {
        1
    } else {
        0
    };
    let mm: u32 = 4 * m2 - 1 - mm_shift;

    // Step 3: convert to a decimal power base.
    let mut vr: u32;
    let mut vp: u32;
    let mut vm: u32;
    let e10: i32;
    let mut vm_is_trailing_zeros = false;
    let mut vr_is_trailing_zeros = false;
    let mut last_removed_digit: u8 = 0;
    if e2 >= 0 {
        let q: u32 = log10_pow2(e2);
        e10 = q as i32;
        proof {
            lemma_div_range(e2 as int * 78913, 0x40000);
            lemma_div_range(q as int * 1217359, 0x80000);
            assert(q <= 30);
        }
        let k: i32 = FLOAT_POW5_INV_BITCOUNT + pow5bits(q as i32) - 1;
        let i: i32 = -e2 + q as i32 + k;
        proof {
            assert(52 <= i <= 63);
        }
        vr = mul_pow5_inv_div_pow2(mv, q, i);
        vp = mul_pow5_inv_div_pow2(mp, q, i);
        vm = mul_pow5_inv_div_pow2(mm, q, i);
        if q != 0 && vp > 0 && (vp - 1) / 10 <= vm / 10 {
            // We need to know one removed digit even if we are not going to
            // loop below. We could use q = X - 1 above, except that would
            // require 33 bits for the result, and we've found that 32-bit
            // arithmetic is faster even on 64-bit machines.
            proof {
                lemma_div_range((q - 1) as int * 1217359, 0x80000);
            }
            let l: i32 = FLOAT_POW5_INV_BITCOUNT + pow5bits(q as i32 - 1) - 1;
            last_removed_digit = (mul_pow5_inv_div_pow2(mv, q - 1, -e2 + q as i32 - 1 + l)
                % 10) as u8;
        }
        if q <= 9 {
            // Only one of mp, mv, and mm can be a multiple of 5, if any.
            if mv % 5 == 0 {
                vr_is_trailing_zeros = multiple_of_power_of_5_32(mv, q);
            } else if accept_bounds {
                vm_is_trailing_zeros = multiple_of_power_of_5_32(mm, q);
            } else if multiple_of_power_of_5_32(mp, q) && vp > 0 {
                vp = vp - 1;
            }
        }
        proof {
            assert(spec_f2d_scaled(m2, e2 as int, mv, mp, mm, mm_shift, even) == (
                vr,
                vp,
                vm,
                vm_is_trailing_zeros,
                vr_is_trailing_zeros,
                last_removed_digit,
                e10 as int,
            ));
        }
    } else {
        let q: u32 = log10_pow5(-e2);
        e10 = q as i32 + e2;
        let i: i32 = -e2 - q as i32;
        proof {
            lemma_div_range((-e2) as int * 732923, 0x100000);
            assert(0 <= i <= 46);
            assert(e10 >= -47);
            lemma_div_range(i as int * 1217359, 0x80000);
        }
        let k: i32 = pow5bits(i) - FLOAT_POW5_BITCOUNT;
        let j: i32 = q as i32 - k;
        proof {
            assert(33 <= j <= 61);
        }
        vr = mul_pow5_div_pow2(mv, i as u32, j);
        vp = mul_pow5_div_pow2(mp, i as u32, j);
        vm = mul_pow5_div_pow2(mm, i as u32, j);
        if q != 0 && vp > 0 && (vp - 1) / 10 <= vm / 10 {
            proof {
                lemma_div_range((i + 1) as int * 1217359, 0x80000);
            }
            let j2: i32 = q as i32 - 1 - (pow5bits(i + 1) - FLOAT_POW5_BITCOUNT);
            proof {
                assert(32 < j2 < 96);
            }
            last_removed_digit = (mul_pow5_div_pow2(mv, (i + 1) as u32, j2) % 10) as u8;
        }
        if q <= 1 {
            // {vr,vp,vm} has trailing zeros if {mv,mp,mm} has at least q
            // trailing zero bits.
            vr_is_trailing_zeros = true;
            if accept_bounds {
                // mm = mv - 1 - mm_shift, so it has 1 trailing zero bit iff
                // mm_shift == 1.
                vm_is_trailing_zeros = mm_shift == 1;
            } else if vp > 0 {
                // mp = mv + 2, so it always has at least one trailing zero
                // bit.
                vp = vp - 1;
            }
        } else if q < 31 {
            vr_is_trailing_zeros = multiple_of_power_of_2_32(mv, q - 1);
        }
        proof {
            assert(spec_f2d_scaled(m2, e2 as int, mv, mp, mm, mm_shift, even) == (
                vr,
                vp,
                vm,
                vm_is_trailing_zeros,
                vr_is_trailing_zeros,
                last_removed_digit,
                e10 as int,
            ));
        }
    }

    // Step 4: find the shortest decimal representation in the interval.
    let ghost scaled = (vr, vp, vm, vm_is_trailing_zeros, vr_is_trailing_zeros,
        last_removed_digit, e10 as int);
    proof {
        assert(spec_f2d_scaled(m2, e2 as int, mv, mp, mm, mm_shift, even) == scaled);
    }
    let removed: i32;
    let output: u32;
    if vm_is_trailing_zeros || vr_is_trailing_zeros {
        // General case, which happens rarely.
        let t = trim_rare32(vp, vr, vm, vm_is_trailing_zeros, vr_is_trailing_zeros,
            last_removed_digit);
        let t2 = if t.3 {
            trim_extra32(t.0, t.1, t.2, t.4, t.5, t.6)
        } else {
            (t.0, t.1, t.2, t.4, t.5, t.6)
        };
        // Round even if the exact number is .....50..0.
        let lrd: u8 = if t2.3 && t2.4 == 5 && t2.1 % 2 == 0 {
            4
        } else {
            t2.4
        };
        // Take vr + 1 if vr is outside bounds or we need to round up.
        let bump = (t2.1 == t2.2 && (!accept_bounds || !t.3)) || lrd >= 5;
        output = if bump && t2.1 < 0xffffffffu32 {
            t2.1 + 1
        } else {
            t2.1
        };
        removed = t2.5;
    } else {
        // Specialized for the common case.
        let t = trim_common32(vp, vr, vm, last_removed_digit);
        // Take vr + 1 if vr is outside bounds or we need to round up.
        let bump = t.0 == t.1 || t.2 >= 5;
        output = if bump && t.0 < 0xffffffffu32 {
            t.0 + 1
        } else {
            t.0
        };
        removed = t.3;
    }
    let exp: i32 = e10 + removed;
    proof {
        assert((output, exp as int) == spec_f2d(ieee_mantissa, ieee_exponent));
    }
    FloatingDecimal32 { exponent: exp, mantissa: output }
}

} // verus!
