//! The 64-bit shortest-decimal engine: decompose an IEEE binary64 into a
//! decimal mantissa and exponent by scaling the binary significand interval
//! with precomputed powers of five and trimming digits while the interval
//! still brackets the value.
//!
//! The decomposition is proved equal to its specification mirror
//! [`spec_d2d`], so the decimal a float maps to is a mathematical function
//! of its bits, and every caller's contract can name it exactly. That the
//! function picks the shortest round-tripping decimal rests on the
//! published algorithm's analysis of the power-of-five tables; it is
//! validated against a reference conversion by the test suite.

use crate::digits::{lemma_pow10_increases, lemma_pow10_values, pow10};
use crate::ryu::common::{log10_pow2, log10_pow5, pow5bits};
use crate::ryu::d2s_full_table::{DOUBLE_POW5_INV_SPLIT, DOUBLE_POW5_SPLIT};
use crate::ryu::d2s_intrinsics::{
    div100, mul_shift_all_64, multiple_of_power_of_2, multiple_of_power_of_5,
    spec_mul_shift_all_64, spec_multiple_of_power_of_2, spec_multiple_of_power_of_5,
};
use vstd::prelude::*;

verus! {

pub const DOUBLE_MANTISSA_BITS: u32 = 52;

pub const DOUBLE_EXPONENT_BITS: u32 = 11;

pub const DOUBLE_BIAS: i32 = 1023;

pub const DOUBLE_POW5_INV_BITCOUNT: i32 = 125;

pub const DOUBLE_POW5_BITCOUNT: i32 = 125;

/// Returns the number of decimal digits in `v`, which must not contain more
/// than 17 digits.
pub fn decimal_length17(v: u64) -> (r: u32)
    requires
        v < 100000000000000000,
    ensures
        r == crate::digits::dec_len(v as nat),
        1 <= r <= 17,
{
    proof {
        lemma_pow10_values();
        let k: nat = if v >= 10000000000000000 {
            17
        } else if v >= 1000000000000000 {
            16
        } else if v >= 100000000000000 {
            15
        } else if v >= 10000000000000 {
            14
        } else if v >= 1000000000000 {
            13
        } else if v >= 100000000000 {
            12
        } else if v >= 10000000000 {
            11
        } else if v >= 1000000000 {
            10
        } else if v >= 100000000 {
            9
        } else if v >= 10000000 {
            8
        } else if v >= 1000000 {
            7
        } else if v >= 100000 {
            6
        } else if v >= 10000 {
            5
        } else if v >= 1000 {
            4
        } else if v >= 100 {
            3
        } else if v >= 10 {
            2
        } else {
            1
        };
        crate::digits::lemma_dec_len_le(v as nat, k);
        if v >= 1 {
            crate::digits::lemma_dec_len_ge(v as nat, k);
        }
    }
    if v >= 10000000000000000 {
        17
    } else if v >= 1000000000000000 {
        16
    } else if v >= 100000000000000 {
        15
    } else if v >= 10000000000000 {
        14
    } else if v >= 1000000000000 {
        13
    } else if v >= 100000000000 {
        12
    } else if v >= 10000000000 {
        11
    } else if v >= 1000000000 {
        10
    } else if v >= 100000000 {
        9
    } else if v >= 10000000 {
        8
    } else if v >= 1000000 {
        7
    } else if v >= 100000 {
        6
    } else if v >= 10000 {
        5
    } else if v >= 1000 {
        4
    } else if v >= 100 {
        3
    } else if v >= 10 {
        2
    } else {
        1
    }
}

/// A floating decimal representing `mantissa * 10^exponent`.
pub struct FloatingDecimal64 {
    pub mantissa: u64,
    /// The decimal exponent of a binary64 stays within `[-330, 340]`.
    pub exponent: i32,
}

/// `d * (x / d)` brackets `x` to within `d`.
proof fn lemma_div_range(x: int, d: int)
    requires
        d > 0,
        x >= 0,
    ensures
        d * (x / d) <= x < d * (x / d) + d,
{
    vstd::arithmetic::div_mod::lemma_fundamental_div_mod(x, d);
    vstd::arithmetic::div_mod::lemma_mod_bound(x, d);
}

/// Scale the significand interval into the decimal base and settle the
/// trailing-zero flags: yields `(vr, vp, vm, vm_trailing, vr_trailing,
/// e10)`.
pub open spec fn spec_d2d_scaled(m2: u64, e2: int, mv: u64, mm_shift: u32, even: bool) -> (
    u64,
    u64,
    u64,
    bool,
    bool,
    int,
) {
    if e2 >= 0 {
        let q = if e2 > 3 {
            (e2 * 78913) / 0x40000 - 1
        } else {
            (e2 * 78913) / 0x40000
        };
        let k = DOUBLE_POW5_INV_BITCOUNT + ((q * 1217359) / 0x80000 + 1) - 1;
        let i = -e2 + q + k;
        let mul = DOUBLE_POW5_INV_SPLIT[q];
        let v = spec_mul_shift_all_64(m2, mul, i as u32, mm_shift);
        if q <= 21 {
            if mv % 5 == 0 {
                (v.0, v.1, v.2, false, spec_multiple_of_power_of_5(mv, q as u32), q)
            } else if even {
                (
                    v.0,
                    v.1,
                    v.2,
                    spec_multiple_of_power_of_5((mv - 1 - mm_shift) as u64, q as u32),
                    false,
                    q,
                )
            } else if spec_multiple_of_power_of_5((mv + 2) as u64, q as u32) && v.1 > 0 {
                (v.0, (v.1 - 1) as u64, v.2, false, false, q)
            } else {
                (v.0, v.1, v.2, false, false, q)
            }
        } else {
            (v.0, v.1, v.2, false, false, q)
        }
    } else {
        let n = -e2;
        let q = if n > 1 {
            (n * 732923) / 0x100000 - 1
        } else {
            (n * 732923) / 0x100000
        };
        let e10 = q + e2;
        let i = n - q;
        let k = ((i * 1217359) / 0x80000 + 1) - DOUBLE_POW5_BITCOUNT;
        let j = q - k;
        let mul = DOUBLE_POW5_SPLIT[i];
        let v = spec_mul_shift_all_64(m2, mul, j as u32, mm_shift);
        if q <= 1 {
            if even {
                (v.0, v.1, v.2, mm_shift == 1, true, e10)
            } else if v.1 > 0 {
                (v.0, (v.1 - 1) as u64, v.2, false, true, e10)
            } else {
                (v.0, v.1, v.2, false, true, e10)
            }
        } else if q < 63 {
            (v.0, v.1, v.2, false, spec_multiple_of_power_of_2(mv, q as u32), e10)
        } else {
            (v.0, v.1, v.2, false, false, e10)
        }
    }
}

/// The rare trimming loop, tracking trailing zeros of the lower bound and
/// the midpoint; yields `(vp, vr, vm, vm_trailing, vr_trailing,
/// last_removed_digit, removed)`.
pub open spec fn spec_trim_rare(
    vp: u64,
    vr: u64,
    vm: u64,
    vmz: bool,
    vrz: bool,
    lrd: u8,
    removed: int,
) -> (u64, u64, u64, bool, bool, u8, int)
    decreases vp,
{
    if vp / 10 > vm / 10 {
        spec_trim_rare(
            vp / 10,
            vr / 10,
            vm / 10,
            vmz && vm % 10 == 0,
            vrz && lrd == 0,
            (vr % 10) as u8,
            removed + 1,
        )
    } else {
        (vp, vr, vm, vmz, vrz, lrd, removed)
    }
}

/// The extra trimming loop over the lower bound's trailing zeros; yields
/// `(vp, vr, vm, vr_trailing, last_removed_digit, removed)`.
pub open spec fn spec_trim_extra(vp: u64, vr: u64, vm: u64, vrz: bool, lrd: u8, removed: int) -> (
    u64,
    u64,
    u64,
    bool,
    u8,
    int,
)
    decreases vm,
{
    if vm % 10 == 0 && vm > 0 {
        spec_trim_extra(vp / 10, vr / 10, vm / 10, vrz && lrd == 0, (vr % 10) as u8, removed + 1)
    } else {
        (vp, vr, vm, vrz, lrd, removed)
    }
}

/// The common trimming loop; yields `(vr, vm, round_up, removed)`.
pub open spec fn spec_trim_common(vp: u64, vr: u64, vm: u64, round_up: bool, removed: int) -> (
    u64,
    u64,
    bool,
    int,
)
    decreases vp,
{
    if vp / 10 > vm / 10 {
        spec_trim_common(vp / 10, vr / 10, vm / 10, vr % 10 >= 5, removed + 1)
    } else {
        (vr, vm, round_up, removed)
    }
}

/// The whole decomposition of a finite nonzero binary64's raw fields into
/// its decimal mantissa and exponent: what [`d2d`] returns, as a
/// mathematical function.
pub open spec fn spec_d2d(ieee_mantissa: u64, ieee_exponent: u32) -> (u64, int) {
    let e2: int = if ieee_exponent == 0 {
        1 - DOUBLE_BIAS - DOUBLE_MANTISSA_BITS - 2
    } else {
        ieee_exponent - DOUBLE_BIAS - DOUBLE_MANTISSA_BITS - 2
    };
    let m2: u64 = if ieee_exponent == 0 {
        ieee_mantissa
    } else {
        (0x10000000000000 + ieee_mantissa) as u64
    };
    let even = m2 % 2 == 0;
    let mv = (4 * m2) as u64;
    let mm_shift: u32 = if ieee_mantissa != 0 || ieee_exponent <= 1 {
        1
    } else {
        0
    };
    let s = spec_d2d_scaled(m2, e2, mv, mm_shift, even);
    let e10 = s.5;
    if s.3 || s.4 {
        let t = spec_trim_rare(s.1, s.0, s.2, s.3, s.4, 0u8, 0);
        let t2 = if t.3 {
            spec_trim_extra(t.0, t.1, t.2, t.4, t.5, t.6)
        } else {
            (t.0, t.1, t.2, t.4, t.5, t.6)
        };
        let lrd = if t2.3 && t2.4 == 5 && t2.1 % 2 == 0 {
            4u8
        } else {
            t2.4
        };
        let bump = (t2.1 == t2.2 && (!even || !t.3)) || lrd >= 5;
        let out = if bump && t2.1 < 0xffffffffffffffff {
            (t2.1 + 1) as u64
        } else {
            t2.1
        };
        (out, e10 + t2.5)
    } else {
        let pre = if s.1 / 100 > s.2 / 100 {
            (s.1 / 100, s.0 / 100, s.2 / 100, s.0 % 100 >= 50, 2int)
        } else {
            (s.1, s.0, s.2, false, 0int)
        };
        let t = spec_trim_common(pre.0, pre.1, pre.2, pre.3, pre.4);
        let bump = t.0 == t.1 || t.2;
        let out = if bump && t.0 < 0xffffffffffffffff {
            (t.0 + 1) as u64
        } else {
            t.0
        };
        (out, e10 + t.3)
    }
}


/// The rare trimming loop as executable code.
fn trim_rare(vp: u64, vr: u64, vm: u64, vmz: bool, vrz: bool) -> (t: (
    u64,
    u64,
    u64,
    bool,
    bool,
    u8,
    i32,
))
    ensures
        (t.0, t.1, t.2, t.3, t.4, t.5, t.6 as int) == spec_trim_rare(vp, vr, vm, vmz, vrz, 0u8, 0),
        0 <= t.6 <= 20,
{
    let ghost goal = spec_trim_rare(vp, vr, vm, vmz, vrz, 0u8, 0);
    let ghost vp0 = vp as nat;
    let mut vp = vp;
    let mut vr = vr;
    let mut vm = vm;
    let mut vmz = vmz;
    let mut vrz = vrz;
    let mut lrd: u8 = 0;
    let mut removed: i32 = 0;
    proof {
        lemma_pow10_values();
        assert(vp as nat * pow10(0nat) <= vp0) by (nonlinear_arith)
            requires
                pow10(0nat) == 1,
                vp as nat == vp0,
        ;
    }
    while vp / 10 > vm / 10
        invariant
            0 <= removed <= 20,
            vp0 < 0x10000000000000000,
            vp as nat * pow10(removed as nat) <= vp0,
            removed < 20 || vp < 10,
            goal == spec_trim_rare(vp, vr, vm, vmz, vrz, lrd, removed as int),
        decreases vp,
    {
        proof {
            lemma_pow10_values();
            lemma_removed_step(vp as nat, removed as nat, vp0);
        }
        let vm_mod10 = vm % 10;
        vmz = vmz && vm_mod10 == 0;
        vrz = vrz && lrd == 0;
        lrd = (vr % 10) as u8;
        vr = vr / 10;
        vp = vp / 10;
        vm = vm / 10;
        removed = removed + 1;
    }
    (vp, vr, vm, vmz, vrz, lrd, removed)
}

/// The extra trimming loop over the lower bound's trailing zeros, as
/// executable code.
fn trim_extra(vp: u64, vr: u64, vm: u64, vrz: bool, lrd: u8, removed: i32) -> (t: (
    u64,
    u64,
    u64,
    bool,
    u8,
    i32,
))
    requires
        0 <= removed <= 40,
    ensures
        (t.0, t.1, t.2, t.3, t.4, t.5 as int) == spec_trim_extra(
            vp,
            vr,
            vm,
            vrz,
            lrd,
            removed as int,
        ),
        removed <= t.5 <= removed + 20,
{
    let ghost goal = spec_trim_extra(vp, vr, vm, vrz, lrd, removed as int);
    let ghost vm0 = vm as nat;
    let ghost removed_in = removed as nat;
    let mut vp = vp;
    let mut vr = vr;
    let mut vm = vm;
    let mut vrz = vrz;
    let mut lrd = lrd;
    let mut removed = removed;
    proof {
        lemma_pow10_values();
        assert(vm as nat * pow10(0nat) <= vm0) by (nonlinear_arith)
            requires
                pow10(0nat) == 1,
                vm as nat == vm0,
        ;
    }
    while vm % 10 == 0 && vm > 0
        invariant
            removed_in <= removed <= removed_in + 20 <= 60,
            vm0 < 0x10000000000000000,
            vm as nat * pow10((removed - removed_in) as nat) <= vm0,
            removed < removed_in + 20 || vm < 10,
            goal == spec_trim_extra(vp, vr, vm, vrz, lrd, removed as int),
        decreases vm,
    {
        proof {
            lemma_pow10_values();
            lemma_removed_step(vm as nat, (removed - removed_in) as nat, vm0);
        }
        vrz = vrz && lrd == 0;
        lrd = (vr % 10) as u8;
        vr = vr / 10;
        vp = vp / 10;
        vm = vm / 10;
        removed = removed + 1;
    }
    (vp, vr, vm, vrz, lrd, removed)
}

/// The common trimming loop as executable code.
fn trim_common(vp: u64, vr: u64, vm: u64, round_up: bool, removed: i32) -> (t: (
    u64,
    u64,
    bool,
    i32,
))
    requires
        0 <= removed <= 2,
    ensures
        (t.0, t.1, t.2, t.3 as int) == spec_trim_common(vp, vr, vm, round_up, removed as int),
        removed <= t.3 <= removed + 20,
{
    let ghost goal = spec_trim_common(vp, vr, vm, round_up, removed as int);
    let ghost vp0 = vp as nat;
    let ghost removed_in = removed as nat;
    let mut vp = vp;
    let mut vr = vr;
    let mut vm = vm;
    let mut round_up = round_up;
    let mut removed = removed;
    proof {
        lemma_pow10_values();
        assert(vp as nat * pow10(0nat) <= vp0) by (nonlinear_arith)
            requires
                pow10(0nat) == 1,
                vp as nat == vp0,
        ;
    }
    while vp / 10 > vm / 10
        invariant
            removed_in <= removed <= removed_in + 20 <= 60,
            vp0 < 0x10000000000000000,
            vp as nat * pow10((removed - removed_in) as nat) <= vp0,
            removed < removed_in + 20 || vp < 10,
            goal == spec_trim_common(vp, vr, vm, round_up, removed as int),
        decreases vp,
    {
        proof {
            lemma_pow10_values();
            lemma_removed_step(vp as nat, (removed - removed_in) as nat, vp0);
        }
        round_up = vr % 10 >= 5;
        vr = vr / 10;
        vp = vp / 10;
        vm = vm / 10;
        removed = removed + 1;
    }
    (vr, vm, round_up, removed)
}

/// Compute the shortest decimal form of the finite, nonzero binary64 with
/// the given raw significand and biased-exponent fields.
#[verifier::rlimit(100)]
pub fn d2d(ieee_mantissa: u64, ieee_exponent: u32) -> (v: FloatingDecimal64)
    requires
        ieee_mantissa < 0x10000000000000,
        ieee_exponent < 2047,
        !(ieee_mantissa == 0 && ieee_exponent == 0),
    ensures
        (v.mantissa, v.exponent as int) == spec_d2d(ieee_mantissa, ieee_exponent),
        -330 <= v.exponent <= 340,
{
    let e2: i32;
    let m2: u64;
    if ieee_exponent == 0 {
        // We subtract 2 so that the bounds computation has 2 additional bits.
        e2 = 1 - DOUBLE_BIAS - DOUBLE_MANTISSA_BITS as i32 - 2;
        m2 = ieee_mantissa;
    } else {
        e2 = ieee_exponent as i32 - DOUBLE_BIAS - DOUBLE_MANTISSA_BITS as i32 - 2;
        m2 = 0x10000000000000u64 + ieee_mantissa;
    }
    let even = m2 % 2 == 0;
    let accept_bounds = even;

    // Step 2: determine the interval of valid decimal representations.
    let mv: u64 = 4 * m2;
    let mm_shift: u32 = if ieee_mantissa != 0 || ieee_exponent <= 1 {
        1
    } else {
        0
    };

    // Step 3: convert to a decimal power base.
    let mut vr: u64;
    let mut vp: u64;
    let mut vm: u64;
    let e10: i32;
    let mut vm_is_trailing_zeros = false;
    let mut vr_is_trailing_zeros = false;
    if e2 >= 0 {
        let q: u32 = log10_pow2(e2) - (if e2 > 3 {
            1
        } else {
            0
        });
        e10 = q as i32;
        proof {
            lemma_div_range(e2 as int * 78913, 0x40000);
            lemma_div_range(q as int * 1217359, 0x80000);
            assert(q <= 291);
        }
        let k: i32 = DOUBLE_POW5_INV_BITCOUNT + pow5bits(q as i32) - 1;
        let i: i32 = -e2 + q as i32 + k;
        proof {
            assert(116 <= i <= 127);
        }
        let mul: (u64, u64) = DOUBLE_POW5_INV_SPLIT[q as usize];
        let r = mul_shift_all_64(m2, mul, i as u32, mm_shift);
        vr = r.0;
        vp = r.1;
        vm = r.2;
        if q <= 21 {
            // Only one of mp, mv, and mm can be a multiple of 5, if any.
            if mv % 5 == 0 {
                vr_is_trailing_zeros = multiple_of_power_of_5(mv, q);
            } else if accept_bounds {
                vm_is_trailing_zeros = multiple_of_power_of_5(mv - 1 - mm_shift as u64, q);
            } else if multiple_of_power_of_5(mv + 2, q) && vp > 0 {
                vp = vp - 1;
            }
        }
        proof {
            assert(spec_d2d_scaled(m2, e2 as int, mv, mm_shift, even) == (
                vr,
                vp,
                vm,
                vm_is_trailing_zeros,
                vr_is_trailing_zeros,
                e10 as int,
            ));
        }
    } else {
        let q: u32 = log10_pow5(-e2) - (if -e2 > 1 {
            1
        } else {
            0
        });
        e10 = q as i32 + e2;
        let i: i32 = -e2 - q as i32;
        proof {
            lemma_div_range((-e2) as int * 732923, 0x100000);
            assert(0 <= i <= 325);
            assert(e10 >= -326);
        }
        let k: i32 = pow5bits(i) - DOUBLE_POW5_BITCOUNT;
        let j: i32 = q as i32 - k;
        proof {
            lemma_div_range(i as int * 1217359, 0x80000);
            assert(64 <= j <= 125);
        }
        let mul: (u64, u64) = DOUBLE_POW5_SPLIT[i as usize];
        let r = mul_shift_all_64(m2, mul, j as u32, mm_shift);
        vr = r.0;
        vp = r.1;
        vm = r.2;
        if q <= 1 {
            // {vr,vp,vm} has trailing zeros if {mv,mp,mm} has at least q
            // trailing zero bits.
            vr_is_trailing_zeros = true;
            if accept_bounds {
                // mm = mv - 1 - mm_shift, so it has 1 trailing zero bit iff
                // mm_shift == 1.
                vm_is_trailing_zeros = mm_shift == 1;
            } else if vp > 0 {
                // mp = mv + 2, so it always has at least one trailing zero
                // bit.
                vp = vp - 1;
            }
        } else if q < 63 {
            vr_is_trailing_zeros = multiple_of_power_of_2(mv, q);
        }
        proof {
            assert(spec_d2d_scaled(m2, e2 as int, mv, mm_shift, even) == (
                vr,
                vp,
                vm,
                vm_is_trailing_zeros,
                vr_is_trailing_zeros,
                e10 as int,
            ));
        }
    }

    // Step 4: find the shortest decimal representation in the interval.
    let ghost scaled = (vr, vp, vm, vm_is_trailing_zeros, vr_is_trailing_zeros, e10 as int);
    proof {
        assert(spec_d2d_scaled(m2, e2 as int, mv, mm_shift, even) == scaled);
    }
    let removed: i32;
    let output: u64;
    if vm_is_trailing_zeros || vr_is_trailing_zeros {
        // General case, which happens rarely.
        let t = trim_rare(vp, vr, vm, vm_is_trailing_zeros, vr_is_trailing_zeros);
        let t2 = if t.3 {
            trim_extra(t.0, t.1, t.2, t.4, t.5, t.6)
        } else {
            (t.0, t.1, t.2, t.4, t.5, t.6)
        };
        // Round even if the exact number is .....50..0.
        let lrd: u8 = if t2.3 && t2.4 == 5 && t2.1 % 2 == 0 {
            4
        } else {
            t2.4
        };
        // Take vr + 1 if vr is outside bounds or we need to round up.
        let bump = (t2.1 == t2.2 && (!accept_bounds || !t.3)) || lrd >= 5;
        output = if bump && t2.1 < 0xffffffffffffffffu64 {
            t2.1 + 1
        } else {
            t2.1
        };
        removed = t2.5;
    } else {
        // Specialized for the common case: remove two digits at a time
        // before the by-one loop.
        let vp_div100 = div100(vp);
        let vm_div100 = div100(vm);
        let pre = if vp_div100 > vm_div100 {
            (vp_div100, div100(vr), vm_div100, vr % 100 >= 50, 2i32)
        } else {
            (vp, vr, vm, false, 0i32)
        };
        let t = trim_common(pre.0, pre.1, pre.2, pre.3, pre.4);
        // Take vr + 1 if vr is outside bounds or we need to round up.
        let bump = t.0 == t.1 || t.2;
        output = if bump && t.0 < 0xffffffffffffffffu64 {
            t.0 + 1
        } else {
            t.0
        };
        removed = t.3;
    }
    let exp: i32 = e10 + removed;
    proof {
        assert((output, exp as int) == spec_d2d(ieee_mantissa, ieee_exponent));
    }
    FloatingDecimal64 { exponent: exp, mantissa: output }
}

/// One trimming step keeps the product of the remaining bound and the
/// removed power of ten below its starting value, which caps the number of
/// steps.
proof fn lemma_removed_step(vp: nat, removed: nat, vp0: nat)
    requires
        vp * pow10(removed) <= vp0,
        vp0 < 0x10000000000000000,
        vp >= 10,
    ensures
        (vp / 10) * pow10(removed + 1) <= vp0,
        removed + 1 <= 20,
        removed + 1 == 20 ==> vp / 10 == 0,
        vp / 10 >= 1 || vp < 10,
{
    lemma_pow10_values();
    crate::digits::lemma_pow10_pos(removed);
    assert(pow10(removed + 1) == 10 * pow10(removed)) by {
        assert((removed + 1) as nat >= 1);
    }
    vstd::arithmetic::div_mod::lemma_fundamental_div_mod(vp as int, 10);
    assert((vp / 10) * (10 * pow10(removed)) <= vp * pow10(removed)) by (nonlinear_arith)
        requires
            (vp / 10) * 10 <= vp,
            pow10(removed) >= 0,
    ;
    assert((vp / 10) * pow10(removed + 1) == (vp / 10) * (10 * pow10(removed)))
        by (nonlinear_arith)
        requires
            pow10(removed + 1) == 10 * pow10(removed),
    ;
    // Bound the step count: 10^(removed+1) <= vp * 10^removed <= vp0 < 10^20.
    assert(10 * pow10(removed) <= vp * pow10(removed)) by (nonlinear_arith)
        requires
            vp >= 10,
            pow10(removed) >= 1,
    ;
    if removed + 1 > 20 {
        lemma_pow10_increases(21, removed + 1);
        assert(pow10(21nat) == 10 * pow10(20nat)) by {
            reveal_with_fuel(pow10, 22);
        }
        assert(false);
    }
    if removed + 1 == 20 && vp / 10 >= 1 {
        assert((vp / 10) * pow10(removed + 1) >= pow10(removed + 1)) by (nonlinear_arith)
            requires
                vp / 10 >= 1,
                pow10(removed + 1) >= 0,
        ;
        assert(false);
    }
}

} // verus!
