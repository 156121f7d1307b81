//! 128-bit conversion. Native wide division is avoided on the hot path by
//! splitting the value with two divisions by `10^19`, the largest power of
//! ten below `2^64`; each later chunk is zero-padded to exactly 19 digits.

use crate::buffer::Buffer;
use crate::constants::MAX_BUF_LEN;
use crate::digits::{
    dec_digits, dec_digits_pad, dec_len, lemma_dec_digits_all_digits, lemma_dec_digits_split,
    lemma_dec_len_bounds, lemma_pow10_values, pow10,
};
use crate::itoa::integer64::write_u64;
use vstd::prelude::*;

verus! {

/// Quotient and remainder of division by `10^19`, the fixed divisor of the
/// 128-bit path; the remainder fits a machine word.
fn udivmod_1e19(n: u128) -> (r: (u128, u64))
    ensures
        r.0 == n as nat / pow10(19),
        r.1 == n as nat % pow10(19),
        r.1 < pow10(19),
{
    proof {
        lemma_pow10_values();
        vstd::arithmetic::div_mod::lemma_mod_bound(n as int, 10000000000000000000);
    }
    (n / 10000000000000000000u128, (n % 10000000000000000000u128) as u64)
}

/// Write the decimal digits of `n` ending at `pos`; returns the index of the
/// first digit. The cursor `buf.pos` itself is not moved.
#[verifier::rlimit(100)]
pub fn write_u128(n: u128, buf: &mut Buffer, pos: usize) -> (r: usize)
    requires
        old(buf).wf(),
        pos <= MAX_BUF_LEN,
        dec_len(n as nat) <= pos,
    ensures
        final(buf).wf(),
        r + dec_len(n as nat) == pos,
        final(buf).inner@.subrange(r as int, pos as int) =~= dec_digits(n as nat),
        forall|j: int|
            0 <= j < MAX_BUF_LEN && !(r <= j < pos) ==> final(buf).inner@[j] == old(buf).inner@[j],
        final(buf).pos == old(buf).pos,
        final(buf).end == old(buf).end,
        final(buf).table@ == old(buf).table@,
{
    proof {
        lemma_pow10_values();
        lemma_dec_len_bounds(n as nat);
    }
    let (n1, rem) = udivmod_1e19(n);
    if n1 == 0 {
        proof {
            assert(n as nat == rem as nat) by {
                vstd::arithmetic::div_mod::lemma_fundamental_div_mod(n as int, pow10(19) as int);
            }
        }
        write_u64(rem, buf, pos)
    } else {
        proof {
            assert(n as nat >= pow10(19)) by {
                vstd::arithmetic::div_mod::lemma_fundamental_div_mod(n as int, pow10(19) as int);
                assert(pow10(19) * (n as nat / pow10(19)) >= pow10(19)) by (nonlinear_arith)
                    requires
                        n as nat / pow10(19) >= 1,
                        pow10(19) >= 1,
                ;
            }
            lemma_dec_digits_split(n as nat, 19);
            lemma_dec_digits_all_digits(n1 as nat);
            lemma_dec_len_bounds(rem as nat);
        }
        // The low 19 digits: the remainder's digits, zero-padded to width 19.
        let curr = write_u64(rem, buf, pos);
        let target = pos - 19;
        buf.fill_zeros(target, curr);
        proof {
            assert(buf.inner@.subrange(target as int, pos as int) =~= dec_digits_pad(
                rem as nat,
                19,
            ));
        }
        let ghost after_low = buf.inner@;
        let (n2, rem2) = udivmod_1e19(n1);
        if n2 == 0 {
            proof {
                assert(n1 as nat == rem2 as nat) by {
                    vstd::arithmetic::div_mod::lemma_fundamental_div_mod(
                        n1 as int,
                        pow10(19) as int,
                    );
                }
            }
            let r = write_u64(rem2, buf, target);
            proof {
                assert(buf.inner@.subrange(target as int, pos as int) =~= after_low.subrange(
                    target as int,
                    pos as int,
                ));
                assert(buf.inner@.subrange(r as int, pos as int) =~= dec_digits(n1 as nat)
                    + dec_digits_pad(rem as nat, 19));
            }
            r
        } else {
            proof {
                assert(n1 as nat >= pow10(19)) by {
                    vstd::arithmetic::div_mod::lemma_fundamental_div_mod(
                        n1 as int,
                        pow10(19) as int,
                    );
                    assert(pow10(19) * (n1 as nat / pow10(19)) >= pow10(19)) by (nonlinear_arith)
                        requires
                            n1 as nat / pow10(19) >= 1,
                            pow10(19) >= 1,
                    ;
                }
                lemma_dec_digits_split(n1 as nat, 19);
                lemma_dec_len_bounds(rem2 as nat);
                // n2 = n / 10^38 is at most 3.
                crate::digits::lemma_pow10_adds(19, 19);
                vstd::arithmetic::div_mod::lemma_div_denominator(
                    n as int,
                    pow10(19) as int,
                    pow10(19) as int,
                );
                assert(n1 as nat / pow10(19) == n as nat / pow10(38));
                assert((n as nat) < 10 * pow10(38));
                vstd::arithmetic::div_mod::lemma_multiply_divide_lt(
                    n as int,
                    10,
                    pow10(38) as int,
                );
                assert(n2 < 10);
            }
            let curr2 = write_u64(rem2, buf, target);
            let target2 = pos - 38;
            buf.fill_zeros(target2, curr2);
            proof {
                assert(buf.inner@.subrange(target2 as int, target as int) =~= dec_digits_pad(
                    rem2 as nat,
                    19,
                ));
                assert(buf.inner@.subrange(target as int, pos as int) =~= after_low.subrange(
                    target as int,
                    pos as int,
                ));
            }
            let ghost after_mid = buf.inner@;
            // At most one digit remains: u128::MAX / 10^19 / 10^19 is 3.
            let r = target2 - 1;
            buf.set_byte(r, 48 + n2 as u8);
            proof {
                assert(dec_digits(n2 as nat) =~= seq![(48 + n2 as nat) as u8]);
                assert(buf.inner@.subrange(target2 as int, pos as int) =~= after_mid.subrange(
                    target2 as int,
                    pos as int,
                ));
                assert(buf.inner@.subrange(r as int, pos as int) =~= dec_digits(n2 as nat)
                    + dec_digits_pad(rem2 as nat, 19) + dec_digits_pad(rem as nat, 19));
                assert(dec_digits(n as nat) =~= dec_digits(n2 as nat) + dec_digits_pad(
                    rem2 as nat,
                    19,
                ) + dec_digits_pad(rem as nat, 19));
            }
            r
        }
    }
}

/// Write `-` (when `neg`) followed by the digits of `mag`, ending at `pos`;
/// returns the index of the first written byte.
pub(crate) fn write_magnitude_u128(neg: bool, mag: u128, buf: &mut Buffer, pos: usize) -> (r:
    usize)
    requires
        old(buf).wf(),
        pos <= MAX_BUF_LEN,
        dec_len(mag as nat) + (if neg {
            1int
        } else {
            0int
        }) <= pos,
    ensures
        final(buf).wf(),
        r + dec_len(mag as nat) + (if neg {
            1int
        } else {
            0int
        }) == pos,
        final(buf).inner@.subrange(r as int, pos as int) =~= (if neg {
            seq![45u8]
        } else {
            Seq::<u8>::empty()
        }) + dec_digits(mag as nat),
        forall|j: int|
            0 <= j < MAX_BUF_LEN && !(r <= j < pos) ==> final(buf).inner@[j] == old(buf).inner@[j],
        final(buf).pos == old(buf).pos,
        final(buf).end == old(buf).end,
        final(buf).table@ == old(buf).table@,
{
    let r1 = write_u128(mag, buf, pos);
    if neg {
        let r = r1 - 1;
        buf.set_byte(r, 45);
        proof {
            assert(buf.inner@.subrange(r as int, pos as int) =~= seq![45u8] + dec_digits(
                mag as nat,
            ));
        }
        r
    } else {
        r1
    }
}

impl crate::private::Sealed for u128 {

}

impl crate::private::Sealed for i128 {

}

impl crate::itoa::Integer for u128 {
    open spec fn value(self) -> int {
        self as int
    }

    fn write(self, buf: &mut Buffer) -> (len: usize) {
        let p = buf.pos;
        let r = write_u128(self, buf, p);
        buf.pos = r;
        p - r
    }
}

impl crate::itoa::Integer for i128 {
    open spec fn value(self) -> int {
        self as int
    }

    fn write(self, buf: &mut Buffer) -> (len: usize) {
        let neg = self < 0;
        let mag: u128 = if self >= 0 {
            self as u128
        } else if self == i128::MIN {
            170141183460469231731687303715884105728u128
        } else {
            (-self) as u128
        };
        let p = buf.pos;
        let r = write_magnitude_u128(neg, mag, buf, p);
        buf.pos = r;
        p - r
    }
}

} // verus!
