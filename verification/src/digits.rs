//! The mathematical model of decimal digit strings: the digit sequence of a
//! natural number, zero-padded fixed-width digit sequences, and the value a
//! digit sequence denotes.

use vstd::prelude::*;

verus! {

/// `10^k`.
pub open spec fn pow10(k: nat) -> nat
    decreases k,
{
    if k == 0 {
        1nat
    } else {
        10 * pow10((k - 1) as nat)
    }
}

/// The ASCII bytes of `n` written in decimal, most significant digit first,
/// with no leading zeros (a single `b'0'` for zero).
pub open spec fn dec_digits(n: nat) -> Seq<u8>
    decreases n,
{
    if n < 10 {
        seq![(48 + n) as u8]
    } else {
        dec_digits(n / 10) + seq![(48 + n % 10) as u8]
    }
}

/// The number of decimal digits of `n`.
pub open spec fn dec_len(n: nat) -> nat {
    dec_digits(n).len()
}

/// `k` ASCII zero bytes.
pub open spec fn zeros(k: nat) -> Seq<u8> {
    Seq::new(k, |i: int| 48u8)
}

/// The ASCII bytes of `n` in decimal, zero-padded on the left to exactly `w`
/// digits. Meaningful when `dec_len(n) <= w`.
pub open spec fn dec_digits_pad(n: nat, w: nat) -> Seq<u8> {
    zeros((w - dec_len(n)) as nat) + dec_digits(n)
}

/// The value denoted by a big-endian decimal digit byte string.
pub open spec fn dec_value(s: Seq<u8>) -> nat
    decreases s.len(),
{
    if s.len() == 0 {
        0nat
    } else {
        (dec_value(s.drop_last()) * 10 + (s.last() - 48)) as nat
    }
}

/// Every byte of `s` is an ASCII decimal digit.
pub open spec fn all_digits(s: Seq<u8>) -> bool {
    forall|i: int| 0 <= i < s.len() ==> 48 <= #[trigger] s[i] <= 57
}

pub proof fn lemma_pow10_pos(k: nat)
    ensures
        pow10(k) >= 1,
    decreases k,
{
    if k > 0 {
        lemma_pow10_pos((k - 1) as nat);
    }
}

pub proof fn lemma_pow10_adds(a: nat, b: nat)
    ensures
        pow10(a + b) == pow10(a) * pow10(b),
    decreases a,
{
    if a == 0 {
        assert(pow10(b) == 1 * pow10(b));
    } else {
        lemma_pow10_adds((a - 1) as nat, b);
        assert(pow10(a + b) == 10 * pow10((a - 1) as nat + b)) by {
            assert(a + b >= 1);
            assert((a + b - 1) as nat == (a - 1) as nat + b);
        }
        assert(10 * (pow10((a - 1) as nat) * pow10(b)) == (10 * pow10((a - 1) as nat)) * pow10(b))
            by (nonlinear_arith);
    }
}

pub proof fn lemma_pow10_increases(a: nat, b: nat)
    requires
        a <= b,
    ensures
        pow10(a) <= pow10(b),
    decreases b,
{
    if a < b {
        lemma_pow10_increases(a, (b - 1) as nat);
        lemma_pow10_pos((b - 1) as nat);
    }
}

/// A number below `10^k` has at most `k` digits.
pub proof fn lemma_dec_len_le(n: nat, k: nat)
    requires
        k >= 1,
        n < pow10(k),
    ensures
        dec_len(n) <= k,
    decreases k,
{
    if n < 10 {
    } else {
        assert(pow10(k) == 10 * pow10((k - 1) as nat));
        assert(n / 10 < pow10((k - 1) as nat));
        assert(k >= 2) by {
            if k == 1 {
                assert(pow10(1nat) == 10 * pow10(0nat));
            }
        }
        lemma_dec_len_le(n / 10, (k - 1) as nat);
    }
}

/// A number of at least `10^(k-1)` has at least `k` digits.
pub proof fn lemma_dec_len_ge(n: nat, k: nat)
    requires
        k >= 1,
        n >= pow10((k - 1) as nat),
    ensures
        dec_len(n) >= k,
    decreases k,
{
    if k >= 2 {
        assert(pow10((k - 1) as nat) == 10 * pow10((k - 2) as nat));
        lemma_pow10_pos((k - 2) as nat);
        assert(n >= 10);
        assert(n / 10 >= pow10((k - 2) as nat));
        lemma_dec_len_ge(n / 10, (k - 1) as nat);
    }
}

pub proof fn lemma_dec_digits_all_digits(n: nat)
    ensures
        all_digits(dec_digits(n)),
        dec_len(n) >= 1,
    decreases n,
{
    if n >= 10 {
        lemma_dec_digits_all_digits(n / 10);
    }
}

/// Splitting a number at `10^k`: the digits of `n` are the digits of the
/// quotient followed by the remainder zero-padded to `k` digits.
pub proof fn lemma_dec_digits_split(n: nat, k: nat)
    requires
        k >= 1,
        n >= pow10(k),
    ensures
        dec_digits(n) =~= dec_digits(n / pow10(k)) + dec_digits_pad(n % pow10(k), k),
        dec_len(n) == dec_len(n / pow10(k)) + k,
        dec_len(n % pow10(k)) <= k,
    decreases k,
{
    lemma_pow10_pos(k);
    if k == 1 {
        assert(pow10(1nat) == 10 * pow10(0nat));
        assert(n >= 10);
        assert(dec_digits(n) == dec_digits(n / 10) + seq![(48 + n % 10) as u8]);
        assert(n % 10 < 10) by {
            vstd::arithmetic::div_mod::lemma_mod_bound(n as int, 10);
        }
        assert(dec_digits_pad(n % 10, 1) =~= seq![(48 + n % 10) as u8]);
        assert(dec_digits(n) =~= dec_digits(n / pow10(1)) + dec_digits_pad(n % pow10(1), 1));
        lemma_dec_digits_all_digits(n / 10);
    } else {
        let km1 = (k - 1) as nat;
        let p = pow10(km1);
        assert(pow10(k) == 10 * p);
        lemma_pow10_pos(km1);
        assert(n >= 10);
        // digits of n = digits of n/10 ++ [last digit]
        assert(dec_digits(n) == dec_digits(n / 10) + seq![(48 + n % 10) as u8]);
        assert(n / 10 >= p) by {
            vstd::arithmetic::div_mod::lemma_div_multiples_vanish_quotient(10, n as int, p as int);
            assert(n / 10 >= (10 * p) / 10);
            vstd::arithmetic::div_mod::lemma_div_by_multiple(p as int, 10);
        }
        lemma_dec_digits_split(n / 10, km1);
        // (n / 10) / p == n / (10 p)
        assert((n / 10) / p == n / (10 * p)) by {
            vstd::arithmetic::div_mod::lemma_div_denominator(n as int, 10, p as int);
        }
        // (n / 10) % p and n % (10 p) relation: n % (10p) == (n/10 % p) * 10 + n % 10
        let r = n % (10 * p);
        let rq = (n / 10) % p;
        assert(r == rq * 10 + n % 10) by {
            vstd::arithmetic::div_mod::lemma_breakdown(n as int, 10, p as int);
        }
        assert(n % 10 < 10) by {
            vstd::arithmetic::div_mod::lemma_mod_bound(n as int, 10);
        }
        // digits of r: if rq == 0 then r < 10, pad gives zeros(k-1) + [digit]
        if rq == 0 {
            assert(r == n % 10);
            assert(dec_len(r) == 1);
            assert(dec_digits_pad(r, k) =~= zeros((k - 1) as nat) + seq![(48 + r) as u8]);
            assert(dec_digits_pad(rq, km1) =~= zeros((km1 - 1) as nat) + seq![48u8]) by {
                assert(dec_len(0nat) == 1);
            }
            assert(zeros((km1 - 1) as nat).push(48u8) =~= zeros(km1));
            assert(dec_digits_pad(rq, km1) + seq![(48 + n % 10) as u8] =~= dec_digits_pad(r, k));
        } else {
            assert(r >= 10) by {
                assert(rq * 10 >= 10) by (nonlinear_arith)
                    requires
                        rq >= 1,
                ;
            }
            assert(r / 10 == rq && r % 10 == n % 10) by {
                vstd::arithmetic::div_mod::lemma_fundamental_div_mod_converse(
                    r as int,
                    10,
                    rq as int,
                    (n % 10) as int,
                );
            }
            assert(dec_digits(r) == dec_digits(rq) + seq![(48 + n % 10) as u8]);
            assert(rq < p) by {
                vstd::arithmetic::div_mod::lemma_mod_bound((n / 10) as int, p as int);
            }
            lemma_dec_len_le(rq, km1);
            assert(dec_digits_pad(r, k) =~= dec_digits_pad(rq, km1) + seq![(48 + n % 10) as u8]);
        }
        assert(dec_digits(n) =~= dec_digits(n / pow10(k)) + dec_digits_pad(n % pow10(k), k));
        assert(dec_len(n % pow10(k)) <= k) by {
            vstd::arithmetic::div_mod::lemma_mod_bound(n as int, (10 * p) as int);
            lemma_dec_len_le(n % pow10(k), k);
        }
    }
}

/// The byte at offset `i` of the `w`-wide zero-padded digit string of `n` is
/// the digit of weight `10^(w-1-i)`.
pub proof fn lemma_dec_digits_pad_index(n: nat, w: nat)
    requires
        n < pow10(w),
        w >= 1,
    ensures
        dec_digits_pad(n, w).len() == w,
        forall|i: int|
            0 <= i < w ==> dec_digits_pad(n, w)[i] == (48 + (n / pow10((w - 1 - i) as nat)) % 10)
                as u8,
    decreases w,
{
    assert(pow10(0nat) == 1 && pow10(1nat) == 10);
    lemma_dec_len_le(n, w);
    lemma_dec_digits_all_digits(n);
    if w == 1 {
        assert(dec_digits_pad(n, 1) =~= seq![(48 + n) as u8]);
        assert(n / pow10(0nat) == n) by {
            vstd::arithmetic::div_mod::lemma_div_basics(n as int);
        }
        vstd::arithmetic::div_mod::lemma_small_mod(n, 10);
    } else {
        let wm1 = (w - 1) as nat;
        lemma_pow10_pos(wm1);
        if n < 10 {
            // pad = zeros(w-1) + [digit n]
            assert(dec_digits_pad(n, w) =~= zeros(wm1) + seq![(48 + n) as u8]);
            assert forall|i: int| 0 <= i < w implies dec_digits_pad(n, w)[i] == (48 + (n / pow10(
                (w - 1 - i) as nat,
            )) % 10) as u8 by {
                let e = (w - 1 - i) as nat;
                if i < w - 1 {
                    assert(e >= 1);
                    assert(pow10(e) >= 10) by {
                        lemma_pow10_increases(1, e);
                    }
                    assert(n / pow10(e) == 0) by {
                        vstd::arithmetic::div_mod::lemma_basic_div(n as int, pow10(e) as int);
                    }
                    vstd::arithmetic::div_mod::lemma_small_mod(0, 10);
                    assert(dec_digits_pad(n, w)[i] == 48u8);
                } else {
                    assert(n / pow10(0nat) == n) by {
                        vstd::arithmetic::div_mod::lemma_div_basics(n as int);
                    }
                    vstd::arithmetic::div_mod::lemma_small_mod(n, 10);
                }
            }
        } else {
            // peel the last digit
            assert(dec_digits(n) == dec_digits(n / 10) + seq![(48 + n % 10) as u8]);
            assert(n / 10 < pow10(wm1)) by {
                assert(pow10(w) == 10 * pow10(wm1));
                vstd::arithmetic::div_mod::lemma_div_multiples_vanish_quotient(
                    10,
                    pow10(wm1) as int,
                    1,
                );
                assert(n / 10 < pow10(wm1) || n >= 10 * pow10(wm1)) by (nonlinear_arith)
                    requires
                        n >= 10,
                        pow10(wm1) >= 1,
                ;
            }
            lemma_dec_digits_pad_index(n / 10, wm1);
            assert(dec_digits_pad(n, w) =~= dec_digits_pad(n / 10, wm1) + seq![(48 + n % 10)
                as u8]) by {
                lemma_dec_len_le(n / 10, wm1);
            }
            assert forall|i: int| 0 <= i < w implies dec_digits_pad(n, w)[i] == (48 + (n / pow10(
                (w - 1 - i) as nat,
            )) % 10) as u8 by {
                let e = (w - 1 - i) as nat;
                if i < w - 1 {
                    assert(dec_digits_pad(n, w)[i] == dec_digits_pad(n / 10, wm1)[i]);
                    assert(dec_digits_pad(n / 10, wm1)[i] == (48 + ((n / 10) / pow10(
                        (wm1 - 1 - i) as nat,
                    )) % 10) as u8);
                    assert((n / 10) / pow10((e - 1) as nat) == n / pow10(e)) by {
                        lemma_pow10_pos((e - 1) as nat);
                        vstd::arithmetic::div_mod::lemma_div_denominator(
                            n as int,
                            10,
                            pow10((e - 1) as nat) as int,
                        );
                        assert(10 * pow10((e - 1) as nat) == pow10(e));
                    }
                } else {
                    assert(e == 0);
                    assert(n / pow10(0nat) == n) by {
                        vstd::arithmetic::div_mod::lemma_div_basics(n as int);
                    }
                }
            }
        }
    }
}

/// Reading back the digit string of `n` yields `n`: decimal formatting is
/// injective and loses nothing.
pub proof fn lemma_dec_value_round_trip(n: nat)
    ensures
        dec_value(dec_digits(n)) == n,
    decreases n,
{
    if n < 10 {
        let s = dec_digits(n);
        assert(s.drop_last() =~= Seq::<u8>::empty());
        assert(dec_value(s.drop_last()) == 0);
        assert(s.last() == (48 + n) as u8);
    } else {
        lemma_dec_value_round_trip(n / 10);
        let s = dec_digits(n);
        assert(s.drop_last() =~= dec_digits(n / 10));
        assert(s.last() == (48 + n % 10) as u8);
        vstd::arithmetic::div_mod::lemma_fundamental_div_mod(n as int, 10);
    }
}

/// Two-digit numbers spelled out.
pub proof fn lemma_dec_digits_two(n: nat)
    requires
        10 <= n < 100,
    ensures
        dec_digits(n) =~= seq![(48 + n / 10) as u8, (48 + n % 10) as u8],
{
    assert(n / 10 < 10);
    assert(dec_digits(n) == dec_digits(n / 10) + seq![(48 + n % 10) as u8]);
    assert(dec_digits(n / 10) =~= seq![(48 + n / 10) as u8]);
}



/// A number of at least `e + 1` digits reaches `10^e`.
pub proof fn lemma_dec_len_lower(n: nat, e: nat)
    requires
        e >= 1,
        dec_len(n) >= e + 1,
    ensures
        n >= pow10(e),
{
    lemma_pow10_pos(e);
    if n < pow10(e) {
        lemma_dec_len_le(n, e);
        assert(false);
    }
}

/// Two-digit groups spelled out, zero-padded to width 2.
pub proof fn lemma_pad2(p: nat)
    requires
        p < 100,
    ensures
        dec_digits_pad(p, 2) =~= seq![(48 + p / 10) as u8, (48 + p % 10) as u8],
{
    lemma_pow10_values();
    lemma_dec_digits_pad_index(p, 2);
    assert((p / pow10(1)) % 10 == p / 10) by {
        vstd::arithmetic::div_mod::lemma_small_mod((p / 10) as nat, 10);
    }
    assert(p / pow10(0) == p) by {
        vstd::arithmetic::div_mod::lemma_div_basics(p as int);
    }
}

/// Concrete powers of ten used for width bounds.
pub proof fn lemma_pow10_values()
    ensures
        pow10(0) == 1,
        pow10(1) == 10,
        pow10(2) == 100,
        pow10(3) == 1000,
        pow10(4) == 10000,
        pow10(5) == 100000,
        pow10(6) == 1000000,
        pow10(7) == 10000000,
        pow10(8) == 100000000,
        pow10(9) == 1000000000,
        pow10(10) == 10000000000,
        pow10(11) == 100000000000,
        pow10(12) == 1000000000000,
        pow10(13) == 10000000000000,
        pow10(14) == 100000000000000,
        pow10(15) == 1000000000000000,
        pow10(16) == 0x2386f26fc10000,
        pow10(17) == 0x16345785d8a0000,
        pow10(18) == 1000000000000000000,
        pow10(19) == 10000000000000000000,
        pow10(20) == 100000000000000000000,
        pow10(38) == 100000000000000000000000000000000000000,
        pow10(39) == 1000000000000000000000000000000000000000,
    decreases 40int,
{
    reveal_with_fuel(pow10, 40);
}

/// Digit-count bounds for every supported unsigned width.
pub proof fn lemma_dec_len_bounds(n: nat)
    ensures
        n < 0x100 ==> dec_len(n) <= 3,
        n < 0x10000 ==> dec_len(n) <= 5,
        n < 0x100000000 ==> dec_len(n) <= 10,
        n < 0x10000000000000000 ==> dec_len(n) <= 20,
        dec_len(n % 10000000000000000000) <= 19,
        n < 0x100000000000000000000000000000000 ==> dec_len(n) <= 39,
        n <= 0x80000000000000000000000000000000 ==> dec_len(n) <= 39,
        dec_len(n) >= 1,
{
    lemma_pow10_values();
    lemma_dec_digits_all_digits(n);
    if n < 0x100 {
        lemma_dec_len_le(n, 3);
    }
    if n < 0x10000 {
        lemma_dec_len_le(n, 5);
    }
    if n < 0x100000000 {
        lemma_dec_len_le(n, 10);
    }
    if n < 0x10000000000000000 {
        lemma_dec_len_le(n, 20);
    }
    assert(n % 10000000000000000000 < pow10(19)) by {
        vstd::arithmetic::div_mod::lemma_mod_bound(n as int, 10000000000000000000);
    }
    lemma_dec_len_le(n % 10000000000000000000, 19);
    if n < 0x100000000000000000000000000000000 {
        lemma_dec_len_le(n, 39);
    }
}

} // verus!
