//! 64-bit conversion: the four-digits-at-a-time core loop shared, by
//! widening, with every width up to 64 bits.

use crate::buffer::{digit_table_spec, Buffer};
use crate::constants::MAX_BUF_LEN;
use crate::digits::{
    dec_digits, dec_digits_pad, dec_len, lemma_dec_digits_all_digits, lemma_dec_digits_pad_index,
    lemma_dec_digits_split, lemma_dec_digits_two, lemma_pow10_values, pow10,
};
use vstd::prelude::*;

verus! {

/// The two table bytes for a two-digit group are that group's digits.
proof fn lemma_pair_bytes(rem: nat)
    requires
        rem < 100,
    ensures
        digit_table_spec(2 * rem as int) == (48 + rem / 10) as u8,
        digit_table_spec(2 * rem as int + 1) == (48 + rem % 10) as u8,
{
    assert((2 * rem as int) % 2 == 0 && (2 * rem as int) / 2 == rem as int) by (nonlinear_arith);
    assert((2 * rem as int + 1) % 2 == 1 && (2 * rem as int + 1) / 2 == rem as int)
        by (nonlinear_arith);
}

/// A four-digit group `rem < 10000`, zero-padded to width 4, spelled from its
/// two digit pairs.
proof fn lemma_pad4(rem: nat)
    requires
        rem < 10000,
    ensures
        dec_digits_pad(rem, 4) =~= seq![
            (48 + (rem / 100) / 10) as u8,
            (48 + (rem / 100) % 10) as u8,
            (48 + (rem % 100) / 10) as u8,
            (48 + (rem % 100) % 10) as u8,
        ],
{
    lemma_pow10_values();
    lemma_dec_digits_pad_index(rem, 4);
    assert(pow10(3) == 1000 && pow10(2) == 100 && pow10(1) == 10 && pow10(0) == 1);
    // weight 10^3
    assert((rem / 100) / 10 == rem / 1000) by {
        vstd::arithmetic::div_mod::lemma_div_denominator(rem as int, 100, 10);
    }
    assert(rem / 1000 < 10);
    assert((rem / 1000) % 10 == rem / 1000) by {
        vstd::arithmetic::div_mod::lemma_small_mod((rem / 1000) as nat, 10);
    }
    // weight 10^1: (rem % 100) / 10 == (rem / 10) % 10
    assert(rem % 100 == 10 * ((rem / 10) % 10) + rem % 10) by {
        vstd::arithmetic::div_mod::lemma_breakdown(rem as int, 10, 10);
    }
    assert((rem % 100) / 10 == (rem / 10) % 10 && (rem % 100) % 10 == rem % 10) by {
        vstd::arithmetic::div_mod::lemma_mod_bound(rem as int, 10);
        vstd::arithmetic::div_mod::lemma_mod_bound((rem / 10) as int, 10);
        vstd::arithmetic::div_mod::lemma_fundamental_div_mod_converse(
            (rem % 100) as int,
            10,
            ((rem / 10) % 10) as int,
            (rem % 10) as int,
        );
    }
    // weight 10^0
    assert(rem % pow10(1) == rem % 10);
}

/// Write the decimal digits of `n` ending at `pos`; returns the index of the
/// first digit. The cursor `buf.pos` itself is not moved.
#[verifier::rlimit(100)]
pub fn write_u64(n: u64, buf: &mut Buffer, pos: usize) -> (r: usize)
    requires
        old(buf).wf(),
        pos <= MAX_BUF_LEN,
        dec_len(n as nat) <= pos,
    ensures
        final(buf).wf(),
        r + dec_len(n as nat) == pos,
        final(buf).inner@.subrange(r as int, pos as int) =~= dec_digits(n as nat),
        forall|j: int|
            0 <= j < MAX_BUF_LEN && !(r <= j < pos) ==> final(buf).inner@[j] == old(buf).inner@[j],
        final(buf).pos == old(buf).pos,
        final(buf).end == old(buf).end,
        final(buf).table@ == old(buf).table@,
{
    let ghost n0 = n as nat;
    let mut n: u64 = n;
    let mut curr: usize = pos;
    proof {
        lemma_dec_digits_all_digits(n as nat);
    }
    while n >= 10000
        invariant
            buf.wf(),
            curr <= pos <= MAX_BUF_LEN,
            dec_len(n as nat) <= curr,
            dec_len(n0) == dec_len(n as nat) + (pos - curr),
            dec_digits(n0) =~= dec_digits(n as nat) + buf.inner@.subrange(
                curr as int,
                pos as int,
            ),
            forall|j: int|
                0 <= j < MAX_BUF_LEN && !(curr <= j < pos) ==> buf.inner@[j] == old(
                    buf,
                ).inner@[j],
            buf.pos == old(buf).pos,
            buf.end == old(buf).end,
            buf.table@ == old(buf).table@,
        decreases n,
    {
        let ghost n_before = n as nat;
        let ghost prev = buf.inner@;
        let rem: u64 = n % 10000;
        n = n / 10000;
        proof {
            lemma_pow10_values();
            lemma_dec_digits_split(n_before, 4);
            lemma_dec_digits_all_digits(n as nat);
            lemma_pad4(rem as nat);
            lemma_pair_bytes((rem / 100) as nat);
            lemma_pair_bytes((rem % 100) as nat);
            assert(n as nat == n_before / pow10(4) && rem as nat == n_before % pow10(4));
            assert(n < n_before);
        }
        let d1: usize = ((rem / 100) as usize) * 2;
        let d2: usize = ((rem % 100) as usize) * 2;
        let b0 = buf.table_at(d1);
        let b1 = buf.table_at(d1 + 1);
        let b2 = buf.table_at(d2);
        let b3 = buf.table_at(d2 + 1);
        curr = curr - 4;
        buf.set_byte(curr, b0);
        buf.set_byte(curr + 1, b1);
        buf.set_byte(curr + 2, b2);
        buf.set_byte(curr + 3, b3);
        proof {
            assert(buf.inner@.subrange(curr as int, pos as int) =~= dec_digits_pad(rem as nat, 4)
                + prev.subrange(curr + 4, pos as int));
            assert(dec_digits(n0) =~= dec_digits(n as nat) + buf.inner@.subrange(
                curr as int,
                pos as int,
            ));
        }
    }
    // n < 10000 now: at most four digits remain.
    if n >= 100 {
        let ghost n_before = n as nat;
        let ghost prev = buf.inner@;
        let rem: u64 = n % 100;
        n = n / 100;
        proof {
            lemma_pow10_values();
            lemma_dec_digits_split(n_before, 2);
            lemma_dec_digits_all_digits(n as nat);
            lemma_pair_bytes(rem as nat);
            lemma_dec_digits_pad_index(rem as nat, 2);
            assert(n as nat == n_before / pow10(2) && rem as nat == n_before % pow10(2));
            assert(dec_digits_pad(rem as nat, 2) =~= seq![
                (48 + (rem as nat) / 10) as u8,
                (48 + (rem as nat) % 10) as u8,
            ]) by {
                assert((rem as nat) / pow10(1) == (rem as nat) / 10);
                assert(((rem as nat) / 10) % 10 == (rem as nat) / 10) by {
                    vstd::arithmetic::div_mod::lemma_small_mod(((rem as nat) / 10) as nat, 10);
                }
                assert((rem as nat) / pow10(0) == rem as nat) by {
                    vstd::arithmetic::div_mod::lemma_div_basics(rem as int);
                }
            }
        }
        let d1: usize = (rem as usize) * 2;
        let b0 = buf.table_at(d1);
        let b1 = buf.table_at(d1 + 1);
        curr = curr - 2;
        buf.set_byte(curr, b0);
        buf.set_byte(curr + 1, b1);
        proof {
            assert(buf.inner@.subrange(curr as int, pos as int) =~= dec_digits_pad(rem as nat, 2)
                + prev.subrange(curr + 2, pos as int));
            assert(dec_digits(n0) =~= dec_digits(n as nat) + buf.inner@.subrange(
                curr as int,
                pos as int,
            ));
        }
    }
    // n < 100 now: the last one or two digits.
    let ghost prev = buf.inner@;
    if n < 10 {
        curr = curr - 1;
        buf.set_byte(curr, 48 + n as u8);
        proof {
            assert(dec_digits(n as nat) =~= seq![(48 + n as nat) as u8]);
            assert(buf.inner@.subrange(curr as int, pos as int) =~= dec_digits(n as nat)
                + prev.subrange(curr + 1, pos as int));
        }
    } else {
        proof {
            lemma_dec_digits_two(n as nat);
            lemma_pair_bytes(n as nat);
        }
        let d1: usize = (n as usize) * 2;
        let b0 = buf.table_at(d1);
        let b1 = buf.table_at(d1 + 1);
        curr = curr - 2;
        buf.set_byte(curr, b0);
        buf.set_byte(curr + 1, b1);
        proof {
            assert(buf.inner@.subrange(curr as int, pos as int) =~= dec_digits(n as nat)
                + prev.subrange(curr + 2, pos as int));
        }
    }
    curr
}

impl crate::private::Sealed for u64 {

}

impl crate::private::Sealed for i64 {

}

impl crate::itoa::Integer for u64 {
    open spec fn value(self) -> int {
        self as int
    }

    fn write(self, buf: &mut Buffer) -> (len: usize) {
        let p = buf.pos;
        let r = write_u64(self, buf, p);
        buf.pos = r;
        p - r
    }
}

impl crate::itoa::Integer for i64 {
    open spec fn value(self) -> int {
        self as int
    }

    fn write(self, buf: &mut Buffer) -> (len: usize) {
        let neg = self < 0;
        let mag: u64 = if self >= 0 {
            self as u64
        } else if self == i64::MIN {
            9223372036854775808u64
        } else {
            (-self) as u64
        };
        let p = buf.pos;
        let r = crate::itoa::write_magnitude_u64(neg, mag, buf, p);
        buf.pos = r;
        p - r
    }
}

} // verus!
