//! Formatting every supported integer width under a full policy: the core
//! grouped algorithm, dispatching to the plain engine when no separator ever
//! applies, and the `ToFormattedStr` impls that feed it.

use crate::buffer::Buffer;
use crate::constants::MAX_BUF_LEN;
use crate::digits::{
    dec_digits, dec_len, lemma_dec_digits_all_digits, lemma_dec_digits_split,
    lemma_dec_digits_two, lemma_dec_len_bounds, lemma_pad2, lemma_pow10_values,
};
use crate::format::{
    sep_wf, write_digit_grouped, write_pair_grouped, Format, FormatModel, Sep,
};
use crate::buffer::{lemma_ascii_seq_valid, lemma_valid_utf8_concat};
use crate::grouping::{
    grouped, grouped_at, lemma_boundary_step, lemma_grouped_at_len, lemma_grouped_at_split,
    lemma_grouped_at_valid, lemma_grouped_short, lemma_sep_count_bound, sep_count, Grouping,
};
use crate::to_formatted_str::ToFormattedStr;
use vstd::prelude::*;
use vstd::utf8::valid_utf8;

verus! {

/// The grouped decimal spelling of an unsigned value: plain digits when the
/// separator is empty or the grouping is Posix, else the separator-grouped
/// digits.
pub open spec fn int_grouped(n: nat, sep: Seq<u8>, g: Grouping) -> Seq<u8> {
    if sep.len() == 0 || g == Grouping::Posix {
        dec_digits(n)
    } else {
        grouped(dec_digits(n), sep, g)
    }
}

/// The formatted spelling of a signed value under a policy: the policy's
/// minus sign for negative values, then the grouped magnitude.
pub open spec fn int_formatted(v: int, m: FormatModel) -> Seq<u8> {
    let mag = if v < 0 {
        (-v) as nat
    } else {
        v as nat
    };
    let sign = if v < 0 {
        m.minus
    } else {
        Seq::<u8>::empty()
    };
    sign + int_grouped(mag, m.separator, m.grouping)
}

/// A 128-bit magnitude never widens past 191 grouped bytes.
pub proof fn lemma_int_grouped_len(n: nat, sep: Seq<u8>, g: Grouping)
    requires
        n < 0x100000000000000000000000000000000,
        sep.len() <= 8,
    ensures
        dec_digits(n).len() == int_grouped(n, sep, g).len() - sep_count(g, dec_len(n)) * sep.len(),
        int_grouped(n, sep, g).len() <= 191,
    decreases 0int,
{
    lemma_dec_len_bounds(n);
    lemma_dec_digits_all_digits(n);
    if sep.len() == 0 || g == Grouping::Posix {
        assert(sep_count(g, dec_len(n)) * sep.len() == 0) by (nonlinear_arith)
            requires
                sep.len() == 0 || sep_count(g, dec_len(n)) == 0,
        ;
    } else {
        lemma_grouped_at_len(dec_digits(n), 0, sep, g);
        lemma_sep_count_bound(g, dec_len(n));
        assert(sep_count(g, 0nat) == 0);
        assert(sep_count(g, dec_len(n)) * sep.len() <= 19 * 8) by (nonlinear_arith)
            requires
                sep_count(g, dec_len(n)) <= 19,
                sep.len() <= 8,
        ;
        assert(sep_count(g, dec_len(n)) * sep.len() >= 0) by (nonlinear_arith);
    }
}

/// Convert `n` to decimal under the policy's separator and grouping mode,
/// into a fresh buffer.
#[verifier::rlimit(100)]
pub fn run_core_algorithm<F: Format>(n: u128, buf: &mut Buffer, format: &F) -> (c: usize)
    requires
        old(buf).wf(),
        old(buf).pos == MAX_BUF_LEN,
        old(buf).end == MAX_BUF_LEN,
    ensures
        final(buf).wf(),
        final(buf).end == MAX_BUF_LEN,
        final(buf).pos + c == MAX_BUF_LEN,
        final(buf).content() =~= int_grouped(
            n as nat,
            format.model().separator,
            format.model().grouping,
        ),
        c == int_grouped(n as nat, format.model().separator, format.model().grouping).len(),
        valid_utf8(final(buf).content()),
        format.model().separator.len() <= 8,
        final(buf).table@ == old(buf).table@,
{
    let separator = format.separator();
    let grouping = format.grouping();
    let sep_bytes = separator.as_bytes();
    proof {
        lemma_pow10_values();
        lemma_dec_len_bounds(n as nat);
    }
    // Bail out early if no separator ever applies.
    if sep_bytes.len() == 0 || grouping == Grouping::Posix {
        let p = buf.pos;
        let r = crate::itoa::integer128::write_u128(n, buf, p);
        buf.pos = r;
        proof {
            assert(buf.content() =~= dec_digits(n as nat));
            lemma_dec_digits_all_digits(n as nat);
            lemma_ascii_seq_valid(dec_digits(n as nat));
        }
        p - r
    } else {
        let ghost sb = sep_bytes@;
        let ghost l = sb.len();
        let ghost g = format.model().grouping;
        let ghost n0 = n as nat;
        let step: isize = if grouping == Grouping::Standard {
            4
        } else {
            3
        };
        let mut sep = Sep { sep: sep_bytes, pos: (MAX_BUF_LEN as isize) - 4, step };
        let mut m: u128 = n;
        let mut index: usize = MAX_BUF_LEN;
        let ghost mut c: nat = 0nat;
        proof {
            lemma_boundary_step(g, 0);
            assert(sep_count(g, 0nat) * l == 0) by (nonlinear_arith)
                requires
                    sep_count(g, 0nat) == 0,
            ;
            assert(sep_wf(sep, MAX_BUF_LEN as int, 0nat, g));
            lemma_dec_digits_all_digits(n0);
            assert(buf.inner@.subrange(MAX_BUF_LEN as int, MAX_BUF_LEN as int) =~= Seq::<
                u8,
            >::empty());
            assert(grouped(dec_digits(n0), sb, g) =~= grouped_at(dec_digits(m as nat), c, sb, g)
                + buf.inner@.subrange(index as int, MAX_BUF_LEN as int));
        }
        while m >= 100
            invariant
                buf.wf(),
                buf.pos == MAX_BUF_LEN,
                buf.end == MAX_BUF_LEN,
                buf.table@ == old(buf).table@,
                sep.sep@ == sb,
                l == sb.len(),
                1 <= l <= 8,
                g == format.model().grouping,
                sb == format.model().separator,
                g != Grouping::Posix,
                sep_wf(sep, MAX_BUF_LEN as int, c, g),
                index as int == MAX_BUF_LEN - c - sep_count(g, c) * l,
                c + dec_len(m as nat) == dec_len(n0),
                dec_len(n0) <= 39,
                dec_len(m as nat) >= 1,
                grouped(dec_digits(n0), sb, g) =~= grouped_at(dec_digits(m as nat), c, sb, g)
                    + buf.inner@.subrange(index as int, MAX_BUF_LEN as int),
            decreases m,
        {
            let ghost m_before = m as nat;
            let pair: u8 = (m % 100) as u8;
            m = m / 100;
            proof {
                lemma_pow10_values();
                lemma_dec_digits_split(m_before, 2);
                lemma_dec_digits_all_digits(m as nat);
                lemma_pad2(pair as nat);
                lemma_sep_count_bound(g, c);
                assert(sep_count(g, c) * l <= 20 * 8) by (nonlinear_arith)
                    requires
                        sep_count(g, c) <= 20,
                        l <= 8,
                ;
                assert(sep_count(g, c) * l >= 0) by (nonlinear_arith);
                assert(index >= l + 3);
            }
            let ghost prev_inner = buf.inner@;
            let r = write_pair_grouped(
                buf,
                index,
                &mut sep,
                pair,
                Ghost(MAX_BUF_LEN as int),
                Ghost(c),
                Ghost(g),
            );
            proof {
                let pad2 = seq![(48 + pair / 10) as u8, (48 + pair % 10) as u8];
                assert(dec_digits(m_before) =~= dec_digits(m as nat) + pad2);
                lemma_grouped_at_split(dec_digits(m as nat), pad2, c, sb, g);
                assert(buf.inner@.subrange(index as int, MAX_BUF_LEN as int) =~=
                    prev_inner.subrange(index as int, MAX_BUF_LEN as int));
                assert(buf.inner@.subrange(r as int, MAX_BUF_LEN as int) =~= buf.inner@.subrange(
                    r as int,
                    index as int,
                ) + buf.inner@.subrange(index as int, MAX_BUF_LEN as int));
                c = c + 2;
                assert(grouped(dec_digits(n0), sb, g) =~= grouped_at(dec_digits(m as nat), c, sb, g)
                    + buf.inner@.subrange(r as int, MAX_BUF_LEN as int));
            }
            index = r;
        }
        // At most two digits remain.
        proof {
            lemma_sep_count_bound(g, c);
            assert(sep_count(g, c) * l <= 20 * 8) by (nonlinear_arith)
                requires
                    sep_count(g, c) <= 20,
                    l <= 8,
            ;
            assert(sep_count(g, c) * l >= 0) by (nonlinear_arith);
            assert(index >= l + 3);
        }
        let ghost prev_inner = buf.inner@;
        if m >= 10 {
            proof {
                lemma_dec_digits_two(m as nat);
            }
            let pair: u8 = m as u8;
            let r = write_pair_grouped(
                buf,
                index,
                &mut sep,
                pair,
                Ghost(MAX_BUF_LEN as int),
                Ghost(c),
                Ghost(g),
            );
            proof {
                assert(dec_digits(m as nat) =~= seq![(48 + pair / 10) as u8, (48 + pair % 10)
                    as u8]);
                assert(grouped_at(Seq::<u8>::empty(), (c + 2) as nat, sb, g) =~= Seq::<
                    u8,
                >::empty());
                assert(buf.inner@.subrange(index as int, MAX_BUF_LEN as int) =~=
                    prev_inner.subrange(index as int, MAX_BUF_LEN as int));
                assert(buf.inner@.subrange(r as int, MAX_BUF_LEN as int) =~= buf.inner@.subrange(
                    r as int,
                    index as int,
                ) + buf.inner@.subrange(index as int, MAX_BUF_LEN as int));
                assert(grouped(dec_digits(n0), sb, g) =~= buf.inner@.subrange(
                    r as int,
                    MAX_BUF_LEN as int,
                ));
            }
            index = r;
        } else {
            let d: u8 = m as u8;
            let r = write_digit_grouped(
                buf,
                index,
                &mut sep,
                d,
                Ghost(MAX_BUF_LEN as int),
                Ghost(c),
                Ghost(g),
            );
            proof {
                assert(dec_digits(m as nat) =~= seq![(48 + d) as u8]);
                assert(buf.inner@.subrange(index as int, MAX_BUF_LEN as int) =~=
                    prev_inner.subrange(index as int, MAX_BUF_LEN as int));
                assert(buf.inner@.subrange(r as int, MAX_BUF_LEN as int) =~= buf.inner@.subrange(
                    r as int,
                    index as int,
                ) + buf.inner@.subrange(index as int, MAX_BUF_LEN as int));
                assert(grouped(dec_digits(n0), sb, g) =~= buf.inner@.subrange(
                    r as int,
                    MAX_BUF_LEN as int,
                ));
            }
            index = r;
        }
        buf.pos = index;
        proof {
            lemma_dec_digits_all_digits(n as nat);
            lemma_grouped_at_valid(dec_digits(n as nat), 0, sb, g);
            assert(valid_utf8(buf.content()));
        }
        MAX_BUF_LEN - index
    }
}

/// Shared body of every signed and unsigned impl: format the magnitude, then
/// prepend the policy's minus sign for negative inputs.
fn run_signed<F: Format>(neg: bool, mag: u128, buf: &mut Buffer, format: &F) -> (c: usize)
    requires
        old(buf).wf(),
        old(buf).pos == MAX_BUF_LEN,
        old(buf).end == MAX_BUF_LEN,
    ensures
        final(buf).wf(),
        final(buf).end == MAX_BUF_LEN,
        final(buf).pos + c == MAX_BUF_LEN,
        final(buf).content() =~= (if neg {
            format.model().minus
        } else {
            Seq::<u8>::empty()
        }) + int_grouped(mag as nat, format.model().separator, format.model().grouping),
        c == ((if neg {
            format.model().minus
        } else {
            Seq::<u8>::empty()
        }) + int_grouped(mag as nat, format.model().separator, format.model().grouping)).len(),
        valid_utf8(final(buf).content()),
        final(buf).table@ == old(buf).table@,
{
    let c1 = run_core_algorithm(mag, buf, format);
    if neg {
        let minus = format.minus_sign();
        let mb = minus.as_bytes();
        proof {
            lemma_int_grouped_len(
                mag as nat,
                format.model().separator,
                format.model().grouping,
            );
        }
        buf.prepend_bytes(mb);
        proof {
            lemma_valid_utf8_concat(format.model().minus, int_grouped(
                mag as nat,
                format.model().separator,
                format.model().grouping,
            ));
        }
        c1 + mb.len()
    } else {
        proof {
            assert(Seq::<u8>::empty() + int_grouped(
                mag as nat,
                format.model().separator,
                format.model().grouping,
            ) =~= int_grouped(mag as nat, format.model().separator, format.model().grouping));
        }
        c1
    }
}

/// Values of up to three digits are never grouped, so the plain engine
/// already yields the full policy spelling.
proof fn lemma_small_ungrouped(n: nat, m: FormatModel)
    requires
        n < 1000,
    ensures
        int_formatted(n as int, m) =~= crate::itoa::signed_digits(n as int),
{
    lemma_pow10_values();
    crate::digits::lemma_dec_len_le(n, 3);
    lemma_grouped_short(dec_digits(n), m.separator, m.grouping);
    assert(Seq::<u8>::empty() + int_grouped(n, m.separator, m.grouping) =~= int_grouped(
        n,
        m.separator,
        m.grouping,
    ));
}

impl ToFormattedStr for u8 {
    open spec fn spec_formatted_ok(&self, m: FormatModel, out: Seq<u8>) -> bool {
        out == int_formatted(*self as int, m)
    }

    fn read_to_buffer<F: Format>(&self, buf: &mut Buffer, format: &F) -> (c: usize) {
        proof {
            lemma_dec_len_bounds(*self as nat);
            lemma_small_ungrouped(*self as nat, format.model());
            lemma_dec_digits_all_digits(*self as nat);
            lemma_ascii_seq_valid(dec_digits(*self as nat));
        }
        crate::itoa::format(*self, buf)
    }
}

impl ToFormattedStr for u16 {
    open spec fn spec_formatted_ok(&self, m: FormatModel, out: Seq<u8>) -> bool {
        out == int_formatted(*self as int, m)
    }

    fn read_to_buffer<F: Format>(&self, buf: &mut Buffer, format: &F) -> (c: usize) {
        run_signed(false, *self as u128, buf, format)
    }
}

impl ToFormattedStr for u32 {
    open spec fn spec_formatted_ok(&self, m: FormatModel, out: Seq<u8>) -> bool {
        out == int_formatted(*self as int, m)
    }

    fn read_to_buffer<F: Format>(&self, buf: &mut Buffer, format: &F) -> (c: usize) {
        run_signed(false, *self as u128, buf, format)
    }
}

impl ToFormattedStr for usize {
    open spec fn spec_formatted_ok(&self, m: FormatModel, out: Seq<u8>) -> bool {
        out == int_formatted(*self as int, m)
    }

    fn read_to_buffer<F: Format>(&self, buf: &mut Buffer, format: &F) -> (c: usize) {
        run_signed(false, *self as u128, buf, format)
    }
}

impl ToFormattedStr for u64 {
    open spec fn spec_formatted_ok(&self, m: FormatModel, out: Seq<u8>) -> bool {
        out == int_formatted(*self as int, m)
    }

    fn read_to_buffer<F: Format>(&self, buf: &mut Buffer, format: &F) -> (c: usize) {
        run_signed(false, *self as u128, buf, format)
    }
}

impl ToFormattedStr for u128 {
    open spec fn spec_formatted_ok(&self, m: FormatModel, out: Seq<u8>) -> bool {
        out == int_formatted(*self as int, m)
    }

    fn read_to_buffer<F: Format>(&self, buf: &mut Buffer, format: &F) -> (c: usize) {
        run_signed(false, *self, buf, format)
    }
}

impl ToFormattedStr for i8 {
    open spec fn spec_formatted_ok(&self, m: FormatModel, out: Seq<u8>) -> bool {
        out == int_formatted(*self as int, m)
    }

    fn read_to_buffer<F: Format>(&self, buf: &mut Buffer, format: &F) -> (c: usize) {
        let v = *self;
        let neg = v < 0;
        let mag: u128 = if v >= 0 {
            v as u128
        } else {
            (-(v as i64)) as u128
        };
        run_signed(neg, mag, buf, format)
    }
}

impl ToFormattedStr for i16 {
    open spec fn spec_formatted_ok(&self, m: FormatModel, out: Seq<u8>) -> bool {
        out == int_formatted(*self as int, m)
    }

    fn read_to_buffer<F: Format>(&self, buf: &mut Buffer, format: &F) -> (c: usize) {
        let v = *self;
        let neg = v < 0;
        let mag: u128 = if v >= 0 {
            v as u128
        } else {
            (-(v as i64)) as u128
        };
        run_signed(neg, mag, buf, format)
    }
}

impl ToFormattedStr for i32 {
    open spec fn spec_formatted_ok(&self, m: FormatModel, out: Seq<u8>) -> bool {
        out == int_formatted(*self as int, m)
    }

    fn read_to_buffer<F: Format>(&self, buf: &mut Buffer, format: &F) -> (c: usize) {
        let v = *self;
        let neg = v < 0;
        let mag: u128 = if v >= 0 {
            v as u128
        } else {
            (-(v as i64)) as u128
        };
        run_signed(neg, mag, buf, format)
    }
}

impl ToFormattedStr for isize {
    open spec fn spec_formatted_ok(&self, m: FormatModel, out: Seq<u8>) -> bool {
        out == int_formatted(*self as int, m)
    }

    fn read_to_buffer<F: Format>(&self, buf: &mut Buffer, format: &F) -> (c: usize) {
        let v = *self;
        let neg = v < 0;
        let mag: u128 = if v >= 0 {
            v as u128
        } else if v as i64 == i64::MIN {
            9223372036854775808u128
        } else {
            (-(v as i64)) as u128
        };
        run_signed(neg, mag, buf, format)
    }
}

impl ToFormattedStr for i64 {
    open spec fn spec_formatted_ok(&self, m: FormatModel, out: Seq<u8>) -> bool {
        out == int_formatted(*self as int, m)
    }

    fn read_to_buffer<F: Format>(&self, buf: &mut Buffer, format: &F) -> (c: usize) {
        let v = *self;
        let neg = v < 0;
        let mag: u128 = if v >= 0 {
            v as u128
        } else if v == i64::MIN {
            9223372036854775808u128
        } else {
            (-v) as u128
        };
        run_signed(neg, mag, buf, format)
    }
}

impl ToFormattedStr for i128 {
    open spec fn spec_formatted_ok(&self, m: FormatModel, out: Seq<u8>) -> bool {
        out == int_formatted(*self as int, m)
    }

    fn read_to_buffer<F: Format>(&self, buf: &mut Buffer, format: &F) -> (c: usize) {
        let v = *self;
        let neg = v < 0;
        let mag: u128 = if v >= 0 {
            v as u128
        } else if v == i128::MIN {
            170141183460469231731687303715884105728u128
        } else {
            (-v) as u128
        };
        run_signed(neg, mag, buf, format)
    }
}

} // verus!
