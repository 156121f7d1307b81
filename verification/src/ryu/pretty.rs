//! The positional formatter: lay a decimal mantissa and exponent out as
//! plain digits, decimal point, zero padding, sign, and (for the integer
//! portion only) grouping. No exponential notation is ever emitted.

use crate::buffer::Buffer;
use crate::constants::MAX_BUF_LEN;
use crate::digits::{
    dec_digits, dec_digits_pad, dec_len, lemma_dec_digits_all_digits, lemma_dec_digits_split,
    lemma_dec_digits_two, lemma_dec_len_bounds, lemma_dec_len_le, lemma_dec_len_lower,
    lemma_pad2, lemma_pow10_increases, lemma_pow10_values, pow10, zeros,
};
use crate::format::{
    sep_wf, write_digit_grouped, write_pair_grouped, Format, FormatModel, Sep,
};
use crate::buffer::{lemma_ascii_seq_valid, lemma_valid_utf8_concat};
use crate::grouping::{
    grouped, grouped_at, lemma_boundary_step, lemma_grouped_at_len, lemma_grouped_at_split,
    lemma_grouped_at_valid, lemma_sep_count_bound, lemma_sep_count_mono, sep_count, Grouping,
};
use vstd::utf8::valid_utf8;
use vstd::prelude::*;

verus! {

/// The fully expanded decimal text of `mantissa * 10^k`, ungrouped: either
/// the digits padded out with zeros and closed by ".0", the digits with the
/// point placed inside, or "0." followed by leading zeros and the digits.
pub open spec fn positional(digits: Seq<u8>, k: int) -> Seq<u8> {
    let kk = digits.len() + k;
    if k >= 0 {
        digits + zeros(k as nat) + seq![46u8, 48u8]
    } else if kk > 0 {
        digits.take(kk) + seq![46u8] + digits.skip(kk)
    } else {
        seq![48u8, 46u8] + zeros((-kk) as nat) + digits
    }
}

/// The same layout with the integer portion grouped; fractional digits are
/// never grouped.
pub open spec fn positional_grouped(digits: Seq<u8>, k: int, sep: Seq<u8>, g: Grouping) -> Seq<
    u8,
> {
    let kk = digits.len() + k;
    if k >= 0 {
        grouped(digits + zeros(k as nat), sep, g) + seq![46u8, 48u8]
    } else if kk > 0 {
        grouped(digits.take(kk), sep, g) + seq![46u8] + digits.skip(kk)
    } else {
        seq![48u8, 46u8] + zeros((-kk) as nat) + digits
    }
}

/// One finite nonzero float laid out under a policy: the minus sign when
/// negative, then the positional body, grouped exactly when the policy has a
/// separator and a grouping mode.
pub open spec fn float_body(mantissa: nat, k: int, neg: bool, m: FormatModel) -> Seq<u8> {
    let digits = dec_digits(mantissa);
    let body = if m.separator.len() == 0 || m.grouping == Grouping::Posix {
        positional(digits, k)
    } else {
        positional_grouped(digits, k, m.separator, m.grouping)
    };
    (if neg {
        m.minus
    } else {
        Seq::<u8>::empty()
    }) + body
}

/// The number of decimal digits of any machine word.
fn u64_dec_len(v: u64) -> (r: u32)
    ensures
        r == dec_len(v as nat),
        1 <= r <= 20,
{
    proof {
        lemma_pow10_values();
        lemma_dec_len_bounds(v as nat);
    }
    if v < 100000000000000000 {
        crate::ryu::d2s::decimal_length17(v)
    } else if v >= 10000000000000000000 {
        proof {
            crate::digits::lemma_dec_len_ge(v as nat, 20);
        }
        20
    } else if v >= 1000000000000000000 {
        proof {
            crate::digits::lemma_dec_len_ge(v as nat, 19);
            lemma_dec_len_le(v as nat, 19);
        }
        19
    } else {
        proof {
            crate::digits::lemma_dec_len_ge(v as nat, 18);
            lemma_dec_len_le(v as nat, 18);
        }
        18
    }
}

/// `10^e` as a machine word.
fn pow10_u64(e: u32) -> (r: u64)
    requires
        e <= 19,
    ensures
        r == pow10(e as nat),
{
    let mut r: u64 = 1;
    let mut i: u32 = 0;
    proof {
        lemma_pow10_values();
    }
    while i < e
        invariant
            i <= e <= 19,
            r == pow10(i as nat),
        decreases e - i,
    {
        proof {
            lemma_pow10_values();
            lemma_pow10_increases((i + 1) as nat, 19);
            assert(pow10((i + 1) as nat) == 10 * pow10(i as nat));
        }
        r = r * 10;
        i = i + 1;
    }
    r
}

/// Write the digits of `mantissa` through the grouping cursor, the cursor
/// being in step for `c` digits already deposited to its right.
#[verifier::rlimit(100)]
pub fn write_mantissa_with_sep(
    buf: &mut Buffer,
    index: usize,
    sep: &mut Sep<'_>,
    mantissa: u64,
    Ghost(end): Ghost<int>,
    Ghost(c): Ghost<nat>,
    Ghost(g): Ghost<Grouping>,
) -> (r: usize)
    requires
        old(buf).wf(),
        sep_wf(*old(sep), end, c, g),
        0 <= end <= MAX_BUF_LEN,
        index as int == end - c - sep_count(g, c) * old(sep).sep@.len(),
        c + dec_len(mantissa as nat) <= 500,
        (c + dec_len(mantissa as nat)) + sep_count(g, (c + dec_len(mantissa as nat)) as nat)
            * old(sep).sep@.len() + 11 <= end,
    ensures
        final(buf).wf(),
        final(buf).pos == old(buf).pos,
        final(buf).end == old(buf).end,
        final(buf).table@ == old(buf).table@,
        final(sep).sep@ == old(sep).sep@,
        final(sep).step == old(sep).step,
        sep_wf(*final(sep), end, (c + dec_len(mantissa as nat)) as nat, g),
        r <= index,
        r as int == end - (c + dec_len(mantissa as nat)) - sep_count(
            g,
            (c + dec_len(mantissa as nat)) as nat,
        ) * old(sep).sep@.len(),
        final(buf).inner@.subrange(r as int, index as int) =~= grouped_at(
            dec_digits(mantissa as nat),
            c,
            old(sep).sep@,
            g,
        ),
        forall|j: int|
            0 <= j < MAX_BUF_LEN && !(r <= j < index) ==> final(buf).inner@[j] == old(
                buf,
            ).inner@[j],
{
    let ghost sb = old(sep).sep@;
    let ghost l = sb.len();
    let ghost m0 = mantissa as nat;
    let ghost c_fin = (c + dec_len(mantissa as nat)) as nat;
    let mut m: u64 = mantissa;
    let mut idx: usize = index;
    let ghost mut cc: nat = c;
    proof {
        lemma_dec_digits_all_digits(m0);
        assert(buf.inner@.subrange(index as int, index as int) =~= Seq::<u8>::empty());
        assert(grouped_at(dec_digits(m0), c, sb, g) =~= grouped_at(dec_digits(m as nat), cc, sb, g)
            + buf.inner@.subrange(idx as int, index as int));
    }
    while m >= 100
        invariant
            buf.wf(),
            buf.pos == old(buf).pos,
            buf.end == old(buf).end,
            buf.table@ == old(buf).table@,
            sep.sep@ == sb,
            sep.step == old(sep).step,
            l == sb.len(),
            g != Grouping::Posix,
            0 <= end <= MAX_BUF_LEN,
            sep_wf(*sep, end, cc, g),
            idx as int == end - cc - sep_count(g, cc) * l,
            idx <= index,
            c <= cc,
            cc + dec_len(m as nat) == c_fin <= 500,
            c_fin + sep_count(g, c_fin) * l + 11 <= end,
            dec_len(m as nat) >= 1,
            index as int == end - c - sep_count(g, c) * l,
            grouped_at(dec_digits(m0), c, sb, g) =~= grouped_at(
                dec_digits(m as nat),
                cc,
                sb,
                g,
            ) + buf.inner@.subrange(idx as int, index as int),
            forall|j: int|
                0 <= j < MAX_BUF_LEN && !(idx <= j < index) ==> buf.inner@[j] == old(
                    buf,
                ).inner@[j],
        decreases m,
    {
        let ghost m_before = m as nat;
        let pair: u8 = (m % 100) as u8;
        m = m / 100;
        proof {
            lemma_pow10_values();
            lemma_dec_digits_split(m_before, 2);
            lemma_dec_digits_all_digits(m as nat);
            lemma_pad2(pair as nat);
            lemma_sep_count_bound(g, cc);
            lemma_sep_count_mono(g, cc, c_fin);
            assert(sep_count(g, cc) * l <= sep_count(g, c_fin) * l) by (nonlinear_arith)
                requires
                    sep_count(g, cc) <= sep_count(g, c_fin),
                    l >= 0,
            ;
            assert(sep_count(g, cc) * l >= 0) by (nonlinear_arith);
            assert(idx >= l + 3);
        }
        let ghost prev_inner = buf.inner@;
        let r = write_pair_grouped(buf, idx, sep, pair, Ghost(end), Ghost(cc), Ghost(g));
        proof {
            let pad2 = seq![(48 + pair / 10) as u8, (48 + pair % 10) as u8];
            assert(dec_digits(m_before) =~= dec_digits(m as nat) + pad2);
            lemma_grouped_at_split(dec_digits(m as nat), pad2, cc, sb, g);
            assert(buf.inner@.subrange(idx as int, index as int) =~= prev_inner.subrange(
                idx as int,
                index as int,
            ));
            assert(buf.inner@.subrange(r as int, index as int) =~= buf.inner@.subrange(
                r as int,
                idx as int,
            ) + buf.inner@.subrange(idx as int, index as int));
            cc = (cc + 2) as nat;
            assert(grouped_at(dec_digits(m0), c, sb, g) =~= grouped_at(
                dec_digits(m as nat),
                cc,
                sb,
                g,
            ) + buf.inner@.subrange(r as int, index as int));
        }
        idx = r;
    }
    proof {
        lemma_sep_count_bound(g, cc);
        lemma_sep_count_mono(g, cc, c_fin);
        assert(sep_count(g, cc) * l <= sep_count(g, c_fin) * l) by (nonlinear_arith)
            requires
                sep_count(g, cc) <= sep_count(g, c_fin),
                l >= 0,
        ;
        assert(sep_count(g, cc) * l >= 0) by (nonlinear_arith);
        assert(idx >= l + 3);
    }
    let ghost prev_inner = buf.inner@;
    if m >= 10 {
        proof {
            lemma_dec_digits_two(m as nat);
        }
        let pair: u8 = m as u8;
        let r = write_pair_grouped(buf, idx, sep, pair, Ghost(end), Ghost(cc), Ghost(g));
        proof {
            assert(dec_digits(m as nat) =~= seq![(48 + pair / 10) as u8, (48 + pair % 10) as u8]);
            assert(grouped_at(Seq::<u8>::empty(), (cc + 2) as nat, sb, g) =~= Seq::<u8>::empty());
            assert(buf.inner@.subrange(idx as int, index as int) =~= prev_inner.subrange(
                idx as int,
                index as int,
            ));
            assert(buf.inner@.subrange(r as int, index as int) =~= buf.inner@.subrange(
                r as int,
                idx as int,
            ) + buf.inner@.subrange(idx as int, index as int));
            assert(grouped_at(dec_digits(m0), c, sb, g) =~= buf.inner@.subrange(
                r as int,
                index as int,
            ));
        }
        r
    } else {
        let d: u8 = m as u8;
        let r = write_digit_grouped(buf, idx, sep, d, Ghost(end), Ghost(cc), Ghost(g));
        proof {
            assert(dec_digits(m as nat) =~= seq![(48 + d) as u8]);
            assert(buf.inner@.subrange(idx as int, index as int) =~= prev_inner.subrange(
                idx as int,
                index as int,
            ));
            assert(buf.inner@.subrange(r as int, index as int) =~= buf.inner@.subrange(
                r as int,
                idx as int,
            ) + buf.inner@.subrange(idx as int, index as int));
            assert(grouped_at(dec_digits(m0), c, sb, g) =~= buf.inner@.subrange(
                r as int,
                index as int,
            ));
        }
        r
    }
}

/// Lay out `mantissa * 10^k` as plain positional text ending at `pos`;
/// returns the index of the first written byte. The cursor `buf.pos` itself
/// is not moved.
#[verifier::rlimit(100)]
pub fn write_decimal_posix(buf: &mut Buffer, pos: usize, mantissa: u64, k: i32) -> (r: usize)
    requires
        old(buf).wf(),
        pos <= MAX_BUF_LEN,
        -400 <= k <= 400,
        positional(dec_digits(mantissa as nat), k as int).len() <= pos,
    ensures
        final(buf).wf(),
        final(buf).pos == old(buf).pos,
        final(buf).end == old(buf).end,
        final(buf).table@ == old(buf).table@,
        r + positional(dec_digits(mantissa as nat), k as int).len() == pos,
        final(buf).inner@.subrange(r as int, pos as int) =~= positional(
            dec_digits(mantissa as nat),
            k as int,
        ),
        forall|j: int|
            0 <= j < MAX_BUF_LEN && !(r <= j < pos) ==> final(buf).inner@[j] == old(
                buf,
            ).inner@[j],
{
    proof {
        lemma_pow10_values();
        lemma_dec_len_bounds(mantissa as nat);
        lemma_dec_digits_all_digits(mantissa as nat);
    }
    let length: u32 = u64_dec_len(mantissa);
    if k >= 0 {
        // Integer-valued: the digits, `k` trailing zeros, then ".0".
        buf.set_byte(pos - 1, 48);
        buf.set_byte(pos - 2, 46);
        let zlo: usize = pos - 2 - (k as usize);
        buf.fill_zeros(zlo, pos - 2);
        let r = crate::itoa::integer64::write_u64(mantissa, buf, zlo);
        proof {
            assert(final(buf).inner@.subrange(r as int, pos as int) =~= dec_digits(
                mantissa as nat,
            ) + zeros(k as nat) + seq![46u8, 48u8]);
        }
        r
    } else if length as i32 + k > 0 {
        // The decimal point falls inside the digits.
        let negk: u32 = (-k) as u32;
        proof {
            lemma_dec_len_lower(mantissa as nat, negk as nat);
        }
        let p: u64 = pow10_u64(negk);
        let frac: u64 = mantissa % p;
        let ipart: u64 = mantissa / p;
        proof {
            lemma_dec_digits_split(mantissa as nat, negk as nat);
            lemma_dec_digits_all_digits(ipart as nat);
        }
        let rf = crate::itoa::integer64::write_u64(frac, buf, pos);
        let target: usize = pos - (negk as usize);
        buf.fill_zeros(target, rf);
        proof {
            assert(buf.inner@.subrange(target as int, pos as int) =~= dec_digits_pad(
                frac as nat,
                negk as nat,
            ));
        }
        buf.set_byte(target - 1, 46);
        let ghost mid = buf.inner@;
        let r = crate::itoa::integer64::write_u64(ipart, buf, target - 1);
        proof {
            let digits = dec_digits(mantissa as nat);
            let kk = digits.len() + k;
            assert(buf.inner@.subrange(target - 1, pos as int) =~= mid.subrange(
                target - 1,
                pos as int,
            ));
            assert(buf.inner@.subrange(r as int, pos as int) =~= dec_digits(ipart as nat)
                + seq![46u8] + dec_digits_pad(frac as nat, negk as nat));
            assert(digits.take(kk) =~= dec_digits(ipart as nat));
            assert(digits.skip(kk) =~= dec_digits_pad(frac as nat, negk as nat));
        }
        r
    } else {
        // Below one: "0.", leading zeros, then the digits.
        let rz = crate::itoa::integer64::write_u64(mantissa, buf, pos);
        let zn: usize = ((-(length as i32 + k)) as u32) as usize;
        let zlo: usize = rz - zn;
        buf.fill_zeros(zlo, rz);
        buf.set_byte(zlo - 1, 46);
        buf.set_byte(zlo - 2, 48);
        let r = zlo - 2;
        proof {
            let digits = dec_digits(mantissa as nat);
            let kk = digits.len() + k;
            assert(buf.inner@.subrange(r as int, pos as int) =~= seq![48u8, 46u8] + zeros(
                (-kk) as nat,
            ) + digits);
        }
        r
    }
}


/// Write `count` grouped zeros below `end`, the cursor starting fresh
/// there; `dtot` is the total integer-digit count the caller will reach.
fn write_zeros_grouped(
    buf: &mut Buffer,
    sep: &mut Sep<'_>,
    count: u32,
    end: usize,
    Ghost(g): Ghost<Grouping>,
    Ghost(dtot): Ghost<nat>,
) -> (r: usize)
    requires
        old(buf).wf(),
        sep_wf(*old(sep), end as int, 0nat, g),
        end <= MAX_BUF_LEN,
        count <= dtot <= 500,
        dtot + sep_count(g, dtot) * old(sep).sep@.len() + 14 <= end,
    ensures
        final(buf).wf(),
        final(buf).pos == old(buf).pos,
        final(buf).end == old(buf).end,
        final(buf).table@ == old(buf).table@,
        final(sep).sep@ == old(sep).sep@,
        final(sep).step == old(sep).step,
        sep_wf(*final(sep), end as int, count as nat, g),
        r as int == end - count - sep_count(g, count as nat) * old(sep).sep@.len(),
        r <= end,
        final(buf).inner@.subrange(r as int, end as int) =~= grouped_at(
            zeros(count as nat),
            0,
            old(sep).sep@,
            g,
        ),
        forall|j: int|
            0 <= j < MAX_BUF_LEN && !(r <= j < end) ==> final(buf).inner@[j] == old(
                buf,
            ).inner@[j],
{
    let ghost sb = old(sep).sep@;
    let ghost l = sb.len();
    proof {
        lemma_boundary_step(g, 0);
        assert(sep_count(g, 0nat) * l == 0) by (nonlinear_arith)
            requires
                sep_count(g, 0nat) == 0,
        ;
        assert(buf.inner@.subrange(end as int, end as int) =~= Seq::<u8>::empty());
        assert(grouped_at(zeros(0nat), 0, sb, g) =~= Seq::<u8>::empty());
    }
    let mut idx: usize = end;
    let ghost mut c: nat = 0nat;
    let mut zi: u32 = 0;
    while zi < count
        invariant
            buf.wf(),
            buf.pos == old(buf).pos,
            buf.end == old(buf).end,
            buf.table@ == old(buf).table@,
            sep.sep@ == sb,
            sep.step == old(sep).step,
            l == sb.len(),
            1 <= l <= 8,
            g != Grouping::Posix,
            zi <= count,
            c == zi as nat,
            count <= dtot <= 500,
            end <= MAX_BUF_LEN,
            dtot + sep_count(g, dtot) * l + 14 <= end,
            sep_wf(*sep, end as int, c, g),
            idx as int == end - c - sep_count(g, c) * l,
            buf.inner@.subrange(idx as int, end as int) =~= grouped_at(zeros(c), 0, sb, g),
            forall|j: int|
                0 <= j < MAX_BUF_LEN && !(idx <= j < end) ==> buf.inner@[j] == old(
                    buf,
                ).inner@[j],
        decreases count - zi,
    {
        proof {
            lemma_sep_count_bound(g, c);
            lemma_sep_count_mono(g, (c + 1) as nat, dtot);
            lemma_boundary_step(g, c);
            assert(sep_count(g, c) * l <= sep_count(g, dtot) * l) by (nonlinear_arith)
                requires
                    sep_count(g, c) <= sep_count(g, dtot),
                    l >= 0,
            ;
            assert(sep_count(g, c) * l >= 0) by (nonlinear_arith);
            assert(idx >= l + 2);
        }
        let ghost prev_inner = buf.inner@;
        let rdg = write_digit_grouped(buf, idx, sep, 0, Ghost(end as int), Ghost(c), Ghost(g));
        proof {
            lemma_grouped_at_split(seq![48u8], zeros(c), 0, sb, g);
            assert(zeros((c + 1) as nat) =~= seq![48u8] + zeros(c));
            assert(buf.inner@.subrange(idx as int, end as int) =~= prev_inner.subrange(
                idx as int,
                end as int,
            ));
            assert(buf.inner@.subrange(rdg as int, end as int) =~= buf.inner@.subrange(
                rdg as int,
                idx as int,
            ) + buf.inner@.subrange(idx as int, end as int));
            c = (c + 1) as nat;
            assert(buf.inner@.subrange(rdg as int, end as int) =~= grouped_at(
                zeros(c),
                0,
                sb,
                g,
            ));
        }
        idx = rdg;
        zi = zi + 1;
    }
    idx
}

/// Lay out `mantissa * 10^k` with the integer portion grouped, ending at
/// `pos`; returns the index of the first written byte.
#[verifier::rlimit(100)]
pub fn write_decimal_grouped(
    buf: &mut Buffer,
    pos: usize,
    mantissa: u64,
    k: i32,
    sep_slice: &[u8],
    grouping: Grouping,
) -> (r: usize)
    requires
        old(buf).wf(),
        pos <= MAX_BUF_LEN,
        -400 <= k <= 400,
        1 <= sep_slice@.len() <= 8,
        grouping != Grouping::Posix,
        positional_grouped(dec_digits(mantissa as nat), k as int, sep_slice@, grouping).len() + 16
            <= pos,
    ensures
        final(buf).wf(),
        final(buf).pos == old(buf).pos,
        final(buf).end == old(buf).end,
        final(buf).table@ == old(buf).table@,
        r + positional_grouped(dec_digits(mantissa as nat), k as int, sep_slice@, grouping).len()
            == pos,
        final(buf).inner@.subrange(r as int, pos as int) =~= positional_grouped(
            dec_digits(mantissa as nat),
            k as int,
            sep_slice@,
            grouping,
        ),
        forall|j: int|
            0 <= j < MAX_BUF_LEN && !(r <= j < pos) ==> final(buf).inner@[j] == old(
                buf,
            ).inner@[j],
{
    let ghost sb = sep_slice@;
    let ghost l = sb.len();
    let ghost g = grouping;
    let ghost digits = dec_digits(mantissa as nat);
    proof {
        lemma_pow10_values();
        lemma_dec_len_bounds(mantissa as nat);
        lemma_dec_digits_all_digits(mantissa as nat);
        lemma_boundary_step(g, 0);
    }
    let length: u32 = u64_dec_len(mantissa);
    let step: isize = if grouping == Grouping::Standard {
        4
    } else {
        3
    };
    if k >= 0 {
        // Integer-valued: grouped digits and trailing zeros, then ".0".
        let ghost dtot = (dec_len(mantissa as nat) + k) as nat;
        proof {
            lemma_grouped_at_split(digits, zeros(k as nat), 0, sb, g);
            lemma_grouped_at_len(digits + zeros(k as nat), 0, sb, g);
            lemma_sep_count_bound(g, dtot);
            assert((digits + zeros(k as nat)).len() == dtot);
            assert(sep_count(g, 0nat) == 0);
            assert(sep_count(g, dtot) * l >= 0) by (nonlinear_arith);
        }
        buf.set_byte(pos - 1, 48);
        buf.set_byte(pos - 2, 46);
        let end2: usize = pos - 2;
        let mut sep = Sep { sep: sep_slice, pos: end2 as isize - 4, step };
        let ghost c: nat = k as nat;
        proof {
            assert(sep_count(g, 0nat) * l == 0) by (nonlinear_arith)
                requires
                    sep_count(g, 0nat) == 0,
            ;
            assert(sep_wf(sep, end2 as int, 0nat, g));
        }
        let idx = write_zeros_grouped(buf, &mut sep, k as u32, end2, Ghost(g), Ghost(dtot));
        proof {
            assert(buf.inner@.subrange(end2 as int, pos as int) =~= seq![46u8, 48u8]);
        }
        let ghost prev_inner = buf.inner@;
        let rm = write_mantissa_with_sep(
            buf,
            idx,
            &mut sep,
            mantissa,
            Ghost(end2 as int),
            Ghost(c),
            Ghost(g),
        );
        proof {
            assert(buf.inner@.subrange(idx as int, pos as int) =~= prev_inner.subrange(
                idx as int,
                pos as int,
            ));
            assert(buf.inner@.subrange(rm as int, pos as int) =~= buf.inner@.subrange(
                rm as int,
                idx as int,
            ) + buf.inner@.subrange(idx as int, end2 as int) + buf.inner@.subrange(
                end2 as int,
                pos as int,
            ));
            assert(buf.inner@.subrange(rm as int, pos as int) =~= grouped_at(digits, c, sb, g)
                + grouped_at(zeros(c), 0, sb, g) + seq![46u8, 48u8]);
            assert(grouped(digits + zeros(k as nat), sb, g) =~= grouped_at(digits, c, sb, g)
                + grouped_at(zeros(c), 0, sb, g));
            assert(buf.inner@.subrange(rm as int, pos as int) =~= positional_grouped(
                digits,
                k as int,
                sb,
                g,
            ));
        }
        rm
    } else if length as i32 + k > 0 {
        // The decimal point falls inside the digits; only the integer part
        // is grouped.
        let negk: u32 = (-k) as u32;
        proof {
            lemma_dec_len_lower(mantissa as nat, negk as nat);
        }
        let p: u64 = pow10_u64(negk);
        let frac: u64 = mantissa % p;
        let ipart: u64 = mantissa / p;
        proof {
            lemma_dec_digits_split(mantissa as nat, negk as nat);
            lemma_dec_digits_all_digits(ipart as nat);
            let kk = digits.len() + k;
            assert(digits.take(kk) =~= dec_digits(ipart as nat));
            assert(digits.skip(kk) =~= dec_digits_pad(frac as nat, negk as nat));
            lemma_grouped_at_len(dec_digits(ipart as nat), 0, sb, g);
            lemma_sep_count_bound(g, dec_len(ipart as nat));
            assert(sep_count(g, 0nat) == 0);
            assert(sep_count(g, dec_len(ipart as nat)) * l >= 0) by (nonlinear_arith);
        }
        let rf = crate::itoa::integer64::write_u64(frac, buf, pos);
        let target: usize = pos - (negk as usize);
        buf.fill_zeros(target, rf);
        buf.set_byte(target - 1, 46);
        let end2: usize = target - 1;
        proof {
            assert(buf.inner@.subrange(end2 as int, pos as int) =~= seq![46u8] + dec_digits_pad(
                frac as nat,
                negk as nat,
            ));
        }
        let mut sep = Sep { sep: sep_slice, pos: end2 as isize - 4, step };
        proof {
            assert(sep_count(g, 0nat) * l == 0) by (nonlinear_arith)
                requires
                    sep_count(g, 0nat) == 0,
            ;
            assert(sep_wf(sep, end2 as int, 0nat, g));
        }
        let ghost prev_inner = buf.inner@;
        let rm = write_mantissa_with_sep(
            buf,
            end2,
            &mut sep,
            ipart,
            Ghost(end2 as int),
            Ghost(0nat),
            Ghost(g),
        );
        proof {
            let kk = digits.len() + k;
            assert(buf.inner@.subrange(end2 as int, pos as int) =~= prev_inner.subrange(
                end2 as int,
                pos as int,
            ));
            assert(buf.inner@.subrange(rm as int, pos as int) =~= buf.inner@.subrange(
                rm as int,
                end2 as int,
            ) + buf.inner@.subrange(end2 as int, pos as int));
            assert(buf.inner@.subrange(rm as int, pos as int) =~= grouped(
                digits.take(kk),
                sb,
                g,
            ) + seq![46u8] + digits.skip(kk));
        }
        rm
    } else {
        // Below one: "0.", leading zeros, then the digits; never grouped.
        let rz = crate::itoa::integer64::write_u64(mantissa, buf, pos);
        let zn: usize = ((-(length as i32 + k)) as u32) as usize;
        let zlo: usize = rz - zn;
        buf.fill_zeros(zlo, rz);
        buf.set_byte(zlo - 1, 46);
        buf.set_byte(zlo - 2, 48);
        let r = zlo - 2;
        proof {
            let kk = digits.len() + k;
            assert(buf.inner@.subrange(r as int, pos as int) =~= seq![48u8, 46u8] + zeros(
                (-kk) as nat,
            ) + digits);
        }
        r
    }
}


/// Digit strings and zero padding are ASCII, so every positional layout of
/// a decimal under a policy with valid strings is valid UTF-8.
pub proof fn lemma_float_body_valid(mantissa: nat, k: int, neg: bool, m: FormatModel)
    requires
        valid_utf8(m.minus),
        valid_utf8(m.separator),
    ensures
        valid_utf8(float_body(mantissa, k, neg, m)),
{
    let digits = dec_digits(mantissa);
    let kk = digits.len() + k;
    lemma_dec_digits_all_digits(mantissa);
    assert(forall|i: int| 0 <= i < digits.len() ==> #[trigger] digits[i] < 0x80);
    let body = if m.separator.len() == 0 || m.grouping == Grouping::Posix {
        positional(digits, k)
    } else {
        positional_grouped(digits, k, m.separator, m.grouping)
    };
    assert(valid_utf8(body)) by {
        if m.separator.len() == 0 || m.grouping == Grouping::Posix {
            if k >= 0 {
                lemma_ascii_seq_valid(digits + zeros(k as nat) + seq![46u8, 48u8]);
            } else if kk > 0 {
                lemma_ascii_seq_valid(digits.take(kk) + seq![46u8] + digits.skip(kk));
            } else {
                lemma_ascii_seq_valid(seq![48u8, 46u8] + zeros((-kk) as nat) + digits);
            }
        } else {
            if k >= 0 {
                let idigits = digits + zeros(k as nat);
                lemma_grouped_at_valid(idigits, 0, m.separator, m.grouping);
                lemma_ascii_seq_valid(seq![46u8, 48u8]);
                lemma_valid_utf8_concat(grouped(idigits, m.separator, m.grouping), seq![
                    46u8,
                    48u8,
                ]);
            } else if kk > 0 {
                lemma_grouped_at_valid(digits.take(kk), 0, m.separator, m.grouping);
                lemma_ascii_seq_valid(seq![46u8] + digits.skip(kk));
                lemma_valid_utf8_concat(
                    grouped(digits.take(kk), m.separator, m.grouping),
                    seq![46u8] + digits.skip(kk),
                );
                assert(grouped(digits.take(kk), m.separator, m.grouping) + (seq![46u8]
                    + digits.skip(kk)) =~= grouped(digits.take(kk), m.separator, m.grouping)
                    + seq![46u8] + digits.skip(kk));
            } else {
                lemma_ascii_seq_valid(seq![48u8, 46u8] + zeros((-kk) as nat) + digits);
            }
        }
    }
    if neg {
        lemma_valid_utf8_concat(m.minus, body);
    } else {
        assert(Seq::<u8>::empty() + body =~= body);
    }
}

/// Room that always suffices for one formatted float, sign included.
pub const FLOAT_FORMAT_ROOM: usize = 1830;

/// Worst-case widths of the positional layouts for any decimal form a
/// float decomposition can produce.
pub proof fn lemma_float_body_len(digits: Seq<u8>, k: int, sep: Seq<u8>, g: Grouping)
    requires
        1 <= digits.len() <= 20,
        -330 <= k <= 340,
        sep.len() <= 8,
    ensures
        positional(digits, k).len() <= 400,
        positional_grouped(digits, k, sep, g).len() <= 1802,
    decreases 0int,
{
    let kk = digits.len() + k;
    if k >= 0 {
        let idigits = digits + zeros(k as nat);
        lemma_grouped_at_len(idigits, 0, sep, g);
        lemma_sep_count_bound(g, idigits.len());
        assert(sep_count(g, 0nat) == 0);
        assert(idigits.len() <= 360);
        assert(sep_count(g, idigits.len()) * sep.len() <= 180 * 8) by (nonlinear_arith)
            requires
                sep_count(g, idigits.len()) <= 180,
                sep.len() <= 8,
        ;
        assert(sep_count(g, idigits.len()) * sep.len() >= 0) by (nonlinear_arith);
    } else if kk > 0 {
        lemma_grouped_at_len(digits.take(kk), 0, sep, g);
        lemma_sep_count_bound(g, digits.take(kk).len());
        assert(sep_count(g, 0nat) == 0);
        assert(sep_count(g, digits.take(kk).len()) * sep.len() <= 10 * 8) by (nonlinear_arith)
            requires
                sep_count(g, digits.take(kk).len()) <= 10,
                sep.len() <= 8,
        ;
        assert(sep_count(g, digits.take(kk).len()) * sep.len() >= 0) by (nonlinear_arith);
    } else {
    }
}

/// Print the finite binary64 `f` ending at `pos` under `format`; returns
/// the index of the first written byte. The cursor `buf.pos` is not moved.
#[verifier::rlimit(100)]
pub fn format64<Fmt: Format>(f: crate::ryu::float::FloatBits64, buf: &mut Buffer, pos: usize, format: &Fmt) -> (r: usize)
    requires
        old(buf).wf(),
        FLOAT_FORMAT_ROOM <= pos <= MAX_BUF_LEN,
        !f.spec_nonfinite(),
    ensures
        final(buf).wf(),
        final(buf).pos == old(buf).pos,
        final(buf).end == old(buf).end,
        final(buf).table@ == old(buf).table@,
        r <= pos,
        forall|j: int|
            0 <= j < MAX_BUF_LEN && !(r <= j < pos) ==> final(buf).inner@[j] == old(
                buf,
            ).inner@[j],
        valid_utf8(final(buf).inner@.subrange(r as int, pos as int)),
        f.spec_zero() ==> r + 3 == pos && final(buf).inner@.subrange(r as int, pos as int) =~=
            seq![48u8, 46u8, 48u8],
        !f.spec_zero() ==> ({
            let sd = crate::ryu::d2s::spec_d2d(f.spec_mantissa(), f.spec_exponent() as u32);
            &&& final(buf).inner@.subrange(r as int, pos as int) == float_body(
                sd.0 as nat,
                sd.1,
                f.spec_negative(),
                format.model(),
            )
            &&& r + float_body(sd.0 as nat, sd.1, f.spec_negative(), format.model()).len() == pos
        }),
{
    let ieee = f.parse_ieee_data();
    if ieee.exponent == 0 && ieee.mantissa == 0 {
        buf.set_byte(pos - 1, 48);
        buf.set_byte(pos - 2, 46);
        buf.set_byte(pos - 3, 48);
        proof {
            assert(buf.inner@.subrange(pos - 3, pos as int) =~= seq![48u8, 46u8, 48u8]);
            lemma_ascii_seq_valid(buf.inner@.subrange(pos - 3, pos as int));
        }
        pos - 3
    } else {
        let v = crate::ryu::d2s::d2d(ieee.mantissa, ieee.exponent);
        let md: u64 = v.mantissa;
        let separator = format.separator();
        let grouping = format.grouping();
        let minus = format.minus_sign();
        let sep_bytes = separator.as_bytes();
        let ghost m = format.model();
        proof {
            lemma_dec_len_bounds(md as nat);
            lemma_dec_digits_all_digits(md as nat);
            lemma_float_body_len(dec_digits(md as nat), v.exponent as int, m.separator, m.grouping);
        }
        let body_r = if sep_bytes.len() == 0 || grouping == Grouping::Posix {
            write_decimal_posix(buf, pos, md, v.exponent)
        } else {
            write_decimal_grouped(buf, pos, md, v.exponent, sep_bytes, grouping)
        };
        let ghost body = if m.separator.len() == 0 || m.grouping == Grouping::Posix {
            positional(dec_digits(md as nat), v.exponent as int)
        } else {
            positional_grouped(dec_digits(md as nat), v.exponent as int, m.separator, m.grouping)
        };
        let ghost mid = buf.inner@;
        let r = if ieee.is_negative {
            let mb = minus.as_bytes();
            let dst = body_r - mb.len();
            buf.write_bytes_at(dst, mb);
            proof {
                assert(buf.inner@.subrange(body_r as int, pos as int) =~= mid.subrange(
                    body_r as int,
                    pos as int,
                ));
                assert(buf.inner@.subrange(dst as int, pos as int) =~= m.minus + body);
            }
            dst
        } else {
            proof {
                assert(buf.inner@.subrange(body_r as int, pos as int) =~= Seq::<u8>::empty()
                    + body);
            }
            body_r
        };
        proof {
            assert(buf.inner@.subrange(r as int, pos as int) == float_body(
                md as nat,
                v.exponent as int,
                f.spec_negative(),
                m,
            ));
            lemma_float_body_valid(md as nat, v.exponent as int, f.spec_negative(), m);
        }
        r
    }
}

/// Print the finite binary32 `f` ending at `pos` under `format`; returns
/// the index of the first written byte. The cursor `buf.pos` is not moved.
#[verifier::rlimit(100)]
pub fn format32<Fmt: Format>(f: crate::ryu::float::FloatBits32, buf: &mut Buffer, pos: usize, format: &Fmt) -> (r: usize)
    requires
        old(buf).wf(),
        FLOAT_FORMAT_ROOM <= pos <= MAX_BUF_LEN,
        !f.spec_nonfinite(),
    ensures
        final(buf).wf(),
        final(buf).pos == old(buf).pos,
        final(buf).end == old(buf).end,
        final(buf).table@ == old(buf).table@,
        r <= pos,
        forall|j: int|
            0 <= j < MAX_BUF_LEN && !(r <= j < pos) ==> final(buf).inner@[j] == old(
                buf,
            ).inner@[j],
        valid_utf8(final(buf).inner@.subrange(r as int, pos as int)),
        f.spec_zero() ==> r + 3 == pos && final(buf).inner@.subrange(r as int, pos as int) =~=
            seq![48u8, 46u8, 48u8],
        !f.spec_zero() ==> ({
            let sd = crate::ryu::f2s::spec_f2d(f.spec_mantissa(), f.spec_exponent());
            &&& final(buf).inner@.subrange(r as int, pos as int) == float_body(
                sd.0 as nat,
                sd.1,
                f.spec_negative(),
                format.model(),
            )
            &&& r + float_body(sd.0 as nat, sd.1, f.spec_negative(), format.model()).len() == pos
        }),
{
    let ieee = f.parse_ieee_data();
    if ieee.exponent == 0 && ieee.mantissa == 0 {
        buf.set_byte(pos - 1, 48);
        buf.set_byte(pos - 2, 46);
        buf.set_byte(pos - 3, 48);
        proof {
            assert(buf.inner@.subrange(pos - 3, pos as int) =~= seq![48u8, 46u8, 48u8]);
            lemma_ascii_seq_valid(buf.inner@.subrange(pos - 3, pos as int));
        }
        pos - 3
    } else {
        let v = crate::ryu::f2s::f2d(ieee.mantissa, ieee.exponent);
        let md: u64 = v.mantissa as u64;
        let separator = format.separator();
        let grouping = format.grouping();
        let minus = format.minus_sign();
        let sep_bytes = separator.as_bytes();
        let ghost m = format.model();
        proof {
            lemma_dec_len_bounds(md as nat);
            lemma_dec_digits_all_digits(md as nat);
            lemma_float_body_len(dec_digits(md as nat), v.exponent as int, m.separator, m.grouping);
        }
        let body_r = if sep_bytes.len() == 0 || grouping == Grouping::Posix {
            write_decimal_posix(buf, pos, md, v.exponent)
        } else {
            write_decimal_grouped(buf, pos, md, v.exponent, sep_bytes, grouping)
        };
        let ghost body = if m.separator.len() == 0 || m.grouping == Grouping::Posix {
            positional(dec_digits(md as nat), v.exponent as int)
        } else {
            positional_grouped(dec_digits(md as nat), v.exponent as int, m.separator, m.grouping)
        };
        let ghost mid = buf.inner@;
        let r = if ieee.is_negative {
            let mb = minus.as_bytes();
            let dst = body_r - mb.len();
            buf.write_bytes_at(dst, mb);
            proof {
                assert(buf.inner@.subrange(body_r as int, pos as int) =~= mid.subrange(
                    body_r as int,
                    pos as int,
                ));
                assert(buf.inner@.subrange(dst as int, pos as int) =~= m.minus + body);
            }
            dst
        } else {
            proof {
                assert(buf.inner@.subrange(body_r as int, pos as int) =~= Seq::<u8>::empty()
                    + body);
            }
            body_r
        };
        proof {
            assert(buf.inner@.subrange(r as int, pos as int) == float_body(
                md as nat,
                v.exponent as int,
                f.spec_negative(),
                m,
            ));
            lemma_float_body_valid(md as nat, v.exponent as int, f.spec_negative(), m);
        }
        r
    }
}

} // verus!
