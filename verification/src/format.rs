//! The formatting policy interface and the separator-aware digit writers:
//! one- and two-byte writes that splice the separator into the digit stream
//! whenever the write crosses the next grouping boundary.

use crate::buffer::{digit_table_spec, Buffer};
use crate::constants::MAX_BUF_LEN;
use crate::grouping::{grouped_at, lemma_boundary_step, lemma_sep_count_bound, next_boundary, sep_boundary, sep_count, step_of, Grouping};
use crate::strings::{
    DecimalStr, InfinityStr, MinusSignStr, NanStr, PlusSignStr, SeparatorStr, MAX_DEC_LEN,
    MAX_INF_LEN, MAX_MIN_LEN, MAX_NAN_LEN, MAX_PLUS_LEN, MAX_SEP_LEN,
};
use vstd::prelude::*;

verus! {

/// The mathematical content of a formatting policy: what each contract sees
/// of a [`Format`] implementation.
pub struct FormatModel {
    pub decimal: Seq<u8>,
    pub grouping: Grouping,
    pub infinity: Seq<u8>,
    pub minus: Seq<u8>,
    pub nan: Seq<u8>,
    pub plus: Seq<u8>,
    pub separator: Seq<u8>,
}

/// Every policy string within its documented maximum length.
pub open spec fn format_model_wf(m: FormatModel) -> bool {
    &&& m.decimal.len() <= MAX_DEC_LEN
    &&& m.infinity.len() <= MAX_INF_LEN
    &&& m.minus.len() <= MAX_MIN_LEN
    &&& m.nan.len() <= MAX_NAN_LEN
    &&& m.plus.len() <= MAX_PLUS_LEN
    &&& m.separator.len() <= MAX_SEP_LEN
}

/// Trait that abstracts over [`crate::custom_format::CustomFormat`],
/// [`crate::locale::Locale`], and `SystemLocale`.
pub trait Format {
    /// What the policy's strings and grouping mode are, mathematically.
    spec fn model(&self) -> FormatModel;

    /// Returns the string representation of a decimal point.
    fn decimal(&self) -> (r: DecimalStr<'_>)
        ensures
            r.bytes() == self.model().decimal,
            r.wf(),
    ;

    /// Returns the grouping mode to use for separating digits.
    fn grouping(&self) -> (g: Grouping)
        ensures
            g == self.model().grouping,
    ;

    /// Returns the string representation of an infinity symbol.
    fn infinity(&self) -> (r: InfinityStr<'_>)
        ensures
            r.bytes() == self.model().infinity,
            r.wf(),
    ;

    /// Returns the string representation of a minus sign.
    fn minus_sign(&self) -> (r: MinusSignStr<'_>)
        ensures
            r.bytes() == self.model().minus,
            r.wf(),
    ;

    /// Returns the string representation of NaN.
    fn nan(&self) -> (r: NanStr<'_>)
        ensures
            r.bytes() == self.model().nan,
            r.wf(),
    ;

    /// Returns the string representation of a plus sign.
    fn plus_sign(&self) -> (r: PlusSignStr<'_>)
        ensures
            r.bytes() == self.model().plus,
            r.wf(),
    ;

    /// Returns the string representation of a thousands separator.
    fn separator(&self) -> (r: SeparatorStr<'_>)
        ensures
            r.bytes() == self.model().separator,
            r.wf(),
    ;
}

/// The ephemeral grouping cursor of one grouped write: the separator bytes,
/// the buffer index at which the next insertion triggers, and the cursor's
/// per-insertion step. It owns nothing; the separator is borrowed for the
/// call.
pub struct Sep<'a> {
    pub sep: &'a [u8],
    pub pos: isize,
    pub step: isize,
}

/// The grouping cursor is in step with a write that has deposited the last
/// `c` digits of its integer part just below `end`.
pub open spec fn sep_wf(s: Sep<'_>, end: int, c: nat, g: Grouping) -> bool {
    &&& 1 <= s.sep@.len() <= MAX_SEP_LEN
    &&& g != Grouping::Posix
    &&& s.step == step_of(g)
    &&& s.pos == end - next_boundary(g, c) - sep_count(g, c) * s.sep@.len() - 1
}

/// Write one digit byte below `index`, splicing in the full separator first
/// when `index` has reached the cursor's trigger position; returns the index
/// of the written digit.
pub fn write_one_byte_with_sep(buf: &mut Buffer, index: usize, sep: &mut Sep<'_>, table_index:
    usize) -> (r: usize)
    requires
        old(buf).wf(),
        index <= MAX_BUF_LEN,
        table_index < 200,
        1 <= old(sep).sep@.len() <= MAX_SEP_LEN,
        0 <= old(sep).step <= 4,
        -100000 <= old(sep).pos < index as int,
        old(sep).pos == index - 1 ==> index >= old(sep).sep@.len() + 2,
        index >= 1,
    ensures
        final(buf).wf(),
        final(buf).pos == old(buf).pos,
        final(buf).end == old(buf).end,
        final(buf).table@ == old(buf).table@,
        final(sep).sep@ == old(sep).sep@,
        final(sep).step == old(sep).step,
        r < index,
        forall|j: int|
            0 <= j < MAX_BUF_LEN && !(r <= j < index) ==> final(buf).inner@[j] == old(
                buf,
            ).inner@[j],
        old(sep).pos == index - 1 ==> {
            &&& r + old(sep).sep@.len() + 1 == index
            &&& final(sep).pos == old(sep).pos - old(sep).step - (old(sep).sep@.len() - 1)
            &&& final(buf).inner@.subrange(r as int, index as int) =~= seq![
                digit_table_spec(table_index as int),
            ] + old(sep).sep@
        },
        old(sep).pos != index - 1 ==> {
            &&& r + 1 == index
            &&& final(sep).pos == old(sep).pos
            &&& final(buf).inner@.subrange(r as int, index as int) =~= seq![
                digit_table_spec(table_index as int),
            ]
        },
{
    let mut i: usize = index - 1;
    if sep.pos == i as isize {
        let l: usize = sep.sep.len();
        i = i - (l - 1);
        // copy the separator into [i, i + l)
        let mut k: usize = 0;
        while k < l
            invariant
                buf.wf(),
                k <= l,
                l == sep.sep@.len(),
                i + l <= index <= MAX_BUF_LEN,
                forall|j: int| i <= j < i + k ==> buf.inner@[j] == sep.sep@[j - i],
                forall|j: int|
                    0 <= j < MAX_BUF_LEN && !(i <= j < i + k) ==> buf.inner@[j] == old(
                        buf,
                    ).inner@[j],
                buf.pos == old(buf).pos,
                buf.end == old(buf).end,
                buf.table@ == old(buf).table@,
            decreases l - k,
        {
            let b = sep.sep[k];
            buf.set_byte(i + k, b);
            k = k + 1;
        }
        sep.pos = sep.pos - sep.step - (l as isize - 1);
        i = i - 1;
        let b = buf.table_at(table_index);
        buf.set_byte(i, b);
        proof {
            assert(buf.inner@.subrange(i as int, index as int) =~= seq![
                digit_table_spec(table_index as int),
            ] + old(sep).sep@);
        }
        i
    } else {
        let b = buf.table_at(table_index);
        buf.set_byte(i, b);
        proof {
            assert(buf.inner@.subrange(i as int, index as int) =~= seq![
                digit_table_spec(table_index as int),
            ]);
        }
        i
    }
}

/// Write a digit pair below `index` through the grouping cursor; the low
/// digit of the pair goes first. With a cursor step of at least 3, at most
/// one of the two writes splices a separator.
pub fn write_two_bytes_with_sep(buf: &mut Buffer, index: usize, sep: &mut Sep<'_>, table_index:
    usize) -> (r: usize)
    requires
        old(buf).wf(),
        index <= MAX_BUF_LEN,
        table_index + 1 < 200,
        1 <= old(sep).sep@.len() <= MAX_SEP_LEN,
        3 <= old(sep).step <= 4,
        -100000 <= old(sep).pos < index as int,
        index >= old(sep).sep@.len() + 3,
    ensures
        final(buf).wf(),
        final(buf).pos == old(buf).pos,
        final(buf).end == old(buf).end,
        final(buf).table@ == old(buf).table@,
        final(sep).sep@ == old(sep).sep@,
        final(sep).step == old(sep).step,
        r < index,
        forall|j: int|
            0 <= j < MAX_BUF_LEN && !(r <= j < index) ==> final(buf).inner@[j] == old(
                buf,
            ).inner@[j],
        old(sep).pos == index - 1 ==> {
            &&& r + old(sep).sep@.len() + 2 == index
            &&& final(sep).pos == old(sep).pos - old(sep).step - (old(sep).sep@.len() - 1)
            &&& final(buf).inner@.subrange(r as int, index as int) =~= seq![
                digit_table_spec(table_index as int),
                digit_table_spec(table_index + 1),
            ] + old(sep).sep@
        },
        old(sep).pos == index - 2 ==> {
            &&& r + old(sep).sep@.len() + 2 == index
            &&& final(sep).pos == old(sep).pos - old(sep).step - (old(sep).sep@.len() - 1)
            &&& final(buf).inner@.subrange(r as int, index as int) =~= seq![
                digit_table_spec(table_index as int),
            ] + old(sep).sep@ + seq![digit_table_spec(table_index + 1)]
        },
        (old(sep).pos != index - 1 && old(sep).pos != index - 2) ==> {
            &&& r + 2 == index
            &&& final(sep).pos == old(sep).pos
            &&& final(buf).inner@.subrange(r as int, index as int) =~= seq![
                digit_table_spec(table_index as int),
                digit_table_spec(table_index + 1),
            ]
        },
{
    let index1 = write_one_byte_with_sep(buf, index, sep, table_index + 1);
    let ghost mid = buf.inner@;
    let index0 = write_one_byte_with_sep(buf, index1, sep, table_index);
    proof {
        assert(buf.inner@.subrange(index1 as int, index as int) =~= mid.subrange(
            index1 as int,
            index as int,
        ));
        assert(buf.inner@.subrange(index0 as int, index as int) =~= buf.inner@.subrange(
            index0 as int,
            index1 as int,
        ) + buf.inner@.subrange(index1 as int, index as int));
        if old(sep).pos == index - 1 {
            assert(buf.inner@.subrange(index0 as int, index as int) =~= seq![
                digit_table_spec(table_index as int),
                digit_table_spec(table_index + 1),
            ] + old(sep).sep@);
        } else if old(sep).pos == index - 2 {
            assert(buf.inner@.subrange(index0 as int, index as int) =~= seq![
                digit_table_spec(table_index as int),
            ] + old(sep).sep@ + seq![digit_table_spec(table_index + 1)]);
        } else {
            assert(buf.inner@.subrange(index0 as int, index as int) =~= seq![
                digit_table_spec(table_index as int),
                digit_table_spec(table_index + 1),
            ]);
        }
    }
    index0
}

/// The two table bytes of a two-digit group are its digits.
pub(crate) proof fn lemma_pair_table(pair: nat)
    requires
        pair < 100,
    ensures
        digit_table_spec(2 * pair as int) == (48 + pair / 10) as u8,
        digit_table_spec(2 * pair as int + 1) == (48 + pair % 10) as u8,
{
    assert((2 * pair as int) % 2 == 0 && (2 * pair as int) / 2 == pair as int) by (nonlinear_arith);
    assert((2 * pair as int + 1) % 2 == 1 && (2 * pair as int + 1) / 2 == pair as int)
        by (nonlinear_arith);
}

/// The grouping cursor's trigger index is never far below the write index.
pub(crate) proof fn lemma_sep_pos_bounds(s: Sep<'_>, end: int, c: nat, g: Grouping)
    requires
        sep_wf(s, end, c, g),
        0 <= end,
        c <= 2 * MAX_BUF_LEN,
    ensures
        s.pos >= end - c - 3 - sep_count(g, c) * s.sep@.len() - 1,
        s.pos >= -100000,
        s.pos <= end - c - sep_count(g, c) * s.sep@.len() - 1,
    decreases 0int,
{
    lemma_boundary_step(g, c);
    lemma_sep_count_bound(g, c);
    assert(sep_count(g, c) * s.sep@.len() <= sep_count(g, c) * 8) by (nonlinear_arith)
        requires
            s.sep@.len() <= 8,
    ;
    assert(sep_count(g, c) * s.sep@.len() >= 0) by (nonlinear_arith);
}

/// Write one digit of a grouped integer part: digit number `c + 1` counted
/// from the least significant, with the cursor in step for `c`.
pub(crate) fn write_digit_grouped(
    buf: &mut Buffer,
    index: usize,
    sep: &mut Sep<'_>,
    digit: u8,
    Ghost(end): Ghost<int>,
    Ghost(c): Ghost<nat>,
    Ghost(g): Ghost<Grouping>,
) -> (r: usize)
    requires
        old(buf).wf(),
        digit < 10,
        sep_wf(*old(sep), end, c, g),
        c <= 2 * MAX_BUF_LEN,
        0 <= end <= MAX_BUF_LEN,
        index as int == end - c - sep_count(g, c) * old(sep).sep@.len(),
        index >= old(sep).sep@.len() + 2,
    ensures
        final(buf).wf(),
        final(buf).pos == old(buf).pos,
        final(buf).end == old(buf).end,
        final(buf).table@ == old(buf).table@,
        final(sep).sep@ == old(sep).sep@,
        final(sep).step == old(sep).step,
        sep_wf(*final(sep), end, (c + 1) as nat, g),
        r < index,
        r as int == end - (c + 1) - sep_count(g, (c + 1) as nat) * old(sep).sep@.len(),
        final(buf).inner@.subrange(r as int, index as int) =~= grouped_at(
            seq![(48 + digit) as u8],
            c,
            old(sep).sep@,
            g,
        ),
        forall|j: int|
            0 <= j < MAX_BUF_LEN && !(r <= j < index) ==> final(buf).inner@[j] == old(
                buf,
            ).inner@[j],
{
    proof {
        lemma_boundary_step(g, c);
        lemma_sep_pos_bounds(*sep, end, c, g);
        lemma_pair_table(digit as nat);
        assert(digit_table_spec(2 * digit as int + 1) == (48 + digit) as u8) by {
            vstd::arithmetic::div_mod::lemma_small_mod(digit as nat, 10);
        }
    }
    let ti: usize = (digit as usize) * 2 + 1;
    let r = write_one_byte_with_sep(buf, index, sep, ti);
    proof {
        let sb = old(sep).sep@;
        let l = sb.len() as int;
        let db = (48 + digit) as u8;
        assert(grouped_at(seq![db], c, sb, g) =~= (if sep_boundary(g, c) {
            seq![db] + sb
        } else {
            seq![db]
        })) by {
            assert(seq![db].drop_first() =~= Seq::<u8>::empty());
            assert(grouped_at(Seq::<u8>::empty(), c, sb, g) =~= Seq::<u8>::empty());
        }
        let s0 = sep_count(g, c) as int;
        let s1 = sep_count(g, (c + 1) as nat) as int;
        if sep_boundary(g, c) {
            assert(s1 == s0 + 1);
            assert(s1 * l == s0 * l + l) by (nonlinear_arith)
                requires
                    s1 == s0 + 1,
            ;
        } else {
            assert(s1 == s0);
        }
        if sep_boundary(g, c) {
            assert(old(sep).pos == index - 1);
            assert(buf.inner@.subrange(r as int, index as int) =~= grouped_at(
                seq![(48 + digit) as u8],
                c,
                old(sep).sep@,
                g,
            ));
        } else {
            assert(old(sep).pos != index - 1);
            assert(buf.inner@.subrange(r as int, index as int) =~= grouped_at(
                seq![(48 + digit) as u8],
                c,
                old(sep).sep@,
                g,
            ));
        }
    }
    r
}

/// Write a two-digit group of a grouped integer part: digits `c + 1` and
/// `c + 2` counted from the least significant, with the cursor in step for
/// `c`.
pub(crate) fn write_pair_grouped(
    buf: &mut Buffer,
    index: usize,
    sep: &mut Sep<'_>,
    pair: u8,
    Ghost(end): Ghost<int>,
    Ghost(c): Ghost<nat>,
    Ghost(g): Ghost<Grouping>,
) -> (r: usize)
    requires
        old(buf).wf(),
        pair < 100,
        sep_wf(*old(sep), end, c, g),
        c <= 2 * MAX_BUF_LEN,
        0 <= end <= MAX_BUF_LEN,
        index as int == end - c - sep_count(g, c) * old(sep).sep@.len(),
        index >= old(sep).sep@.len() + 3,
    ensures
        final(buf).wf(),
        final(buf).pos == old(buf).pos,
        final(buf).end == old(buf).end,
        final(buf).table@ == old(buf).table@,
        final(sep).sep@ == old(sep).sep@,
        final(sep).step == old(sep).step,
        sep_wf(*final(sep), end, (c + 2) as nat, g),
        r < index,
        r as int == end - (c + 2) - sep_count(g, (c + 2) as nat) * old(sep).sep@.len(),
        final(buf).inner@.subrange(r as int, index as int) =~= grouped_at(
            seq![(48 + pair / 10) as u8, (48 + pair % 10) as u8],
            c,
            old(sep).sep@,
            g,
        ),
        forall|j: int|
            0 <= j < MAX_BUF_LEN && !(r <= j < index) ==> final(buf).inner@[j] == old(
                buf,
            ).inner@[j],
{
    proof {
        lemma_boundary_step(g, c);
        lemma_boundary_step(g, (c + 1) as nat);
        lemma_sep_pos_bounds(*sep, end, c, g);
        lemma_pair_table(pair as nat);
    }
    let ti: usize = (pair as usize) * 2;
    let ghost hi = (48 + pair / 10) as u8;
    let ghost lo = (48 + pair % 10) as u8;
    let r = write_two_bytes_with_sep(buf, index, sep, ti);
    proof {
        let sb = old(sep).sep@;
        let l = sb.len() as int;
        assert(grouped_at(seq![lo], c, sb, g) =~= (if sep_boundary(g, c) {
            seq![lo] + sb
        } else {
            seq![lo]
        })) by {
            assert(seq![lo].drop_first() =~= Seq::<u8>::empty());
            assert(grouped_at(Seq::<u8>::empty(), c, sb, g) =~= Seq::<u8>::empty());
        }
        assert(seq![hi, lo].drop_first() =~= seq![lo]);
        assert(grouped_at(seq![hi, lo], c, sb, g) =~= (if sep_boundary(g, (c + 1) as nat) {
            seq![hi] + sb + grouped_at(seq![lo], c, sb, g)
        } else {
            seq![hi] + grouped_at(seq![lo], c, sb, g)
        }));
        let s0 = sep_count(g, c) as int;
        let s1 = sep_count(g, (c + 1) as nat) as int;
        let s2 = sep_count(g, (c + 2) as nat) as int;
        if sep_boundary(g, c) {
            // insertion with the low digit
            assert(s1 == s0 + 1 && s2 == s1);
            assert(s2 * l == s0 * l + l) by (nonlinear_arith)
                requires
                    s2 == s0 + 1,
            ;
            assert(old(sep).pos == index - 1);
            assert(next_boundary(g, (c + 2) as nat) == next_boundary(g, c) + step_of(g) - 1);
            assert(buf.inner@.subrange(r as int, index as int) =~= seq![hi, lo] + sb);
            assert(grouped_at(seq![hi, lo], c, sb, g) =~= seq![hi, lo] + sb);
        } else if sep_boundary(g, (c + 1) as nat) {
            // insertion with the high digit
            assert(s1 == s0 && s2 == s1 + 1);
            assert(s2 * l == s0 * l + l) by (nonlinear_arith)
                requires
                    s2 == s0 + 1,
            ;
            assert(next_boundary(g, c) == c + 1);
            assert(next_boundary(g, (c + 2) as nat) == c + 1 + step_of(g) - 1);
            assert(old(sep).pos == index - 2);
            assert(buf.inner@.subrange(r as int, index as int) =~= seq![hi] + sb + seq![lo]);
            assert(grouped_at(seq![hi, lo], c, sb, g) =~= seq![hi] + sb + seq![lo]);
        } else {
            // no insertion
            assert(s1 == s0 && s2 == s1);
            assert(next_boundary(g, (c + 2) as nat) == next_boundary(g, c));
            assert(next_boundary(g, c) > c + 1);
            assert(old(sep).pos != index - 1 && old(sep).pos != index - 2);
            assert(buf.inner@.subrange(r as int, index as int) =~= seq![hi, lo]);
            assert(grouped_at(seq![hi, lo], c, sb, g) =~= seq![hi, lo]);
        }
    }
    r
}

} // verus!
