//! Grouping policies and their mathematical model: where separators stand in
//! a digit string, how many there are, and the grouped form of a digit
//! sequence.

use crate::buffer::{lemma_ascii_seq_valid, lemma_valid_utf8_concat};
use vstd::prelude::*;
use vstd::utf8::valid_utf8;

verus! {

/// How digits of the integer part are grouped by a separator.
#[derive(Copy, Clone, Debug, Hash, PartialEq, Eq, Structural)]
pub enum Grouping {
    /// Separate every three digits, counted from the least significant.
    Standard,
    /// Separate the last three digits, then every two.
    Indian,
    /// Never separate.
    Posix,
}

/// Does a separator stand immediately to the left of the last `c` digits?
pub open spec fn sep_boundary(g: Grouping, c: nat) -> bool {
    match g {
        Grouping::Standard => c > 0 && c % 3 == 0,
        Grouping::Indian => c >= 3 && c % 2 == 1,
        Grouping::Posix => false,
    }
}

/// How many separators stand within the last `c` digits.
pub open spec fn sep_count(g: Grouping, c: nat) -> nat {
    match g {
        Grouping::Standard => if c == 0 {
            0nat
        } else {
            ((c - 1) as nat) / 3
        },
        Grouping::Indian => if c <= 3 {
            0nat
        } else {
            ((c - 2) as nat) / 2
        },
        Grouping::Posix => 0nat,
    }
}

/// The least boundary at or above `c` (meaningful for grouped modes).
pub open spec fn next_boundary(g: Grouping, c: nat) -> nat {
    match g {
        Grouping::Standard => if c <= 3 {
            3nat
        } else {
            (((c + 2) as nat) / 3) * 3
        },
        Grouping::Indian => if c <= 3 {
            3nat
        } else if c % 2 == 1 {
            c
        } else {
            (c + 1) as nat
        },
        Grouping::Posix => 0nat,
    }
}

/// The per-insertion advance of the separator cursor, in digit positions
/// counted one past the group width.
pub open spec fn step_of(g: Grouping) -> int {
    match g {
        Grouping::Standard => 4int,
        Grouping::Indian => 3int,
        Grouping::Posix => 0int,
    }
}

/// `digits` with the separator interleaved, knowing that `below` more digits
/// of the same integer part stand to its right.
pub open spec fn grouped_at(digits: Seq<u8>, below: nat, sep: Seq<u8>, g: Grouping) -> Seq<u8>
    decreases digits.len(),
{
    if digits.len() == 0 {
        Seq::<u8>::empty()
    } else {
        let rest = digits.drop_first();
        let tail = grouped_at(rest, below, sep, g);
        if sep_boundary(g, (rest.len() + below) as nat) {
            seq![digits[0]] + sep + tail
        } else {
            seq![digits[0]] + tail
        }
    }
}

/// A whole integer part with the separator interleaved.
pub open spec fn grouped(digits: Seq<u8>, sep: Seq<u8>, g: Grouping) -> Seq<u8> {
    grouped_at(digits, 0, sep, g)
}

/// The basic facts about `next_boundary`: it names the current position
/// exactly on a boundary, stays put over a non-boundary digit, and advances
/// by one group over a boundary digit; `sep_count` counts the crossings.
pub proof fn lemma_boundary_step(g: Grouping, c: nat)
    requires
        g != Grouping::Posix,
    ensures
        sep_boundary(g, c) <==> next_boundary(g, c) == c,
        next_boundary(g, c) >= c,
        !sep_boundary(g, c) ==> next_boundary(g, (c + 1) as nat) == next_boundary(g, c),
        !sep_boundary(g, c) ==> sep_count(g, (c + 1) as nat) == sep_count(g, c),
        sep_boundary(g, c) ==> next_boundary(g, (c + 1) as nat) == next_boundary(g, c) + step_of(g)
            - 1,
        sep_boundary(g, c) ==> sep_count(g, (c + 1) as nat) == sep_count(g, c) + 1,
        sep_boundary(g, c) ==> !sep_boundary(g, (c + 1) as nat),
        !sep_boundary(g, c) && sep_boundary(g, (c + 1) as nat) ==> next_boundary(g, c) == c + 1,
        next_boundary(g, c) <= c + 3,
        next_boundary(g, 0) == 3,
{
    match g {
        Grouping::Standard => {
            assert((3nat) % 3 == 0);
            if c > 3 {
                vstd::arithmetic::div_mod::lemma_fundamental_div_mod((c + 2) as int, 3);
                vstd::arithmetic::div_mod::lemma_fundamental_div_mod((c - 1) as int, 3);
                vstd::arithmetic::div_mod::lemma_fundamental_div_mod(c as int, 3);
                vstd::arithmetic::div_mod::lemma_fundamental_div_mod((c + 3) as int, 3);
                vstd::arithmetic::div_mod::lemma_mod_bound((c + 2) as int, 3);
                vstd::arithmetic::div_mod::lemma_mod_bound((c - 1) as int, 3);
                vstd::arithmetic::div_mod::lemma_mod_bound(c as int, 3);
                vstd::arithmetic::div_mod::lemma_mod_bound((c + 3) as int, 3);
                assert((c + 2) / 3 * 3 >= c);
            } else {
                assert(sep_boundary(g, c) <==> c == 3);
                if c == 3 {
                    assert(next_boundary(g, 4nat) == (6nat / 3) * 3);
                }
            }
        },
        Grouping::Indian => {
            if c > 3 {
                vstd::arithmetic::div_mod::lemma_fundamental_div_mod((c - 2) as int, 2);
                vstd::arithmetic::div_mod::lemma_fundamental_div_mod((c - 1) as int, 2);
                vstd::arithmetic::div_mod::lemma_fundamental_div_mod(c as int, 2);
                vstd::arithmetic::div_mod::lemma_mod_bound((c - 2) as int, 2);
                vstd::arithmetic::div_mod::lemma_mod_bound((c - 1) as int, 2);
                vstd::arithmetic::div_mod::lemma_mod_bound(c as int, 2);
            } else {
                assert(sep_boundary(g, c) <==> c == 3);
                if c == 3 {
                    assert(sep_count(g, 4nat) == (2nat) / 2);
                }
            }
        },
        Grouping::Posix => {
        },
    }
}

/// `sep_count` never decreases, so neither does the grouped width.
pub proof fn lemma_sep_count_mono(g: Grouping, a: nat, b: nat)
    requires
        a <= b,
    ensures
        sep_count(g, a) <= sep_count(g, b),
    decreases b - a,
{
    if a < b {
        lemma_sep_count_mono(g, a, (b - 1) as nat);
        if g != Grouping::Posix {
            lemma_boundary_step(g, (b - 1) as nat);
        }
    }
}

/// Crude but sufficient bound on the separator count.
pub proof fn lemma_sep_count_bound(g: Grouping, c: nat)
    ensures
        2 * sep_count(g, c) <= c,
    decreases c,
{
    if c > 0 {
        lemma_sep_count_bound(g, (c - 1) as nat);
        if g != Grouping::Posix {
            lemma_boundary_step(g, (c - 1) as nat);
        }
    }
}

/// Splitting a grouped string: grouping distributes over concatenation once
/// the left part knows how many digits stand to its right.
pub proof fn lemma_grouped_at_split(a: Seq<u8>, b: Seq<u8>, below: nat, sep: Seq<u8>, g: Grouping)
    ensures
        grouped_at(a + b, below, sep, g) =~= grouped_at(a, (b.len() + below) as nat, sep, g)
            + grouped_at(b, below, sep, g),
    decreases a.len(),
{
    if a.len() == 0 {
        assert(a + b =~= b);
    } else {
        let ab = a + b;
        assert(ab.drop_first() =~= a.drop_first() + b);
        lemma_grouped_at_split(a.drop_first(), b, below, sep, g);
    }
}

/// The length of a grouped string.
#[verifier::rlimit(50)]
pub proof fn lemma_grouped_at_len(digits: Seq<u8>, below: nat, sep: Seq<u8>, g: Grouping)
    ensures
        grouped_at(digits, below, sep, g).len() == digits.len() + (sep_count(
            g,
            (digits.len() + below) as nat,
        ) - sep_count(g, below)) * sep.len(),
    decreases digits.len(),
{
    if digits.len() == 0 {
        assert(grouped_at(digits, below, sep, g).len() == 0);
        assert((digits.len() + below) as nat == below);
        assert((sep_count(g, below) - sep_count(g, below)) * sep.len() == 0) by (nonlinear_arith);
    } else {
        let rest = digits.drop_first();
        lemma_grouped_at_len(rest, below, sep, g);
        lemma_sep_count_mono(g, below, (rest.len() + below) as nat);
        lemma_sep_count_mono(g, (rest.len() + below) as nat, (digits.len() + below) as nat);
        if g != Grouping::Posix {
            lemma_boundary_step(g, (rest.len() + below) as nat);
        }
        let s1 = sep_count(g, below) as int;
        let s2 = sep_count(g, (rest.len() + below) as nat) as int;
        let s3 = sep_count(g, (digits.len() + below) as nat) as int;
        let l = sep.len() as int;
        assert(grouped_at(rest, below, sep, g).len() == rest.len() + (s2 - s1) * l);
        if sep_boundary(g, (rest.len() + below) as nat) {
            assert((digits.len() + below) as nat == ((rest.len() + below) as nat + 1) as nat);
            assert(s3 == s2 + 1);
            assert(grouped_at(digits, below, sep, g).len() == 1 + l + grouped_at(
                rest,
                below,
                sep,
                g,
            ).len());
            assert((s2 - s1) * l + l == (s3 - s1) * l) by (nonlinear_arith)
                requires
                    s3 == s2 + 1,
            ;
        } else {
            assert((digits.len() + below) as nat == ((rest.len() + below) as nat + 1) as nat);
            assert(s3 == s2);
            assert(grouped_at(digits, below, sep, g).len() == 1 + grouped_at(
                rest,
                below,
                sep,
                g,
            ).len());
        }
        assert(grouped_at(digits, below, sep, g).len() == digits.len() + (s3 - s1) * l);
        assert((sep_count(g, (digits.len() + below) as nat) - sep_count(g, below)) * sep.len()
            == (s3 - s1) * l);
    }
}

/// Appending one digit on the least significant side of the part still to
/// be written.
pub proof fn lemma_grouped_at_push(s: Seq<u8>, d: u8, below: nat, sep: Seq<u8>, g: Grouping)
    ensures
        grouped_at(s.push(d), below, sep, g) =~= grouped_at(s, (below + 1) as nat, sep, g) + (if
            sep_boundary(g, below) {
            seq![d] + sep
        } else {
            seq![d]
        }),
{
    assert(s.push(d) =~= s + seq![d]);
    lemma_grouped_at_split(s, seq![d], below, sep, g);
    assert(seq![d].drop_first() =~= Seq::<u8>::empty());
    assert(grouped_at(Seq::<u8>::empty(), below, sep, g) =~= Seq::<u8>::empty());
    assert(grouped_at(seq![d], below, sep, g) =~= (if sep_boundary(g, below) {
        seq![d] + sep
    } else {
        seq![d]
    }));
}

/// Three or fewer digits are never grouped.
pub proof fn lemma_grouped_short(s: Seq<u8>, sep: Seq<u8>, g: Grouping)
    requires
        s.len() <= 3,
    ensures
        grouped(s, sep, g) =~= s,
    decreases s.len(),
{
    if s.len() > 0 {
        lemma_grouped_at_short(s, 0, sep, g);
    }
}

proof fn lemma_grouped_at_short(s: Seq<u8>, below: nat, sep: Seq<u8>, g: Grouping)
    requires
        s.len() + below <= 3,
    ensures
        grouped_at(s, below, sep, g) =~= s,
    decreases s.len(),
{
    if s.len() > 0 {
        lemma_grouped_at_short(s.drop_first(), below, sep, g);
        assert(grouped_at(s, below, sep, g) =~= seq![s[0]] + s.drop_first());
    }
}

/// A grouped digit string is valid UTF-8: digits are ASCII and the
/// separator is inserted whole.
pub proof fn lemma_grouped_at_valid(digits: Seq<u8>, below: nat, sep: Seq<u8>, g: Grouping)
    requires
        forall|i: int| 0 <= i < digits.len() ==> #[trigger] digits[i] < 0x80,
        valid_utf8(sep),
    ensures
        valid_utf8(grouped_at(digits, below, sep, g)),
    decreases digits.len(),
{
    if digits.len() == 0 {
    } else {
        let rest = digits.drop_first();
        lemma_grouped_at_valid(rest, below, sep, g);
        lemma_ascii_seq_valid(seq![digits[0]]);
        if sep_boundary(g, (rest.len() + below) as nat) {
            lemma_valid_utf8_concat(sep, grouped_at(rest, below, sep, g));
            lemma_valid_utf8_concat(seq![digits[0]], sep + grouped_at(rest, below, sep, g));
            assert(seq![digits[0]] + (sep + grouped_at(rest, below, sep, g)) =~= seq![digits[0]]
                + sep + grouped_at(rest, below, sep, g));
        } else {
            lemma_valid_utf8_concat(seq![digits[0]], grouped_at(rest, below, sep, g));
        }
    }
}

/// A Posix (or empty-separator) grouping changes nothing.
pub proof fn lemma_grouped_at_posix(digits: Seq<u8>, below: nat, sep: Seq<u8>)
    ensures
        grouped_at(digits, below, sep, Grouping::Posix) =~= digits,
    decreases digits.len(),
{
    if digits.len() > 0 {
        lemma_grouped_at_posix(digits.drop_first(), below, sep);
        assert(grouped_at(digits, below, sep, Grouping::Posix) =~= seq![digits[0]]
            + digits.drop_first());
    }
}

} // verus!
