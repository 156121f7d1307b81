//! The engine's cross-cutting guarantees, stated and proved over the same
//! spec functions that the public contracts use.

use crate::digits::{dec_digits, dec_value, lemma_dec_value_round_trip};
use crate::format::FormatModel;
use crate::grouping::Grouping;
use crate::impls::integers::int_formatted;
use crate::ryu::float::{float_output_ok, FloatBits32, FloatBits64};
use vstd::prelude::*;

verus! {

/// Law: formatting an integer without grouping and then reading the digit
/// string back reproduces the value exactly; a negative value carries the
/// policy's minus sign before its magnitude's digits.
pub proof fn lemma_int_format_round_trip(v: int, m: FormatModel)
    requires
        m.separator.len() == 0 || m.grouping == Grouping::Posix,
    ensures
        v >= 0 ==> dec_value(int_formatted(v, m)) == v,
        v < 0 ==> int_formatted(v, m) == m.minus + dec_digits((-v) as nat) && dec_value(
            int_formatted(v, m).skip(m.minus.len() as int),
        ) == -v,
{
    if v >= 0 {
        lemma_dec_value_round_trip(v as nat);
        assert(int_formatted(v, m) =~= dec_digits(v as nat));
    } else {
        lemma_dec_value_round_trip((-v) as nat);
        assert(int_formatted(v, m) =~= m.minus + dec_digits((-v) as nat));
        assert(int_formatted(v, m).skip(m.minus.len() as int) =~= dec_digits((-v) as nat));
    }
}

/// Law: an exact floating zero formats as the three bytes "0.0" under every
/// policy, whatever its separator, grouping mode, sign strings or special
/// strings say.
pub proof fn lemma_zero_float_plain(m: FormatModel, neg: bool, md: nat, ke: int, out: Seq<u8>)
    requires
        float_output_ok(neg, false, false, true, md, ke, m, out),
    ensures
        out == seq![48u8, 46u8, 48u8],
{
}

/// Both zero bit patterns — the positive and the negative one — are exact
/// zeros to the engine, for either width.
pub proof fn lemma_zero_bit_patterns()
    ensures
        (FloatBits64 { bits: 0u64 }).spec_zero(),
        (FloatBits64 { bits: 0x8000000000000000u64 }).spec_zero(),
        (FloatBits32 { bits: 0u32 }).spec_zero(),
        (FloatBits32 { bits: 0x80000000u32 }).spec_zero(),
{
    assert((0u64 >> 52) & 0x7ff == 0 && 0u64 & 0xfffffffffffff == 0) by (bit_vector);
    assert((0x8000000000000000u64 >> 52) & 0x7ff == 0 && 0x8000000000000000u64 & 0xfffffffffffff
        == 0) by (bit_vector);
    assert((0u32 >> 23) & 0xff == 0 && 0u32 & 0x7fffff == 0) by (bit_vector);
    assert((0x80000000u32 >> 23) & 0xff == 0 && 0x80000000u32 & 0x7fffff == 0) by (bit_vector);
}

/// Law: infinity and NaN render from the policy's configured NaN, infinity
/// and minus-sign strings alone; two policies that agree on those three
/// strings accept exactly the same non-finite output, whatever their
/// separator and grouping say.
pub proof fn lemma_nonfinite_ignores_grouping(
    m1: FormatModel,
    m2: FormatModel,
    neg: bool,
    nan: bool,
    md: nat,
    ke: int,
    out: Seq<u8>,
)
    requires
        m1.nan == m2.nan,
        m1.minus == m2.minus,
        m1.infinity == m2.infinity,
        float_output_ok(neg, true, nan, false, md, ke, m1, out),
    ensures
        float_output_ok(neg, true, nan, false, md, ke, m2, out),
{
}

/// Law: one integer value and one policy admit exactly one formatted text,
/// so formatting the same value twice into freshly reset buffers yields
/// byte-identical output.
pub proof fn lemma_int_formatting_deterministic(
    v: int,
    m: FormatModel,
    out1: Seq<u8>,
    out2: Seq<u8>,
)
    requires
        out1 == int_formatted(v, m),
        out2 == int_formatted(v, m),
    ensures
        out1 == out2,
{
}

/// Law: any float — finite, zero or non-finite — admits exactly one
/// formatted text under a given policy, so two runs into freshly reset
/// buffers agree byte for byte.
pub proof fn lemma_float_formatting_deterministic(
    neg: bool,
    nonfinite: bool,
    nan: bool,
    zero: bool,
    md: nat,
    ke: int,
    m: FormatModel,
    out1: Seq<u8>,
    out2: Seq<u8>,
)
    requires
        float_output_ok(neg, nonfinite, nan, zero, md, ke, m, out1),
        float_output_ok(neg, nonfinite, nan, zero, md, ke, m, out2),
    ensures
        out1 == out2,
{
}

} // verus!
