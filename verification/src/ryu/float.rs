//! Floating-point values as bit patterns, their IEEE field decomposition,
//! and the dispatch between finite and non-finite rendering. The library
//! holds a float as its raw bits so that every decision about it is a
//! decision about plain integers.

use crate::buffer::Buffer;
use crate::constants::MAX_BUF_LEN;
use crate::format::{Format, FormatModel};
use crate::locale::Locale;
use crate::buffer::{lemma_ascii_seq_valid, lemma_valid_utf8_concat};
use crate::ryu::pretty::{float_body, FLOAT_FORMAT_ROOM};
use vstd::utf8::valid_utf8;
use vstd::prelude::*;

verus! {

/// The decomposed fields of a binary32.
#[derive(Debug, Copy, Clone)]
pub struct FloatIeeeData32 {
    pub is_negative: bool,
    pub mantissa: u32,
    pub exponent: u32,
}

/// The decomposed fields of a binary64.
#[derive(Debug, Copy, Clone)]
pub struct FloatIeeeData64 {
    pub is_negative: bool,
    pub mantissa: u64,
    pub exponent: u32,
}

/// A binary32 value, held as its bit pattern.
#[derive(Copy, Clone, Debug, PartialEq, Eq, Structural)]
pub struct FloatBits32 {
    pub bits: u32,
}

/// A binary64 value, held as its bit pattern.
#[derive(Copy, Clone, Debug, PartialEq, Eq, Structural)]
pub struct FloatBits64 {
    pub bits: u64,
}

/// Exactly what a policy-formatted float looks like: the policy's NaN
/// string, the signed infinity string, the fixed "0.0" for either zero, or
/// the positional layout of the decimal `md * 10^ke` that the
/// shortest-decimal engine assigns to the value's bits.
pub open spec fn float_output_ok(
    neg: bool,
    nonfinite: bool,
    nan: bool,
    zero: bool,
    md: nat,
    ke: int,
    m: FormatModel,
    out: Seq<u8>,
) -> bool {
    if nonfinite {
        if nan {
            out == m.nan
        } else {
            out == (if neg {
                m.minus
            } else {
                Seq::<u8>::empty()
            }) + m.infinity
        }
    } else if zero {
        out == seq![48u8, 46u8, 48u8]
    } else {
        out == float_body(md, ke, neg, m)
    }
}

impl FloatBits32 {
    pub open spec fn spec_mantissa(self) -> u32 {
        self.bits & 0x7fffff
    }

    pub open spec fn spec_exponent(self) -> u32 {
        (self.bits >> 23) & 0xff
    }

    pub open spec fn spec_negative(self) -> bool {
        (self.bits >> 31) & 1 == 1
    }

    pub open spec fn spec_nonfinite(self) -> bool {
        self.spec_exponent() == 0xff
    }

    pub open spec fn spec_nan(self) -> bool {
        self.spec_nonfinite() && self.spec_mantissa() != 0
    }

    pub open spec fn spec_zero(self) -> bool {
        self.spec_exponent() == 0 && self.spec_mantissa() == 0
    }

    /// Split the bit pattern into sign, raw significand and biased
    /// exponent.
    pub fn parse_ieee_data(self) -> (r: FloatIeeeData32)
        ensures
            r.is_negative == self.spec_negative(),
            r.mantissa == self.spec_mantissa(),
            r.exponent == self.spec_exponent(),
            r.mantissa < 0x800000,
            r.exponent < 0x100,
    {
        let bits = self.bits;
        proof {
            assert(bits & 0x7fffff < 0x800000 && (bits >> 23) & 0xff < 0x100) by (bit_vector);
        }
        FloatIeeeData32 {
            is_negative: (bits >> 31) & 1 == 1,
            mantissa: bits & 0x7fffff,
            exponent: (bits >> 23) & 0xff,
        }
    }
}

impl FloatBits64 {
    pub open spec fn spec_mantissa(self) -> u64 {
        self.bits & 0xfffffffffffff
    }

    pub open spec fn spec_exponent(self) -> u64 {
        (self.bits >> 52) & 0x7ff
    }

    pub open spec fn spec_negative(self) -> bool {
        (self.bits >> 63) & 1 == 1
    }

    pub open spec fn spec_nonfinite(self) -> bool {
        self.spec_exponent() == 0x7ff
    }

    pub open spec fn spec_nan(self) -> bool {
        self.spec_nonfinite() && self.spec_mantissa() != 0
    }

    pub open spec fn spec_zero(self) -> bool {
        self.spec_exponent() == 0 && self.spec_mantissa() == 0
    }

    /// Split the bit pattern into sign, raw significand and biased
    /// exponent.
    pub fn parse_ieee_data(self) -> (r: FloatIeeeData64)
        ensures
            r.is_negative == self.spec_negative(),
            r.mantissa == self.spec_mantissa(),
            r.exponent == self.spec_exponent(),
            r.mantissa < 0x10000000000000,
            r.exponent < 0x800,
    {
        let bits = self.bits;
        proof {
            assert(bits & 0xfffffffffffff < 0x10000000000000 && (bits >> 52) & 0x7ff < 0x800)
                by (bit_vector);
        }
        FloatIeeeData64 {
            is_negative: (bits >> 63) & 1 == 1,
            mantissa: bits & 0xfffffffffffff,
            exponent: ((bits >> 52) & 0x7ff) as u32,
        }
    }
}


/// Write a non-finite value's text ending at `pos`: the policy's NaN
/// string, or its infinity string with the minus sign when negative.
pub fn write_nonfinite<Fmt: Format>(buf: &mut Buffer, pos: usize, nan: bool, neg: bool, format:
    &Fmt) -> (r: usize)
    requires
        old(buf).wf(),
        FLOAT_FORMAT_ROOM <= pos <= MAX_BUF_LEN,
    ensures
        final(buf).wf(),
        final(buf).pos == old(buf).pos,
        final(buf).end == old(buf).end,
        final(buf).table@ == old(buf).table@,
        r <= pos,
        forall|j: int|
            0 <= j < MAX_BUF_LEN && !(r <= j < pos) ==> final(buf).inner@[j] == old(
                buf,
            ).inner@[j],
        valid_utf8(final(buf).inner@.subrange(r as int, pos as int)),
        float_output_ok(
            neg,
            true,
            nan,
            false,
            0,
            0,
            format.model(),
            final(buf).inner@.subrange(r as int, pos as int),
        ),
{
    if nan {
        let nan_str = format.nan();
        let nb = nan_str.as_bytes();
        let dst = pos - nb.len();
        buf.write_bytes_at(dst, nb);
        proof {
            assert(buf.inner@.subrange(dst as int, pos as int) =~= format.model().nan);
            assert(valid_utf8(nan_str.bytes()));
        }
        dst
    } else {
        let inf = format.infinity();
        let ib = inf.as_bytes();
        let dst = pos - ib.len();
        buf.write_bytes_at(dst, ib);
        if neg {
            let minus = format.minus_sign();
            let mb = minus.as_bytes();
            let ghost mid = buf.inner@;
            let dst2 = dst - mb.len();
            buf.write_bytes_at(dst2, mb);
            proof {
                assert(buf.inner@.subrange(dst as int, pos as int) =~= mid.subrange(
                    dst as int,
                    pos as int,
                ));
                assert(buf.inner@.subrange(dst2 as int, pos as int) =~= format.model().minus
                    + format.model().infinity);
                lemma_valid_utf8_concat(format.model().minus, format.model().infinity);
            }
            dst2
        } else {
            proof {
                assert(buf.inner@.subrange(dst as int, pos as int) =~= Seq::<u8>::empty()
                    + format.model().infinity);
                assert(valid_utf8(inf.bytes()));
            }
            dst
        }
    }
}

impl crate::private::Sealed for FloatBits32 {

}

impl crate::private::Sealed for FloatBits64 {

}

/// A floating-point bit pattern, binary32 or binary64, that can be written
/// into a buffer.
///
/// This trait is sealed and cannot be implemented for types outside of this
/// crate.
pub trait Float: crate::private::Sealed + Copy + Sized {
    /// Sign bit set.
    spec fn spec_negative(self) -> bool;

    /// Biased exponent all ones: an infinity or NaN.
    spec fn spec_nonfinite(self) -> bool;

    /// Non-finite with a nonzero significand.
    spec fn spec_nan(self) -> bool;

    /// Exact zero of either sign.
    spec fn spec_zero(self) -> bool;

    /// The decimal mantissa the shortest-decimal engine assigns to this
    /// value's bits.
    spec fn spec_dec_mantissa(self) -> nat;

    /// The decimal exponent the shortest-decimal engine assigns to this
    /// value's bits.
    spec fn spec_dec_exponent(self) -> int;

    fn is_nonfinite(self) -> (r: bool)
        ensures
            r == self.spec_nonfinite(),
    ;

    fn is_nan(self) -> (r: bool)
        ensures
            r == self.spec_nan(),
    ;

    fn is_sign_negative(self) -> (r: bool)
        ensures
            r == self.spec_negative(),
    ;

    /// The plain constant spelling of a non-finite value.
    fn format_nonfinite(self) -> (r: &'static str)
        requires
            self.spec_nonfinite(),
        ensures
            r@ == (if self.spec_nan() {
                "NaN"@
            } else if self.spec_negative() {
                "-inf"@
            } else {
                "inf"@
            }),
    ;

    /// Print a finite value ending at `pos`, leaving the cursor alone.
    fn format_finite<Fmt: Format>(self, buf: &mut Buffer, pos: usize, format: &Fmt) -> (r: usize)
        requires
            old(buf).wf(),
            FLOAT_FORMAT_ROOM <= pos <= MAX_BUF_LEN,
            !self.spec_nonfinite(),
        ensures
            final(buf).wf(),
            final(buf).pos == old(buf).pos,
            final(buf).end == old(buf).end,
            final(buf).table@ == old(buf).table@,
            r <= pos,
            forall|j: int|
                0 <= j < MAX_BUF_LEN && !(r <= j < pos) ==> final(buf).inner@[j] == old(
                    buf,
                ).inner@[j],
            valid_utf8(final(buf).inner@.subrange(r as int, pos as int)),
            float_output_ok(
                self.spec_negative(),
                false,
                false,
                self.spec_zero(),
                self.spec_dec_mantissa(),
                self.spec_dec_exponent(),
                format.model(),
                final(buf).inner@.subrange(r as int, pos as int),
            ),
    ;

    /// Write the value at the buffer's cursor in the POSIX style, pulling
    /// the cursor down over the text.
    fn write(self, buf: &mut Buffer) -> (len: usize)
        requires
            old(buf).wf(),
            FLOAT_FORMAT_ROOM <= old(buf).pos,
        ensures
            final(buf).wf(),
            final(buf).pos + len == old(buf).pos,
            final(buf).end == old(buf).end,
            final(buf).table@ == old(buf).table@,
            valid_utf8(final(buf).inner@.subrange(final(buf).pos as int, old(buf).pos as int)),
            float_output_ok(
                self.spec_negative(),
                self.spec_nonfinite(),
                self.spec_nan(),
                self.spec_zero(),
                self.spec_dec_mantissa(),
                self.spec_dec_exponent(),
                Locale::en_US_POSIX.model(),
                final(buf).inner@.subrange(final(buf).pos as int, old(buf).pos as int),
            ),
            forall|j: int|
                0 <= j < MAX_BUF_LEN && !(final(buf).pos <= j < old(buf).pos)
                    ==> final(buf).inner@[j] == old(buf).inner@[j],
    ;
}

impl Float for FloatBits32 {
    open spec fn spec_negative(self) -> bool {
        (self.bits >> 31) & 1 == 1
    }

    open spec fn spec_nonfinite(self) -> bool {
        (self.bits >> 23) & 0xff == 0xff
    }

    open spec fn spec_nan(self) -> bool {
        (self.bits >> 23) & 0xff == 0xff && self.bits & 0x7fffff != 0
    }

    open spec fn spec_zero(self) -> bool {
        (self.bits >> 23) & 0xff == 0 && self.bits & 0x7fffff == 0
    }

    open spec fn spec_dec_mantissa(self) -> nat {
        crate::ryu::f2s::spec_f2d(self.spec_mantissa(), self.spec_exponent()).0 as nat
    }

    open spec fn spec_dec_exponent(self) -> int {
        crate::ryu::f2s::spec_f2d(self.spec_mantissa(), self.spec_exponent()).1
    }

    fn is_nonfinite(self) -> (r: bool) {
        let ieee = self.parse_ieee_data();
        ieee.exponent == 0xff
    }

    fn is_nan(self) -> (r: bool) {
        let ieee = self.parse_ieee_data();
        ieee.exponent == 0xff && ieee.mantissa != 0
    }

    fn is_sign_negative(self) -> (r: bool) {
        let ieee = self.parse_ieee_data();
        ieee.is_negative
    }

    fn format_nonfinite(self) -> (r: &'static str) {
        let ieee = self.parse_ieee_data();
        if ieee.mantissa != 0 {
            "NaN"
        } else if ieee.is_negative {
            "-inf"
        } else {
            "inf"
        }
    }

    fn format_finite<Fmt: Format>(self, buf: &mut Buffer, pos: usize, format: &Fmt) -> (r:
        usize) {
        crate::ryu::pretty::format32(self, buf, pos, format)
    }

    fn write(self, buf: &mut Buffer) -> (len: usize) {
        let p = buf.pos;
        let ieee = self.parse_ieee_data();
        let r = if ieee.exponent == 0xff {
            write_nonfinite(buf, p, ieee.mantissa != 0, ieee.is_negative, &Locale::en_US_POSIX)
        } else {
            crate::ryu::pretty::format32(self, buf, p, &Locale::en_US_POSIX)
        };
        buf.pos = r;
        p - r
    }
}

impl Float for FloatBits64 {
    open spec fn spec_negative(self) -> bool {
        (self.bits >> 63) & 1 == 1
    }

    open spec fn spec_nonfinite(self) -> bool {
        (self.bits >> 52) & 0x7ff == 0x7ff
    }

    open spec fn spec_nan(self) -> bool {
        (self.bits >> 52) & 0x7ff == 0x7ff && self.bits & 0xfffffffffffff != 0
    }

    open spec fn spec_zero(self) -> bool {
        (self.bits >> 52) & 0x7ff == 0 && self.bits & 0xfffffffffffff == 0
    }

    open spec fn spec_dec_mantissa(self) -> nat {
        crate::ryu::d2s::spec_d2d(self.spec_mantissa(), self.spec_exponent() as u32).0 as nat
    }

    open spec fn spec_dec_exponent(self) -> int {
        crate::ryu::d2s::spec_d2d(self.spec_mantissa(), self.spec_exponent() as u32).1
    }

    fn is_nonfinite(self) -> (r: bool) {
        let ieee = self.parse_ieee_data();
        ieee.exponent == 0x7ff
    }

    fn is_nan(self) -> (r: bool) {
        let ieee = self.parse_ieee_data();
        ieee.exponent == 0x7ff && ieee.mantissa != 0
    }

    fn is_sign_negative(self) -> (r: bool) {
        let ieee = self.parse_ieee_data();
        ieee.is_negative
    }

    fn format_nonfinite(self) -> (r: &'static str) {
        let ieee = self.parse_ieee_data();
        if ieee.mantissa != 0 {
            "NaN"
        } else if ieee.is_negative {
            "-inf"
        } else {
            "inf"
        }
    }

    fn format_finite<Fmt: Format>(self, buf: &mut Buffer, pos: usize, format: &Fmt) -> (r:
        usize) {
        crate::ryu::pretty::format64(self, buf, pos, format)
    }

    fn write(self, buf: &mut Buffer) -> (len: usize) {
        let p = buf.pos;
        let ieee = self.parse_ieee_data();
        let r = if ieee.exponent == 0x7ff {
            write_nonfinite(buf, p, ieee.mantissa != 0, ieee.is_negative, &Locale::en_US_POSIX)
        } else {
            crate::ryu::pretty::format64(self, buf, p, &Locale::en_US_POSIX)
        };
        buf.pos = r;
        p - r
    }
}

/// Print any float, finite or not, ending at `pos`. Non-finite values use
/// the policy's NaN and infinity strings; an exact zero of either sign is
/// the literal "0.0" under every grouping mode.
pub fn format_float<Fl: Float, Fmt: Format>(f: Fl, buf: &mut Buffer, pos: usize, format: &Fmt)
    -> (r: usize)
    requires
        old(buf).wf(),
        FLOAT_FORMAT_ROOM <= pos <= MAX_BUF_LEN,
    ensures
        final(buf).wf(),
        final(buf).pos == old(buf).pos,
        final(buf).end == old(buf).end,
        final(buf).table@ == old(buf).table@,
        r <= pos,
        forall|j: int|
            0 <= j < MAX_BUF_LEN && !(r <= j < pos) ==> final(buf).inner@[j] == old(
                buf,
            ).inner@[j],
        valid_utf8(final(buf).inner@.subrange(r as int, pos as int)),
        float_output_ok(
            f.spec_negative(),
            f.spec_nonfinite(),
            f.spec_nan(),
            f.spec_zero(),
            f.spec_dec_mantissa(),
            f.spec_dec_exponent(),
            format.model(),
            final(buf).inner@.subrange(r as int, pos as int),
        ),
{
    if f.is_nonfinite() {
        let nan = f.is_nan();
        let neg = f.is_sign_negative();
        write_nonfinite(buf, pos, nan, neg, format)
    } else {
        f.format_finite(buf, pos, format)
    }
}

} // verus!
