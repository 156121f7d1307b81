//! Formatting float bit patterns under a full policy through the buffer's
//! one-call entry point.

use crate::buffer::Buffer;
use crate::constants::MAX_BUF_LEN;
use crate::format::{Format, FormatModel};
use crate::ryu::float::{float_output_ok, format_float, Float, FloatBits32, FloatBits64};
use crate::to_formatted_str::ToFormattedStr;
use vstd::prelude::*;
use vstd::utf8::valid_utf8;

verus! {

/// Shared body of the float impls: print at the fresh buffer's cursor and
/// pull the cursor down over the text.
fn run_core_algorithm_ryu<Fl: Float, Fmt: Format>(f: Fl, buf: &mut Buffer, format: &Fmt) -> (c:
    usize)
    requires
        old(buf).wf(),
        old(buf).pos == MAX_BUF_LEN,
        old(buf).end == MAX_BUF_LEN,
    ensures
        final(buf).wf(),
        final(buf).end == MAX_BUF_LEN,
        final(buf).pos + c == MAX_BUF_LEN,
        valid_utf8(final(buf).content()),
        float_output_ok(
            f.spec_negative(),
            f.spec_nonfinite(),
            f.spec_nan(),
            f.spec_zero(),
            f.spec_dec_mantissa(),
            f.spec_dec_exponent(),
            format.model(),
            final(buf).content(),
        ),
        c == final(buf).content().len(),
        final(buf).table@ == old(buf).table@,
{
    let p = buf.pos;
    let r = format_float(f, buf, p, format);
    buf.pos = r;
    proof {
        assert(buf.content() =~= buf.inner@.subrange(r as int, p as int));
    }
    p - r
}

impl ToFormattedStr for FloatBits32 {
    open spec fn spec_formatted_ok(&self, m: FormatModel, out: Seq<u8>) -> bool {
        float_output_ok(
            Float::spec_negative(*self),
            Float::spec_nonfinite(*self),
            Float::spec_nan(*self),
            Float::spec_zero(*self),
            Float::spec_dec_mantissa(*self),
            Float::spec_dec_exponent(*self),
            m,
            out,
        )
    }

    fn read_to_buffer<F: Format>(&self, buf: &mut Buffer, format: &F) -> (c: usize) {
        run_core_algorithm_ryu(*self, buf, format)
    }
}

impl ToFormattedStr for FloatBits64 {
    open spec fn spec_formatted_ok(&self, m: FormatModel, out: Seq<u8>) -> bool {
        float_output_ok(
            Float::spec_negative(*self),
            Float::spec_nonfinite(*self),
            Float::spec_nan(*self),
            Float::spec_zero(*self),
            Float::spec_dec_mantissa(*self),
            Float::spec_dec_exponent(*self),
            m,
            out,
        )
    }

    fn read_to_buffer<F: Format>(&self, buf: &mut Buffer, format: &F) -> (c: usize) {
        run_core_algorithm_ryu(*self, buf, format)
    }
}

} // verus!
