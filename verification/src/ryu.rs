//! The float engine: IEEE decomposition, the shortest-round-trip decimal
//! algorithm, and the positional formatter that lays the result out.

use crate::buffer::Buffer;
use crate::constants::MAX_BUF_LEN;
use crate::format::Format;
use crate::locale::Locale;
use crate::ryu::float::{float_output_ok, Float};
use crate::ryu::pretty::FLOAT_FORMAT_ROOM;
use vstd::prelude::*;
use vstd::utf8::valid_utf8;

pub mod common;
pub mod d2s;
pub mod d2s_full_table;
pub mod d2s_intrinsics;
pub mod f2s;
pub mod f2s_intrinsics;
pub mod float;
pub mod pretty;
pub mod raw;

verus! {

/// Format a float at the buffer's cursor in the POSIX style.
pub fn format<Fl: Float>(f: Fl, buf: &mut Buffer) -> (len: usize)
    requires
        old(buf).wf(),
        FLOAT_FORMAT_ROOM <= old(buf).pos,
    ensures
        final(buf).wf(),
        final(buf).pos + len == old(buf).pos,
        final(buf).end == old(buf).end,
        final(buf).table@ == old(buf).table@,
        valid_utf8(final(buf).inner@.subrange(final(buf).pos as int, old(buf).pos as int)),
        float_output_ok(
            f.spec_negative(),
            f.spec_nonfinite(),
            f.spec_nan(),
            f.spec_zero(),
            f.spec_dec_mantissa(),
            f.spec_dec_exponent(),
            Locale::en_US_POSIX.model(),
            final(buf).inner@.subrange(final(buf).pos as int, old(buf).pos as int),
        ),
        forall|j: int|
            0 <= j < MAX_BUF_LEN && !(final(buf).pos <= j < old(buf).pos)
                ==> final(buf).inner@[j] == old(buf).inner@[j],
{
    f.write(buf)
}

} // verus!
