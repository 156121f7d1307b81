//! Marker trait for number types that can be formatted without heap
//! allocation (see [`Buffer`]), and the buffer's one-call entry point.

use crate::buffer::Buffer;
use crate::constants::MAX_BUF_LEN;
use crate::format::{Format, FormatModel};
use vstd::prelude::*;
use vstd::utf8::valid_utf8;

verus! {

/// Marker trait for number types that can be formatted without heap
/// allocation (see [`Buffer`]).
///
/// This trait is sealed; so you may not implement it on your own types.
pub trait ToFormattedStr: crate::private::Sealed + Sized {
    /// What may stand in the buffer after formatting this value under the
    /// policy `m`. For every integer kind this pins the bytes down exactly;
    /// for floats it fixes the byte-exact positional layout of the decimal
    /// form the shortest-decimal engine computed.
    spec fn spec_formatted_ok(&self, m: FormatModel, out: Seq<u8>) -> bool;

    /// Write this value into a fresh buffer, pulling the cursor down over
    /// the formatted bytes.
    fn read_to_buffer<F: Format>(&self, buf: &mut Buffer, format: &F) -> (c: usize)
        requires
            old(buf).wf(),
            old(buf).pos == MAX_BUF_LEN,
            old(buf).end == MAX_BUF_LEN,
        ensures
            final(buf).wf(),
            final(buf).end == MAX_BUF_LEN,
            final(buf).pos + c == MAX_BUF_LEN,
            self.spec_formatted_ok(format.model(), final(buf).content()),
            valid_utf8(final(buf).content()),
            c == final(buf).content().len(),
            final(buf).table@ == old(buf).table@,
    ;
}

impl Buffer {
    /// Format `n` under `format`, replacing any previous content; the result
    /// is then available through [`Buffer::as_str`] and [`Buffer::as_bytes`].
    pub fn write_formatted<N: ToFormattedStr, F: Format>(&mut self, n: &N, format: &F) -> (c:
        usize)
        requires
            old(self).wf(),
        ensures
            final(self).wf(),
            n.spec_formatted_ok(format.model(), final(self).content()),
            valid_utf8(final(self).content()),
            c == final(self).content().len(),
            final(self).table@ == old(self).table@,
    {
        self.reset();
        n.read_to_buffer(self, format)
    }
}

} // verus!
