//! The plain (ungrouped) integer engine: decimal conversion of every
//! supported integer width into a [`Buffer`], two digits at a time through
//! the digit-pair table, writing backward from a cursor.

use crate::buffer::Buffer;
use crate::constants::MAX_BUF_LEN;
use crate::digits::{dec_digits, dec_len};
use vstd::prelude::*;

pub mod integer128;
pub mod integer64;
pub mod integers;

verus! {

/// The decimal spelling of a signed value: a `-` before the magnitude's
/// digits when the value is negative.
pub open spec fn signed_digits(v: int) -> Seq<u8> {
    if v < 0 {
        seq![45u8] + dec_digits((-v) as nat)
    } else {
        dec_digits(v as nat)
    }
}

/// An integer that can be written into a [`Buffer`].
///
/// This trait is sealed and cannot be implemented for types outside of this
/// crate.
pub trait Integer: crate::private::Sealed + Sized {
    /// The mathematical value being formatted.
    spec fn value(self) -> int;

    /// Write the decimal spelling of `self` just below the buffer's cursor
    /// and pull the cursor down over it.
    fn write(self, buf: &mut Buffer) -> (len: usize)
        requires
            old(buf).wf(),
            signed_digits(self.value()).len() <= old(buf).pos,
        ensures
            final(buf).wf(),
            len == signed_digits(self.value()).len(),
            final(buf).pos + len == old(buf).pos,
            final(buf).end == old(buf).end,
            final(buf).table@ == old(buf).table@,
            final(buf).inner@.subrange(final(buf).pos as int, old(buf).pos as int)
                =~= signed_digits(self.value()),
            forall|j: int|
                0 <= j < MAX_BUF_LEN && !(final(buf).pos <= j < old(buf).pos)
                    ==> final(buf).inner@[j] == old(buf).inner@[j],
    ;
}

/// Format an integer at the buffer's cursor.
pub fn format<N: Integer>(n: N, buf: &mut Buffer) -> (len: usize)
    requires
        old(buf).wf(),
        signed_digits(n.value()).len() <= old(buf).pos,
    ensures
        final(buf).wf(),
        len == signed_digits(n.value()).len(),
        final(buf).pos + len == old(buf).pos,
        final(buf).end == old(buf).end,
        final(buf).table@ == old(buf).table@,
        final(buf).inner@.subrange(final(buf).pos as int, old(buf).pos as int) =~= signed_digits(
            n.value(),
        ),
        forall|j: int|
            0 <= j < MAX_BUF_LEN && !(final(buf).pos <= j < old(buf).pos) ==> final(buf).inner@[j]
                == old(buf).inner@[j],
{
    n.write(buf)
}

/// Write `-` (when `neg`) followed by the digits of `mag`, ending at `pos`;
/// returns the index of the first written byte.
pub(crate) fn write_magnitude_u64(neg: bool, mag: u64, buf: &mut Buffer, pos: usize) -> (r: usize)
    requires
        old(buf).wf(),
        pos <= MAX_BUF_LEN,
        dec_len(mag as nat) + (if neg {
            1int
        } else {
            0int
        }) <= pos,
    ensures
        final(buf).wf(),
        r + dec_len(mag as nat) + (if neg {
            1int
        } else {
            0int
        }) == pos,
        final(buf).inner@.subrange(r as int, pos as int) =~= (if neg {
            seq![45u8]
        } else {
            Seq::<u8>::empty()
        }) + dec_digits(mag as nat),
        forall|j: int|
            0 <= j < MAX_BUF_LEN && !(r <= j < pos) ==> final(buf).inner@[j] == old(buf).inner@[j],
        final(buf).pos == old(buf).pos,
        final(buf).end == old(buf).end,
        final(buf).table@ == old(buf).table@,
{
    let r1 = integer64::write_u64(mag, buf, pos);
    if neg {
        let r = r1 - 1;
        buf.set_byte(r, 45);
        proof {
            assert(buf.inner@.subrange(r as int, pos as int) =~= seq![45u8] + dec_digits(
                mag as nat,
            ));
        }
        r
    } else {
        r1
    }
}

} // verus!
