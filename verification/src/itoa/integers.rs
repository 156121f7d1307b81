//! The remaining integer widths, 8 to 32 bits plus the pointer-sized pair,
//! all funnelled through the 64-bit core by widening; signed magnitudes are
//! taken in the next-wider representation so the most negative value never
//! overflows.

use crate::buffer::Buffer;
use crate::itoa::write_magnitude_u64;
use vstd::prelude::*;

verus! {

impl crate::private::Sealed for u8 {

}

impl crate::private::Sealed for i8 {

}

impl crate::private::Sealed for u16 {

}

impl crate::private::Sealed for i16 {

}

impl crate::private::Sealed for u32 {

}

impl crate::private::Sealed for i32 {

}

impl crate::private::Sealed for usize {

}

impl crate::private::Sealed for isize {

}

impl crate::itoa::Integer for u8 {
    open spec fn value(self) -> int {
        self as int
    }

    fn write(self, buf: &mut Buffer) -> (len: usize) {
        let p = buf.pos;
        let r = write_magnitude_u64(false, self as u64, buf, p);
        buf.pos = r;
        p - r
    }
}

impl crate::itoa::Integer for i8 {
    open spec fn value(self) -> int {
        self as int
    }

    fn write(self, buf: &mut Buffer) -> (len: usize) {
        let neg = self < 0;
        let mag: u64 = if self >= 0 {
            self as u64
        } else {
            (-(self as i64)) as u64
        };
        let p = buf.pos;
        let r = write_magnitude_u64(neg, mag, buf, p);
        buf.pos = r;
        p - r
    }
}

impl crate::itoa::Integer for u16 {
    open spec fn value(self) -> int {
        self as int
    }

    fn write(self, buf: &mut Buffer) -> (len: usize) {
        let p = buf.pos;
        let r = write_magnitude_u64(false, self as u64, buf, p);
        buf.pos = r;
        p - r
    }
}

impl crate::itoa::Integer for i16 {
    open spec fn value(self) -> int {
        self as int
    }

    fn write(self, buf: &mut Buffer) -> (len: usize) {
        let neg = self < 0;
        let mag: u64 = if self >= 0 {
            self as u64
        } else {
            (-(self as i64)) as u64
        };
        let p = buf.pos;
        let r = write_magnitude_u64(neg, mag, buf, p);
        buf.pos = r;
        p - r
    }
}

impl crate::itoa::Integer for u32 {
    open spec fn value(self) -> int {
        self as int
    }

    fn write(self, buf: &mut Buffer) -> (len: usize) {
        let p = buf.pos;
        let r = write_magnitude_u64(false, self as u64, buf, p);
        buf.pos = r;
        p - r
    }
}

impl crate::itoa::Integer for i32 {
    open spec fn value(self) -> int {
        self as int
    }

    fn write(self, buf: &mut Buffer) -> (len: usize) {
        let neg = self < 0;
        let mag: u64 = if self >= 0 {
            self as u64
        } else {
            (-(self as i64)) as u64
        };
        let p = buf.pos;
        let r = write_magnitude_u64(neg, mag, buf, p);
        buf.pos = r;
        p - r
    }
}

impl crate::itoa::Integer for usize {
    open spec fn value(self) -> int {
        self as int
    }

    fn write(self, buf: &mut Buffer) -> (len: usize) {
        let p = buf.pos;
        let r = write_magnitude_u64(false, self as u64, buf, p);
        buf.pos = r;
        p - r
    }
}

impl crate::itoa::Integer for isize {
    open spec fn value(self) -> int {
        self as int
    }

    fn write(self, buf: &mut Buffer) -> (len: usize) {
        let neg = self < 0;
        let mag: u64 = if self >= 0 {
            self as u64
        } else if self as i64 == i64::MIN {
            9223372036854775808u64
        } else {
            (-(self as i64)) as u64
        };
        let p = buf.pos;
        let r = write_magnitude_u64(neg, mag, buf, p);
        buf.pos = r;
        p - r
    }
}

} // verus!
