//! Sizing constants: the worst-case decimal width of every supported numeric
//! kind, and the capacity of a formatting buffer.

use vstd::prelude::*;

verus! {

/// Capacity of a [`crate::buffer::Buffer`].
///
/// This must cover the worst case over all supported inputs and policies:
/// * a 128-bit magnitude under Indian grouping: 39 digits, 18 separators of up
///   to 8 bytes each, and a minus sign of up to 8 bytes (191 bytes);
/// * a 64-bit float written fully expanded: up to ~345 integer digits with up
///   to 172 separators of 8 bytes, a fractional part, a decimal point of up to
///   8 bytes and a minus sign of up to 8 bytes (under 1800 bytes).
pub const MAX_BUF_LEN: usize = 2048;

pub const U8_MAX_LEN: usize = 3;

pub const U16_MAX_LEN: usize = 5;

pub const U32_MAX_LEN: usize = 10;

pub const USIZE_MAX_LEN: usize = 20;

pub const U64_MAX_LEN: usize = 20;

pub const U128_MAX_LEN: usize = 39;

pub const I8_MAX_LEN: usize = 4;

pub const I16_MAX_LEN: usize = 6;

pub const I32_MAX_LEN: usize = 11;

pub const ISIZE_MAX_LEN: usize = 20;

pub const I64_MAX_LEN: usize = 20;

pub const I128_MAX_LEN: usize = 40;

} // verus!
