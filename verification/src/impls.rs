//! `ToFormattedStr` implementations for the supported numeric kinds.

pub mod floats;
pub mod integers;
