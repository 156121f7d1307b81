//! The width-specific entry points of the positional formatter, under their
//! traditional names.

pub use crate::ryu::pretty::{format32, format64};
