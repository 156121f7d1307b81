//! Locale-aware formatting of integers and IEEE-754 floating-point bit
//! patterns into a caller-owned, fixed-capacity byte buffer, with no heap
//! allocation on the formatting path.
//!
//! The core is the formatting engine: a backward-cursor [`buffer::Buffer`],
//! the digit-pair-table-driven integer conversion, the shortest-round-trip
//! float-to-decimal decomposition, and the locale-separator overlay that
//! interleaves grouping characters into the digit stream. Discovery of
//! platform locale data is left to platform glue around this crate; it
//! hands validated plain strings to [`system_locale::SystemLocale`].

pub mod buffer;
pub mod constants;
pub mod custom_format;
pub mod digits;
pub mod error;
pub mod format;
pub mod grouping;
pub mod impls;
pub mod itoa;
pub mod laws;
pub mod locale;
pub mod private;
pub mod ryu;
pub mod strings;
pub mod system_locale;
pub mod to_formatted_str;

pub use crate::buffer::Buffer;
pub use crate::custom_format::{CustomFormat, CustomFormatBuilder};
pub use crate::error::{Error, ErrorKind};
pub use crate::format::Format;
pub use crate::grouping::Grouping;
pub use crate::locale::Locale;
pub use crate::system_locale::SystemLocale;
pub use crate::to_formatted_str::ToFormattedStr;
