//! The sealing trait: only the numeric kinds this crate names can implement
//! its formatting traits.

use vstd::prelude::*;

verus! {

/// Marker supertrait that keeps [`crate::itoa::Integer`],
/// [`crate::ryu::float::Float`] and [`crate::to_formatted_str::ToFormattedStr`]
/// closed over the supported numeric kinds.
pub trait Sealed {

}

} // verus!
