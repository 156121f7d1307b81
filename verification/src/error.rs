//! The crate's error type. Policy strings are validated where a policy is
//! constructed, never during formatting, so every error here names a
//! construction-time defect.

use vstd::prelude::*;

verus! {

#[derive(Copy, Clone, Debug, PartialEq, Eq, Structural)]
pub enum ErrorKind {
    /// A decimal-point string longer than its documented maximum.
    DecimalTooLong,
    /// An infinity string longer than its documented maximum.
    InfinityTooLong,
    /// A minus-sign string longer than its documented maximum.
    MinusSignTooLong,
    /// A NaN string longer than its documented maximum.
    NanTooLong,
    /// A plus-sign string longer than its documented maximum.
    PlusSignTooLong,
    /// A separator string longer than its documented maximum.
    SeparatorTooLong,
    /// A locale name too long for the platform's locale API.
    LocaleNameTooLong,
    /// A locale decimal string that is not exactly one character.
    UnsupportedDecimal,
    /// A locale grouping description outside the supported set.
    UnsupportedGrouping,
    /// A locale separator string longer than one character.
    UnsupportedSeparator,
    /// A platform locale lookup failed; the call site keeps the detail.
    SystemLocale,
}

#[derive(Copy, Clone, Debug, PartialEq, Eq, Structural)]
pub struct Error {
    pub kind: ErrorKind,
}

impl Error {
    pub open spec fn spec_kind(&self) -> ErrorKind {
        self.kind
    }

    pub fn new(kind: ErrorKind) -> (e: Error)
        ensures
            e.kind == kind,
    {
        Error { kind }
    }

    pub fn kind(&self) -> (k: ErrorKind)
        ensures
            k == self.kind,
    {
        self.kind
    }

    /// A short description of the defect.
    pub fn message(&self) -> &'static str {
        match self.kind {
            ErrorKind::DecimalTooLong => "decimal-point string exceeds its maximum length",
            ErrorKind::InfinityTooLong => "infinity string exceeds its maximum length",
            ErrorKind::MinusSignTooLong => "minus-sign string exceeds its maximum length",
            ErrorKind::NanTooLong => "NaN string exceeds its maximum length",
            ErrorKind::PlusSignTooLong => "plus-sign string exceeds its maximum length",
            ErrorKind::SeparatorTooLong => "separator string exceeds its maximum length",
            ErrorKind::LocaleNameTooLong => "locale name exceeds the platform maximum",
            ErrorKind::UnsupportedDecimal => "locale decimal is not exactly one character",
            ErrorKind::UnsupportedGrouping => "locale grouping description is not supported",
            ErrorKind::UnsupportedSeparator => "locale separator is longer than one character",
            ErrorKind::SystemLocale => "a platform locale lookup failed",
        }
    }
}

} // verus!
