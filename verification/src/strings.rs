//! Bounded policy strings. Each wrapper carries one of a policy's seven
//! strings together with its documented maximum byte length; the length is
//! checked here, at construction, and never again during formatting.

use crate::error::{Error, ErrorKind};
use vstd::prelude::*;
use vstd::string::StringSliceAdditionalSpecFns;
use vstd::utf8::valid_utf8;

verus! {

/// Maximum byte length of a decimal-point string.
pub const MAX_DEC_LEN: usize = 8;

/// Maximum byte length of an infinity string.
pub const MAX_INF_LEN: usize = 128;

/// Maximum byte length of a minus-sign string.
pub const MAX_MIN_LEN: usize = 8;

/// Maximum byte length of a NaN string.
pub const MAX_NAN_LEN: usize = 64;

/// Maximum byte length of a plus-sign string.
pub const MAX_PLUS_LEN: usize = 8;

/// Maximum byte length of a separator string.
pub const MAX_SEP_LEN: usize = 8;

/// A decimal-point string of at most [`MAX_DEC_LEN`] bytes.
#[derive(Copy, Clone, Debug)]
pub struct DecimalStr<'a> {
    s: &'a str,
}

impl<'a> DecimalStr<'a> {
    pub closed spec fn bytes(self) -> Seq<u8> {
        self.s.spec_bytes()
    }

    /// Wrap a string already known to be short enough.
    pub(crate) fn from_checked(s: &'a str) -> (r: DecimalStr<'a>)
        requires
            s.spec_bytes().len() <= MAX_DEC_LEN,
        ensures
            r.bytes() == s.spec_bytes(),
            r.wf(),
    {
        proof {
            vstd::utf8::encode_utf8_valid_utf8(s@);
        }
        DecimalStr { s }
    }

    pub open spec fn wf(self) -> bool {
        self.bytes().len() <= MAX_DEC_LEN && valid_utf8(self.bytes())
    }

    pub fn new(s: &'a str) -> (r: Result<DecimalStr<'a>, Error>)
        ensures
            match r {
                Ok(d) => d.bytes() == s.spec_bytes() && d.wf(),
                Err(e) => e.kind == ErrorKind::DecimalTooLong && s.spec_bytes().len()
                    > MAX_DEC_LEN,
            },
    {
        proof {
            vstd::utf8::encode_utf8_valid_utf8(s@);
        }
        let b = s.as_bytes();
        if b.len() > MAX_DEC_LEN {
            Err(Error::new(ErrorKind::DecimalTooLong))
        } else {
            Ok(DecimalStr { s })
        }
    }

    pub fn into_str(self) -> (r: &'a str)
        ensures
            r.spec_bytes() == self.bytes(),
    {
        self.s
    }

    pub fn as_bytes(&self) -> (r: &'a [u8])
        ensures
            r@ == self.bytes(),
    {
        self.s.as_bytes()
    }
}

/// An infinity string of at most [`MAX_INF_LEN`] bytes.
#[derive(Copy, Clone, Debug)]
pub struct InfinityStr<'a> {
    s: &'a str,
}

impl<'a> InfinityStr<'a> {
    pub closed spec fn bytes(self) -> Seq<u8> {
        self.s.spec_bytes()
    }

    /// Wrap a string already known to be short enough.
    pub(crate) fn from_checked(s: &'a str) -> (r: InfinityStr<'a>)
        requires
            s.spec_bytes().len() <= MAX_INF_LEN,
        ensures
            r.bytes() == s.spec_bytes(),
            r.wf(),
    {
        proof {
            vstd::utf8::encode_utf8_valid_utf8(s@);
        }
        InfinityStr { s }
    }

    pub open spec fn wf(self) -> bool {
        self.bytes().len() <= MAX_INF_LEN && valid_utf8(self.bytes())
    }

    pub fn new(s: &'a str) -> (r: Result<InfinityStr<'a>, Error>)
        ensures
            match r {
                Ok(d) => d.bytes() == s.spec_bytes() && d.wf(),
                Err(e) => e.kind == ErrorKind::InfinityTooLong && s.spec_bytes().len()
                    > MAX_INF_LEN,
            },
    {
        proof {
            vstd::utf8::encode_utf8_valid_utf8(s@);
        }
        let b = s.as_bytes();
        if b.len() > MAX_INF_LEN {
            Err(Error::new(ErrorKind::InfinityTooLong))
        } else {
            Ok(InfinityStr { s })
        }
    }

    pub fn into_str(self) -> (r: &'a str)
        ensures
            r.spec_bytes() == self.bytes(),
    {
        self.s
    }

    pub fn as_bytes(&self) -> (r: &'a [u8])
        ensures
            r@ == self.bytes(),
    {
        self.s.as_bytes()
    }
}

/// A minus-sign string of at most [`MAX_MIN_LEN`] bytes.
#[derive(Copy, Clone, Debug)]
pub struct MinusSignStr<'a> {
    s: &'a str,
}

impl<'a> MinusSignStr<'a> {
    pub closed spec fn bytes(self) -> Seq<u8> {
        self.s.spec_bytes()
    }

    /// Wrap a string already known to be short enough.
    pub(crate) fn from_checked(s: &'a str) -> (r: MinusSignStr<'a>)
        requires
            s.spec_bytes().len() <= MAX_MIN_LEN,
        ensures
            r.bytes() == s.spec_bytes(),
            r.wf(),
    {
        proof {
            vstd::utf8::encode_utf8_valid_utf8(s@);
        }
        MinusSignStr { s }
    }

    pub open spec fn wf(self) -> bool {
        self.bytes().len() <= MAX_MIN_LEN && valid_utf8(self.bytes())
    }

    pub fn new(s: &'a str) -> (r: Result<MinusSignStr<'a>, Error>)
        ensures
            match r {
                Ok(d) => d.bytes() == s.spec_bytes() && d.wf(),
                Err(e) => e.kind == ErrorKind::MinusSignTooLong && s.spec_bytes().len()
                    > MAX_MIN_LEN,
            },
    {
        proof {
            vstd::utf8::encode_utf8_valid_utf8(s@);
        }
        let b = s.as_bytes();
        if b.len() > MAX_MIN_LEN {
            Err(Error::new(ErrorKind::MinusSignTooLong))
        } else {
            Ok(MinusSignStr { s })
        }
    }

    pub fn into_str(self) -> (r: &'a str)
        ensures
            r.spec_bytes() == self.bytes(),
    {
        self.s
    }

    pub fn as_bytes(&self) -> (r: &'a [u8])
        ensures
            r@ == self.bytes(),
    {
        self.s.as_bytes()
    }
}

/// A NaN string of at most [`MAX_NAN_LEN`] bytes.
#[derive(Copy, Clone, Debug)]
pub struct NanStr<'a> {
    s: &'a str,
}

impl<'a> NanStr<'a> {
    pub closed spec fn bytes(self) -> Seq<u8> {
        self.s.spec_bytes()
    }

    /// Wrap a string already known to be short enough.
    pub(crate) fn from_checked(s: &'a str) -> (r: NanStr<'a>)
        requires
            s.spec_bytes().len() <= MAX_NAN_LEN,
        ensures
            r.bytes() == s.spec_bytes(),
            r.wf(),
    {
        proof {
            vstd::utf8::encode_utf8_valid_utf8(s@);
        }
        NanStr { s }
    }

    pub open spec fn wf(self) -> bool {
        self.bytes().len() <= MAX_NAN_LEN && valid_utf8(self.bytes())
    }

    pub fn new(s: &'a str) -> (r: Result<NanStr<'a>, Error>)
        ensures
            match r {
                Ok(d) => d.bytes() == s.spec_bytes() && d.wf(),
                Err(e) => e.kind == ErrorKind::NanTooLong && s.spec_bytes().len() > MAX_NAN_LEN,
            },
    {
        proof {
            vstd::utf8::encode_utf8_valid_utf8(s@);
        }
        let b = s.as_bytes();
        if b.len() > MAX_NAN_LEN {
            Err(Error::new(ErrorKind::NanTooLong))
        } else {
            Ok(NanStr { s })
        }
    }

    pub fn into_str(self) -> (r: &'a str)
        ensures
            r.spec_bytes() == self.bytes(),
    {
        self.s
    }

    pub fn as_bytes(&self) -> (r: &'a [u8])
        ensures
            r@ == self.bytes(),
    {
        self.s.as_bytes()
    }
}

/// A plus-sign string of at most [`MAX_PLUS_LEN`] bytes.
#[derive(Copy, Clone, Debug)]
pub struct PlusSignStr<'a> {
    s: &'a str,
}

impl<'a> PlusSignStr<'a> {
    pub closed spec fn bytes(self) -> Seq<u8> {
        self.s.spec_bytes()
    }

    /// Wrap a string already known to be short enough.
    pub(crate) fn from_checked(s: &'a str) -> (r: PlusSignStr<'a>)
        requires
            s.spec_bytes().len() <= MAX_PLUS_LEN,
        ensures
            r.bytes() == s.spec_bytes(),
            r.wf(),
    {
        proof {
            vstd::utf8::encode_utf8_valid_utf8(s@);
        }
        PlusSignStr { s }
    }

    pub open spec fn wf(self) -> bool {
        self.bytes().len() <= MAX_PLUS_LEN && valid_utf8(self.bytes())
    }

    pub fn new(s: &'a str) -> (r: Result<PlusSignStr<'a>, Error>)
        ensures
            match r {
                Ok(d) => d.bytes() == s.spec_bytes() && d.wf(),
                Err(e) => e.kind == ErrorKind::PlusSignTooLong && s.spec_bytes().len()
                    > MAX_PLUS_LEN,
            },
    {
        proof {
            vstd::utf8::encode_utf8_valid_utf8(s@);
        }
        let b = s.as_bytes();
        if b.len() > MAX_PLUS_LEN {
            Err(Error::new(ErrorKind::PlusSignTooLong))
        } else {
            Ok(PlusSignStr { s })
        }
    }

    pub fn into_str(self) -> (r: &'a str)
        ensures
            r.spec_bytes() == self.bytes(),
    {
        self.s
    }

    pub fn as_bytes(&self) -> (r: &'a [u8])
        ensures
            r@ == self.bytes(),
    {
        self.s.as_bytes()
    }
}

/// A separator string of at most [`MAX_SEP_LEN`] bytes.
#[derive(Copy, Clone, Debug)]
pub struct SeparatorStr<'a> {
    s: &'a str,
}

impl<'a> SeparatorStr<'a> {
    pub closed spec fn bytes(self) -> Seq<u8> {
        self.s.spec_bytes()
    }

    /// Wrap a string already known to be short enough.
    pub(crate) fn from_checked(s: &'a str) -> (r: SeparatorStr<'a>)
        requires
            s.spec_bytes().len() <= MAX_SEP_LEN,
        ensures
            r.bytes() == s.spec_bytes(),
            r.wf(),
    {
        proof {
            vstd::utf8::encode_utf8_valid_utf8(s@);
        }
        SeparatorStr { s }
    }

    pub open spec fn wf(self) -> bool {
        self.bytes().len() <= MAX_SEP_LEN && valid_utf8(self.bytes())
    }

    pub fn new(s: &'a str) -> (r: Result<SeparatorStr<'a>, Error>)
        ensures
            match r {
                Ok(d) => d.bytes() == s.spec_bytes() && d.wf(),
                Err(e) => e.kind == ErrorKind::SeparatorTooLong && s.spec_bytes().len()
                    > MAX_SEP_LEN,
            },
    {
        proof {
            vstd::utf8::encode_utf8_valid_utf8(s@);
        }
        let b = s.as_bytes();
        if b.len() > MAX_SEP_LEN {
            Err(Error::new(ErrorKind::SeparatorTooLong))
        } else {
            Ok(SeparatorStr { s })
        }
    }

    pub fn into_str(self) -> (r: &'a str)
        ensures
            r.spec_bytes() == self.bytes(),
    {
        self.s
    }

    pub fn as_bytes(&self) -> (r: &'a [u8])
        ensures
            r@ == self.bytes(),
    {
        self.s.as_bytes()
    }
}

} // verus!
