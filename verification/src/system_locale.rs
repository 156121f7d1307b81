//! Platform locale data as a policy. Discovering the raw strings is the
//! platform glue's job; everything that *decides* — which grouping a
//! description names, which strings are acceptable — is validated here,
//! once, when the locale is assembled from its parts.

use crate::error::{Error, ErrorKind};
use crate::format::{Format, FormatModel};
use crate::grouping::Grouping;
use crate::strings::{
    DecimalStr, InfinityStr, MinusSignStr, NanStr, PlusSignStr, SeparatorStr, MAX_INF_LEN,
    MAX_MIN_LEN, MAX_NAN_LEN,
};
use vstd::prelude::*;
use vstd::string::StringSliceAdditionalSpecFns;
use vstd::utf8::encode_utf8;

verus! {

/// The longest locale name the platform accepts, terminator included.
pub const LOCALE_NAME_MAX_LENGTH: usize = 85;

/// The locale properties the engine knows how to ask the platform for.
#[derive(Copy, Clone, Debug)]
pub enum Request {
    Decimal,
    Grouping,
    MinusSign,
    Name,
    Nan,
    NegativeInfinity,
    PositiveInfinity,
    Separator,
}

impl Request {
    pub open spec fn spec_lctype(self) -> u32 {
        match self {
            Request::Decimal => 0xE,
            Request::Grouping => 0x10,
            Request::MinusSign => 0x51,
            Request::Name => 0x5C,
            Request::Nan => 0x69,
            Request::NegativeInfinity => 0x6B,
            Request::PositiveInfinity => 0x6A,
            Request::Separator => 0xF,
        }
    }
}

impl From<Request> for u32 {
    /// The platform locale-information constant that names this property.
    fn from(request: Request) -> (r: u32) {
        match request {
            Request::Decimal => 0xE,
            Request::Grouping => 0x10,
            Request::MinusSign => 0x51,
            Request::Name => 0x5C,
            Request::Nan => 0x69,
            Request::NegativeInfinity => 0x6B,
            Request::PositiveInfinity => 0x6A,
            Request::Separator => 0xF,
        }
    }
}

impl vstd::std_specs::convert::FromSpecImpl<Request> for u32 {
    open spec fn obeys_from_spec() -> bool {
        true
    }

    open spec fn from_spec(request: Request) -> u32 {
        request.spec_lctype()
    }
}

/// Byte-for-byte string comparison.
fn bytes_eq(a: &[u8], b: &[u8]) -> (r: bool)
    ensures
        r == (a@ == b@),
{
    if a.len() != b.len() {
        proof {
            assert(a@ != b@);
        }
        return false;
    }
    let n: usize = a.len();
    let mut i: usize = 0;
    while i < n
        invariant
            i <= n,
            n == a@.len() == b@.len(),
            forall|j: int| 0 <= j < i ==> a@[j] == b@[j],
        decreases n - i,
    {
        if a[i] != b[i] {
            return false;
        }
        i = i + 1;
    }
    proof {
        assert(a@ =~= b@);
    }
    true
}

/// A platform locale's policy, assembled from validated parts.
#[derive(Debug)]
pub struct SystemLocale {
    dec: String,
    grp: Grouping,
    inf: String,
    min: String,
    name: String,
    nan: String,
    sep: String,
}

/// Which grouping mode a platform grouping description names, if any.
pub open spec fn grouping_of_description(grp: Seq<u8>) -> Option<Grouping> {
    if grp == "3;0".spec_bytes() || grp == "3".spec_bytes() {
        Option::Some(Grouping::Standard)
    } else if grp == "3;2;0".spec_bytes() || grp == "3;2".spec_bytes() {
        Option::Some(Grouping::Indian)
    } else if grp == "".spec_bytes() {
        Option::Some(Grouping::Posix)
    } else {
        Option::None
    }
}

/// Every condition `from_parts` checks, over the parts' bytes and lengths.
pub open spec fn parts_acceptable(
    name: Seq<u8>,
    dec_chars: Seq<char>,
    grp: Seq<u8>,
    inf: Seq<u8>,
    min: Seq<u8>,
    nan: Seq<u8>,
    sep_chars: Seq<char>,
) -> bool {
    &&& name.len() <= LOCALE_NAME_MAX_LENGTH - 1
    &&& dec_chars.len() == 1
    &&& grouping_of_description(grp) is Some
    &&& inf.len() <= MAX_INF_LEN
    &&& min.len() <= MAX_MIN_LEN
    &&& nan.len() <= MAX_NAN_LEN
    &&& sep_chars.len() <= 1
}

impl SystemLocale {
    #[verifier::type_invariant]
    closed spec fn type_inv(self) -> bool {
        crate::format::format_model_wf(self.spec_model())
    }

    pub closed spec fn spec_model(self) -> FormatModel {
        FormatModel {
            decimal: encode_utf8(self.dec@),
            grouping: self.grp,
            infinity: encode_utf8(self.inf@),
            minus: encode_utf8(self.min@),
            nan: encode_utf8(self.nan@),
            plus: encode_utf8(Seq::<char>::empty()),
            separator: encode_utf8(self.sep@),
        }
    }

    pub closed spec fn spec_name(self) -> Seq<char> {
        self.name@
    }

    /// Assemble a locale policy from the raw strings a platform lookup
    /// produced, accepting exactly the combinations the engine supports:
    /// a one-character decimal point, a known grouping description, bounded
    /// special-value strings, and a separator of at most one character.
    pub fn from_parts(
        name: String,
        dec: String,
        grp: String,
        inf: String,
        min: String,
        nan: String,
        sep: String,
    ) -> (r: Result<SystemLocale, Error>)
        ensures
            match r {
                Ok(l) => {
                    &&& parts_acceptable(
                        encode_utf8(name@),
                        dec@,
                        encode_utf8(grp@),
                        encode_utf8(inf@),
                        encode_utf8(min@),
                        encode_utf8(nan@),
                        sep@,
                    )
                    &&& l.spec_model().decimal == encode_utf8(dec@)
                    &&& Option::Some(l.spec_model().grouping) == grouping_of_description(
                        encode_utf8(grp@),
                    )
                    &&& l.spec_model().infinity == encode_utf8(inf@)
                    &&& l.spec_model().minus == encode_utf8(min@)
                    &&& l.spec_model().nan == encode_utf8(nan@)
                    &&& l.spec_model().separator == encode_utf8(sep@)
                    &&& l.spec_name() == name@
                },
                Err(e) => {
                    &&& !parts_acceptable(
                        encode_utf8(name@),
                        dec@,
                        encode_utf8(grp@),
                        encode_utf8(inf@),
                        encode_utf8(min@),
                        encode_utf8(nan@),
                        sep@,
                    )
                    &&& match e.kind {
                        ErrorKind::LocaleNameTooLong => encode_utf8(name@).len()
                            > LOCALE_NAME_MAX_LENGTH - 1,
                        ErrorKind::UnsupportedDecimal => dec@.len() != 1,
                        ErrorKind::UnsupportedGrouping => grouping_of_description(
                            encode_utf8(grp@),
                        ) is None,
                        ErrorKind::InfinityTooLong => encode_utf8(inf@).len() > MAX_INF_LEN,
                        ErrorKind::MinusSignTooLong => encode_utf8(min@).len() > MAX_MIN_LEN,
                        ErrorKind::NanTooLong => encode_utf8(nan@).len() > MAX_NAN_LEN,
                        ErrorKind::UnsupportedSeparator => sep@.len() > 1,
                        _ => false,
                    }
                },
            },
    {
        if name.as_str().as_bytes().len() > LOCALE_NAME_MAX_LENGTH - 1 {
            return Err(Error::new(ErrorKind::LocaleNameTooLong));
        }
        if dec.as_str().unicode_len() != 1 {
            return Err(Error::new(ErrorKind::UnsupportedDecimal));
        }
        let gb = grp.as_str().as_bytes();
        let grouping: Grouping;
        if bytes_eq(gb, "3;0".as_bytes()) || bytes_eq(gb, "3".as_bytes()) {
            grouping = Grouping::Standard;
        } else if bytes_eq(gb, "3;2;0".as_bytes()) || bytes_eq(gb, "3;2".as_bytes()) {
            grouping = Grouping::Indian;
        } else if bytes_eq(gb, "".as_bytes()) {
            grouping = Grouping::Posix;
        } else {
            return Err(Error::new(ErrorKind::UnsupportedGrouping));
        }
        if inf.as_str().as_bytes().len() > MAX_INF_LEN {
            return Err(Error::new(ErrorKind::InfinityTooLong));
        }
        if min.as_str().as_bytes().len() > MAX_MIN_LEN {
            return Err(Error::new(ErrorKind::MinusSignTooLong));
        }
        if nan.as_str().as_bytes().len() > MAX_NAN_LEN {
            return Err(Error::new(ErrorKind::NanTooLong));
        }
        if sep.as_str().unicode_len() > 1 {
            return Err(Error::new(ErrorKind::UnsupportedSeparator));
        }
        proof {
            lemma_encode_len(dec@);
            lemma_encode_len(sep@);
        }
        let l = SystemLocale { dec, grp: grouping, inf, min, name, nan, sep };
        proof {
            assert(l.type_inv());
        }
        Ok(l)
    }

    /// The locale's name.
    pub fn name(&self) -> (r: &str)
        ensures
            r@ == self.spec_name(),
    {
        self.name.as_str()
    }
}

/// A character sequence encodes to at most four bytes per character.
proof fn lemma_encode_len(chars: Seq<char>)
    ensures
        encode_utf8(chars).len() <= 4 * chars.len(),
    decreases chars.len(),
{
    if chars.len() > 0 {
        lemma_encode_len(chars.drop_first());
    }
}

impl Format for SystemLocale {
    closed spec fn model(&self) -> FormatModel {
        self.spec_model()
    }

    fn decimal(&self) -> (r: DecimalStr<'_>) {
        proof {
            use_type_invariant(self);
        }
        DecimalStr::from_checked(self.dec.as_str())
    }

    fn grouping(&self) -> (g: Grouping) {
        self.grp
    }

    fn infinity(&self) -> (r: InfinityStr<'_>) {
        proof {
            use_type_invariant(self);
        }
        InfinityStr::from_checked(self.inf.as_str())
    }

    fn minus_sign(&self) -> (r: MinusSignStr<'_>) {
        proof {
            use_type_invariant(self);
        }
        MinusSignStr::from_checked(self.min.as_str())
    }

    fn nan(&self) -> (r: NanStr<'_>) {
        proof {
            use_type_invariant(self);
        }
        NanStr::from_checked(self.nan.as_str())
    }

    fn plus_sign(&self) -> (r: PlusSignStr<'_>) {
        proof {
            reveal_strlit("");
            assert(""@ =~= Seq::<char>::empty());
        }
        PlusSignStr::from_checked("")
    }

    fn separator(&self) -> (r: SeparatorStr<'_>) {
        proof {
            use_type_invariant(self);
        }
        SeparatorStr::from_checked(self.sep.as_str())
    }
}

} // verus!
