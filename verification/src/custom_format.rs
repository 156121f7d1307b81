//! A caller-assembled formatting policy. All seven strings are validated
//! here, when the policy is built; the formatting engine never re-checks
//! them.

use crate::error::{Error, ErrorKind};
use crate::format::{format_model_wf, Format, FormatModel};
use crate::grouping::Grouping;
use crate::strings::{
    DecimalStr, InfinityStr, MinusSignStr, NanStr, PlusSignStr, SeparatorStr, MAX_DEC_LEN,
    MAX_INF_LEN, MAX_MIN_LEN, MAX_NAN_LEN, MAX_PLUS_LEN, MAX_SEP_LEN,
};
use vstd::prelude::*;
use vstd::utf8::encode_utf8;

verus! {

/// A validated formatting policy with owned strings.
#[derive(Debug)]
pub struct CustomFormat {
    dec: String,
    grp: Grouping,
    inf: String,
    min: String,
    nan: String,
    plus: String,
    sep: String,
}

/// The policy of a fresh builder.
pub open spec fn default_model() -> FormatModel {
    FormatModel {
        decimal: encode_utf8("."@),
        grouping: Grouping::Standard,
        infinity: encode_utf8("inf"@),
        minus: encode_utf8("-"@),
        nan: encode_utf8("NaN"@),
        plus: encode_utf8("+"@),
        separator: encode_utf8(","@),
    }
}

/// The policy a builder would produce, before validation.
pub open spec fn builder_model(b: CustomFormatBuilder) -> FormatModel {
    FormatModel {
        decimal: encode_utf8(b.spec_dec()),
        grouping: b.spec_grp(),
        infinity: encode_utf8(b.spec_inf()),
        minus: encode_utf8(b.spec_min()),
        nan: encode_utf8(b.spec_nan()),
        plus: encode_utf8(b.spec_plus()),
        separator: encode_utf8(b.spec_sep()),
    }
}

impl CustomFormat {
    #[verifier::type_invariant]
    closed spec fn type_inv(self) -> bool {
        format_model_wf(self.spec_model())
    }

    pub closed spec fn spec_model(self) -> FormatModel {
        FormatModel {
            decimal: encode_utf8(self.dec@),
            grouping: self.grp,
            infinity: encode_utf8(self.inf@),
            minus: encode_utf8(self.min@),
            nan: encode_utf8(self.nan@),
            plus: encode_utf8(self.plus@),
            separator: encode_utf8(self.sep@),
        }
    }

    /// Start assembling a policy; the defaults are a bare ASCII style:
    /// decimal point `.`, Standard grouping, `inf`, `-`, `NaN`, `+` and `,`.
    pub fn builder() -> (b: CustomFormatBuilder)
        ensures
            builder_model(b) == default_model(),
    {
        CustomFormatBuilder {
            dec: String::from_str("."),
            grp: Grouping::Standard,
            inf: String::from_str("inf"),
            min: String::from_str("-"),
            nan: String::from_str("NaN"),
            plus: String::from_str("+"),
            sep: String::from_str(","),
        }
    }
}

impl Default for CustomFormat {
    /// The builder's defaults, which always validate.
    fn default() -> (f: CustomFormat)
        ensures
            f.model() == default_model(),
    {
        proof {
            crate::locale::lemma_locale_strings();
        }
        match CustomFormat::builder().build() {
            Ok(f) => f,
            Err(e) => {
                proof {
                    assert(format_model_wf(default_model()));
                    assert(false);
                }
                vstd::pervasive::unreached()
            },
        }
    }
}

impl Format for CustomFormat {
    closed spec fn model(&self) -> FormatModel {
        self.spec_model()
    }

    fn decimal(&self) -> (r: DecimalStr<'_>) {
        proof {
            use_type_invariant(self);
        }
        DecimalStr::from_checked(self.dec.as_str())
    }

    fn grouping(&self) -> (g: Grouping) {
        self.grp
    }

    fn infinity(&self) -> (r: InfinityStr<'_>) {
        proof {
            use_type_invariant(self);
        }
        InfinityStr::from_checked(self.inf.as_str())
    }

    fn minus_sign(&self) -> (r: MinusSignStr<'_>) {
        proof {
            use_type_invariant(self);
        }
        MinusSignStr::from_checked(self.min.as_str())
    }

    fn nan(&self) -> (r: NanStr<'_>) {
        proof {
            use_type_invariant(self);
        }
        NanStr::from_checked(self.nan.as_str())
    }

    fn plus_sign(&self) -> (r: PlusSignStr<'_>) {
        proof {
            use_type_invariant(self);
        }
        PlusSignStr::from_checked(self.plus.as_str())
    }

    fn separator(&self) -> (r: SeparatorStr<'_>) {
        proof {
            use_type_invariant(self);
        }
        SeparatorStr::from_checked(self.sep.as_str())
    }
}

/// Assembles a [`CustomFormat`], validating every string length at
/// [`CustomFormatBuilder::build`].
#[derive(Clone, Debug)]
pub struct CustomFormatBuilder {
    dec: String,
    grp: Grouping,
    inf: String,
    min: String,
    nan: String,
    plus: String,
    sep: String,
}

impl CustomFormatBuilder {
    pub closed spec fn spec_dec(self) -> Seq<char> {
        self.dec@
    }

    pub closed spec fn spec_grp(self) -> Grouping {
        self.grp
    }

    pub closed spec fn spec_inf(self) -> Seq<char> {
        self.inf@
    }

    pub closed spec fn spec_min(self) -> Seq<char> {
        self.min@
    }

    pub closed spec fn spec_nan(self) -> Seq<char> {
        self.nan@
    }

    pub closed spec fn spec_plus(self) -> Seq<char> {
        self.plus@
    }

    pub closed spec fn spec_sep(self) -> Seq<char> {
        self.sep@
    }

    pub fn decimal(self, s: &str) -> (b: CustomFormatBuilder)
        ensures
            builder_model(b) == (FormatModel { decimal: encode_utf8(s@), ..builder_model(self) }),
    {
        CustomFormatBuilder { dec: s.to_owned(), ..self }
    }

    pub fn grouping(self, g: Grouping) -> (b: CustomFormatBuilder)
        ensures
            builder_model(b) == (FormatModel { grouping: g, ..builder_model(self) }),
    {
        CustomFormatBuilder { grp: g, ..self }
    }

    pub fn infinity(self, s: &str) -> (b: CustomFormatBuilder)
        ensures
            builder_model(b) == (FormatModel { infinity: encode_utf8(s@), ..builder_model(self) }),
    {
        CustomFormatBuilder { inf: s.to_owned(), ..self }
    }

    pub fn minus_sign(self, s: &str) -> (b: CustomFormatBuilder)
        ensures
            builder_model(b) == (FormatModel { minus: encode_utf8(s@), ..builder_model(self) }),
    {
        CustomFormatBuilder { min: s.to_owned(), ..self }
    }

    pub fn nan(self, s: &str) -> (b: CustomFormatBuilder)
        ensures
            builder_model(b) == (FormatModel { nan: encode_utf8(s@), ..builder_model(self) }),
    {
        CustomFormatBuilder { nan: s.to_owned(), ..self }
    }

    pub fn plus_sign(self, s: &str) -> (b: CustomFormatBuilder)
        ensures
            builder_model(b) == (FormatModel { plus: encode_utf8(s@), ..builder_model(self) }),
    {
        CustomFormatBuilder { plus: s.to_owned(), ..self }
    }

    pub fn separator(self, s: &str) -> (b: CustomFormatBuilder)
        ensures
            builder_model(b) == (FormatModel { separator: encode_utf8(s@), ..builder_model(self) }),
    {
        CustomFormatBuilder { sep: s.to_owned(), ..self }
    }

    /// Validate every string length; this is the policy-construction
    /// boundary, so an over-long string is rejected here and never reaches
    /// the engine. Violations are reported in the policy's field order.
    pub fn build(self) -> (r: Result<CustomFormat, Error>)
        ensures
            match r {
                Ok(f) => f.model() == builder_model(self) && format_model_wf(builder_model(self)),
                Err(e) => !format_model_wf(builder_model(self)) && match e.kind {
                    ErrorKind::DecimalTooLong => builder_model(self).decimal.len() > MAX_DEC_LEN,
                    ErrorKind::InfinityTooLong => builder_model(self).infinity.len() > MAX_INF_LEN,
                    ErrorKind::MinusSignTooLong => builder_model(self).minus.len() > MAX_MIN_LEN,
                    ErrorKind::NanTooLong => builder_model(self).nan.len() > MAX_NAN_LEN,
                    ErrorKind::PlusSignTooLong => builder_model(self).plus.len() > MAX_PLUS_LEN,
                    ErrorKind::SeparatorTooLong => builder_model(self).separator.len()
                        > MAX_SEP_LEN,
                    _ => false,
                },
            },
    {
        if self.dec.as_str().as_bytes().len() > MAX_DEC_LEN {
            Err(Error::new(ErrorKind::DecimalTooLong))
        } else if self.inf.as_str().as_bytes().len() > MAX_INF_LEN {
            Err(Error::new(ErrorKind::InfinityTooLong))
        } else if self.min.as_str().as_bytes().len() > MAX_MIN_LEN {
            Err(Error::new(ErrorKind::MinusSignTooLong))
        } else if self.nan.as_str().as_bytes().len() > MAX_NAN_LEN {
            Err(Error::new(ErrorKind::NanTooLong))
        } else if self.plus.as_str().as_bytes().len() > MAX_PLUS_LEN {
            Err(Error::new(ErrorKind::PlusSignTooLong))
        } else if self.sep.as_str().as_bytes().len() > MAX_SEP_LEN {
            Err(Error::new(ErrorKind::SeparatorTooLong))
        } else {
            let f = CustomFormat {
                dec: self.dec,
                grp: self.grp,
                inf: self.inf,
                min: self.min,
                nan: self.nan,
                plus: self.plus,
                sep: self.sep,
            };
            proof {
                assert(f.type_inv());
            }
            Ok(f)
        }
    }
}

} // verus!
