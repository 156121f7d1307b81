//! Built-in locale policies. Only the two locales the engine itself leans
//! on are defined here: the plain `en` style and the POSIX style that never
//! groups.

use crate::format::{Format, FormatModel};
use crate::grouping::Grouping;
use crate::strings::{
    DecimalStr, InfinityStr, MinusSignStr, NanStr, PlusSignStr, SeparatorStr,
};
use vstd::prelude::*;
use vstd::string::StringSliceAdditionalSpecFns;
use vstd::utf8::encode_utf8;

verus! {

/// A built-in formatting locale.
#[allow(non_camel_case_types)]
#[derive(Copy, Clone, Debug, PartialEq, Eq, Structural)]
pub enum Locale {
    /// Plain English style: `.` decimal point, `,` separator, Standard
    /// grouping.
    en,
    /// POSIX style: `.` decimal point, no separator, no grouping.
    en_US_POSIX,
}

/// The literal policy strings are as short as they look.
pub(crate) proof fn lemma_locale_strings()
    ensures
        encode_utf8("."@).len() == 1,
        encode_utf8(","@).len() == 1,
        encode_utf8("-"@).len() == 1,
        encode_utf8("+"@).len() == 1,
        encode_utf8(""@).len() == 0,
        encode_utf8("NaN"@).len() == 3,
        encode_utf8("inf"@).len() == 3,
{
    broadcast use vstd::string::is_ascii_spec_bytes;

    reveal_strlit(".");
    reveal_strlit(",");
    reveal_strlit("-");
    reveal_strlit("+");
    reveal_strlit("");
    reveal_strlit("NaN");
    reveal_strlit("inf");
    assert(".".is_ascii());
    assert(",".is_ascii());
    assert("-".is_ascii());
    assert("+".is_ascii());
    assert("".is_ascii());
    assert("NaN".is_ascii());
    assert("inf".is_ascii());
    assert(".".spec_bytes().len() == 1);
    assert(",".spec_bytes().len() == 1);
    assert("-".spec_bytes().len() == 1);
    assert("+".spec_bytes().len() == 1);
    assert("".spec_bytes().len() == 0);
    assert("NaN".spec_bytes().len() == 3);
    assert("inf".spec_bytes().len() == 3);
}

impl Format for Locale {
    open spec fn model(&self) -> FormatModel {
        FormatModel {
            decimal: encode_utf8("."@),
            grouping: match self {
                Locale::en => Grouping::Standard,
                Locale::en_US_POSIX => Grouping::Posix,
            },
            infinity: encode_utf8("inf"@),
            minus: encode_utf8("-"@),
            nan: encode_utf8("NaN"@),
            plus: encode_utf8("+"@),
            separator: match self {
                Locale::en => encode_utf8(","@),
                Locale::en_US_POSIX => encode_utf8(""@),
            },
        }
    }

    fn decimal(&self) -> (r: DecimalStr<'_>) {
        proof {
            lemma_locale_strings();
        }
        DecimalStr::from_checked(".")
    }

    fn grouping(&self) -> (g: Grouping) {
        match self {
            Locale::en => Grouping::Standard,
            Locale::en_US_POSIX => Grouping::Posix,
        }
    }

    fn infinity(&self) -> (r: InfinityStr<'_>) {
        proof {
            lemma_locale_strings();
        }
        InfinityStr::from_checked("inf")
    }

    fn minus_sign(&self) -> (r: MinusSignStr<'_>) {
        proof {
            lemma_locale_strings();
        }
        MinusSignStr::from_checked("-")
    }

    fn nan(&self) -> (r: NanStr<'_>) {
        proof {
            lemma_locale_strings();
        }
        NanStr::from_checked("NaN")
    }

    fn plus_sign(&self) -> (r: PlusSignStr<'_>) {
        proof {
            lemma_locale_strings();
        }
        PlusSignStr::from_checked("+")
    }

    fn separator(&self) -> (r: SeparatorStr<'_>) {
        proof {
            lemma_locale_strings();
        }
        match self {
            Locale::en => SeparatorStr::from_checked(","),
            Locale::en_US_POSIX => SeparatorStr::from_checked(""),
        }
    }
}

} // verus!
