//! The `width` and `height` properties.
use vstd::prelude::*;
use crate::text::str_eq;
use crate::unit::Unit;
use super::{CssKeyword, CssValue, KeywordParseError, TokenExpected};

verus! {

/// The keywords of sizes.
#[derive(Debug, Clone, Copy, PartialEq, Eq, Structural)]
pub enum KeywordSize {
    MaxContent,
    MinContent,
    FitContent,
    Auto,
    Stretch,
}

impl CssKeyword for KeywordSize {
    open spec fn spec_from_name(s: Seq<char>) -> Option<Self> {
        if s == "max-content"@ {
            Some(KeywordSize::MaxContent)
        } else if s == "min-content"@ {
            Some(KeywordSize::MinContent)
        } else if s == "fit-content"@ {
            Some(KeywordSize::FitContent)
        } else if s == "auto"@ {
            Some(KeywordSize::Auto)
        } else if s == "stretch"@ {
            Some(KeywordSize::Stretch)
        } else {
            None
        }
    }

    open spec fn spec_name(&self) -> Seq<char> {
        match self {
            KeywordSize::MaxContent => "max-content"@,
            KeywordSize::MinContent => "min-content"@,
            KeywordSize::FitContent => "fit-content"@,
            KeywordSize::Auto => "auto"@,
            KeywordSize::Stretch => "stretch"@,
        }
    }

    fn from_str(s: &str) -> (r: Result<Self, KeywordParseError>) {
        if str_eq(s, "max-content") {
            return Ok(KeywordSize::MaxContent);
        }
        if str_eq(s, "min-content") {
            return Ok(KeywordSize::MinContent);
        }
        if str_eq(s, "fit-content") {
            return Ok(KeywordSize::FitContent);
        }
        if str_eq(s, "auto") {
            return Ok(KeywordSize::Auto);
        }
        if str_eq(s, "stretch") {
            return Ok(KeywordSize::Stretch);
        }
        Err(KeywordParseError)
    }

    fn as_str(&self) -> (r: &'static str) {
        match self {
            KeywordSize::MaxContent => "max-content",
            KeywordSize::MinContent => "min-content",
            KeywordSize::FitContent => "fit-content",
            KeywordSize::Auto => "auto",
            KeywordSize::Stretch => "stretch",
        }
    }
}

/// Each keyword of `KeywordSize` is read back from its own spelling, and a spelling is read only
/// as the keyword it spells.
pub proof fn lemma_keyword_size_round_trip(k: KeywordSize)
    ensures
        KeywordSize::spec_from_name(k.spec_name()) == Some(k),
        forall|s: Seq<char>| KeywordSize::spec_from_name(s) == Some(k) ==> k.spec_name() == s,
{
    reveal_strlit("auto");
    assert("auto"@ =~= seq!['a', 'u', 't', 'o']);
    reveal_strlit("fit-content");
    assert("fit-content"@ =~= seq!['f', 'i', 't', '-', 'c', 'o', 'n', 't', 'e', 'n', 't']);
    reveal_strlit("max-content");
    assert("max-content"@ =~= seq!['m', 'a', 'x', '-', 'c', 'o', 'n', 't', 'e', 'n', 't']);
    reveal_strlit("min-content");
    assert("min-content"@ =~= seq!['m', 'i', 'n', '-', 'c', 'o', 'n', 't', 'e', 'n', 't']);
    reveal_strlit("stretch");
    assert("stretch"@ =~= seq!['s', 't', 'r', 'e', 't', 'c', 'h']);
}

/// The value of `width`.
#[derive(Debug)]
pub struct CssWidth(pub Unit);

impl CssValue for CssWidth {
    type Keyword = KeywordSize;

    open spec fn spec_css_type_name() -> Seq<char> {
        "CssWidth"@
    }

    open spec fn spec_type_token() -> TokenExpected {
        TokenExpected { bits: 1u8 | 64u8 }
    }

    open spec fn spec_unit(&self) -> Unit {
        self.0
    }

    fn css_type_name() -> (r: &'static str) {
        "CssWidth"
    }

    fn type_token() -> (r: TokenExpected) {
        TokenExpected::Ident().or(TokenExpected::Dimension())
    }

    fn from_unit(unit: Unit) -> (r: Self) {
        CssWidth(unit)
    }

    fn into_unit(self) -> (r: Unit) {
        self.0
    }
}

/// The value of `height`.
#[derive(Debug)]
pub struct CssHeight(pub Unit);

impl CssValue for CssHeight {
    type Keyword = KeywordSize;

    open spec fn spec_css_type_name() -> Seq<char> {
        "CssHeight"@
    }

    open spec fn spec_type_token() -> TokenExpected {
        TokenExpected { bits: 1u8 | 64u8 }
    }

    open spec fn spec_unit(&self) -> Unit {
        self.0
    }

    fn css_type_name() -> (r: &'static str) {
        "CssHeight"
    }

    fn type_token() -> (r: TokenExpected) {
        TokenExpected::Ident().or(TokenExpected::Dimension())
    }

    fn from_unit(unit: Unit) -> (r: Self) {
        CssHeight(unit)
    }

    fn into_unit(self) -> (r: Unit) {
        self.0
    }
}

/// Every keyword of `KeywordSize` is read from the CSS name it stands for, and prints as that
/// name.
pub proof fn lemma_keyword_size_names()
    ensures
        KeywordSize::spec_from_name("max-content"@) == Some(KeywordSize::MaxContent),
        KeywordSize::MaxContent.spec_name() == "max-content"@,
        KeywordSize::spec_from_name("min-content"@) == Some(KeywordSize::MinContent),
        KeywordSize::MinContent.spec_name() == "min-content"@,
        KeywordSize::spec_from_name("fit-content"@) == Some(KeywordSize::FitContent),
        KeywordSize::FitContent.spec_name() == "fit-content"@,
        KeywordSize::spec_from_name("auto"@) == Some(KeywordSize::Auto),
        KeywordSize::Auto.spec_name() == "auto"@,
        KeywordSize::spec_from_name("stretch"@) == Some(KeywordSize::Stretch),
        KeywordSize::Stretch.spec_name() == "stretch"@,
{
    lemma_keyword_size_round_trip(KeywordSize::MaxContent);
    lemma_keyword_size_round_trip(KeywordSize::MinContent);
    lemma_keyword_size_round_trip(KeywordSize::FitContent);
    lemma_keyword_size_round_trip(KeywordSize::Auto);
    lemma_keyword_size_round_trip(KeywordSize::Stretch);
}

} // verus!
