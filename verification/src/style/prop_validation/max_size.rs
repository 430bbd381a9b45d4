//! The `max-width` and `max-height` properties.
use vstd::prelude::*;
use crate::text::str_eq;
use crate::unit::Unit;
use super::{CssKeyword, CssValue, KeywordParseError, TokenExpected};

verus! {

/// The keywords of the maximum sizes.
#[derive(Debug, Clone, Copy, PartialEq, Eq, Structural)]
pub enum KeywordMaxSize {
    NoneKeyword,
    MaxContent,
    MinContent,
    FitContent,
    Stretch,
}

impl CssKeyword for KeywordMaxSize {
    open spec fn spec_from_name(s: Seq<char>) -> Option<Self> {
        if s == "none"@ {
            Some(KeywordMaxSize::NoneKeyword)
        } else if s == "max-content"@ {
            Some(KeywordMaxSize::MaxContent)
        } else if s == "min-content"@ {
            Some(KeywordMaxSize::MinContent)
        } else if s == "fit-content"@ {
            Some(KeywordMaxSize::FitContent)
        } else if s == "stretch"@ {
            Some(KeywordMaxSize::Stretch)
        } else {
            None
        }
    }

    open spec fn spec_name(&self) -> Seq<char> {
        match self {
            KeywordMaxSize::NoneKeyword => "none"@,
            KeywordMaxSize::MaxContent => "max-content"@,
            KeywordMaxSize::MinContent => "min-content"@,
            KeywordMaxSize::FitContent => "fit-content"@,
            KeywordMaxSize::Stretch => "stretch"@,
        }
    }

    fn from_str(s: &str) -> (r: Result<Self, KeywordParseError>) {
        if str_eq(s, "none") {
            return Ok(KeywordMaxSize::NoneKeyword);
        }
        if str_eq(s, "max-content") {
            return Ok(KeywordMaxSize::MaxContent);
        }
        if str_eq(s, "min-content") {
            return Ok(KeywordMaxSize::MinContent);
        }
        if str_eq(s, "fit-content") {
            return Ok(KeywordMaxSize::FitContent);
        }
        if str_eq(s, "stretch") {
            return Ok(KeywordMaxSize::Stretch);
        }
        Err(KeywordParseError)
    }

    fn as_str(&self) -> (r: &'static str) {
        match self {
            KeywordMaxSize::NoneKeyword => "none",
            KeywordMaxSize::MaxContent => "max-content",
            KeywordMaxSize::MinContent => "min-content",
            KeywordMaxSize::FitContent => "fit-content",
            KeywordMaxSize::Stretch => "stretch",
        }
    }
}

/// Each keyword of `KeywordMaxSize` is read back from its own spelling, and a spelling is read only
/// as the keyword it spells.
pub proof fn lemma_keyword_max_size_round_trip(k: KeywordMaxSize)
    ensures
        KeywordMaxSize::spec_from_name(k.spec_name()) == Some(k),
        forall|s: Seq<char>| KeywordMaxSize::spec_from_name(s) == Some(k) ==> k.spec_name() == s,
{
    reveal_strlit("fit-content");
    assert("fit-content"@ =~= seq!['f', 'i', 't', '-', 'c', 'o', 'n', 't', 'e', 'n', 't']);
    reveal_strlit("max-content");
    assert("max-content"@ =~= seq!['m', 'a', 'x', '-', 'c', 'o', 'n', 't', 'e', 'n', 't']);
    reveal_strlit("min-content");
    assert("min-content"@ =~= seq!['m', 'i', 'n', '-', 'c', 'o', 'n', 't', 'e', 'n', 't']);
    reveal_strlit("none");
    assert("none"@ =~= seq!['n', 'o', 'n', 'e']);
    reveal_strlit("stretch");
    assert("stretch"@ =~= seq!['s', 't', 'r', 'e', 't', 'c', 'h']);
}

/// The value of `max-width`.
#[derive(Debug)]
pub struct CssMaxWidth(pub Unit);

impl CssValue for CssMaxWidth {
    type Keyword = KeywordMaxSize;

    open spec fn spec_css_type_name() -> Seq<char> {
        "CssMaxWidth"@
    }

    open spec fn spec_type_token() -> TokenExpected {
        TokenExpected { bits: 64u8 | 32u8 | 1u8 }
    }

    open spec fn spec_unit(&self) -> Unit {
        self.0
    }

    fn css_type_name() -> (r: &'static str) {
        "CssMaxWidth"
    }

    fn type_token() -> (r: TokenExpected) {
        TokenExpected::Dimension().or(TokenExpected::Percentage()).or(TokenExpected::Ident())
    }

    fn from_unit(unit: Unit) -> (r: Self) {
        CssMaxWidth(unit)
    }

    fn into_unit(self) -> (r: Unit) {
        self.0
    }
}

/// The value of `max-height`.
#[derive(Debug)]
pub struct CssMaxHeight(pub Unit);

impl CssValue for CssMaxHeight {
    type Keyword = KeywordMaxSize;

    open spec fn spec_css_type_name() -> Seq<char> {
        "CssMaxHeight"@
    }

    open spec fn spec_type_token() -> TokenExpected {
        TokenExpected { bits: 64u8 | 32u8 | 1u8 }
    }

    open spec fn spec_unit(&self) -> Unit {
        self.0
    }

    fn css_type_name() -> (r: &'static str) {
        "CssMaxHeight"
    }

    fn type_token() -> (r: TokenExpected) {
        TokenExpected::Dimension().or(TokenExpected::Percentage()).or(TokenExpected::Ident())
    }

    fn from_unit(unit: Unit) -> (r: Self) {
        CssMaxHeight(unit)
    }

    fn into_unit(self) -> (r: Unit) {
        self.0
    }
}

/// Every keyword of `KeywordMaxSize` is read from the CSS name it stands for, and prints as that
/// name.
pub proof fn lemma_keyword_max_size_names()
    ensures
        KeywordMaxSize::spec_from_name("none"@) == Some(KeywordMaxSize::NoneKeyword),
        KeywordMaxSize::NoneKeyword.spec_name() == "none"@,
        KeywordMaxSize::spec_from_name("max-content"@) == Some(KeywordMaxSize::MaxContent),
        KeywordMaxSize::MaxContent.spec_name() == "max-content"@,
        KeywordMaxSize::spec_from_name("min-content"@) == Some(KeywordMaxSize::MinContent),
        KeywordMaxSize::MinContent.spec_name() == "min-content"@,
        KeywordMaxSize::spec_from_name("fit-content"@) == Some(KeywordMaxSize::FitContent),
        KeywordMaxSize::FitContent.spec_name() == "fit-content"@,
        KeywordMaxSize::spec_from_name("stretch"@) == Some(KeywordMaxSize::Stretch),
        KeywordMaxSize::Stretch.spec_name() == "stretch"@,
{
    lemma_keyword_max_size_round_trip(KeywordMaxSize::NoneKeyword);
    lemma_keyword_max_size_round_trip(KeywordMaxSize::MaxContent);
    lemma_keyword_max_size_round_trip(KeywordMaxSize::MinContent);
    lemma_keyword_max_size_round_trip(KeywordMaxSize::FitContent);
    lemma_keyword_max_size_round_trip(KeywordMaxSize::Stretch);
}

} // verus!
