//! The `left` and `right` properties.
use vstd::prelude::*;
use crate::text::str_eq;
use crate::unit::Unit;
use super::{CssKeyword, CssValue, KeywordParseError, TokenExpected};

verus! {

/// The keywords of horizontal offsets.
#[derive(Debug, Clone, Copy, PartialEq, Eq, Structural)]
pub enum KeywordPositionHorizontal {
    Auto,
}

impl CssKeyword for KeywordPositionHorizontal {
    open spec fn spec_from_name(s: Seq<char>) -> Option<Self> {
        if s == "auto"@ {
            Some(KeywordPositionHorizontal::Auto)
        } else {
            None
        }
    }

    open spec fn spec_name(&self) -> Seq<char> {
        match self {
            KeywordPositionHorizontal::Auto => "auto"@,
        }
    }

    fn from_str(s: &str) -> (r: Result<Self, KeywordParseError>) {
        if str_eq(s, "auto") {
            return Ok(KeywordPositionHorizontal::Auto);
        }
        Err(KeywordParseError)
    }

    fn as_str(&self) -> (r: &'static str) {
        match self {
            KeywordPositionHorizontal::Auto => "auto",
        }
    }
}

/// Each keyword of `KeywordPositionHorizontal` is read back from its own spelling, and a spelling is read only
/// as the keyword it spells.
pub proof fn lemma_keyword_position_horizontal_round_trip(k: KeywordPositionHorizontal)
    ensures
        KeywordPositionHorizontal::spec_from_name(k.spec_name()) == Some(k),
        forall|s: Seq<char>| KeywordPositionHorizontal::spec_from_name(s) == Some(k) ==> k.spec_name() == s,
{
    reveal_strlit("auto");
    assert("auto"@ =~= seq!['a', 'u', 't', 'o']);
}

/// The value of `left`.
#[derive(Debug)]
pub struct CssLeft(pub Unit);

impl CssValue for CssLeft {
    type Keyword = KeywordPositionHorizontal;

    open spec fn spec_css_type_name() -> Seq<char> {
        "CssLeft"@
    }

    open spec fn spec_type_token() -> TokenExpected {
        TokenExpected { bits: 64u8 | 32u8 | 1u8 }
    }

    open spec fn spec_unit(&self) -> Unit {
        self.0
    }

    fn css_type_name() -> (r: &'static str) {
        "CssLeft"
    }

    fn type_token() -> (r: TokenExpected) {
        TokenExpected::Dimension().or(TokenExpected::Percentage()).or(TokenExpected::Ident())
    }

    fn from_unit(unit: Unit) -> (r: Self) {
        CssLeft(unit)
    }

    fn into_unit(self) -> (r: Unit) {
        self.0
    }
}

/// The value of `right`.
#[derive(Debug)]
pub struct CssRight(pub Unit);

impl CssValue for CssRight {
    type Keyword = KeywordPositionHorizontal;

    open spec fn spec_css_type_name() -> Seq<char> {
        "CssRight"@
    }

    open spec fn spec_type_token() -> TokenExpected {
        TokenExpected { bits: 64u8 | 32u8 | 1u8 }
    }

    open spec fn spec_unit(&self) -> Unit {
        self.0
    }

    fn css_type_name() -> (r: &'static str) {
        "CssRight"
    }

    fn type_token() -> (r: TokenExpected) {
        TokenExpected::Dimension().or(TokenExpected::Percentage()).or(TokenExpected::Ident())
    }

    fn from_unit(unit: Unit) -> (r: Self) {
        CssRight(unit)
    }

    fn into_unit(self) -> (r: Unit) {
        self.0
    }
}

/// Every keyword of `KeywordPositionHorizontal` is read from the CSS name it stands for, and prints as that
/// name.
pub proof fn lemma_keyword_position_horizontal_names()
    ensures
        KeywordPositionHorizontal::spec_from_name("auto"@) == Some(KeywordPositionHorizontal::Auto),
        KeywordPositionHorizontal::Auto.spec_name() == "auto"@,
{
    lemma_keyword_position_horizontal_round_trip(KeywordPositionHorizontal::Auto);
}

} // verus!
