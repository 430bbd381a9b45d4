//! The `top` and `bottom` properties.
use vstd::prelude::*;
use crate::text::str_eq;
use crate::unit::Unit;
use super::{CssKeyword, CssValue, KeywordParseError, TokenExpected};

verus! {

/// The keywords of vertical offsets.
#[derive(Debug, Clone, Copy, PartialEq, Eq, Structural)]
pub enum KeywordPositionVertical {
    Auto,
}

impl CssKeyword for KeywordPositionVertical {
    open spec fn spec_from_name(s: Seq<char>) -> Option<Self> {
        if s == "auto"@ {
            Some(KeywordPositionVertical::Auto)
        } else {
            None
        }
    }

    open spec fn spec_name(&self) -> Seq<char> {
        match self {
            KeywordPositionVertical::Auto => "auto"@,
        }
    }

    fn from_str(s: &str) -> (r: Result<Self, KeywordParseError>) {
        if str_eq(s, "auto") {
            return Ok(KeywordPositionVertical::Auto);
        }
        Err(KeywordParseError)
    }

    fn as_str(&self) -> (r: &'static str) {
        match self {
            KeywordPositionVertical::Auto => "auto",
        }
    }
}

/// Each keyword of `KeywordPositionVertical` is read back from its own spelling, and a spelling is read only
/// as the keyword it spells.
pub proof fn lemma_keyword_position_vertical_round_trip(k: KeywordPositionVertical)
    ensures
        KeywordPositionVertical::spec_from_name(k.spec_name()) == Some(k),
        forall|s: Seq<char>| KeywordPositionVertical::spec_from_name(s) == Some(k) ==> k.spec_name() == s,
{
    reveal_strlit("auto");
    assert("auto"@ =~= seq!['a', 'u', 't', 'o']);
}

/// The value of `top`.
#[derive(Debug)]
pub struct CssTop(pub Unit);

impl CssValue for CssTop {
    type Keyword = KeywordPositionVertical;

    open spec fn spec_css_type_name() -> Seq<char> {
        "CssTop"@
    }

    open spec fn spec_type_token() -> TokenExpected {
        TokenExpected { bits: 64u8 | 32u8 | 1u8 }
    }

    open spec fn spec_unit(&self) -> Unit {
        self.0
    }

    fn css_type_name() -> (r: &'static str) {
        "CssTop"
    }

    fn type_token() -> (r: TokenExpected) {
        TokenExpected::Dimension().or(TokenExpected::Percentage()).or(TokenExpected::Ident())
    }

    fn from_unit(unit: Unit) -> (r: Self) {
        CssTop(unit)
    }

    fn into_unit(self) -> (r: Unit) {
        self.0
    }
}

/// The value of `bottom`.
#[derive(Debug)]
pub struct CssBottom(pub Unit);

impl CssValue for CssBottom {
    type Keyword = KeywordPositionVertical;

    open spec fn spec_css_type_name() -> Seq<char> {
        "CssBottom"@
    }

    open spec fn spec_type_token() -> TokenExpected {
        TokenExpected { bits: 64u8 | 32u8 | 1u8 }
    }

    open spec fn spec_unit(&self) -> Unit {
        self.0
    }

    fn css_type_name() -> (r: &'static str) {
        "CssBottom"
    }

    fn type_token() -> (r: TokenExpected) {
        TokenExpected::Dimension().or(TokenExpected::Percentage()).or(TokenExpected::Ident())
    }

    fn from_unit(unit: Unit) -> (r: Self) {
        CssBottom(unit)
    }

    fn into_unit(self) -> (r: Unit) {
        self.0
    }
}

/// Every keyword of `KeywordPositionVertical` is read from the CSS name it stands for, and prints as that
/// name.
pub proof fn lemma_keyword_position_vertical_names()
    ensures
        KeywordPositionVertical::spec_from_name("auto"@) == Some(KeywordPositionVertical::Auto),
        KeywordPositionVertical::Auto.spec_name() == "auto"@,
{
    lemma_keyword_position_vertical_round_trip(KeywordPositionVertical::Auto);
}

} // verus!
