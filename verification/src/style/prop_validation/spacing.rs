//! The `spacing` property.
use vstd::prelude::*;
use crate::text::str_eq;
use crate::unit::Unit;
use super::{CssKeyword, CssValue, KeywordParseError, TokenExpected};

verus! {

/// The keywords of `spacing`.
#[derive(Debug, Clone, Copy, PartialEq, Eq, Structural)]
pub enum KeywordSpacing {
    Auto,
}

impl CssKeyword for KeywordSpacing {
    open spec fn spec_from_name(s: Seq<char>) -> Option<Self> {
        if s == "auto"@ {
            Some(KeywordSpacing::Auto)
        } else {
            None
        }
    }

    open spec fn spec_name(&self) -> Seq<char> {
        match self {
            KeywordSpacing::Auto => "auto"@,
        }
    }

    fn from_str(s: &str) -> (r: Result<Self, KeywordParseError>) {
        if str_eq(s, "auto") {
            return Ok(KeywordSpacing::Auto);
        }
        Err(KeywordParseError)
    }

    fn as_str(&self) -> (r: &'static str) {
        match self {
            KeywordSpacing::Auto => "auto",
        }
    }
}

/// Each keyword of `KeywordSpacing` is read back from its own spelling, and a spelling is read only
/// as the keyword it spells.
pub proof fn lemma_keyword_spacing_round_trip(k: KeywordSpacing)
    ensures
        KeywordSpacing::spec_from_name(k.spec_name()) == Some(k),
        forall|s: Seq<char>| KeywordSpacing::spec_from_name(s) == Some(k) ==> k.spec_name() == s,
{
    reveal_strlit("auto");
    assert("auto"@ =~= seq!['a', 'u', 't', 'o']);
}

/// One side of `spacing`.
#[derive(Debug)]
pub struct CssSpacing(pub Unit);

impl CssValue for CssSpacing {
    type Keyword = KeywordSpacing;

    open spec fn spec_css_type_name() -> Seq<char> {
        "CssSpacing"@
    }

    open spec fn spec_type_token() -> TokenExpected {
        TokenExpected { bits: 1u8 | 64u8 | 32u8 }
    }

    open spec fn spec_unit(&self) -> Unit {
        self.0
    }

    fn css_type_name() -> (r: &'static str) {
        "CssSpacing"
    }

    fn type_token() -> (r: TokenExpected) {
        TokenExpected::Ident().or(TokenExpected::Dimension()).or(TokenExpected::Percentage())
    }

    fn from_unit(unit: Unit) -> (r: Self) {
        CssSpacing(unit)
    }

    fn into_unit(self) -> (r: Unit) {
        self.0
    }
}

/// Every keyword of `KeywordSpacing` is read from the CSS name it stands for, and prints as that
/// name.
pub proof fn lemma_keyword_spacing_names()
    ensures
        KeywordSpacing::spec_from_name("auto"@) == Some(KeywordSpacing::Auto),
        KeywordSpacing::Auto.spec_name() == "auto"@,
{
    lemma_keyword_spacing_round_trip(KeywordSpacing::Auto);
}

} // verus!
