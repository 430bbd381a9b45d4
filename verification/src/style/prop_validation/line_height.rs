//! The `line-height` property.
use vstd::prelude::*;
use crate::text::str_eq;
use crate::unit::Unit;
use super::{CssKeyword, CssValue, KeywordParseError, TokenExpected};

verus! {

/// The keywords of `line-height`.
#[derive(Debug, Clone, Copy, PartialEq, Eq, Structural)]
pub enum KeywordLineHeight {
    Normal,
}

impl CssKeyword for KeywordLineHeight {
    open spec fn spec_from_name(s: Seq<char>) -> Option<Self> {
        if s == "normal"@ {
            Some(KeywordLineHeight::Normal)
        } else {
            None
        }
    }

    open spec fn spec_name(&self) -> Seq<char> {
        match self {
            KeywordLineHeight::Normal => "normal"@,
        }
    }

    fn from_str(s: &str) -> (r: Result<Self, KeywordParseError>) {
        if str_eq(s, "normal") {
            return Ok(KeywordLineHeight::Normal);
        }
        Err(KeywordParseError)
    }

    fn as_str(&self) -> (r: &'static str) {
        match self {
            KeywordLineHeight::Normal => "normal",
        }
    }
}

/// Each keyword of `KeywordLineHeight` is read back from its own spelling, and a spelling is read only
/// as the keyword it spells.
pub proof fn lemma_keyword_line_height_round_trip(k: KeywordLineHeight)
    ensures
        KeywordLineHeight::spec_from_name(k.spec_name()) == Some(k),
        forall|s: Seq<char>| KeywordLineHeight::spec_from_name(s) == Some(k) ==> k.spec_name() == s,
{
    reveal_strlit("normal");
    assert("normal"@ =~= seq!['n', 'o', 'r', 'm', 'a', 'l']);
}

/// The value of `line-height`.
#[derive(Debug)]
pub struct CssLineHeight(pub Unit);

impl CssValue for CssLineHeight {
    type Keyword = KeywordLineHeight;

    open spec fn spec_css_type_name() -> Seq<char> {
        "CssLineHeight"@
    }

    open spec fn spec_type_token() -> TokenExpected {
        TokenExpected { bits: 64u8 | 32u8 | 1u8 | 16u8 }
    }

    open spec fn spec_unit(&self) -> Unit {
        self.0
    }

    fn css_type_name() -> (r: &'static str) {
        "CssLineHeight"
    }

    fn type_token() -> (r: TokenExpected) {
        TokenExpected::Dimension().or(TokenExpected::Percentage()).or(TokenExpected::Ident()).or(TokenExpected::Number())
    }

    fn from_unit(unit: Unit) -> (r: Self) {
        CssLineHeight(unit)
    }

    fn into_unit(self) -> (r: Unit) {
        self.0
    }
}

/// Every keyword of `KeywordLineHeight` is read from the CSS name it stands for, and prints as that
/// name.
pub proof fn lemma_keyword_line_height_names()
    ensures
        KeywordLineHeight::spec_from_name("normal"@) == Some(KeywordLineHeight::Normal),
        KeywordLineHeight::Normal.spec_name() == "normal"@,
{
    lemma_keyword_line_height_round_trip(KeywordLineHeight::Normal);
}

} // verus!
