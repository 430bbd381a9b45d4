//! The `vertical-align` property.
use vstd::prelude::*;
use crate::text::str_eq;
use crate::unit::Unit;
use super::{CssKeyword, CssValue, KeywordParseError, TokenExpected};

verus! {

/// Vertical alignments.
#[derive(Debug, Clone, Copy, PartialEq, Eq, Structural)]
pub enum KeywordVerticalAlign {
    Top,
    Middle,
    Bottom,
}

impl CssKeyword for KeywordVerticalAlign {
    open spec fn spec_from_name(s: Seq<char>) -> Option<Self> {
        if s == "top"@ {
            Some(KeywordVerticalAlign::Top)
        } else if s == "middle"@ {
            Some(KeywordVerticalAlign::Middle)
        } else if s == "bottom"@ {
            Some(KeywordVerticalAlign::Bottom)
        } else {
            None
        }
    }

    open spec fn spec_name(&self) -> Seq<char> {
        match self {
            KeywordVerticalAlign::Top => "top"@,
            KeywordVerticalAlign::Middle => "middle"@,
            KeywordVerticalAlign::Bottom => "bottom"@,
        }
    }

    fn from_str(s: &str) -> (r: Result<Self, KeywordParseError>) {
        if str_eq(s, "top") {
            return Ok(KeywordVerticalAlign::Top);
        }
        if str_eq(s, "middle") {
            return Ok(KeywordVerticalAlign::Middle);
        }
        if str_eq(s, "bottom") {
            return Ok(KeywordVerticalAlign::Bottom);
        }
        Err(KeywordParseError)
    }

    fn as_str(&self) -> (r: &'static str) {
        match self {
            KeywordVerticalAlign::Top => "top",
            KeywordVerticalAlign::Middle => "middle",
            KeywordVerticalAlign::Bottom => "bottom",
        }
    }
}

/// Each keyword of `KeywordVerticalAlign` is read back from its own spelling, and a spelling is read only
/// as the keyword it spells.
pub proof fn lemma_keyword_vertical_align_round_trip(k: KeywordVerticalAlign)
    ensures
        KeywordVerticalAlign::spec_from_name(k.spec_name()) == Some(k),
        forall|s: Seq<char>| KeywordVerticalAlign::spec_from_name(s) == Some(k) ==> k.spec_name() == s,
{
    reveal_strlit("bottom");
    assert("bottom"@ =~= seq!['b', 'o', 't', 't', 'o', 'm']);
    reveal_strlit("middle");
    assert("middle"@ =~= seq!['m', 'i', 'd', 'd', 'l', 'e']);
    reveal_strlit("top");
    assert("top"@ =~= seq!['t', 'o', 'p']);
}

/// The value of `vertical-align`.
#[derive(Debug)]
pub struct CssVerticalAlign(pub Unit);

impl CssValue for CssVerticalAlign {
    type Keyword = KeywordVerticalAlign;

    open spec fn spec_css_type_name() -> Seq<char> {
        "CssVerticalAlign"@
    }

    open spec fn spec_type_token() -> TokenExpected {
        TokenExpected { bits: 1u8 }
    }

    open spec fn spec_unit(&self) -> Unit {
        self.0
    }

    fn css_type_name() -> (r: &'static str) {
        "CssVerticalAlign"
    }

    fn type_token() -> (r: TokenExpected) {
        TokenExpected::Ident()
    }

    fn from_unit(unit: Unit) -> (r: Self) {
        CssVerticalAlign(unit)
    }

    fn into_unit(self) -> (r: Unit) {
        self.0
    }
}

/// Every keyword of `KeywordVerticalAlign` is read from the CSS name it stands for, and prints as that
/// name.
pub proof fn lemma_keyword_vertical_align_names()
    ensures
        KeywordVerticalAlign::spec_from_name("top"@) == Some(KeywordVerticalAlign::Top),
        KeywordVerticalAlign::Top.spec_name() == "top"@,
        KeywordVerticalAlign::spec_from_name("middle"@) == Some(KeywordVerticalAlign::Middle),
        KeywordVerticalAlign::Middle.spec_name() == "middle"@,
        KeywordVerticalAlign::spec_from_name("bottom"@) == Some(KeywordVerticalAlign::Bottom),
        KeywordVerticalAlign::Bottom.spec_name() == "bottom"@,
{
    lemma_keyword_vertical_align_round_trip(KeywordVerticalAlign::Top);
    lemma_keyword_vertical_align_round_trip(KeywordVerticalAlign::Middle);
    lemma_keyword_vertical_align_round_trip(KeywordVerticalAlign::Bottom);
}

} // verus!
