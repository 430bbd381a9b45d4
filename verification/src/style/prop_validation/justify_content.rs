//! The `justify-content` property.
use vstd::prelude::*;
use crate::text::str_eq;
use crate::unit::Unit;
use super::{CssKeyword, CssValue, KeywordParseError, TokenExpected};

verus! {

/// How content is placed along a line.
#[derive(Debug, Clone, Copy, PartialEq, Eq, Structural)]
pub enum KeywordJustifyContent {
    Left,
    Center,
    Right,
}

impl CssKeyword for KeywordJustifyContent {
    open spec fn spec_from_name(s: Seq<char>) -> Option<Self> {
        if s == "left"@ {
            Some(KeywordJustifyContent::Left)
        } else if s == "center"@ {
            Some(KeywordJustifyContent::Center)
        } else if s == "right"@ {
            Some(KeywordJustifyContent::Right)
        } else {
            None
        }
    }

    open spec fn spec_name(&self) -> Seq<char> {
        match self {
            KeywordJustifyContent::Left => "left"@,
            KeywordJustifyContent::Center => "center"@,
            KeywordJustifyContent::Right => "right"@,
        }
    }

    fn from_str(s: &str) -> (r: Result<Self, KeywordParseError>) {
        if str_eq(s, "left") {
            return Ok(KeywordJustifyContent::Left);
        }
        if str_eq(s, "center") {
            return Ok(KeywordJustifyContent::Center);
        }
        if str_eq(s, "right") {
            return Ok(KeywordJustifyContent::Right);
        }
        Err(KeywordParseError)
    }

    fn as_str(&self) -> (r: &'static str) {
        match self {
            KeywordJustifyContent::Left => "left",
            KeywordJustifyContent::Center => "center",
            KeywordJustifyContent::Right => "right",
        }
    }
}

/// Each keyword of `KeywordJustifyContent` is read back from its own spelling, and a spelling is read only
/// as the keyword it spells.
pub proof fn lemma_keyword_justify_content_round_trip(k: KeywordJustifyContent)
    ensures
        KeywordJustifyContent::spec_from_name(k.spec_name()) == Some(k),
        forall|s: Seq<char>| KeywordJustifyContent::spec_from_name(s) == Some(k) ==> k.spec_name() == s,
{
    reveal_strlit("center");
    assert("center"@ =~= seq!['c', 'e', 'n', 't', 'e', 'r']);
    reveal_strlit("left");
    assert("left"@ =~= seq!['l', 'e', 'f', 't']);
    reveal_strlit("right");
    assert("right"@ =~= seq!['r', 'i', 'g', 'h', 't']);
}

/// The value of `justify-content`.
#[derive(Debug)]
pub struct CssJustifyContent(pub Unit);

impl CssValue for CssJustifyContent {
    type Keyword = KeywordJustifyContent;

    open spec fn spec_css_type_name() -> Seq<char> {
        "CssJustifyContent"@
    }

    open spec fn spec_type_token() -> TokenExpected {
        TokenExpected { bits: 1u8 }
    }

    open spec fn spec_unit(&self) -> Unit {
        self.0
    }

    fn css_type_name() -> (r: &'static str) {
        "CssJustifyContent"
    }

    fn type_token() -> (r: TokenExpected) {
        TokenExpected::Ident()
    }

    fn from_unit(unit: Unit) -> (r: Self) {
        CssJustifyContent(unit)
    }

    fn into_unit(self) -> (r: Unit) {
        self.0
    }
}

/// Every keyword of `KeywordJustifyContent` is read from the CSS name it stands for, and prints as that
/// name.
pub proof fn lemma_keyword_justify_content_names()
    ensures
        KeywordJustifyContent::spec_from_name("left"@) == Some(KeywordJustifyContent::Left),
        KeywordJustifyContent::Left.spec_name() == "left"@,
        KeywordJustifyContent::spec_from_name("center"@) == Some(KeywordJustifyContent::Center),
        KeywordJustifyContent::Center.spec_name() == "center"@,
        KeywordJustifyContent::spec_from_name("right"@) == Some(KeywordJustifyContent::Right),
        KeywordJustifyContent::Right.spec_name() == "right"@,
{
    lemma_keyword_justify_content_round_trip(KeywordJustifyContent::Left);
    lemma_keyword_justify_content_round_trip(KeywordJustifyContent::Center);
    lemma_keyword_justify_content_round_trip(KeywordJustifyContent::Right);
}

} // verus!
