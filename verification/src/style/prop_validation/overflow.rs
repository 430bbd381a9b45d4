//! The `overflow-x` and `overflow-y` properties.
use vstd::prelude::*;
use crate::text::str_eq;
use crate::unit::Unit;
use super::{CssKeyword, CssValue, KeywordParseError, TokenExpected};

verus! {

/// How overflowing content is shown.
#[derive(Debug, Clone, Copy, PartialEq, Eq, Structural)]
pub enum KeywordOverflow {
    Visible,
    Clip,
    Scroll,
}

impl CssKeyword for KeywordOverflow {
    open spec fn spec_from_name(s: Seq<char>) -> Option<Self> {
        if s == "visible"@ {
            Some(KeywordOverflow::Visible)
        } else if s == "clip"@ {
            Some(KeywordOverflow::Clip)
        } else if s == "scroll"@ {
            Some(KeywordOverflow::Scroll)
        } else {
            None
        }
    }

    open spec fn spec_name(&self) -> Seq<char> {
        match self {
            KeywordOverflow::Visible => "visible"@,
            KeywordOverflow::Clip => "clip"@,
            KeywordOverflow::Scroll => "scroll"@,
        }
    }

    fn from_str(s: &str) -> (r: Result<Self, KeywordParseError>) {
        if str_eq(s, "visible") {
            return Ok(KeywordOverflow::Visible);
        }
        if str_eq(s, "clip") {
            return Ok(KeywordOverflow::Clip);
        }
        if str_eq(s, "scroll") {
            return Ok(KeywordOverflow::Scroll);
        }
        Err(KeywordParseError)
    }

    fn as_str(&self) -> (r: &'static str) {
        match self {
            KeywordOverflow::Visible => "visible",
            KeywordOverflow::Clip => "clip",
            KeywordOverflow::Scroll => "scroll",
        }
    }
}

/// Each keyword of `KeywordOverflow` is read back from its own spelling, and a spelling is read only
/// as the keyword it spells.
pub proof fn lemma_keyword_overflow_round_trip(k: KeywordOverflow)
    ensures
        KeywordOverflow::spec_from_name(k.spec_name()) == Some(k),
        forall|s: Seq<char>| KeywordOverflow::spec_from_name(s) == Some(k) ==> k.spec_name() == s,
{
    reveal_strlit("clip");
    assert("clip"@ =~= seq!['c', 'l', 'i', 'p']);
    reveal_strlit("scroll");
    assert("scroll"@ =~= seq!['s', 'c', 'r', 'o', 'l', 'l']);
    reveal_strlit("visible");
    assert("visible"@ =~= seq!['v', 'i', 's', 'i', 'b', 'l', 'e']);
}

/// The value of `overflow-x`.
#[derive(Debug)]
pub struct CssOverflowX(pub Unit);

impl CssValue for CssOverflowX {
    type Keyword = KeywordOverflow;

    open spec fn spec_css_type_name() -> Seq<char> {
        "CssOverflowX"@
    }

    open spec fn spec_type_token() -> TokenExpected {
        TokenExpected { bits: 1u8 }
    }

    open spec fn spec_unit(&self) -> Unit {
        self.0
    }

    fn css_type_name() -> (r: &'static str) {
        "CssOverflowX"
    }

    fn type_token() -> (r: TokenExpected) {
        TokenExpected::Ident()
    }

    fn from_unit(unit: Unit) -> (r: Self) {
        CssOverflowX(unit)
    }

    fn into_unit(self) -> (r: Unit) {
        self.0
    }
}

/// The value of `overflow-y`.
#[derive(Debug)]
pub struct CssOverflowY(pub Unit);

impl CssValue for CssOverflowY {
    type Keyword = KeywordOverflow;

    open spec fn spec_css_type_name() -> Seq<char> {
        "CssOverflowY"@
    }

    open spec fn spec_type_token() -> TokenExpected {
        TokenExpected { bits: 1u8 }
    }

    open spec fn spec_unit(&self) -> Unit {
        self.0
    }

    fn css_type_name() -> (r: &'static str) {
        "CssOverflowY"
    }

    fn type_token() -> (r: TokenExpected) {
        TokenExpected::Ident()
    }

    fn from_unit(unit: Unit) -> (r: Self) {
        CssOverflowY(unit)
    }

    fn into_unit(self) -> (r: Unit) {
        self.0
    }
}

/// Every keyword of `KeywordOverflow` is read from the CSS name it stands for, and prints as that
/// name.
pub proof fn lemma_keyword_overflow_names()
    ensures
        KeywordOverflow::spec_from_name("visible"@) == Some(KeywordOverflow::Visible),
        KeywordOverflow::Visible.spec_name() == "visible"@,
        KeywordOverflow::spec_from_name("clip"@) == Some(KeywordOverflow::Clip),
        KeywordOverflow::Clip.spec_name() == "clip"@,
        KeywordOverflow::spec_from_name("scroll"@) == Some(KeywordOverflow::Scroll),
        KeywordOverflow::Scroll.spec_name() == "scroll"@,
{
    lemma_keyword_overflow_round_trip(KeywordOverflow::Visible);
    lemma_keyword_overflow_round_trip(KeywordOverflow::Clip);
    lemma_keyword_overflow_round_trip(KeywordOverflow::Scroll);
}

} // verus!
