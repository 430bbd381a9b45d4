//! The `object-fit` property.
use vstd::prelude::*;
use crate::text::str_eq;
use crate::unit::Unit;
use super::{CssKeyword, CssValue, KeywordParseError, TokenExpected};

verus! {

/// How replaced content fits its box.
#[derive(Debug, Clone, Copy, PartialEq, Eq, Structural)]
pub enum KeywordObjectFit {
    Contain,
    Cover,
    Fill,
    NoneKeyword,
    ScaleDown,
}

impl CssKeyword for KeywordObjectFit {
    open spec fn spec_from_name(s: Seq<char>) -> Option<Self> {
        if s == "contain"@ {
            Some(KeywordObjectFit::Contain)
        } else if s == "cover"@ {
            Some(KeywordObjectFit::Cover)
        } else if s == "fill"@ {
            Some(KeywordObjectFit::Fill)
        } else if s == "none"@ {
            Some(KeywordObjectFit::NoneKeyword)
        } else if s == "scale-down"@ {
            Some(KeywordObjectFit::ScaleDown)
        } else {
            None
        }
    }

    open spec fn spec_name(&self) -> Seq<char> {
        match self {
            KeywordObjectFit::Contain => "contain"@,
            KeywordObjectFit::Cover => "cover"@,
            KeywordObjectFit::Fill => "fill"@,
            KeywordObjectFit::NoneKeyword => "none"@,
            KeywordObjectFit::ScaleDown => "scale-down"@,
        }
    }

    fn from_str(s: &str) -> (r: Result<Self, KeywordParseError>) {
        if str_eq(s, "contain") {
            return Ok(KeywordObjectFit::Contain);
        }
        if str_eq(s, "cover") {
            return Ok(KeywordObjectFit::Cover);
        }
        if str_eq(s, "fill") {
            return Ok(KeywordObjectFit::Fill);
        }
        if str_eq(s, "none") {
            return Ok(KeywordObjectFit::NoneKeyword);
        }
        if str_eq(s, "scale-down") {
            return Ok(KeywordObjectFit::ScaleDown);
        }
        Err(KeywordParseError)
    }

    fn as_str(&self) -> (r: &'static str) {
        match self {
            KeywordObjectFit::Contain => "contain",
            KeywordObjectFit::Cover => "cover",
            KeywordObjectFit::Fill => "fill",
            KeywordObjectFit::NoneKeyword => "none",
            KeywordObjectFit::ScaleDown => "scale-down",
        }
    }
}

/// Each keyword of `KeywordObjectFit` is read back from its own spelling, and a spelling is read only
/// as the keyword it spells.
pub proof fn lemma_keyword_object_fit_round_trip(k: KeywordObjectFit)
    ensures
        KeywordObjectFit::spec_from_name(k.spec_name()) == Some(k),
        forall|s: Seq<char>| KeywordObjectFit::spec_from_name(s) == Some(k) ==> k.spec_name() == s,
{
    reveal_strlit("contain");
    assert("contain"@ =~= seq!['c', 'o', 'n', 't', 'a', 'i', 'n']);
    reveal_strlit("cover");
    assert("cover"@ =~= seq!['c', 'o', 'v', 'e', 'r']);
    reveal_strlit("fill");
    assert("fill"@ =~= seq!['f', 'i', 'l', 'l']);
    reveal_strlit("none");
    assert("none"@ =~= seq!['n', 'o', 'n', 'e']);
    reveal_strlit("scale-down");
    assert("scale-down"@ =~= seq!['s', 'c', 'a', 'l', 'e', '-', 'd', 'o', 'w', 'n']);
}

/// The value of `object-fit`.
#[derive(Debug)]
pub struct CssObjectFit(pub Unit);

impl CssValue for CssObjectFit {
    type Keyword = KeywordObjectFit;

    open spec fn spec_css_type_name() -> Seq<char> {
        "CssObjectFit"@
    }

    open spec fn spec_type_token() -> TokenExpected {
        TokenExpected { bits: 1u8 }
    }

    open spec fn spec_unit(&self) -> Unit {
        self.0
    }

    fn css_type_name() -> (r: &'static str) {
        "CssObjectFit"
    }

    fn type_token() -> (r: TokenExpected) {
        TokenExpected::Ident()
    }

    fn from_unit(unit: Unit) -> (r: Self) {
        CssObjectFit(unit)
    }

    fn into_unit(self) -> (r: Unit) {
        self.0
    }
}

/// Every keyword of `KeywordObjectFit` is read from the CSS name it stands for, and prints as that
/// name.
pub proof fn lemma_keyword_object_fit_names()
    ensures
        KeywordObjectFit::spec_from_name("contain"@) == Some(KeywordObjectFit::Contain),
        KeywordObjectFit::Contain.spec_name() == "contain"@,
        KeywordObjectFit::spec_from_name("cover"@) == Some(KeywordObjectFit::Cover),
        KeywordObjectFit::Cover.spec_name() == "cover"@,
        KeywordObjectFit::spec_from_name("fill"@) == Some(KeywordObjectFit::Fill),
        KeywordObjectFit::Fill.spec_name() == "fill"@,
        KeywordObjectFit::spec_from_name("none"@) == Some(KeywordObjectFit::NoneKeyword),
        KeywordObjectFit::NoneKeyword.spec_name() == "none"@,
        KeywordObjectFit::spec_from_name("scale-down"@) == Some(KeywordObjectFit::ScaleDown),
        KeywordObjectFit::ScaleDown.spec_name() == "scale-down"@,
{
    lemma_keyword_object_fit_round_trip(KeywordObjectFit::Contain);
    lemma_keyword_object_fit_round_trip(KeywordObjectFit::Cover);
    lemma_keyword_object_fit_round_trip(KeywordObjectFit::Fill);
    lemma_keyword_object_fit_round_trip(KeywordObjectFit::NoneKeyword);
    lemma_keyword_object_fit_round_trip(KeywordObjectFit::ScaleDown);
}

} // verus!
