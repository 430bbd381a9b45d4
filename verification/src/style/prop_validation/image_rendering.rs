//! The `image-rendering` property.
use vstd::prelude::*;
use crate::text::str_eq;
use crate::unit::Unit;
use super::{CssKeyword, CssValue, KeywordParseError, TokenExpected};

verus! {

/// How images are scaled.
#[derive(Debug, Clone, Copy, PartialEq, Eq, Structural)]
pub enum KeywordImageRendering {
    Smooth,
    CrispEdges,
}

impl CssKeyword for KeywordImageRendering {
    open spec fn spec_from_name(s: Seq<char>) -> Option<Self> {
        if s == "smooth"@ {
            Some(KeywordImageRendering::Smooth)
        } else if s == "crisp-edges"@ {
            Some(KeywordImageRendering::CrispEdges)
        } else {
            None
        }
    }

    open spec fn spec_name(&self) -> Seq<char> {
        match self {
            KeywordImageRendering::Smooth => "smooth"@,
            KeywordImageRendering::CrispEdges => "crisp-edges"@,
        }
    }

    fn from_str(s: &str) -> (r: Result<Self, KeywordParseError>) {
        if str_eq(s, "smooth") {
            return Ok(KeywordImageRendering::Smooth);
        }
        if str_eq(s, "crisp-edges") {
            return Ok(KeywordImageRendering::CrispEdges);
        }
        Err(KeywordParseError)
    }

    fn as_str(&self) -> (r: &'static str) {
        match self {
            KeywordImageRendering::Smooth => "smooth",
            KeywordImageRendering::CrispEdges => "crisp-edges",
        }
    }
}

/// Each keyword of `KeywordImageRendering` is read back from its own spelling, and a spelling is read only
/// as the keyword it spells.
pub proof fn lemma_keyword_image_rendering_round_trip(k: KeywordImageRendering)
    ensures
        KeywordImageRendering::spec_from_name(k.spec_name()) == Some(k),
        forall|s: Seq<char>| KeywordImageRendering::spec_from_name(s) == Some(k) ==> k.spec_name() == s,
{
    reveal_strlit("crisp-edges");
    assert("crisp-edges"@ =~= seq!['c', 'r', 'i', 's', 'p', '-', 'e', 'd', 'g', 'e', 's']);
    reveal_strlit("smooth");
    assert("smooth"@ =~= seq!['s', 'm', 'o', 'o', 't', 'h']);
}

/// The value of `image-rendering`.
#[derive(Debug)]
pub struct CssImageRendering(pub Unit);

impl CssValue for CssImageRendering {
    type Keyword = KeywordImageRendering;

    open spec fn spec_css_type_name() -> Seq<char> {
        "CssImageRendering"@
    }

    open spec fn spec_type_token() -> TokenExpected {
        TokenExpected { bits: 1u8 }
    }

    open spec fn spec_unit(&self) -> Unit {
        self.0
    }

    fn css_type_name() -> (r: &'static str) {
        "CssImageRendering"
    }

    fn type_token() -> (r: TokenExpected) {
        TokenExpected::Ident()
    }

    fn from_unit(unit: Unit) -> (r: Self) {
        CssImageRendering(unit)
    }

    fn into_unit(self) -> (r: Unit) {
        self.0
    }
}

/// Every keyword of `KeywordImageRendering` is read from the CSS name it stands for, and prints as that
/// name.
pub proof fn lemma_keyword_image_rendering_names()
    ensures
        KeywordImageRendering::spec_from_name("smooth"@) == Some(KeywordImageRendering::Smooth),
        KeywordImageRendering::Smooth.spec_name() == "smooth"@,
        KeywordImageRendering::spec_from_name("crisp-edges"@) == Some(KeywordImageRendering::CrispEdges),
        KeywordImageRendering::CrispEdges.spec_name() == "crisp-edges"@,
{
    lemma_keyword_image_rendering_round_trip(KeywordImageRendering::Smooth);
    lemma_keyword_image_rendering_round_trip(KeywordImageRendering::CrispEdges);
}

} // verus!
