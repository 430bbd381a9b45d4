//! The `opacity` property.
use vstd::prelude::*;
use crate::text::str_eq;
use crate::unit::Unit;
use super::{CssKeyword, CssValue, KeywordParseError, TokenExpected};
use super::KeywordNone;

verus! {

/// The value of `opacity`.
#[derive(Debug)]
pub struct CssOpacity(pub Unit);

impl CssValue for CssOpacity {
    type Keyword = KeywordNone;

    open spec fn spec_css_type_name() -> Seq<char> {
        "CssOpacity"@
    }

    open spec fn spec_type_token() -> TokenExpected {
        TokenExpected { bits: 1u8 | 16u8 | 32u8 }
    }

    open spec fn spec_unit(&self) -> Unit {
        self.0
    }

    fn css_type_name() -> (r: &'static str) {
        "CssOpacity"
    }

    fn type_token() -> (r: TokenExpected) {
        TokenExpected::Ident().or(TokenExpected::Number()).or(TokenExpected::Percentage())
    }

    fn from_unit(unit: Unit) -> (r: Self) {
        CssOpacity(unit)
    }

    fn into_unit(self) -> (r: Unit) {
        self.0
    }
}

} // verus!
