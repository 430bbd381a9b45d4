//! The `padding` property.
use vstd::prelude::*;
use crate::text::str_eq;
use crate::unit::Unit;
use super::{CssKeyword, CssValue, KeywordParseError, TokenExpected};
use super::KeywordNone;

verus! {

/// One side of `padding`: a length, or a plain number such as `0`.
#[derive(Debug)]
pub struct CssPadding(pub Unit);

impl CssValue for CssPadding {
    type Keyword = KeywordNone;

    open spec fn spec_css_type_name() -> Seq<char> {
        "CssPadding"@
    }

    open spec fn spec_type_token() -> TokenExpected {
        TokenExpected { bits: 16u8 | 64u8 }
    }

    open spec fn spec_unit(&self) -> Unit {
        self.0
    }

    fn css_type_name() -> (r: &'static str) {
        "CssPadding"
    }

    fn type_token() -> (r: TokenExpected) {
        TokenExpected::Number().or(TokenExpected::Dimension())
    }

    fn from_unit(unit: Unit) -> (r: Self) {
        CssPadding(unit)
    }

    fn into_unit(self) -> (r: Unit) {
        self.0
    }
}

} // verus!
