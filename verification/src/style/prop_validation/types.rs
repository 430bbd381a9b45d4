//! The value types of the properties, and the keywords every property accepts.
use vstd::prelude::*;
use crate::text::str_eq;
use super::{CssKeyword, KeywordParseError};

pub use super::color::{CssBackgroundColor, CssColor};
pub use super::font::{CssFontFamily, CssFontSize};
pub use super::image_rendering::CssImageRendering;
pub use super::justify_content::CssJustifyContent;
pub use super::line_height::CssLineHeight;
pub use super::max_size::{CssMaxHeight, CssMaxWidth};
pub use super::object_fit::CssObjectFit;
pub use super::opacity::CssOpacity;
pub use super::overflow::{CssOverflowX, CssOverflowY};
pub use super::padding::CssPadding;
pub use super::position_horizontal::{CssLeft, CssRight};
pub use super::position_vertical::{CssBottom, CssTop};
pub use super::size::{CssHeight, CssWidth};
pub use super::spacing::CssSpacing;
pub use super::vertical_align::CssVerticalAlign;
pub use super::word_break::CssWordBreak;

verus! {

/// The keywords every property accepts.
#[derive(Debug, Clone, Copy, PartialEq, Eq, Structural)]
pub enum KeywordGlobal {
    Inherit,
    Initial,
    Revert,
    RevertLayer,
    Unset,
}

impl CssKeyword for KeywordGlobal {
    open spec fn spec_from_name(s: Seq<char>) -> Option<Self> {
        if s == "inherit"@ {
            Some(KeywordGlobal::Inherit)
        } else if s == "initial"@ {
            Some(KeywordGlobal::Initial)
        } else if s == "revert"@ {
            Some(KeywordGlobal::Revert)
        } else if s == "revert-layer"@ {
            Some(KeywordGlobal::RevertLayer)
        } else if s == "unset"@ {
            Some(KeywordGlobal::Unset)
        } else {
            None
        }
    }

    open spec fn spec_name(&self) -> Seq<char> {
        match self {
            KeywordGlobal::Inherit => "inherit"@,
            KeywordGlobal::Initial => "initial"@,
            KeywordGlobal::Revert => "revert"@,
            KeywordGlobal::RevertLayer => "revert-layer"@,
            KeywordGlobal::Unset => "unset"@,
        }
    }

    fn from_str(s: &str) -> (r: Result<Self, KeywordParseError>) {
        if str_eq(s, "inherit") {
            return Ok(KeywordGlobal::Inherit);
        }
        if str_eq(s, "initial") {
            return Ok(KeywordGlobal::Initial);
        }
        if str_eq(s, "revert") {
            return Ok(KeywordGlobal::Revert);
        }
        if str_eq(s, "revert-layer") {
            return Ok(KeywordGlobal::RevertLayer);
        }
        if str_eq(s, "unset") {
            return Ok(KeywordGlobal::Unset);
        }
        Err(KeywordParseError)
    }

    fn as_str(&self) -> (r: &'static str) {
        match self {
            KeywordGlobal::Inherit => "inherit",
            KeywordGlobal::Initial => "initial",
            KeywordGlobal::Revert => "revert",
            KeywordGlobal::RevertLayer => "revert-layer",
            KeywordGlobal::Unset => "unset",
        }
    }
}

/// Each keyword of `KeywordGlobal` is read back from its own spelling, and a spelling is read only
/// as the keyword it spells.
pub proof fn lemma_keyword_global_round_trip(k: KeywordGlobal)
    ensures
        KeywordGlobal::spec_from_name(k.spec_name()) == Some(k),
        forall|s: Seq<char>| KeywordGlobal::spec_from_name(s) == Some(k) ==> k.spec_name() == s,
{
    reveal_strlit("inherit");
    assert("inherit"@ =~= seq!['i', 'n', 'h', 'e', 'r', 'i', 't']);
    reveal_strlit("initial");
    assert("initial"@ =~= seq!['i', 'n', 'i', 't', 'i', 'a', 'l']);
    reveal_strlit("revert");
    assert("revert"@ =~= seq!['r', 'e', 'v', 'e', 'r', 't']);
    reveal_strlit("revert-layer");
    assert("revert-layer"@ =~= seq!['r', 'e', 'v', 'e', 'r', 't', '-', 'l', 'a', 'y', 'e', 'r']);
    reveal_strlit("unset");
    assert("unset"@ =~= seq!['u', 'n', 's', 'e', 't']);
}

/// Every global keyword is read from the CSS name it stands for, and prints as that
/// name.
pub proof fn lemma_keyword_global_names()
    ensures
        KeywordGlobal::spec_from_name("inherit"@) == Some(KeywordGlobal::Inherit),
        KeywordGlobal::Inherit.spec_name() == "inherit"@,
        KeywordGlobal::spec_from_name("initial"@) == Some(KeywordGlobal::Initial),
        KeywordGlobal::Initial.spec_name() == "initial"@,
        KeywordGlobal::spec_from_name("revert"@) == Some(KeywordGlobal::Revert),
        KeywordGlobal::Revert.spec_name() == "revert"@,
        KeywordGlobal::spec_from_name("revert-layer"@) == Some(KeywordGlobal::RevertLayer),
        KeywordGlobal::RevertLayer.spec_name() == "revert-layer"@,
        KeywordGlobal::spec_from_name("unset"@) == Some(KeywordGlobal::Unset),
        KeywordGlobal::Unset.spec_name() == "unset"@,
{
    lemma_keyword_global_round_trip(KeywordGlobal::Inherit);
    lemma_keyword_global_round_trip(KeywordGlobal::Initial);
    lemma_keyword_global_round_trip(KeywordGlobal::Revert);
    lemma_keyword_global_round_trip(KeywordGlobal::RevertLayer);
    lemma_keyword_global_round_trip(KeywordGlobal::Unset);
}

} // verus!
