//! Colour properties.
use vstd::prelude::*;
use crate::text::str_eq;
use crate::unit::Unit;
use super::{CssKeyword, CssValue, KeywordParseError, TokenExpected};

verus! {

/// The named colours.
#[derive(Debug, Clone, Copy, PartialEq, Eq, Structural)]
pub enum KeywordColor {
    CurrentColor,
    Black,
    Silver,
    Gray,
    White,
    Maroon,
    Red,
    Purple,
    Fuchsia,
    Green,
    Lime,
    Olive,
    Yellow,
    Navy,
    Blue,
    Teal,
    Aqua,
}

impl CssKeyword for KeywordColor {
    open spec fn spec_from_name(s: Seq<char>) -> Option<Self> {
        if s == "currentcolor"@ {
            Some(KeywordColor::CurrentColor)
        } else if s == "black"@ {
            Some(KeywordColor::Black)
        } else if s == "silver"@ {
            Some(KeywordColor::Silver)
        } else if s == "gray"@ {
            Some(KeywordColor::Gray)
        } else if s == "white"@ {
            Some(KeywordColor::White)
        } else if s == "maroon"@ {
            Some(KeywordColor::Maroon)
        } else if s == "red"@ {
            Some(KeywordColor::Red)
        } else if s == "purple"@ {
            Some(KeywordColor::Purple)
        } else if s == "fuchsia"@ {
            Some(KeywordColor::Fuchsia)
        } else if s == "green"@ {
            Some(KeywordColor::Green)
        } else if s == "lime"@ {
            Some(KeywordColor::Lime)
        } else if s == "olive"@ {
            Some(KeywordColor::Olive)
        } else if s == "yellow"@ {
            Some(KeywordColor::Yellow)
        } else if s == "navy"@ {
            Some(KeywordColor::Navy)
        } else if s == "blue"@ {
            Some(KeywordColor::Blue)
        } else if s == "teal"@ {
            Some(KeywordColor::Teal)
        } else if s == "aqua"@ {
            Some(KeywordColor::Aqua)
        } else {
            None
        }
    }

    open spec fn spec_name(&self) -> Seq<char> {
        match self {
            KeywordColor::CurrentColor => "currentcolor"@,
            KeywordColor::Black => "black"@,
            KeywordColor::Silver => "silver"@,
            KeywordColor::Gray => "gray"@,
            KeywordColor::White => "white"@,
            KeywordColor::Maroon => "maroon"@,
            KeywordColor::Red => "red"@,
            KeywordColor::Purple => "purple"@,
            KeywordColor::Fuchsia => "fuchsia"@,
            KeywordColor::Green => "green"@,
            KeywordColor::Lime => "lime"@,
            KeywordColor::Olive => "olive"@,
            KeywordColor::Yellow => "yellow"@,
            KeywordColor::Navy => "navy"@,
            KeywordColor::Blue => "blue"@,
            KeywordColor::Teal => "teal"@,
            KeywordColor::Aqua => "aqua"@,
        }
    }

    fn from_str(s: &str) -> (r: Result<Self, KeywordParseError>) {
        if str_eq(s, "currentcolor") {
            return Ok(KeywordColor::CurrentColor);
        }
        if str_eq(s, "black") {
            return Ok(KeywordColor::Black);
        }
        if str_eq(s, "silver") {
            return Ok(KeywordColor::Silver);
        }
        if str_eq(s, "gray") {
            return Ok(KeywordColor::Gray);
        }
        if str_eq(s, "white") {
            return Ok(KeywordColor::White);
        }
        if str_eq(s, "maroon") {
            return Ok(KeywordColor::Maroon);
        }
        if str_eq(s, "red") {
            return Ok(KeywordColor::Red);
        }
        if str_eq(s, "purple") {
            return Ok(KeywordColor::Purple);
        }
        if str_eq(s, "fuchsia") {
            return Ok(KeywordColor::Fuchsia);
        }
        if str_eq(s, "green") {
            return Ok(KeywordColor::Green);
        }
        if str_eq(s, "lime") {
            return Ok(KeywordColor::Lime);
        }
        if str_eq(s, "olive") {
            return Ok(KeywordColor::Olive);
        }
        if str_eq(s, "yellow") {
            return Ok(KeywordColor::Yellow);
        }
        if str_eq(s, "navy") {
            return Ok(KeywordColor::Navy);
        }
        if str_eq(s, "blue") {
            return Ok(KeywordColor::Blue);
        }
        if str_eq(s, "teal") {
            return Ok(KeywordColor::Teal);
        }
        if str_eq(s, "aqua") {
            return Ok(KeywordColor::Aqua);
        }
        Err(KeywordParseError)
    }

    fn as_str(&self) -> (r: &'static str) {
        match self {
            KeywordColor::CurrentColor => "currentcolor",
            KeywordColor::Black => "black",
            KeywordColor::Silver => "silver",
            KeywordColor::Gray => "gray",
            KeywordColor::White => "white",
            KeywordColor::Maroon => "maroon",
            KeywordColor::Red => "red",
            KeywordColor::Purple => "purple",
            KeywordColor::Fuchsia => "fuchsia",
            KeywordColor::Green => "green",
            KeywordColor::Lime => "lime",
            KeywordColor::Olive => "olive",
            KeywordColor::Yellow => "yellow",
            KeywordColor::Navy => "navy",
            KeywordColor::Blue => "blue",
            KeywordColor::Teal => "teal",
            KeywordColor::Aqua => "aqua",
        }
    }
}

/// Each keyword of `KeywordColor` is read back from its own spelling, and a spelling is read only
/// as the keyword it spells.
pub proof fn lemma_keyword_color_round_trip(k: KeywordColor)
    ensures
        KeywordColor::spec_from_name(k.spec_name()) == Some(k),
        forall|s: Seq<char>| KeywordColor::spec_from_name(s) == Some(k) ==> k.spec_name() == s,
{
    reveal_strlit("aqua");
    assert("aqua"@ =~= seq!['a', 'q', 'u', 'a']);
    reveal_strlit("black");
    assert("black"@ =~= seq!['b', 'l', 'a', 'c', 'k']);
    reveal_strlit("blue");
    assert("blue"@ =~= seq!['b', 'l', 'u', 'e']);
    reveal_strlit("currentcolor");
    assert("currentcolor"@ =~= seq!['c', 'u', 'r', 'r', 'e', 'n', 't', 'c', 'o', 'l', 'o', 'r']);
    reveal_strlit("fuchsia");
    assert("fuchsia"@ =~= seq!['f', 'u', 'c', 'h', 's', 'i', 'a']);
    reveal_strlit("gray");
    assert("gray"@ =~= seq!['g', 'r', 'a', 'y']);
    reveal_strlit("green");
    assert("green"@ =~= seq!['g', 'r', 'e', 'e', 'n']);
    reveal_strlit("lime");
    assert("lime"@ =~= seq!['l', 'i', 'm', 'e']);
    reveal_strlit("maroon");
    assert("maroon"@ =~= seq!['m', 'a', 'r', 'o', 'o', 'n']);
    reveal_strlit("navy");
    assert("navy"@ =~= seq!['n', 'a', 'v', 'y']);
    reveal_strlit("olive");
    assert("olive"@ =~= seq!['o', 'l', 'i', 'v', 'e']);
    reveal_strlit("purple");
    assert("purple"@ =~= seq!['p', 'u', 'r', 'p', 'l', 'e']);
    reveal_strlit("red");
    assert("red"@ =~= seq!['r', 'e', 'd']);
    reveal_strlit("silver");
    assert("silver"@ =~= seq!['s', 'i', 'l', 'v', 'e', 'r']);
    reveal_strlit("teal");
    assert("teal"@ =~= seq!['t', 'e', 'a', 'l']);
    reveal_strlit("white");
    assert("white"@ =~= seq!['w', 'h', 'i', 't', 'e']);
    reveal_strlit("yellow");
    assert("yellow"@ =~= seq!['y', 'e', 'l', 'l', 'o', 'w']);
}

/// The value of `color`.
#[derive(Debug)]
pub struct CssColor(pub Unit);

impl CssValue for CssColor {
    type Keyword = KeywordColor;

    open spec fn spec_css_type_name() -> Seq<char> {
        "CssColor"@
    }

    open spec fn spec_type_token() -> TokenExpected {
        TokenExpected { bits: 4u8 | 1u8 | 2u8 }
    }

    open spec fn spec_unit(&self) -> Unit {
        self.0
    }

    fn css_type_name() -> (r: &'static str) {
        "CssColor"
    }

    fn type_token() -> (r: TokenExpected) {
        TokenExpected::QuotedString().or(TokenExpected::Ident()).or(TokenExpected::Hash())
    }

    fn from_unit(unit: Unit) -> (r: Self) {
        CssColor(unit)
    }

    fn into_unit(self) -> (r: Unit) {
        self.0
    }
}

/// The value of `background-color`.
#[derive(Debug)]
pub struct CssBackgroundColor(pub Unit);

impl CssValue for CssBackgroundColor {
    type Keyword = KeywordColor;

    open spec fn spec_css_type_name() -> Seq<char> {
        "CssBackgroundColor"@
    }

    open spec fn spec_type_token() -> TokenExpected {
        TokenExpected { bits: 4u8 | 1u8 }
    }

    open spec fn spec_unit(&self) -> Unit {
        self.0
    }

    fn css_type_name() -> (r: &'static str) {
        "CssBackgroundColor"
    }

    fn type_token() -> (r: TokenExpected) {
        TokenExpected::QuotedString().or(TokenExpected::Ident())
    }

    fn from_unit(unit: Unit) -> (r: Self) {
        CssBackgroundColor(unit)
    }

    fn into_unit(self) -> (r: Unit) {
        self.0
    }
}

/// Every colour keyword is read from the CSS name it stands for, and prints as that
/// name.
pub proof fn lemma_keyword_color_names()
    ensures
        KeywordColor::spec_from_name("currentcolor"@) == Some(KeywordColor::CurrentColor),
        KeywordColor::CurrentColor.spec_name() == "currentcolor"@,
        KeywordColor::spec_from_name("black"@) == Some(KeywordColor::Black),
        KeywordColor::Black.spec_name() == "black"@,
        KeywordColor::spec_from_name("silver"@) == Some(KeywordColor::Silver),
        KeywordColor::Silver.spec_name() == "silver"@,
        KeywordColor::spec_from_name("gray"@) == Some(KeywordColor::Gray),
        KeywordColor::Gray.spec_name() == "gray"@,
        KeywordColor::spec_from_name("white"@) == Some(KeywordColor::White),
        KeywordColor::White.spec_name() == "white"@,
        KeywordColor::spec_from_name("maroon"@) == Some(KeywordColor::Maroon),
        KeywordColor::Maroon.spec_name() == "maroon"@,
        KeywordColor::spec_from_name("red"@) == Some(KeywordColor::Red),
        KeywordColor::Red.spec_name() == "red"@,
        KeywordColor::spec_from_name("purple"@) == Some(KeywordColor::Purple),
        KeywordColor::Purple.spec_name() == "purple"@,
        KeywordColor::spec_from_name("fuchsia"@) == Some(KeywordColor::Fuchsia),
        KeywordColor::Fuchsia.spec_name() == "fuchsia"@,
        KeywordColor::spec_from_name("green"@) == Some(KeywordColor::Green),
        KeywordColor::Green.spec_name() == "green"@,
        KeywordColor::spec_from_name("lime"@) == Some(KeywordColor::Lime),
        KeywordColor::Lime.spec_name() == "lime"@,
        KeywordColor::spec_from_name("olive"@) == Some(KeywordColor::Olive),
        KeywordColor::Olive.spec_name() == "olive"@,
        KeywordColor::spec_from_name("yellow"@) == Some(KeywordColor::Yellow),
        KeywordColor::Yellow.spec_name() == "yellow"@,
        KeywordColor::spec_from_name("navy"@) == Some(KeywordColor::Navy),
        KeywordColor::Navy.spec_name() == "navy"@,
        KeywordColor::spec_from_name("blue"@) == Some(KeywordColor::Blue),
        KeywordColor::Blue.spec_name() == "blue"@,
        KeywordColor::spec_from_name("teal"@) == Some(KeywordColor::Teal),
        KeywordColor::Teal.spec_name() == "teal"@,
        KeywordColor::spec_from_name("aqua"@) == Some(KeywordColor::Aqua),
        KeywordColor::Aqua.spec_name() == "aqua"@,
{
    lemma_keyword_color_round_trip(KeywordColor::CurrentColor);
    lemma_keyword_color_round_trip(KeywordColor::Black);
    lemma_keyword_color_round_trip(KeywordColor::Silver);
    lemma_keyword_color_round_trip(KeywordColor::Gray);
    lemma_keyword_color_round_trip(KeywordColor::White);
    lemma_keyword_color_round_trip(KeywordColor::Maroon);
    lemma_keyword_color_round_trip(KeywordColor::Red);
    lemma_keyword_color_round_trip(KeywordColor::Purple);
    lemma_keyword_color_round_trip(KeywordColor::Fuchsia);
    lemma_keyword_color_round_trip(KeywordColor::Green);
    lemma_keyword_color_round_trip(KeywordColor::Lime);
    lemma_keyword_color_round_trip(KeywordColor::Olive);
    lemma_keyword_color_round_trip(KeywordColor::Yellow);
    lemma_keyword_color_round_trip(KeywordColor::Navy);
    lemma_keyword_color_round_trip(KeywordColor::Blue);
    lemma_keyword_color_round_trip(KeywordColor::Teal);
    lemma_keyword_color_round_trip(KeywordColor::Aqua);
}

} // verus!
