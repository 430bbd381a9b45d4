//! Font properties.
use vstd::prelude::*;
use crate::text::str_eq;
use crate::unit::Unit;
use super::{CssKeyword, CssValue, KeywordParseError, TokenExpected};

verus! {

/// The generic font families.
#[derive(Debug, Clone, Copy, PartialEq, Eq, Structural)]
pub enum KeywordFontFamily {
    Serif,
    SansSerif,
    Monospace,
    Cursive,
    Fantasy,
    SystemUI,
    UISerif,
    UISansSerif,
    UIMonospace,
    UIRounded,
    Math,
    Emoji,
    Fangsong,
}

impl CssKeyword for KeywordFontFamily {
    open spec fn spec_from_name(s: Seq<char>) -> Option<Self> {
        if s == "serif"@ {
            Some(KeywordFontFamily::Serif)
        } else if s == "sans-serif"@ {
            Some(KeywordFontFamily::SansSerif)
        } else if s == "monospace"@ {
            Some(KeywordFontFamily::Monospace)
        } else if s == "cursive"@ {
            Some(KeywordFontFamily::Cursive)
        } else if s == "fantasy"@ {
            Some(KeywordFontFamily::Fantasy)
        } else if s == "system-ui"@ {
            Some(KeywordFontFamily::SystemUI)
        } else if s == "ui-serif"@ {
            Some(KeywordFontFamily::UISerif)
        } else if s == "ui-sans-serif"@ {
            Some(KeywordFontFamily::UISansSerif)
        } else if s == "ui-monospace"@ {
            Some(KeywordFontFamily::UIMonospace)
        } else if s == "ui-rounded"@ {
            Some(KeywordFontFamily::UIRounded)
        } else if s == "math"@ {
            Some(KeywordFontFamily::Math)
        } else if s == "emoji"@ {
            Some(KeywordFontFamily::Emoji)
        } else if s == "fangsong"@ {
            Some(KeywordFontFamily::Fangsong)
        } else {
            None
        }
    }

    open spec fn spec_name(&self) -> Seq<char> {
        match self {
            KeywordFontFamily::Serif => "serif"@,
            KeywordFontFamily::SansSerif => "sans-serif"@,
            KeywordFontFamily::Monospace => "monospace"@,
            KeywordFontFamily::Cursive => "cursive"@,
            KeywordFontFamily::Fantasy => "fantasy"@,
            KeywordFontFamily::SystemUI => "system-ui"@,
            KeywordFontFamily::UISerif => "ui-serif"@,
            KeywordFontFamily::UISansSerif => "ui-sans-serif"@,
            KeywordFontFamily::UIMonospace => "ui-monospace"@,
            KeywordFontFamily::UIRounded => "ui-rounded"@,
            KeywordFontFamily::Math => "math"@,
            KeywordFontFamily::Emoji => "emoji"@,
            KeywordFontFamily::Fangsong => "fangsong"@,
        }
    }

    fn from_str(s: &str) -> (r: Result<Self, KeywordParseError>) {
        if str_eq(s, "serif") {
            return Ok(KeywordFontFamily::Serif);
        }
        if str_eq(s, "sans-serif") {
            return Ok(KeywordFontFamily::SansSerif);
        }
        if str_eq(s, "monospace") {
            return Ok(KeywordFontFamily::Monospace);
        }
        if str_eq(s, "cursive") {
            return Ok(KeywordFontFamily::Cursive);
        }
        if str_eq(s, "fantasy") {
            return Ok(KeywordFontFamily::Fantasy);
        }
        if str_eq(s, "system-ui") {
            return Ok(KeywordFontFamily::SystemUI);
        }
        if str_eq(s, "ui-serif") {
            return Ok(KeywordFontFamily::UISerif);
        }
        if str_eq(s, "ui-sans-serif") {
            return Ok(KeywordFontFamily::UISansSerif);
        }
        if str_eq(s, "ui-monospace") {
            return Ok(KeywordFontFamily::UIMonospace);
        }
        if str_eq(s, "ui-rounded") {
            return Ok(KeywordFontFamily::UIRounded);
        }
        if str_eq(s, "math") {
            return Ok(KeywordFontFamily::Math);
        }
        if str_eq(s, "emoji") {
            return Ok(KeywordFontFamily::Emoji);
        }
        if str_eq(s, "fangsong") {
            return Ok(KeywordFontFamily::Fangsong);
        }
        Err(KeywordParseError)
    }

    fn as_str(&self) -> (r: &'static str) {
        match self {
            KeywordFontFamily::Serif => "serif",
            KeywordFontFamily::SansSerif => "sans-serif",
            KeywordFontFamily::Monospace => "monospace",
            KeywordFontFamily::Cursive => "cursive",
            KeywordFontFamily::Fantasy => "fantasy",
            KeywordFontFamily::SystemUI => "system-ui",
            KeywordFontFamily::UISerif => "ui-serif",
            KeywordFontFamily::UISansSerif => "ui-sans-serif",
            KeywordFontFamily::UIMonospace => "ui-monospace",
            KeywordFontFamily::UIRounded => "ui-rounded",
            KeywordFontFamily::Math => "math",
            KeywordFontFamily::Emoji => "emoji",
            KeywordFontFamily::Fangsong => "fangsong",
        }
    }
}

/// Each keyword of `KeywordFontFamily` is read back from its own spelling, and a spelling is read only
/// as the keyword it spells.
pub proof fn lemma_keyword_font_family_round_trip(k: KeywordFontFamily)
    ensures
        KeywordFontFamily::spec_from_name(k.spec_name()) == Some(k),
        forall|s: Seq<char>| KeywordFontFamily::spec_from_name(s) == Some(k) ==> k.spec_name() == s,
{
    reveal_strlit("cursive");
    assert("cursive"@ =~= seq!['c', 'u', 'r', 's', 'i', 'v', 'e']);
    reveal_strlit("emoji");
    assert("emoji"@ =~= seq!['e', 'm', 'o', 'j', 'i']);
    reveal_strlit("fangsong");
    assert("fangsong"@ =~= seq!['f', 'a', 'n', 'g', 's', 'o', 'n', 'g']);
    reveal_strlit("fantasy");
    assert("fantasy"@ =~= seq!['f', 'a', 'n', 't', 'a', 's', 'y']);
    reveal_strlit("math");
    assert("math"@ =~= seq!['m', 'a', 't', 'h']);
    reveal_strlit("monospace");
    assert("monospace"@ =~= seq!['m', 'o', 'n', 'o', 's', 'p', 'a', 'c', 'e']);
    reveal_strlit("sans-serif");
    assert("sans-serif"@ =~= seq!['s', 'a', 'n', 's', '-', 's', 'e', 'r', 'i', 'f']);
    reveal_strlit("serif");
    assert("serif"@ =~= seq!['s', 'e', 'r', 'i', 'f']);
    reveal_strlit("system-ui");
    assert("system-ui"@ =~= seq!['s', 'y', 's', 't', 'e', 'm', '-', 'u', 'i']);
    reveal_strlit("ui-monospace");
    assert("ui-monospace"@ =~= seq!['u', 'i', '-', 'm', 'o', 'n', 'o', 's', 'p', 'a', 'c', 'e']);
    reveal_strlit("ui-rounded");
    assert("ui-rounded"@ =~= seq!['u', 'i', '-', 'r', 'o', 'u', 'n', 'd', 'e', 'd']);
    reveal_strlit("ui-sans-serif");
    assert("ui-sans-serif"@ =~= seq!['u', 'i', '-', 's', 'a', 'n', 's', '-', 's', 'e', 'r', 'i', 'f']);
    reveal_strlit("ui-serif");
    assert("ui-serif"@ =~= seq!['u', 'i', '-', 's', 'e', 'r', 'i', 'f']);
}

/// The absolute font sizes.
#[derive(Debug, Clone, Copy, PartialEq, Eq, Structural)]
pub enum KeywordFontSize {
    XXSmall,
    XSmall,
    Small,
    Medium,
    Large,
    XLarge,
    XXLarge,
    XXXLarge,
}

impl CssKeyword for KeywordFontSize {
    open spec fn spec_from_name(s: Seq<char>) -> Option<Self> {
        if s == "xx-small"@ {
            Some(KeywordFontSize::XXSmall)
        } else if s == "x-small"@ {
            Some(KeywordFontSize::XSmall)
        } else if s == "small"@ {
            Some(KeywordFontSize::Small)
        } else if s == "medium"@ {
            Some(KeywordFontSize::Medium)
        } else if s == "large"@ {
            Some(KeywordFontSize::Large)
        } else if s == "x-large"@ {
            Some(KeywordFontSize::XLarge)
        } else if s == "xx-large"@ {
            Some(KeywordFontSize::XXLarge)
        } else if s == "xxx-large"@ {
            Some(KeywordFontSize::XXXLarge)
        } else {
            None
        }
    }

    open spec fn spec_name(&self) -> Seq<char> {
        match self {
            KeywordFontSize::XXSmall => "xx-small"@,
            KeywordFontSize::XSmall => "x-small"@,
            KeywordFontSize::Small => "small"@,
            KeywordFontSize::Medium => "medium"@,
            KeywordFontSize::Large => "large"@,
            KeywordFontSize::XLarge => "x-large"@,
            KeywordFontSize::XXLarge => "xx-large"@,
            KeywordFontSize::XXXLarge => "xxx-large"@,
        }
    }

    fn from_str(s: &str) -> (r: Result<Self, KeywordParseError>) {
        if str_eq(s, "xx-small") {
            return Ok(KeywordFontSize::XXSmall);
        }
        if str_eq(s, "x-small") {
            return Ok(KeywordFontSize::XSmall);
        }
        if str_eq(s, "small") {
            return Ok(KeywordFontSize::Small);
        }
        if str_eq(s, "medium") {
            return Ok(KeywordFontSize::Medium);
        }
        if str_eq(s, "large") {
            return Ok(KeywordFontSize::Large);
        }
        if str_eq(s, "x-large") {
            return Ok(KeywordFontSize::XLarge);
        }
        if str_eq(s, "xx-large") {
            return Ok(KeywordFontSize::XXLarge);
        }
        if str_eq(s, "xxx-large") {
            return Ok(KeywordFontSize::XXXLarge);
        }
        Err(KeywordParseError)
    }

    fn as_str(&self) -> (r: &'static str) {
        match self {
            KeywordFontSize::XXSmall => "xx-small",
            KeywordFontSize::XSmall => "x-small",
            KeywordFontSize::Small => "small",
            KeywordFontSize::Medium => "medium",
            KeywordFontSize::Large => "large",
            KeywordFontSize::XLarge => "x-large",
            KeywordFontSize::XXLarge => "xx-large",
            KeywordFontSize::XXXLarge => "xxx-large",
        }
    }
}

/// Each keyword of `KeywordFontSize` is read back from its own spelling, and a spelling is read only
/// as the keyword it spells.
pub proof fn lemma_keyword_font_size_round_trip(k: KeywordFontSize)
    ensures
        KeywordFontSize::spec_from_name(k.spec_name()) == Some(k),
        forall|s: Seq<char>| KeywordFontSize::spec_from_name(s) == Some(k) ==> k.spec_name() == s,
{
    reveal_strlit("large");
    assert("large"@ =~= seq!['l', 'a', 'r', 'g', 'e']);
    reveal_strlit("medium");
    assert("medium"@ =~= seq!['m', 'e', 'd', 'i', 'u', 'm']);
    reveal_strlit("small");
    assert("small"@ =~= seq!['s', 'm', 'a', 'l', 'l']);
    reveal_strlit("x-large");
    assert("x-large"@ =~= seq!['x', '-', 'l', 'a', 'r', 'g', 'e']);
    reveal_strlit("x-small");
    assert("x-small"@ =~= seq!['x', '-', 's', 'm', 'a', 'l', 'l']);
    reveal_strlit("xx-large");
    assert("xx-large"@ =~= seq!['x', 'x', '-', 'l', 'a', 'r', 'g', 'e']);
    reveal_strlit("xx-small");
    assert("xx-small"@ =~= seq!['x', 'x', '-', 's', 'm', 'a', 'l', 'l']);
    reveal_strlit("xxx-large");
    assert("xxx-large"@ =~= seq!['x', 'x', 'x', '-', 'l', 'a', 'r', 'g', 'e']);
}

/// The value of `font-family`.
#[derive(Debug)]
pub struct CssFontFamily(pub Unit);

impl CssValue for CssFontFamily {
    type Keyword = KeywordFontFamily;

    open spec fn spec_css_type_name() -> Seq<char> {
        "CssFontFamily"@
    }

    open spec fn spec_type_token() -> TokenExpected {
        TokenExpected { bits: 4u8 | 1u8 }
    }

    open spec fn spec_unit(&self) -> Unit {
        self.0
    }

    fn css_type_name() -> (r: &'static str) {
        "CssFontFamily"
    }

    fn type_token() -> (r: TokenExpected) {
        TokenExpected::QuotedString().or(TokenExpected::Ident())
    }

    fn from_unit(unit: Unit) -> (r: Self) {
        CssFontFamily(unit)
    }

    fn into_unit(self) -> (r: Unit) {
        self.0
    }
}

/// The value of `font-size`.
#[derive(Debug)]
pub struct CssFontSize(pub Unit);

impl CssValue for CssFontSize {
    type Keyword = KeywordFontSize;

    open spec fn spec_css_type_name() -> Seq<char> {
        "CssFontSize"@
    }

    open spec fn spec_type_token() -> TokenExpected {
        TokenExpected { bits: 64u8 | 1u8 | 32u8 }
    }

    open spec fn spec_unit(&self) -> Unit {
        self.0
    }

    fn css_type_name() -> (r: &'static str) {
        "CssFontSize"
    }

    fn type_token() -> (r: TokenExpected) {
        TokenExpected::Dimension().or(TokenExpected::Ident()).or(TokenExpected::Percentage())
    }

    fn from_unit(unit: Unit) -> (r: Self) {
        CssFontSize(unit)
    }

    fn into_unit(self) -> (r: Unit) {
        self.0
    }
}

/// Every keyword of `KeywordFontFamily` is read from the CSS name it stands for, and prints as that
/// name.
pub proof fn lemma_keyword_font_family_names()
    ensures
        KeywordFontFamily::spec_from_name("serif"@) == Some(KeywordFontFamily::Serif),
        KeywordFontFamily::Serif.spec_name() == "serif"@,
        KeywordFontFamily::spec_from_name("sans-serif"@) == Some(KeywordFontFamily::SansSerif),
        KeywordFontFamily::SansSerif.spec_name() == "sans-serif"@,
        KeywordFontFamily::spec_from_name("monospace"@) == Some(KeywordFontFamily::Monospace),
        KeywordFontFamily::Monospace.spec_name() == "monospace"@,
        KeywordFontFamily::spec_from_name("cursive"@) == Some(KeywordFontFamily::Cursive),
        KeywordFontFamily::Cursive.spec_name() == "cursive"@,
        KeywordFontFamily::spec_from_name("fantasy"@) == Some(KeywordFontFamily::Fantasy),
        KeywordFontFamily::Fantasy.spec_name() == "fantasy"@,
        KeywordFontFamily::spec_from_name("system-ui"@) == Some(KeywordFontFamily::SystemUI),
        KeywordFontFamily::SystemUI.spec_name() == "system-ui"@,
        KeywordFontFamily::spec_from_name("ui-serif"@) == Some(KeywordFontFamily::UISerif),
        KeywordFontFamily::UISerif.spec_name() == "ui-serif"@,
        KeywordFontFamily::spec_from_name("ui-sans-serif"@) == Some(KeywordFontFamily::UISansSerif),
        KeywordFontFamily::UISansSerif.spec_name() == "ui-sans-serif"@,
        KeywordFontFamily::spec_from_name("ui-monospace"@) == Some(KeywordFontFamily::UIMonospace),
        KeywordFontFamily::UIMonospace.spec_name() == "ui-monospace"@,
        KeywordFontFamily::spec_from_name("ui-rounded"@) == Some(KeywordFontFamily::UIRounded),
        KeywordFontFamily::UIRounded.spec_name() == "ui-rounded"@,
        KeywordFontFamily::spec_from_name("math"@) == Some(KeywordFontFamily::Math),
        KeywordFontFamily::Math.spec_name() == "math"@,
        KeywordFontFamily::spec_from_name("emoji"@) == Some(KeywordFontFamily::Emoji),
        KeywordFontFamily::Emoji.spec_name() == "emoji"@,
        KeywordFontFamily::spec_from_name("fangsong"@) == Some(KeywordFontFamily::Fangsong),
        KeywordFontFamily::Fangsong.spec_name() == "fangsong"@,
{
    lemma_keyword_font_family_round_trip(KeywordFontFamily::Serif);
    lemma_keyword_font_family_round_trip(KeywordFontFamily::SansSerif);
    lemma_keyword_font_family_round_trip(KeywordFontFamily::Monospace);
    lemma_keyword_font_family_round_trip(KeywordFontFamily::Cursive);
    lemma_keyword_font_family_round_trip(KeywordFontFamily::Fantasy);
    lemma_keyword_font_family_round_trip(KeywordFontFamily::SystemUI);
    lemma_keyword_font_family_round_trip(KeywordFontFamily::UISerif);
    lemma_keyword_font_family_round_trip(KeywordFontFamily::UISansSerif);
    lemma_keyword_font_family_round_trip(KeywordFontFamily::UIMonospace);
    lemma_keyword_font_family_round_trip(KeywordFontFamily::UIRounded);
    lemma_keyword_font_family_round_trip(KeywordFontFamily::Math);
    lemma_keyword_font_family_round_trip(KeywordFontFamily::Emoji);
    lemma_keyword_font_family_round_trip(KeywordFontFamily::Fangsong);
}

/// Every keyword of `KeywordFontSize` is read from the CSS name it stands for, and prints as that
/// name.
pub proof fn lemma_keyword_font_size_names()
    ensures
        KeywordFontSize::spec_from_name("xx-small"@) == Some(KeywordFontSize::XXSmall),
        KeywordFontSize::XXSmall.spec_name() == "xx-small"@,
        KeywordFontSize::spec_from_name("x-small"@) == Some(KeywordFontSize::XSmall),
        KeywordFontSize::XSmall.spec_name() == "x-small"@,
        KeywordFontSize::spec_from_name("small"@) == Some(KeywordFontSize::Small),
        KeywordFontSize::Small.spec_name() == "small"@,
        KeywordFontSize::spec_from_name("medium"@) == Some(KeywordFontSize::Medium),
        KeywordFontSize::Medium.spec_name() == "medium"@,
        KeywordFontSize::spec_from_name("large"@) == Some(KeywordFontSize::Large),
        KeywordFontSize::Large.spec_name() == "large"@,
        KeywordFontSize::spec_from_name("x-large"@) == Some(KeywordFontSize::XLarge),
        KeywordFontSize::XLarge.spec_name() == "x-large"@,
        KeywordFontSize::spec_from_name("xx-large"@) == Some(KeywordFontSize::XXLarge),
        KeywordFontSize::XXLarge.spec_name() == "xx-large"@,
        KeywordFontSize::spec_from_name("xxx-large"@) == Some(KeywordFontSize::XXXLarge),
        KeywordFontSize::XXXLarge.spec_name() == "xxx-large"@,
{
    lemma_keyword_font_size_round_trip(KeywordFontSize::XXSmall);
    lemma_keyword_font_size_round_trip(KeywordFontSize::XSmall);
    lemma_keyword_font_size_round_trip(KeywordFontSize::Small);
    lemma_keyword_font_size_round_trip(KeywordFontSize::Medium);
    lemma_keyword_font_size_round_trip(KeywordFontSize::Large);
    lemma_keyword_font_size_round_trip(KeywordFontSize::XLarge);
    lemma_keyword_font_size_round_trip(KeywordFontSize::XXLarge);
    lemma_keyword_font_size_round_trip(KeywordFontSize::XXXLarge);
}

} // verus!
