//! The `word-break` property.
use vstd::prelude::*;
use crate::text::str_eq;
use crate::unit::Unit;
use super::{CssKeyword, CssValue, KeywordParseError, TokenExpected};

verus! {

/// Where lines may break inside words.
#[derive(Debug, Clone, Copy, PartialEq, Eq, Structural)]
pub enum KeywordWordBreak {
    Normal,
    BreakAll,
    KeepAll,
    BreakWord,
}

impl CssKeyword for KeywordWordBreak {
    open spec fn spec_from_name(s: Seq<char>) -> Option<Self> {
        if s == "normal"@ {
            Some(KeywordWordBreak::Normal)
        } else if s == "break-all"@ {
            Some(KeywordWordBreak::BreakAll)
        } else if s == "keep-all"@ {
            Some(KeywordWordBreak::KeepAll)
        } else if s == "break-word"@ {
            Some(KeywordWordBreak::BreakWord)
        } else {
            None
        }
    }

    open spec fn spec_name(&self) -> Seq<char> {
        match self {
            KeywordWordBreak::Normal => "normal"@,
            KeywordWordBreak::BreakAll => "break-all"@,
            KeywordWordBreak::KeepAll => "keep-all"@,
            KeywordWordBreak::BreakWord => "break-word"@,
        }
    }

    fn from_str(s: &str) -> (r: Result<Self, KeywordParseError>) {
        if str_eq(s, "normal") {
            return Ok(KeywordWordBreak::Normal);
        }
        if str_eq(s, "break-all") {
            return Ok(KeywordWordBreak::BreakAll);
        }
        if str_eq(s, "keep-all") {
            return Ok(KeywordWordBreak::KeepAll);
        }
        if str_eq(s, "break-word") {
            return Ok(KeywordWordBreak::BreakWord);
        }
        Err(KeywordParseError)
    }

    fn as_str(&self) -> (r: &'static str) {
        match self {
            KeywordWordBreak::Normal => "normal",
            KeywordWordBreak::BreakAll => "break-all",
            KeywordWordBreak::KeepAll => "keep-all",
            KeywordWordBreak::BreakWord => "break-word",
        }
    }
}

/// Each keyword of `KeywordWordBreak` is read back from its own spelling, and a spelling is read only
/// as the keyword it spells.
pub proof fn lemma_keyword_word_break_round_trip(k: KeywordWordBreak)
    ensures
        KeywordWordBreak::spec_from_name(k.spec_name()) == Some(k),
        forall|s: Seq<char>| KeywordWordBreak::spec_from_name(s) == Some(k) ==> k.spec_name() == s,
{
    reveal_strlit("break-all");
    assert("break-all"@ =~= seq!['b', 'r', 'e', 'a', 'k', '-', 'a', 'l', 'l']);
    reveal_strlit("break-word");
    assert("break-word"@ =~= seq!['b', 'r', 'e', 'a', 'k', '-', 'w', 'o', 'r', 'd']);
    reveal_strlit("keep-all");
    assert("keep-all"@ =~= seq!['k', 'e', 'e', 'p', '-', 'a', 'l', 'l']);
    reveal_strlit("normal");
    assert("normal"@ =~= seq!['n', 'o', 'r', 'm', 'a', 'l']);
}

/// The value of `word-break`.
#[derive(Debug)]
pub struct CssWordBreak(pub Unit);

impl CssValue for CssWordBreak {
    type Keyword = KeywordWordBreak;

    open spec fn spec_css_type_name() -> Seq<char> {
        "CssWordBreak"@
    }

    open spec fn spec_type_token() -> TokenExpected {
        TokenExpected { bits: 1u8 }
    }

    open spec fn spec_unit(&self) -> Unit {
        self.0
    }

    fn css_type_name() -> (r: &'static str) {
        "CssWordBreak"
    }

    fn type_token() -> (r: TokenExpected) {
        TokenExpected::Ident()
    }

    fn from_unit(unit: Unit) -> (r: Self) {
        CssWordBreak(unit)
    }

    fn into_unit(self) -> (r: Unit) {
        self.0
    }
}

/// Every keyword of `KeywordWordBreak` is read from the CSS name it stands for, and prints as that
/// name.
pub proof fn lemma_keyword_word_break_names()
    ensures
        KeywordWordBreak::spec_from_name("normal"@) == Some(KeywordWordBreak::Normal),
        KeywordWordBreak::Normal.spec_name() == "normal"@,
        KeywordWordBreak::spec_from_name("break-all"@) == Some(KeywordWordBreak::BreakAll),
        KeywordWordBreak::BreakAll.spec_name() == "break-all"@,
        KeywordWordBreak::spec_from_name("keep-all"@) == Some(KeywordWordBreak::KeepAll),
        KeywordWordBreak::KeepAll.spec_name() == "keep-all"@,
        KeywordWordBreak::spec_from_name("break-word"@) == Some(KeywordWordBreak::BreakWord),
        KeywordWordBreak::BreakWord.spec_name() == "break-word"@,
{
    lemma_keyword_word_break_round_trip(KeywordWordBreak::Normal);
    lemma_keyword_word_break_round_trip(KeywordWordBreak::BreakAll);
    lemma_keyword_word_break_round_trip(KeywordWordBreak::KeepAll);
    lemma_keyword_word_break_round_trip(KeywordWordBreak::BreakWord);
}

} // verus!
