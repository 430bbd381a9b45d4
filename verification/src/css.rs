//! Plain style values: colours, display, position, visibility and simple selectors.
use vstd::prelude::*;
use crate::style::prop_validation::{CssKeyword, KeywordParseError};
use crate::text::str_eq;

verus! {

/// A text colour as red, green and blue.
#[derive(Debug, Clone, Copy)]
pub struct Color(pub [u8; 3]);

/// A background colour as red, green and blue.
#[derive(Debug, Clone, Copy)]
pub struct BackgroundColor(pub [u8; 3]);

/// How a box is displayed.
#[derive(Debug, Clone, Copy, PartialEq, Eq, Structural)]
pub enum DisplayOption {
    Inherit,
    NoDisplay,
    Block,
    Inline,
    Flow,
}

impl CssKeyword for DisplayOption {
    open spec fn spec_from_name(s: Seq<char>) -> Option<Self> {
        if s == "inherit"@ {
            Some(DisplayOption::Inherit)
        } else if s == "none"@ {
            Some(DisplayOption::NoDisplay)
        } else if s == "block"@ {
            Some(DisplayOption::Block)
        } else if s == "inline"@ {
            Some(DisplayOption::Inline)
        } else if s == "flow"@ {
            Some(DisplayOption::Flow)
        } else {
            None
        }
    }

    open spec fn spec_name(&self) -> Seq<char> {
        match self {
            DisplayOption::Inherit => "inherit"@,
            DisplayOption::NoDisplay => "none"@,
            DisplayOption::Block => "block"@,
            DisplayOption::Inline => "inline"@,
            DisplayOption::Flow => "flow"@,
        }
    }

    fn from_str(s: &str) -> (r: Result<Self, KeywordParseError>) {
        if str_eq(s, "inherit") {
            return Ok(DisplayOption::Inherit);
        }
        if str_eq(s, "none") {
            return Ok(DisplayOption::NoDisplay);
        }
        if str_eq(s, "block") {
            return Ok(DisplayOption::Block);
        }
        if str_eq(s, "inline") {
            return Ok(DisplayOption::Inline);
        }
        if str_eq(s, "flow") {
            return Ok(DisplayOption::Flow);
        }
        Err(KeywordParseError)
    }

    fn as_str(&self) -> (r: &'static str) {
        match self {
            DisplayOption::Inherit => "inherit",
            DisplayOption::NoDisplay => "none",
            DisplayOption::Block => "block",
            DisplayOption::Inline => "inline",
            DisplayOption::Flow => "flow",
        }
    }
}

/// Each keyword of `DisplayOption` is read back from its own spelling, and a spelling is read only
/// as the keyword it spells.
pub proof fn lemma_display_option_round_trip(k: DisplayOption)
    ensures
        DisplayOption::spec_from_name(k.spec_name()) == Some(k),
        forall|s: Seq<char>| DisplayOption::spec_from_name(s) == Some(k) ==> k.spec_name() == s,
{
    reveal_strlit("block");
    assert("block"@ =~= seq!['b', 'l', 'o', 'c', 'k']);
    reveal_strlit("flow");
    assert("flow"@ =~= seq!['f', 'l', 'o', 'w']);
    reveal_strlit("inherit");
    assert("inherit"@ =~= seq!['i', 'n', 'h', 'e', 'r', 'i', 't']);
    reveal_strlit("inline");
    assert("inline"@ =~= seq!['i', 'n', 'l', 'i', 'n', 'e']);
    reveal_strlit("none");
    assert("none"@ =~= seq!['n', 'o', 'n', 'e']);
}

impl Default for DisplayOption {
    fn default() -> (r: Self)
        ensures
            r == DisplayOption::Inherit,
    {
        DisplayOption::Inherit
    }
}

/// How a box is displayed, outside and inside.
#[derive(Debug, Clone, Copy, PartialEq, Eq, Structural)]
pub struct Display {
    pub outer: DisplayOption,
    pub inner: DisplayOption,
}

impl Default for Display {
    fn default() -> (r: Self)
        ensures
            r == (Display { outer: DisplayOption::Block, inner: DisplayOption::Flow }),
    {
        Display { outer: DisplayOption::Block, inner: DisplayOption::Flow }
    }
}

/// How a box is positioned.
#[derive(Debug, Clone, Copy, PartialEq, Eq, Structural)]
pub enum Position {
    Static,
    Relative,
    Absolute,
}

impl CssKeyword for Position {
    open spec fn spec_from_name(s: Seq<char>) -> Option<Self> {
        if s == "static"@ {
            Some(Position::Static)
        } else if s == "relative"@ {
            Some(Position::Relative)
        } else if s == "absolute"@ {
            Some(Position::Absolute)
        } else {
            None
        }
    }

    open spec fn spec_name(&self) -> Seq<char> {
        match self {
            Position::Static => "static"@,
            Position::Relative => "relative"@,
            Position::Absolute => "absolute"@,
        }
    }

    fn from_str(s: &str) -> (r: Result<Self, KeywordParseError>) {
        if str_eq(s, "static") {
            return Ok(Position::Static);
        }
        if str_eq(s, "relative") {
            return Ok(Position::Relative);
        }
        if str_eq(s, "absolute") {
            return Ok(Position::Absolute);
        }
        Err(KeywordParseError)
    }

    fn as_str(&self) -> (r: &'static str) {
        match self {
            Position::Static => "static",
            Position::Relative => "relative",
            Position::Absolute => "absolute",
        }
    }
}

/// Each keyword of `Position` is read back from its own spelling, and a spelling is read only
/// as the keyword it spells.
pub proof fn lemma_position_round_trip(k: Position)
    ensures
        Position::spec_from_name(k.spec_name()) == Some(k),
        forall|s: Seq<char>| Position::spec_from_name(s) == Some(k) ==> k.spec_name() == s,
{
    reveal_strlit("absolute");
    assert("absolute"@ =~= seq!['a', 'b', 's', 'o', 'l', 'u', 't', 'e']);
    reveal_strlit("relative");
    assert("relative"@ =~= seq!['r', 'e', 'l', 'a', 't', 'i', 'v', 'e']);
    reveal_strlit("static");
    assert("static"@ =~= seq!['s', 't', 'a', 't', 'i', 'c']);
}

impl Default for Position {
    fn default() -> (r: Self)
        ensures
            r == Position::Static,
    {
        Position::Static
    }
}

/// Whether a box is visible.
#[derive(Debug, Clone, Copy, PartialEq, Eq, Structural)]
pub enum Visibility {
    Visible,
    Hidden,
}

impl CssKeyword for Visibility {
    open spec fn spec_from_name(s: Seq<char>) -> Option<Self> {
        if s == "visible"@ {
            Some(Visibility::Visible)
        } else if s == "hidden"@ {
            Some(Visibility::Hidden)
        } else {
            None
        }
    }

    open spec fn spec_name(&self) -> Seq<char> {
        match self {
            Visibility::Visible => "visible"@,
            Visibility::Hidden => "hidden"@,
        }
    }

    fn from_str(s: &str) -> (r: Result<Self, KeywordParseError>) {
        if str_eq(s, "visible") {
            return Ok(Visibility::Visible);
        }
        if str_eq(s, "hidden") {
            return Ok(Visibility::Hidden);
        }
        Err(KeywordParseError)
    }

    fn as_str(&self) -> (r: &'static str) {
        match self {
            Visibility::Visible => "visible",
            Visibility::Hidden => "hidden",
        }
    }
}

/// Each keyword of `Visibility` is read back from its own spelling, and a spelling is read only
/// as the keyword it spells.
pub proof fn lemma_visibility_round_trip(k: Visibility)
    ensures
        Visibility::spec_from_name(k.spec_name()) == Some(k),
        forall|s: Seq<char>| Visibility::spec_from_name(s) == Some(k) ==> k.spec_name() == s,
{
    reveal_strlit("hidden");
    assert("hidden"@ =~= seq!['h', 'i', 'd', 'd', 'e', 'n']);
    reveal_strlit("visible");
    assert("visible"@ =~= seq!['v', 'i', 's', 'i', 'b', 'l', 'e']);
}

impl Default for Visibility {
    fn default() -> (r: Self)
        ensures
            r == Visibility::Visible,
    {
        Visibility::Visible
    }
}

/// How two simple selectors are combined.
#[derive(Debug, Clone, Copy, PartialEq, Eq, Structural)]
pub enum Combinator {
    NoCombinator,
    NextSibling,
    Child,
    Column,
    SubsequentSibling,
    Namespace,
    Descendent,
}

impl CssKeyword for Combinator {
    open spec fn spec_from_name(s: Seq<char>) -> Option<Self> {
        if s == "None"@ {
            Some(Combinator::NoCombinator)
        } else if s == "+"@ {
            Some(Combinator::NextSibling)
        } else if s == ">"@ {
            Some(Combinator::Child)
        } else if s == "||"@ {
            Some(Combinator::Column)
        } else if s == "~"@ {
            Some(Combinator::SubsequentSibling)
        } else if s == "|"@ {
            Some(Combinator::Namespace)
        } else if s == " "@ {
            Some(Combinator::Descendent)
        } else {
            None
        }
    }

    open spec fn spec_name(&self) -> Seq<char> {
        match self {
            Combinator::NoCombinator => "None"@,
            Combinator::NextSibling => "+"@,
            Combinator::Child => ">"@,
            Combinator::Column => "||"@,
            Combinator::SubsequentSibling => "~"@,
            Combinator::Namespace => "|"@,
            Combinator::Descendent => " "@,
        }
    }

    fn from_str(s: &str) -> (r: Result<Self, KeywordParseError>) {
        if str_eq(s, "None") {
            return Ok(Combinator::NoCombinator);
        }
        if str_eq(s, "+") {
            return Ok(Combinator::NextSibling);
        }
        if str_eq(s, ">") {
            return Ok(Combinator::Child);
        }
        if str_eq(s, "||") {
            return Ok(Combinator::Column);
        }
        if str_eq(s, "~") {
            return Ok(Combinator::SubsequentSibling);
        }
        if str_eq(s, "|") {
            return Ok(Combinator::Namespace);
        }
        if str_eq(s, " ") {
            return Ok(Combinator::Descendent);
        }
        Err(KeywordParseError)
    }

    fn as_str(&self) -> (r: &'static str) {
        match self {
            Combinator::NoCombinator => "None",
            Combinator::NextSibling => "+",
            Combinator::Child => ">",
            Combinator::Column => "||",
            Combinator::SubsequentSibling => "~",
            Combinator::Namespace => "|",
            Combinator::Descendent => " ",
        }
    }
}

/// Each keyword of `Combinator` is read back from its own spelling, and a spelling is read only
/// as the keyword it spells.
pub proof fn lemma_combinator_round_trip(k: Combinator)
    ensures
        Combinator::spec_from_name(k.spec_name()) == Some(k),
        forall|s: Seq<char>| Combinator::spec_from_name(s) == Some(k) ==> k.spec_name() == s,
{
    reveal_strlit(" ");
    assert(" "@ =~= seq![' ']);
    reveal_strlit("+");
    assert("+"@ =~= seq!['+']);
    reveal_strlit(">");
    assert(">"@ =~= seq!['>']);
    reveal_strlit("None");
    assert("None"@ =~= seq!['N', 'o', 'n', 'e']);
    reveal_strlit("|");
    assert("|"@ =~= seq!['|']);
    reveal_strlit("||");
    assert("||"@ =~= seq!['|', '|']);
    reveal_strlit("~");
    assert("~"@ =~= seq!['~']);
    assert(seq![' '][0] != seq!['+'][0]);
    assert(seq![' '][0] != seq!['>'][0]);
    assert(seq![' '][0] != seq!['|'][0]);
    assert(seq![' '][0] != seq!['~'][0]);
    assert(seq!['+'][0] != seq!['>'][0]);
    assert(seq!['+'][0] != seq!['|'][0]);
    assert(seq!['+'][0] != seq!['~'][0]);
    assert(seq!['>'][0] != seq!['|'][0]);
    assert(seq!['>'][0] != seq!['~'][0]);
    assert(seq!['|'][0] != seq!['~'][0]);
}

/// What selectors are matched against: an element's name, id and classes.
pub trait Styleable {
    fn get_name(&self) -> String;
    fn get_id(&self) -> Option<String>;
    fn get_classes(&self) -> Vec<String>;
}

/// A simple selector: an element name, an id, classes, and whether it is `*`.
#[derive(Debug)]
pub struct SimpleSelector {
    pub name: Option<String>,
    pub id: Option<String>,
    pub classes: Vec<String>,
    pub universal: bool,
}

impl SimpleSelector {
    /// A simple selector that names nothing.
    pub fn new() -> (r: Self)
        ensures
            r.name is None,
            r.id is None,
            r.classes@.len() == 0,
            !r.universal,
    {
        SimpleSelector { name: None, id: None, classes: Vec::new(), universal: false }
    }
}

/// One simple selector.
#[derive(Debug, Clone)]
pub enum BasicSelector {
    Id(String),
    Class(String),
    Type(String),
    Universal,
}

impl BasicSelector {
    /// The name the selector holds; `None` for `*`.
    pub fn inner(&self) -> (r: Option<String>)
        ensures
            match self {
                BasicSelector::Id(s) => r matches Some(x) && x@ == s@,
                BasicSelector::Class(s) => r matches Some(x) && x@ == s@,
                BasicSelector::Type(s) => r matches Some(x) && x@ == s@,
                BasicSelector::Universal => r is None,
            },
    {
        match self {
            BasicSelector::Id(string) => Some(string.clone()),
            BasicSelector::Class(string) => Some(string.clone()),
            BasicSelector::Type(string) => Some(string.clone()),
            BasicSelector::Universal => None,
        }
    }
}

/// A simple selector followed, through a combinator, by another.
pub type Combination = (Combinator, SimpleSelector);

/// A simple selector and the combinations that follow it.
pub type ComplexSelector = (SimpleSelector, Vec<Combination>);

/// A complex selector and the complex selectors listed after it.
pub type CompoundSelector = (ComplexSelector, Vec<ComplexSelector>);

/// A selector list.
#[derive(Debug)]
pub struct Selector(pub CompoundSelector);

impl Selector {
    /// Whether the selector matches `other`; no element is matched yet.
    pub fn matches<S: Styleable>(&self, other: &S) -> (r: bool)
        ensures
            !r,
    {
        false
    }

    /// The selector's specificity; every selector counts as zero yet.
    pub fn specificity(&self) -> (r: usize)
        ensures
            r == 0,
    {
        0
    }
}

/// Every display option is read from the CSS name it stands for, and prints as that
/// name.
pub proof fn lemma_display_option_names()
    ensures
        DisplayOption::spec_from_name("inherit"@) == Some(DisplayOption::Inherit),
        DisplayOption::Inherit.spec_name() == "inherit"@,
        DisplayOption::spec_from_name("none"@) == Some(DisplayOption::NoDisplay),
        DisplayOption::NoDisplay.spec_name() == "none"@,
        DisplayOption::spec_from_name("block"@) == Some(DisplayOption::Block),
        DisplayOption::Block.spec_name() == "block"@,
        DisplayOption::spec_from_name("inline"@) == Some(DisplayOption::Inline),
        DisplayOption::Inline.spec_name() == "inline"@,
        DisplayOption::spec_from_name("flow"@) == Some(DisplayOption::Flow),
        DisplayOption::Flow.spec_name() == "flow"@,
{
    lemma_display_option_round_trip(DisplayOption::Inherit);
    lemma_display_option_round_trip(DisplayOption::NoDisplay);
    lemma_display_option_round_trip(DisplayOption::Block);
    lemma_display_option_round_trip(DisplayOption::Inline);
    lemma_display_option_round_trip(DisplayOption::Flow);
}

/// Every position is read from the CSS name it stands for, and prints as that
/// name.
pub proof fn lemma_position_names()
    ensures
        Position::spec_from_name("static"@) == Some(Position::Static),
        Position::Static.spec_name() == "static"@,
        Position::spec_from_name("relative"@) == Some(Position::Relative),
        Position::Relative.spec_name() == "relative"@,
        Position::spec_from_name("absolute"@) == Some(Position::Absolute),
        Position::Absolute.spec_name() == "absolute"@,
{
    lemma_position_round_trip(Position::Static);
    lemma_position_round_trip(Position::Relative);
    lemma_position_round_trip(Position::Absolute);
}

/// Every visibility is read from the CSS name it stands for, and prints as that
/// name.
pub proof fn lemma_visibility_names()
    ensures
        Visibility::spec_from_name("visible"@) == Some(Visibility::Visible),
        Visibility::Visible.spec_name() == "visible"@,
        Visibility::spec_from_name("hidden"@) == Some(Visibility::Hidden),
        Visibility::Hidden.spec_name() == "hidden"@,
{
    lemma_visibility_round_trip(Visibility::Visible);
    lemma_visibility_round_trip(Visibility::Hidden);
}

/// Every combinator is read from the CSS name it stands for, and prints as that
/// name.
pub proof fn lemma_combinator_names()
    ensures
        Combinator::spec_from_name("None"@) == Some(Combinator::NoCombinator),
        Combinator::NoCombinator.spec_name() == "None"@,
        Combinator::spec_from_name("+"@) == Some(Combinator::NextSibling),
        Combinator::NextSibling.spec_name() == "+"@,
        Combinator::spec_from_name(">"@) == Some(Combinator::Child),
        Combinator::Child.spec_name() == ">"@,
        Combinator::spec_from_name("||"@) == Some(Combinator::Column),
        Combinator::Column.spec_name() == "||"@,
        Combinator::spec_from_name("~"@) == Some(Combinator::SubsequentSibling),
        Combinator::SubsequentSibling.spec_name() == "~"@,
        Combinator::spec_from_name("|"@) == Some(Combinator::Namespace),
        Combinator::Namespace.spec_name() == "|"@,
        Combinator::spec_from_name(" "@) == Some(Combinator::Descendent),
        Combinator::Descendent.spec_name() == " "@,
{
    lemma_combinator_round_trip(Combinator::NoCombinator);
    lemma_combinator_round_trip(Combinator::NextSibling);
    lemma_combinator_round_trip(Combinator::Child);
    lemma_combinator_round_trip(Combinator::Column);
    lemma_combinator_round_trip(Combinator::SubsequentSibling);
    lemma_combinator_round_trip(Combinator::Namespace);
    lemma_combinator_round_trip(Combinator::Descendent);
}

} // verus!

