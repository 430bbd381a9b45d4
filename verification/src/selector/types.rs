//! The parts that selectors are built from.
use vstd::prelude::*;
use crate::rules::SelectorRule;
use crate::unit::Unit;
use super::SelectorNode;

verus! {

/// How an attribute selector compares the attribute's value.
#[derive(Debug)]
pub enum SelectorAttributeType {
    /// `[attr]`
    Present,
    /// `[attr=val]`
    ExactMatch(String),
    /// `[attr~=val]`
    ListContains(String),
    /// `[attr^=val]`
    StartsWith(String),
    /// `[attr|=val]`
    StartsWithDashed(String),
    /// `[attr$=val]`
    Endswith(String),
    /// `[attr*=val]`
    RawContains(String),
}

/// A combinator together with the compound selector that follows it.
#[derive(Debug)]
pub enum SelectorCombinator {
    SubsequentSibling(SelectorNode),
    NextSibling(SelectorNode),
    Descendent(SelectorNode),
    Column(SelectorNode),
    Child(SelectorNode),
}

/// A subclass selector of a compound selector.
#[derive(Debug)]
pub enum SelectorSubclassType {
    Id(String),
    Class(String),
    Attribute { name: String, attr_matcher: SelectorAttributeType, case_sensitive: bool },
    PseudoClass(String),
    PseudoElement(String, Option<Vec<Unit>>),
}

/// Why reading a selector failed.
#[derive(Debug)]
pub enum SelectorExpectError {
    /// The selector grammar did not accept the text; the parser's message.
    ParseError(String),
    /// A token was expected where none is left; names the rule that was expected.
    TooFewTokens(String),
    /// The next token has the first rule where the second was expected.
    FailedExpectation(SelectorRule, SelectorRule),
    /// A combinator token names no known combinator; its child's rule.
    InvalidCombinator(SelectorRule),
    /// A token of this rule cannot stand where it stands.
    UnknownSelectorRule(SelectorRule),
    /// A token does not have the shape its rule gives it.
    MalformedToken(SelectorRule),
    /// The construct is not read yet.
    Unsupported(SelectorRule),
}

/// The outcome of reading a selector.
pub type SelectorResult<T> = Result<T, SelectorExpectError>;

impl SelectorCombinator {
    /// The compound selector that follows the combinator.
    pub open spec fn node(self) -> SelectorNode {
        match self {
            SelectorCombinator::SubsequentSibling(n) => n,
            SelectorCombinator::NextSibling(n) => n,
            SelectorCombinator::Descendent(n) => n,
            SelectorCombinator::Column(n) => n,
            SelectorCombinator::Child(n) => n,
        }
    }

    /// `self` with `n` in place of its compound selector.
    pub open spec fn with_node(self, n: SelectorNode) -> SelectorCombinator {
        match self {
            SelectorCombinator::SubsequentSibling(_) => SelectorCombinator::SubsequentSibling(n),
            SelectorCombinator::NextSibling(_) => SelectorCombinator::NextSibling(n),
            SelectorCombinator::Descendent(_) => SelectorCombinator::Descendent(n),
            SelectorCombinator::Column(_) => SelectorCombinator::Column(n),
            SelectorCombinator::Child(_) => SelectorCombinator::Child(n),
        }
    }

    /// The compound selector that follows the combinator, to be changed in place.
    pub fn get_node(&mut self) -> (r: &mut SelectorNode)
        ensures
            *r == old(self).node(),
            *final(self) == old(self).with_node(*final(r)),
    {
        match self {
            SelectorCombinator::SubsequentSibling(selector_node) => selector_node,
            SelectorCombinator::NextSibling(selector_node) => selector_node,
            SelectorCombinator::Descendent(selector_node) => selector_node,
            SelectorCombinator::Column(selector_node) => selector_node,
            SelectorCombinator::Child(selector_node) => selector_node,
        }
    }
}

} // verus!
