//! The grammar rules that label the nodes of parse trees.
use vstd::prelude::*;

verus! {

/// The rules of the stylesheet grammar.
#[allow(non_camel_case_types)]
#[derive(Debug, Clone, Copy, PartialEq, Eq, Structural, Hash)]
pub enum CssRule {
    CSS,
    STYLESHEET,
    QUALIFIED_RULE,
    AT_RULE,
    SELECTOR,
    DECL_BLOCK,
    DECLARATION,
    DECLARATION_LIST,
    DECLARATION_GROUPS,
    DECLARATION_GROUP,
    DECLARATION_VALUES,
    DECLARATION_VALUE,
    DECLARATION_SHORTHAND,
    IMPORTANT,
    COMPONENT_VALUE_LIST,
    COMPONENT_VALUE,
    SIMPLE_BLOCK,
    FUNCTION_BLOCK,
    FUNCTION,
    DIMENSION,
    NUMBER,
    PERCENTAGE,
    IDENT,
    STRING,
    HASH,
    URL,
}

impl CssRule {
    /// The rule's name.
    pub open spec fn spec_name(self) -> Seq<char> {
        match self {
            CssRule::CSS => "CSS"@,
            CssRule::STYLESHEET => "STYLESHEET"@,
            CssRule::QUALIFIED_RULE => "QUALIFIED_RULE"@,
            CssRule::AT_RULE => "AT_RULE"@,
            CssRule::SELECTOR => "SELECTOR"@,
            CssRule::DECL_BLOCK => "DECL_BLOCK"@,
            CssRule::DECLARATION => "DECLARATION"@,
            CssRule::DECLARATION_LIST => "DECLARATION_LIST"@,
            CssRule::DECLARATION_GROUPS => "DECLARATION_GROUPS"@,
            CssRule::DECLARATION_GROUP => "DECLARATION_GROUP"@,
            CssRule::DECLARATION_VALUES => "DECLARATION_VALUES"@,
            CssRule::DECLARATION_VALUE => "DECLARATION_VALUE"@,
            CssRule::DECLARATION_SHORTHAND => "DECLARATION_SHORTHAND"@,
            CssRule::IMPORTANT => "IMPORTANT"@,
            CssRule::COMPONENT_VALUE_LIST => "COMPONENT_VALUE_LIST"@,
            CssRule::COMPONENT_VALUE => "COMPONENT_VALUE"@,
            CssRule::SIMPLE_BLOCK => "SIMPLE_BLOCK"@,
            CssRule::FUNCTION_BLOCK => "FUNCTION_BLOCK"@,
            CssRule::FUNCTION => "FUNCTION"@,
            CssRule::DIMENSION => "DIMENSION"@,
            CssRule::NUMBER => "NUMBER"@,
            CssRule::PERCENTAGE => "PERCENTAGE"@,
            CssRule::IDENT => "IDENT"@,
            CssRule::STRING => "STRING"@,
            CssRule::HASH => "HASH"@,
            CssRule::URL => "URL"@,
        }
    }

    /// The rule's name, as printed in error messages.
    pub fn name(&self) -> (r: &'static str)
        ensures
            r@ == self.spec_name(),
    {
        match self {
            CssRule::CSS => "CSS",
            CssRule::STYLESHEET => "STYLESHEET",
            CssRule::QUALIFIED_RULE => "QUALIFIED_RULE",
            CssRule::AT_RULE => "AT_RULE",
            CssRule::SELECTOR => "SELECTOR",
            CssRule::DECL_BLOCK => "DECL_BLOCK",
            CssRule::DECLARATION => "DECLARATION",
            CssRule::DECLARATION_LIST => "DECLARATION_LIST",
            CssRule::DECLARATION_GROUPS => "DECLARATION_GROUPS",
            CssRule::DECLARATION_GROUP => "DECLARATION_GROUP",
            CssRule::DECLARATION_VALUES => "DECLARATION_VALUES",
            CssRule::DECLARATION_VALUE => "DECLARATION_VALUE",
            CssRule::DECLARATION_SHORTHAND => "DECLARATION_SHORTHAND",
            CssRule::IMPORTANT => "IMPORTANT",
            CssRule::COMPONENT_VALUE_LIST => "COMPONENT_VALUE_LIST",
            CssRule::COMPONENT_VALUE => "COMPONENT_VALUE",
            CssRule::SIMPLE_BLOCK => "SIMPLE_BLOCK",
            CssRule::FUNCTION_BLOCK => "FUNCTION_BLOCK",
            CssRule::FUNCTION => "FUNCTION",
            CssRule::DIMENSION => "DIMENSION",
            CssRule::NUMBER => "NUMBER",
            CssRule::PERCENTAGE => "PERCENTAGE",
            CssRule::IDENT => "IDENT",
            CssRule::STRING => "STRING",
            CssRule::HASH => "HASH",
            CssRule::URL => "URL",
        }
    }
}

/// The rules of the selector grammar.
#[allow(non_camel_case_types)]
#[derive(Debug, Clone, Copy, PartialEq, Eq, Structural, Hash)]
pub enum SelectorRule {
    SELECTOR,
    SELECTOR_LIST,
    SELECTOR_COMPLEX_LIST,
    SELECTOR_COMPLEX,
    SELECTOR_COMPOUND,
    SELECTOR_COMBINATOR,
    SELECTOR_COMBINATOR__NEXT_SIBLING,
    SELECTOR_COMBINATOR__CHILD,
    SELECTOR_COMBINATOR__COLUMN,
    SELECTOR_COMBINATOR__SUBSEQUENT_SIBLING,
    SELECTOR_COMBINATOR__DESCENDENT,
    SELECTOR_COMBINATOR__NAMESPACE,
    SELECTOR_TYPE,
    PREFIX_NAMESPACE,
    WQ_NAME,
    SELECTOR_SUBCLASS,
    SELECTOR_ID,
    SELECTOR_CLASS,
    SELECTOR_ATTRIBUTE,
    SELECTOR_PSEUDOCLASS,
    ATTR_MATCHER,
    ATTR_MATCHER__EXACT_MATCH,
    ATTR_MATCHER__LIST_CONTAINS,
    ATTR_MATCHER__STARTS_WITH,
    ATTR_MATCHER__STARTS_WITH_DASHED,
    ATTR_MATCHER__ENDS_WITH,
    ATTR_MATCHER__CONTAINS,
    ATTR_MODIFIER,
    IDENT,
    FUNCTION,
    HASH,
    STRING,
}

impl SelectorRule {
    /// The rule's name.
    pub open spec fn spec_name(self) -> Seq<char> {
        match self {
            SelectorRule::SELECTOR => "SELECTOR"@,
            SelectorRule::SELECTOR_LIST => "SELECTOR_LIST"@,
            SelectorRule::SELECTOR_COMPLEX_LIST => "SELECTOR_COMPLEX_LIST"@,
            SelectorRule::SELECTOR_COMPLEX => "SELECTOR_COMPLEX"@,
            SelectorRule::SELECTOR_COMPOUND => "SELECTOR_COMPOUND"@,
            SelectorRule::SELECTOR_COMBINATOR => "SELECTOR_COMBINATOR"@,
            SelectorRule::SELECTOR_COMBINATOR__NEXT_SIBLING => "SELECTOR_COMBINATOR__NEXT_SIBLING"@,
            SelectorRule::SELECTOR_COMBINATOR__CHILD => "SELECTOR_COMBINATOR__CHILD"@,
            SelectorRule::SELECTOR_COMBINATOR__COLUMN => "SELECTOR_COMBINATOR__COLUMN"@,
            SelectorRule::SELECTOR_COMBINATOR__SUBSEQUENT_SIBLING => "SELECTOR_COMBINATOR__SUBSEQUENT_SIBLING"@,
            SelectorRule::SELECTOR_COMBINATOR__DESCENDENT => "SELECTOR_COMBINATOR__DESCENDENT"@,
            SelectorRule::SELECTOR_COMBINATOR__NAMESPACE => "SELECTOR_COMBINATOR__NAMESPACE"@,
            SelectorRule::SELECTOR_TYPE => "SELECTOR_TYPE"@,
            SelectorRule::PREFIX_NAMESPACE => "PREFIX_NAMESPACE"@,
            SelectorRule::WQ_NAME => "WQ_NAME"@,
            SelectorRule::SELECTOR_SUBCLASS => "SELECTOR_SUBCLASS"@,
            SelectorRule::SELECTOR_ID => "SELECTOR_ID"@,
            SelectorRule::SELECTOR_CLASS => "SELECTOR_CLASS"@,
            SelectorRule::SELECTOR_ATTRIBUTE => "SELECTOR_ATTRIBUTE"@,
            SelectorRule::SELECTOR_PSEUDOCLASS => "SELECTOR_PSEUDOCLASS"@,
            SelectorRule::ATTR_MATCHER => "ATTR_MATCHER"@,
            SelectorRule::ATTR_MATCHER__EXACT_MATCH => "ATTR_MATCHER__EXACT_MATCH"@,
            SelectorRule::ATTR_MATCHER__LIST_CONTAINS => "ATTR_MATCHER__LIST_CONTAINS"@,
            SelectorRule::ATTR_MATCHER__STARTS_WITH => "ATTR_MATCHER__STARTS_WITH"@,
            SelectorRule::ATTR_MATCHER__STARTS_WITH_DASHED => "ATTR_MATCHER__STARTS_WITH_DASHED"@,
            SelectorRule::ATTR_MATCHER__ENDS_WITH => "ATTR_MATCHER__ENDS_WITH"@,
            SelectorRule::ATTR_MATCHER__CONTAINS => "ATTR_MATCHER__CONTAINS"@,
            SelectorRule::ATTR_MODIFIER => "ATTR_MODIFIER"@,
            SelectorRule::IDENT => "IDENT"@,
            SelectorRule::FUNCTION => "FUNCTION"@,
            SelectorRule::HASH => "HASH"@,
            SelectorRule::STRING => "STRING"@,
        }
    }

    /// The rule's name, as printed in error messages.
    pub fn name(&self) -> (r: &'static str)
        ensures
            r@ == self.spec_name(),
    {
        match self {
            SelectorRule::SELECTOR => "SELECTOR",
            SelectorRule::SELECTOR_LIST => "SELECTOR_LIST",
            SelectorRule::SELECTOR_COMPLEX_LIST => "SELECTOR_COMPLEX_LIST",
            SelectorRule::SELECTOR_COMPLEX => "SELECTOR_COMPLEX",
            SelectorRule::SELECTOR_COMPOUND => "SELECTOR_COMPOUND",
            SelectorRule::SELECTOR_COMBINATOR => "SELECTOR_COMBINATOR",
            SelectorRule::SELECTOR_COMBINATOR__NEXT_SIBLING => "SELECTOR_COMBINATOR__NEXT_SIBLING",
            SelectorRule::SELECTOR_COMBINATOR__CHILD => "SELECTOR_COMBINATOR__CHILD",
            SelectorRule::SELECTOR_COMBINATOR__COLUMN => "SELECTOR_COMBINATOR__COLUMN",
            SelectorRule::SELECTOR_COMBINATOR__SUBSEQUENT_SIBLING => "SELECTOR_COMBINATOR__SUBSEQUENT_SIBLING",
            SelectorRule::SELECTOR_COMBINATOR__DESCENDENT => "SELECTOR_COMBINATOR__DESCENDENT",
            SelectorRule::SELECTOR_COMBINATOR__NAMESPACE => "SELECTOR_COMBINATOR__NAMESPACE",
            SelectorRule::SELECTOR_TYPE => "SELECTOR_TYPE",
            SelectorRule::PREFIX_NAMESPACE => "PREFIX_NAMESPACE",
            SelectorRule::WQ_NAME => "WQ_NAME",
            SelectorRule::SELECTOR_SUBCLASS => "SELECTOR_SUBCLASS",
            SelectorRule::SELECTOR_ID => "SELECTOR_ID",
            SelectorRule::SELECTOR_CLASS => "SELECTOR_CLASS",
            SelectorRule::SELECTOR_ATTRIBUTE => "SELECTOR_ATTRIBUTE",
            SelectorRule::SELECTOR_PSEUDOCLASS => "SELECTOR_PSEUDOCLASS",
            SelectorRule::ATTR_MATCHER => "ATTR_MATCHER",
            SelectorRule::ATTR_MATCHER__EXACT_MATCH => "ATTR_MATCHER__EXACT_MATCH",
            SelectorRule::ATTR_MATCHER__LIST_CONTAINS => "ATTR_MATCHER__LIST_CONTAINS",
            SelectorRule::ATTR_MATCHER__STARTS_WITH => "ATTR_MATCHER__STARTS_WITH",
            SelectorRule::ATTR_MATCHER__STARTS_WITH_DASHED => "ATTR_MATCHER__STARTS_WITH_DASHED",
            SelectorRule::ATTR_MATCHER__ENDS_WITH => "ATTR_MATCHER__ENDS_WITH",
            SelectorRule::ATTR_MATCHER__CONTAINS => "ATTR_MATCHER__CONTAINS",
            SelectorRule::ATTR_MODIFIER => "ATTR_MODIFIER",
            SelectorRule::IDENT => "IDENT",
            SelectorRule::FUNCTION => "FUNCTION",
            SelectorRule::HASH => "HASH",
            SelectorRule::STRING => "STRING",
        }
    }
}

} // verus!
