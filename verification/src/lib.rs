//! Crest: CSS selectors and stylesheets.
//!
//! The source text of a stylesheet or a selector is kept in a [`SourceInfo`]; a parser turns it
//! into a depth-first walk of its parse tree, from which [`source::parse_source`] builds the tree.
//! The trackers of [`syntax`] and [`selector`] read that tree into [`Stylesheet`]s and
//! [`SelectorNode`]s, and every value read back prints as CSS again.
pub mod boo;
pub mod css;
pub mod rules;
pub mod selector;
pub mod source;
pub mod style;
pub mod syntax;
pub mod text;
pub mod unit;

use vstd::prelude::*;
pub use selector::{SelectorNode, SelectorNodeType};
pub use source::SourceInfo;
pub use style::prop_validation::{CssAttributeValue, CssStyleAttribute, CssValue};
pub use style::properties::CssStyleProperties;
pub use style::Stylesheet;
pub use unit::Unit;

verus! {

/// The outcome of matching a selector: `Some` when it matches.
pub type MatchResult = Option<()>;

/// A node of a document that selectors are matched against and styles are applied to.
pub trait DomElement {
    /// The styles written on the element itself, as in `<button style="color: red;" />`.
    fn get_inline_style(&self) -> CssStyleProperties;

    /// Applies the element's style properties to it immediately.
    fn apply_style_properties(&mut self);
}

} // verus!
