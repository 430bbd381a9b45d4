//! Reading the parse tree of a stylesheet, one expected token at a time.
use vstd::prelude::*;
use vstd::utf8::encode_utf8;
use vstd::string::StringSliceAdditionalSpecFns;
use crate::rules::{CssRule, SelectorRule};
use crate::source::{lemma_children_wf, ParserToken, SourceLocation, SourceSlice, TokenTracker};
use crate::style::{after_first_value, at_rule_names_unique, lemma_optional_tokens_read_len, read_sides, read_single, sides_outcome, single_outcome, AtRule, Stylesheet};
use crate::style::properties::{declarations_eq, property_from_values, single_property, values_make_property, CssStyleProperties, CssStyleProperty};
use crate::selector::{selectors_from_answer, selectors_from_walk, SelectorExpectError, SelectorNode, SelectorParser, SelectorResult, SelectorTokenTracker};
use crate::source::{parse_source, SourceInfo, TokenEvent};
use crate::style::prop_validation::types;
use crate::text::str_eq;
use crate::style::prop_validation::{CssStyleAttribute, CssValue};
use crate::unit::{CssNumber, Dimension, Percentage, Unit};

verus! {

/// A node of a stylesheet's parse tree.
pub type CssToken<'a> = ParserToken<'a, CssRule>;

/// Why reading a stylesheet's parse tree failed.
#[derive(Debug)]
pub enum CssExpectError<'a> {
    /// The stylesheet grammar did not accept the text; the parser's message.
    ParseError(String),
    /// The selector of a rule could not be read.
    InvalidSelector(crate::selector::SelectorExpectError),
    /// A token was expected where none is left; names the rule that was expected.
    TooFewTokens(String),
    /// The next token has the first rule where the second was expected.
    FailedExpectation(CssRule, CssRule),
    /// A declaration names a property that has no reader.
    InvalidStyleAttrName(SourceSlice<'a>),
    /// An at-rule names something that has no reader.
    InvalidAtRuleName(SourceSlice<'a>),
    /// A property value could not be read; where it starts, and why.
    InvalidAttributeValue(SourceLocation<'a>, String),
    /// A token does not have the shape its rule gives it.
    MalformedToken(CssRule),
    /// The unit of a dimension is not one of the known units.
    UnknownDimensionUnit(SourceSlice<'a>),
    /// The construct is not read yet.
    Unsupported(CssRule),
}

/// The outcome of reading a stylesheet's parse tree.
pub type CssResult<'a, T> = Result<T, CssExpectError<'a>>;

/// Removing `front` bytes after `start` and `back` before `end` leaves whole characters.
pub open spec fn trims_to_text_of<'a>(start: SourceLocation<'a>, end: SourceLocation<'a>, front: int, back: int) -> bool {
    start.idx + front <= end.idx - back && crate::text::extractable(
        start.source_info.spec_bytes(),
        start.idx + front,
        end.idx - back,
    )
}

/// `s` is the slice from `front` bytes after `start` to `back` bytes before `end`.
pub open spec fn trimmed_slice_of<'a>(
    start: SourceLocation<'a>,
    end: SourceLocation<'a>,
    front: int,
    back: int,
    s: SourceSlice<'a>,
) -> bool {
    &&& s.wf()
    &&& s.coherent()
    &&& s.source_info == start.source_info
    &&& s.start.idx == start.idx + front
    &&& s.end.idx == end.idx - back
}

/// Removing `front` bytes at the start and `back` at the end of `t` leaves whole characters.
pub open spec fn trims_to_text<'a>(t: CssToken<'a>, front: int, back: int) -> bool {
    t.start.idx + front <= t.end.idx - back && crate::text::extractable(
        t.start.source_info.spec_bytes(),
        t.start.idx + front,
        t.end.idx - back,
    )
}

/// The characters of `t` without `front` bytes at the start and `back` at the end.
pub open spec fn trimmed_text<'a>(t: CssToken<'a>, front: int, back: int) -> Seq<char> {
    vstd::utf8::decode_utf8(
        t.start.source_info.spec_bytes().subrange(t.start.idx + front, t.end.idx - back),
    )
}

/// The characters from `front` bytes after `start` to `back` bytes before `end`.
pub open spec fn trimmed_text_of<'a>(start: SourceLocation<'a>, end: SourceLocation<'a>, front: int, back: int) -> Seq<char> {
    vstd::utf8::decode_utf8(start.source_info.spec_bytes().subrange(start.idx + front, end.idx - back))
}

/// `s` is the slice of `t` without `front` bytes at the start and `back` at the end.
pub open spec fn trimmed_slice<'a>(t: CssToken<'a>, front: int, back: int, s: SourceSlice<'a>) -> bool {
    &&& s.wf()
    &&& s.coherent()
    &&& s.source_info == t.start.source_info
    &&& s.start.idx == t.start.idx + front
    &&& s.end.idx == t.end.idx - back
}

/// A dimension token has a number and a known unit as its first two children.
pub open spec fn dimension_readable<'a>(t: CssToken<'a>) -> bool {
    let c = t.children_seq();
    &&& c.len() >= 2
    &&& c[0].rule == CssRule::NUMBER
    &&& c[1].rule == CssRule::IDENT
    &&& Dimension::spec_knows_unit(c[1].spec_text())
}

/// `e` is why the dimension token `t` cannot be read: it lacks a number and a unit, its first
/// child is no number or its second no identifier (reported against the dimension token itself),
/// or the unit is not a known one.
pub open spec fn dimension_refusal<'a>(t: CssToken<'a>, e: CssExpectError<'a>) -> bool {
    let c = t.children_seq();
    if c.len() < 2 {
        e matches CssExpectError::MalformedToken(rule) && rule == CssRule::DIMENSION
    } else if c[0].rule != CssRule::NUMBER {
        e matches CssExpectError::FailedExpectation(found, expected) && found == t.rule && expected
            == CssRule::NUMBER
    } else if c[1].rule != CssRule::IDENT {
        e matches CssExpectError::FailedExpectation(found, expected) && found == t.rule && expected
            == CssRule::IDENT
    } else {
        &&& !Dimension::spec_knows_unit(c[1].spec_text())
        &&& e matches CssExpectError::UnknownDimensionUnit(unit) && unit == c[1].spec_source()
    }
}

/// `d` is the dimension that token `t` spells.
pub open spec fn dimension_of<'a>(t: CssToken<'a>, d: Dimension) -> bool {
    let c = t.children_seq();
    &&& c.len() >= 2
    &&& d.spec_value().text@ == c[0].spec_text()
    &&& Dimension::spec_from_pair(d.spec_value(), c[1].spec_text()) == Some(d)
}

/// The component value `t` can be read: its first child is a value token of a well-formed shape.
pub open spec fn component_readable<'a>(t: CssToken<'a>) -> bool {
    let c = t.children_seq();
    &&& c.len() > 0
    &&& match c[0].rule {
        CssRule::DIMENSION => dimension_readable(c[0]),
        CssRule::NUMBER => true,
        CssRule::IDENT => true,
        CssRule::STRING => trims_to_text(c[0], 1, 1),
        CssRule::HASH => trims_to_text(c[0], 1, 0),
        CssRule::PERCENTAGE => trims_to_text(c[0], 0, 1),
        _ => false,
    }
}

/// `e` is why the component value `t` cannot be read: it is empty, its first child is a block
/// (not read yet), a malformed value token, or no value token at all.
pub open spec fn component_refusal<'a>(t: CssToken<'a>, e: CssExpectError<'a>) -> bool {
    let c = t.children_seq();
    if c.len() == 0 {
        e matches CssExpectError::MalformedToken(rule) && rule == CssRule::COMPONENT_VALUE
    } else {
        match c[0].rule {
            CssRule::SIMPLE_BLOCK => e matches CssExpectError::Unsupported(rule) && rule
                == CssRule::SIMPLE_BLOCK,
            CssRule::FUNCTION_BLOCK => e matches CssExpectError::Unsupported(rule) && rule
                == CssRule::FUNCTION_BLOCK,
            CssRule::DIMENSION => dimension_refusal(c[0], e),
            CssRule::NUMBER => false,
            CssRule::IDENT => false,
            CssRule::STRING => {
                &&& !trims_to_text(c[0], 1, 1)
                &&& e matches CssExpectError::MalformedToken(rule) && rule == CssRule::STRING
            },
            CssRule::HASH => {
                &&& !trims_to_text(c[0], 1, 0)
                &&& e matches CssExpectError::MalformedToken(rule) && rule == CssRule::HASH
            },
            CssRule::PERCENTAGE => {
                &&& !trims_to_text(c[0], 0, 1)
                &&& e matches CssExpectError::MalformedToken(rule) && rule == CssRule::PERCENTAGE
            },
            _ => e matches CssExpectError::MalformedToken(rule) && rule == CssRule::COMPONENT_VALUE,
        }
    }
}

/// `u` is the unit that the component value `t` spells.
pub open spec fn component_unit_of<'a>(t: CssToken<'a>, u: Unit) -> bool {
    let c = t.children_seq();
    &&& c.len() > 0
    &&& match c[0].rule {
        CssRule::DIMENSION => u matches Unit::Dimension(d) && dimension_of(c[0], d),
        CssRule::NUMBER => u matches Unit::Number(n) && n.text@ == c[0].spec_text(),
        CssRule::IDENT => u matches Unit::UnknownIdent(s) && s@ == c[0].spec_text(),
        CssRule::STRING => u matches Unit::String(s) && s@ == trimmed_text(c[0], 1, 1),
        CssRule::HASH => u matches Unit::Hash(h) && h.0@ == trimmed_text(c[0], 1, 0),
        CssRule::PERCENTAGE => u matches Unit::Percentage(p) && p.0.text@ == trimmed_text(
            c[0],
            0,
            1,
        ),
        _ => false,
    }
}

/// `t` is a component value that can be read.
pub open spec fn component_ok<'a>(t: CssToken<'a>) -> bool {
    t.rule == CssRule::COMPONENT_VALUE && component_readable(t)
}

/// `units` are read, one each, from readable component values at the front of `tokens`.
pub open spec fn component_prefix<'a>(tokens: Seq<CssToken<'a>>, units: Seq<Unit>) -> bool {
    &&& units.len() <= tokens.len()
    &&& forall|i: int|
        #![trigger tokens[i]]
        0 <= i < units.len() ==> component_ok(tokens[i]) && component_unit_of(tokens[i], units[i])
}

/// `units` are read from the longest run of readable component values that `tokens` starts with.
pub open spec fn component_run<'a>(tokens: Seq<CssToken<'a>>, units: Seq<Unit>) -> bool {
    &&& component_prefix(tokens, units)
    &&& units.len() < tokens.len() ==> !component_ok(tokens[units.len() as int])
}

/// Reading one more component value extends a prefix read.
proof fn lemma_component_prefix_push<'a>(tokens: Seq<CssToken<'a>>, units: Seq<Unit>, unit: Unit)
    requires
        component_prefix(tokens, units),
        units.len() < tokens.len(),
        component_ok(tokens[units.len() as int]),
        component_unit_of(tokens[units.len() as int], unit),
    ensures
        component_prefix(tokens, units.push(unit)),
{
    let pushed = units.push(unit);
    assert forall|i: int|
        #![trigger tokens[i]]
        0 <= i < pushed.len() implies component_ok(tokens[i]) && component_unit_of(
            tokens[i],
            pushed[i],
        ) by {
        if i < units.len() {
            assert(pushed[i] == units[i]);
        }
    }
}

/// `t` is a function block whose function token names the function first.
pub open spec fn function_block_readable<'a>(t: CssToken<'a>) -> bool {
    let c = t.children_seq();
    &&& c.len() > 0
    &&& c[0].rule == CssRule::FUNCTION
    &&& c[0].children_seq().len() > 0
    &&& c[0].children_seq()[0].rule == CssRule::IDENT
}

/// `e` is why the function block `t` cannot be read: it is a leaf, it holds no function token
/// first, or that function token does not start with the function's name.
pub open spec fn function_block_refusal<'a>(t: CssToken<'a>, e: CssExpectError<'a>) -> bool {
    let c = t.children_seq();
    if t.value is Leaf {
        e matches CssExpectError::MalformedToken(rule) && rule == CssRule::FUNCTION_BLOCK
    } else if c.len() == 0 {
        e matches CssExpectError::TooFewTokens(s) && s@ == CssRule::FUNCTION.spec_name()
    } else if c[0].rule != CssRule::FUNCTION {
        e matches CssExpectError::FailedExpectation(found, expected) && found == c[0].rule && expected
            == CssRule::FUNCTION
    } else if c[0].children_seq().len() == 0 {
        e matches CssExpectError::MalformedToken(rule) && rule == CssRule::FUNCTION
    } else {
        &&& c[0].children_seq()[0].rule != CssRule::IDENT
        &&& e matches CssExpectError::FailedExpectation(found, expected) && found
            == c[0].children_seq()[0].rule && expected == CssRule::IDENT
    }
}

/// `name` and `params` are what the function block `t` spells.
pub open spec fn function_block_of<'a>(t: CssToken<'a>, name: SourceSlice<'a>, params: Seq<Unit>) -> bool {
    let c = t.children_seq();
    &&& name == c[0].children_seq()[0].spec_source()
    &&& component_run(c.skip(1), params)
}

/// The at-rule `t` starts with a child that starts with the name.
pub open spec fn at_rule_readable<'a>(t: CssToken<'a>) -> bool {
    let c = t.children_seq();
    c.len() > 0 && c[0].children_seq().len() > 0
}

/// Every value of a declaration group, shorthand values left out, can be read.
pub open spec fn group_readable<'a>(values: Seq<CssToken<'a>>) -> bool
    decreases values.len(),
{
    if values.len() == 0 {
        true
    } else {
        &&& group_readable(values.drop_last())
        &&& values.last().rule == CssRule::DECLARATION_SHORTHAND || (values.last().children_seq().len()
            > 0 && component_readable(values.last().children_seq()[0]))
    }
}

/// `e` is why the value `v` of a declaration group cannot be read: it holds no component value,
/// or its first one cannot be read.
pub open spec fn value_refusal<'a>(v: CssToken<'a>, e: CssExpectError<'a>) -> bool {
    &&& v.rule != CssRule::DECLARATION_SHORTHAND
    &&& if v.children_seq().len() == 0 {
        e matches CssExpectError::MalformedToken(rule) && rule == CssRule::DECLARATION_VALUE
    } else {
        component_refusal(v.children_seq()[0], e)
    }
}

/// `e` is why the values of a declaration group cannot all be read: why the first value that
/// cannot be read cannot.
pub open spec fn group_refusal<'a>(values: Seq<CssToken<'a>>, e: CssExpectError<'a>) -> bool
    decreases values.len(),
{
    &&& values.len() > 0
    &&& if group_readable(values.drop_last()) {
        value_refusal(values.last(), e)
    } else {
        group_refusal(values.drop_last(), e)
    }
}

/// The values up to `k` can be read and value `k` cannot, for reason `e`: that is why the group
/// cannot be read.
proof fn lemma_group_refusal_at<'a>(values: Seq<CssToken<'a>>, k: int, e: CssExpectError<'a>)
    requires
        0 <= k < values.len(),
        group_readable(values.take(k)),
        value_refusal(values[k], e),
    ensures
        group_refusal(values, e),
        !group_readable(values),
    decreases values.len(),
{
    if k + 1 == values.len() {
        assert(values.drop_last() =~= values.take(k));
    } else {
        assert(values.drop_last().take(k) =~= values.take(k));
        lemma_group_refusal_at(values.drop_last(), k, e);
    }
}

/// `units` are the units of the values of a declaration group, shorthand values left out.
pub open spec fn group_units<'a>(values: Seq<CssToken<'a>>, units: Seq<Unit>) -> bool
    decreases values.len(),
{
    if values.len() == 0 {
        units.len() == 0
    } else if values.last().rule == CssRule::DECLARATION_SHORTHAND {
        group_units(values.drop_last(), units)
    } else {
        &&& units.len() > 0
        &&& values.last().children_seq().len() > 0
        &&& component_unit_of(values.last().children_seq()[0], units.last())
        &&& group_units(values.drop_last(), units.drop_last())
    }
}

/// A group whose values can all be read has every prefix readable too.
proof fn lemma_group_readable_prefix<'a>(values: Seq<CssToken<'a>>, k: int)
    requires
        group_readable(values),
        0 <= k <= values.len(),
    ensures
        group_readable(values.take(k)),
    decreases values.len(),
{
    if k < values.len() {
        assert(values.drop_last().take(k) =~= values.take(k));
        lemma_group_readable_prefix(values.drop_last(), k);
    } else {
        assert(values.take(k) =~= values);
    }
}

/// The declaration groups `token` holds (none for a leaf) can all be read.
pub open spec fn groups_readable<'a>(groups: Seq<CssToken<'a>>) -> bool {
    forall|k: int| #![trigger groups[k]] 0 <= k < groups.len() ==> group_readable(groups[k].children_seq())
}

/// `e` is why the declaration groups cannot all be read: why the first group that cannot be
/// read cannot.
pub open spec fn groups_refusal<'a>(groups: Seq<CssToken<'a>>, e: CssExpectError<'a>) -> bool {
    exists|k: int|
        #![trigger groups[k]]
        0 <= k < groups.len() && groups_readable(groups.take(k)) && group_refusal(
            groups[k].children_seq(),
            e,
        )
}

/// A property with a reader of its own (or one that is not read yet).
pub open spec fn known_property(name: Seq<char>) -> bool {
    name == "color"@
        || name == "background-color"@
        || name == "width"@
        || name == "height"@
        || name == "padding"@
        || name == "spacing"@
        || name == "font-family"@
        || name == "font-size"@
        || name == "font-shaping"@
        || name == "line-height"@
        || name == "text-wrap"@
        || name == "max-width"@
        || name == "max-height"@
        || name == "justify-content"@
        || name == "vertical-align"@
        || name == "overflow-x"@
        || name == "overflow-y"@
        || name == "object-fit"@
        || name == "image-rendering"@
        || name == "rotation"@
        || name == "opacity"@
}

/// A property whose values are not read yet.
pub open spec fn unsupported_property(name: Seq<char>) -> bool {
    name == "font-family"@
        || name == "font-shaping"@
        || name == "text-wrap"@
        || name == "justify-content"@
        || name == "overflow-x"@
        || name == "overflow-y"@
        || name == "object-fit"@
        || name == "image-rendering"@
        || name == "rotation"@
        || name == "opacity"@
}

/// `r` is what reading a declaration of the property `name`, which has no reader of its own,
/// from the declaration groups `token` gives.
pub open spec fn unknown_outcome<'a>(
    name: Seq<char>,
    token: CssToken<'a>,
    r: CssResult<'a, Vec<CssStyleAttribute>>,
) -> bool {
    let groups = token.children_seq();
    &&& r is Ok <==> groups_readable(groups)
    &&& r matches Err(e) ==> groups_refusal(groups, e)
    &&& r matches Ok(attrs) ==> {
        &&& attrs@.len() == 1
        &&& attrs@[0] matches CssStyleAttribute::UnknownProperty(n, units)
        &&& n@ == name
        &&& units@.len() == groups.len()
        &&& forall|k: int|
            #![trigger groups[k]]
            0 <= k < groups.len() ==> group_units(groups[k].children_seq(), units@[k]@)
    }
}

/// `r` is what reading the declaration of `attr_name` from its declaration groups `token` gives:
/// one value for most properties, one to four sides for `padding` and `spacing`, the units of
/// every group for a property that has no reader, and a refusal for a property whose values are
/// not read yet.
pub open spec fn style_attr_outcome<'a>(
    attr_name: SourceSlice<'a>,
    token: CssToken<'a>,
    r: CssResult<'a, Vec<CssStyleAttribute>>,
) -> bool {
    let name = attr_name.spec_text();
    &&& name == "color"@ ==> single_outcome::<types::CssColor>(token, r)
    &&& name == "background-color"@ ==> single_outcome::<types::CssBackgroundColor>(token, r)
    &&& name == "width"@ ==> single_outcome::<types::CssWidth>(token, r)
    &&& name == "height"@ ==> single_outcome::<types::CssHeight>(token, r)
    &&& name == "font-size"@ ==> single_outcome::<types::CssFontSize>(token, r)
    &&& name == "line-height"@ ==> single_outcome::<types::CssLineHeight>(token, r)
    &&& name == "max-width"@ ==> single_outcome::<types::CssMaxWidth>(token, r)
    &&& name == "max-height"@ ==> single_outcome::<types::CssMaxHeight>(token, r)
    &&& name == "vertical-align"@ ==> single_outcome::<types::CssVerticalAlign>(token, r)
    &&& name == "padding"@ ==> sides_outcome::<types::CssPadding>(token, r)
    &&& name == "spacing"@ ==> sides_outcome::<types::CssSpacing>(token, r)
    &&& unsupported_property(name) ==> (r matches Err(CssExpectError::InvalidStyleAttrName(s)) && s
        == attr_name)
    &&& !known_property(name) ==> unknown_outcome(name, token, r)
}

/// Two readings of the same declaration agree on whether it can be read, and on whether what
/// they read sets a property.
pub proof fn lemma_style_attr_outcome_unique<'a>(
    attr_name: SourceSlice<'a>,
    token: CssToken<'a>,
    r1: CssResult<'a, Vec<CssStyleAttribute>>,
    r2: CssResult<'a, Vec<CssStyleAttribute>>,
)
    requires
        style_attr_outcome(attr_name, token, r1),
        style_attr_outcome(attr_name, token, r2),
    ensures
        r1 is Ok <==> r2 is Ok,
        r1 matches Ok(a1) ==> values_make_property(a1@),
        r2 matches Ok(a2) ==> values_make_property(a2@),
{
    let groups = token.children_seq();
    lemma_optional_tokens_read_len(
        groups,
        types::CssPadding::spec_type_token().bits,
        after_first_value(groups),
        3,
    );
    lemma_optional_tokens_read_len(
        groups,
        types::CssSpacing::spec_type_token().bits,
        after_first_value(groups),
        3,
    );
}

/// A declaration's property keeps the declaration's name: whatever property a declaration named
/// `n` is read into is named `n`, for every name (a `max-width` declaration gives a `max-width`
/// property, and a declaration of a property that has no reader keeps its own name).
pub proof fn lemma_declaration_keeps_its_name<'a>(
    attr_name: SourceSlice<'a>,
    token: CssToken<'a>,
    r: CssResult<'a, Vec<CssStyleAttribute>>,
    p: CssStyleProperty,
)
    requires
        style_attr_outcome(attr_name, token, r),
        r matches Ok(values) && property_from_values(values@, p),
    ensures
        p.spec_prop_name() == attr_name.spec_text(),
{
    let name = attr_name.spec_text();
    let values = r->Ok_0@;
    let groups = token.children_seq();
    lemma_optional_tokens_read_len(
        groups,
        types::CssPadding::spec_type_token().bits,
        after_first_value(groups),
        3,
    );
    lemma_optional_tokens_read_len(
        groups,
        types::CssSpacing::spec_type_token().bits,
        after_first_value(groups),
        3,
    );
    if name == "padding"@ || name == "spacing"@ {
        assert(!single_property(values));
    }
}

/// The token `d` is a declaration with a name and values.
pub open spec fn declaration_parts<'a>(d: CssToken<'a>) -> bool {
    d.rule == CssRule::DECLARATION && d.children_seq().len() >= 2
}

/// The declaration `d` can be read: its values read to values that set a property.
pub open spec fn declaration_readable<'a>(d: CssToken<'a>) -> bool {
    let c = d.children_seq();
    &&& declaration_parts(d)
    &&& exists|attrs: Vec<CssStyleAttribute>|
        #[trigger] style_attr_outcome(c[0].spec_source(), c[1], Ok(attrs)) && values_make_property(attrs@)
}

/// `decl` is what the readable declaration `d` sets: the property that its values make, and
/// whether it is marked important (has more than a name and values).
pub open spec fn declaration_of<'a>(d: CssToken<'a>, decl: (CssStyleProperty, bool)) -> bool {
    let c = d.children_seq();
    &&& decl.1 == (c.len() > 2)
    &&& exists|attrs: Vec<CssStyleAttribute>|
        #[trigger] style_attr_outcome(c[0].spec_source(), c[1], Ok(attrs)) && property_from_values(
            attrs@,
            decl.0,
        )
}

/// What reading the declaration `d` reports when it cannot be read: another rule where a
/// declaration belongs, a declaration without name or values, the failure to read its values, or
/// values that set no property.
pub open spec fn declaration_refusal<'a>(d: CssToken<'a>, e: CssExpectError<'a>) -> bool {
    let c = d.children_seq();
    if d.rule != CssRule::DECLARATION {
        e == CssExpectError::FailedExpectation(d.rule, CssRule::DECLARATION)
    } else if c.len() < 2 {
        e == CssExpectError::MalformedToken(CssRule::DECLARATION)
    } else if exists|attrs: Vec<CssStyleAttribute>|
        #[trigger] style_attr_outcome(c[0].spec_source(), c[1], Ok(attrs)) {
        e == CssExpectError::InvalidStyleAttrName(c[0].spec_source())
    } else {
        style_attr_outcome(c[0].spec_source(), c[1], Err(e))
    }
}

/// How many declarations that can be read stand in a row among `ds` from `k` on.
pub open spec fn readable_declaration_run<'a>(ds: Seq<CssToken<'a>>, k: int) -> nat
    decreases ds.len() - k,
{
    if 0 <= k < ds.len() && declaration_readable(ds[k]) {
        1 + readable_declaration_run(ds, k + 1)
    } else {
        0
    }
}

/// `r` is what finishing a qualified rule from what reading its selector gave, `selectors`, and
/// its declaration block `block` gives: the selector's failure, the refusal of the first
/// declaration that cannot be read, or the selectors with what each declaration sets.
pub open spec fn rule_outcome<'a>(
    block: CssToken<'a>,
    selectors: SelectorResult<Vec<SelectorNode>>,
    r: CssResult<'a, (Vec<SelectorNode>, CssStyleProperties)>,
) -> bool {
    let ds = block.children_seq();
    let n = readable_declaration_run(ds, 0);
    match selectors {
        Err(e) => r matches Err(CssExpectError::InvalidSelector(e2)) && e2 == e,
        Ok(sels) => if n < ds.len() {
            r matches Err(e) && declaration_refusal(ds[n as int], e)
        } else {
            r matches Ok((s, props)) && s@ == sels@ && props.0@.len() == ds.len() && forall|k: int|
                0 <= k < ds.len() ==> declaration_of(ds[k], #[trigger] props.0@[k])
        },
    }
}

/// Finishing the qualified rule gives its token back: its selector was read and could not be
/// made into selectors, or a declaration's place holds another rule.
pub open spec fn rule_gives_back<'a>(block: CssToken<'a>, selectors: SelectorResult<Vec<SelectorNode>>) -> bool {
    let ds = block.children_seq();
    let n = readable_declaration_run(ds, 0);
    match selectors {
        Err(e) => !(e is ParseError),
        Ok(_) => n < ds.len() && ds[n as int].rule != CssRule::DECLARATION,
    }
}

/// The name an at-rule token `t` gives: the text of the first child of its first child.
pub open spec fn at_rule_name<'a>(t: CssToken<'a>) -> Seq<char> {
    t.children_seq()[0].children_seq()[0].spec_text()
}

/// The names of the at-rules `at_rules`, in order.
pub open spec fn at_rule_names(at_rules: Seq<AtRule>) -> Seq<Seq<char>> {
    at_rules.map_values(|a: AtRule| a.name@)
}

/// The names, in order, of the at-rules that reading the first `k` rules among `rules` records:
/// an at-rule whose name is recorded already takes the place of the earlier one.
pub open spec fn recorded_at_rule_names<'a>(rules: Seq<CssToken<'a>>, k: int) -> Seq<Seq<char>>
    decreases k,
{
    if k <= 0 || k > rules.len() {
        seq![]
    } else {
        let before = recorded_at_rule_names(rules, k - 1);
        if rules[k - 1].rule == CssRule::AT_RULE && !before.contains(at_rule_name(rules[k - 1])) {
            before.push(at_rule_name(rules[k - 1]))
        } else {
            before
        }
    }
}

/// `props` are what the declarations of the qualified rule `t` set, one for each declaration.
pub open spec fn rule_declarations_of<'a>(t: CssToken<'a>, props: Seq<(CssStyleProperty, bool)>) -> bool {
    let c = t.children_seq();
    let ds = c[1].children_seq();
    &&& c.len() >= 2
    &&& props.len() == ds.len()
    &&& forall|k: int| 0 <= k < ds.len() ==> declaration_of(ds[k], #[trigger] props[k])
}

/// Every one of `rules` is a qualified rule or an at-rule that can be read.
pub open spec fn stylesheet_rules_readable<'a>(rules: Seq<CssToken<'a>>, k: int) -> bool {
    forall|q: int|
        0 <= q < k ==> (#[trigger] rules[q]).rule == CssRule::QUALIFIED_RULE || (rules[q].rule
            == CssRule::AT_RULE && at_rule_readable(rules[q]))
}

/// What reading the rule `t` of a stylesheet reports when it cannot be read: another rule where a
/// qualified rule or an at-rule belongs, an at-rule without a name, a qualified rule without a
/// selector and a block, or what finishing the qualified rule reports for some reading of its
/// selector.
pub open spec fn stylesheet_rule_refusal<'a>(t: CssToken<'a>, e: CssExpectError<'a>) -> bool {
    let c = t.children_seq();
    if t.rule == CssRule::AT_RULE {
        !at_rule_readable(t) && e == CssExpectError::MalformedToken(CssRule::AT_RULE)
    } else if t.rule == CssRule::QUALIFIED_RULE {
        if c.len() < 2 {
            e == CssExpectError::MalformedToken(CssRule::QUALIFIED_RULE)
        } else {
            exists|selectors: SelectorResult<Vec<SelectorNode>>|
                #[trigger] rule_outcome(c[1], selectors, Err(e))
        }
    } else {
        e == CssExpectError::FailedExpectation(t.rule, CssRule::QUALIFIED_RULE)
    }
}

/// `props` are what the declarations of the qualified rule `t` set.
pub open spec fn declarations_of_rule<'a>(t: CssToken<'a>, props: Seq<(CssStyleProperty, bool)>) -> bool {
    exists|decls: Seq<(CssStyleProperty, bool)>| #[trigger] rule_declarations_of(t, decls) && declarations_eq(decls, props)
}

/// `sels` are the selectors that reading the selector of the qualified rule `t` gives, for some
/// answer of the selector parser.
pub open spec fn rule_selectors_read<'a>(t: CssToken<'a>, sels: Seq<SelectorNode>) -> bool {
    let c = t.children_seq();
    exists|answer: Result<Vec<TokenEvent<SelectorRule>>, String>, s: Vec<SelectorNode>|
        #[trigger] selectors_from_answer(c[0].spec_text(), c[0].spec_source().spec_text_bytes(), answer, Ok(s))
            && s@ == sels
}

/// `style_rules` are the style rules that the first `reads.len()` rules among `rules` make, where
/// the qualified rule at `q` read the selectors `reads[q]`: in order, one for each selector of
/// each qualified rule, with what the rule's declarations set.
pub open spec fn style_rules_made<'a>(
    rules: Seq<CssToken<'a>>,
    reads: Seq<Seq<SelectorNode>>,
    style_rules: Seq<(SelectorNode, CssStyleProperties)>,
) -> bool
    decreases reads.len(),
{
    if reads.len() == 0 {
        style_rules.len() == 0
    } else if rules[reads.len() - 1].rule == CssRule::QUALIFIED_RULE {
        let sels = reads.last();
        let m = style_rules.len() - sels.len();
        let tail = style_rules.skip(m);
        &&& m >= 0
        &&& style_rules_made(rules, reads.drop_last(), style_rules.take(m))
        &&& forall|i: int|
            0 <= i < sels.len() ==> (#[trigger] tail[i]).0 == sels[i] && declarations_of_rule(
                rules[reads.len() - 1],
                tail[i].1.0@,
            )
    } else {
        style_rules_made(rules, reads.drop_last(), style_rules)
    }
}

/// The style rules `style_rules` are what the rules `rules` make, for some reading of the
/// selector of each qualified rule.
pub open spec fn stylesheet_style_rules<'a>(rules: Seq<CssToken<'a>>, style_rules: Seq<(SelectorNode, CssStyleProperties)>) -> bool {
    exists|reads: Seq<Seq<SelectorNode>>|
        {
            &&& reads.len() == rules.len()
            &&& forall|q: int|
                0 <= q < rules.len() && rules[q].rule == CssRule::QUALIFIED_RULE ==> rule_selectors_read(
                    rules[q],
                    #[trigger] reads[q],
                )
            &&& #[trigger] style_rules_made(rules, reads, style_rules)
        }
}

/// Walks the children of a node of a stylesheet's parse tree.
#[derive(Debug)]
pub struct CssTokenTracker<'a>(pub TokenTracker<'a, CssRule>);

impl<'a> CssTokenTracker<'a> {
    /// The tracker is well formed.
    pub open spec fn wf(&self) -> bool {
        self.0.wf()
    }

    /// The tokens the tracker walks.
    pub open spec fn tokens(&self) -> Seq<CssToken<'a>> {
        self.0.tokens@
    }

    /// How many tokens have been taken.
    pub open spec fn index(&self) -> int {
        self.0.idx as int
    }

    /// The next token (meaningful when one is left).
    pub open spec fn next(&self) -> CssToken<'a> {
        self.0.tokens@[self.0.idx as int]
    }

    /// A token is left and it has `rule`.
    pub open spec fn next_is(&self, rule: CssRule) -> bool {
        self.index() < self.tokens().len() && self.next().rule == rule
    }

    /// `new` walks the same tokens as `self`.
    pub open spec fn same_tokens(&self, new: &Self) -> bool {
        &&& new.wf()
        &&& new.0.tokens == self.0.tokens
    }

    /// `new` has taken one more token than `self`.
    pub open spec fn took_one(&self, new: &Self) -> bool {
        self.same_tokens(new) && new.index() == self.index() + 1
    }

    /// `new` is where `self` was, and `r` says why no token of `rule` could be taken.
    pub open spec fn refused<T>(&self, new: &Self, rule: CssRule, r: CssResult<'a, T>) -> bool {
        &&& self.same_tokens(new)
        &&& new.index() == self.index()
        &&& if self.index() >= self.tokens().len() {
            r matches Err(CssExpectError::TooFewTokens(s)) && s@ == rule.spec_name()
        } else {
            r matches Err(CssExpectError::FailedExpectation(found, expected)) && found
                == self.next().rule && expected == rule
        }
    }

    /// A tracker over the children of `css_token`; `None` for a leaf.
    pub fn new(css_token: &'a CssToken<'a>) -> (r: Option<CssTokenTracker<'a>>)
        requires
            css_token.wf(),
        ensures
            r is None <==> css_token.value is Leaf,
            r matches Some(t) ==> t.wf() && t.tokens() == css_token.children_seq() && t.index()
                == 0,
    {
        match css_token.get_children() {
            Some(children) => {
                assert(forall|i: int| 0 <= i < children@.len() ==> (#[trigger] children@[i]).wf());
                Some(CssTokenTracker(TokenTracker::new(children)))
            },
            None => None,
        }
    }

    /// A tracker over `vec`.
    pub fn from_vec(vec: &'a Vec<CssToken<'a>>) -> (r: Self)
        requires
            forall|i: int| 0 <= i < vec@.len() ==> (#[trigger] vec@[i]).wf(),
        ensures
            r.wf(),
            r.tokens() == vec@,
            r.index() == 0,
    {
        CssTokenTracker(TokenTracker::new(vec))
    }

    /// The next token, without taking it.
    pub fn peek(&self) -> (r: Option<&'a CssToken<'a>>)
        requires
            self.wf(),
        ensures
            r is Some <==> self.index() < self.tokens().len(),
            r matches Some(t) ==> *t == self.next(),
    {
        self.0.peek()
    }

    /// The number of tokens not yet taken.
    pub fn len(&self) -> (r: usize)
        requires
            self.wf(),
        ensures
            r == self.tokens().len() - self.index(),
    {
        self.0.len()
    }

    /// Whether there are still tokens to take.
    pub fn is_empty(&self) -> (r: bool)
        requires
            self.wf(),
        ensures
            r == (self.index() < self.tokens().len()),
    {
        self.0.is_empty()
    }

    /// Gives back the token just taken and reports that it has the wrong rule.
    fn fail_type<O>(&mut self, expected: CssRule) -> (r: CssResult<'a, O>)
        requires
            old(self).wf(),
            1 <= old(self).index() <= old(self).tokens().len(),
        ensures
            final(self).same_tokens(old(self)),
            final(self).index() == old(self).index() - 1,
            r matches Err(CssExpectError::FailedExpectation(found, e)) && found == old(
                self,
            ).tokens()[old(self).index() - 1].rule && e == expected,
    {
        let current_rule = self.0.tokens[self.0.idx - 1].get_rule();
        self.0.fail_because(CssExpectError::FailedExpectation(current_rule, expected))
    }

    /// Takes the next token when it has `rule`; otherwise says why not and takes nothing.
    fn take(&mut self, rule: CssRule) -> (r: CssResult<'a, &'a CssToken<'a>>)
        requires
            old(self).wf(),
        ensures
            old(self).next_is(rule) ==> old(self).took_one(final(self)) && (r matches Ok(t)
                && *t == old(self).next() && t.wf()),
            !old(self).next_is(rule) ==> old(self).refused(final(self), rule, r),
    {
        let token = match self.0.pop_front() {
            Some(token) => token,
            None => {
                return Err(CssExpectError::TooFewTokens(rule.name().to_owned()));
            },
        };
        if token.get_rule() != rule {
            return self.fail_type(rule);
        }
        Ok(token)
    }

    /// Gives back the token just taken and reports that it is malformed.
    fn fail_malformed<O>(&mut self, rule: CssRule) -> (r: CssResult<'a, O>)
        requires
            old(self).wf(),
            1 <= old(self).index() <= old(self).tokens().len(),
        ensures
            final(self).same_tokens(old(self)),
            final(self).index() == old(self).index() - 1,
            r matches Err(CssExpectError::MalformedToken(e)) && e == rule,
    {
        self.0.fail_because(CssExpectError::MalformedToken(rule))
    }

    /// Takes a number and returns it as written.
    pub fn expect_number(&mut self) -> (r: CssResult<'a, CssNumber>)
        requires
            old(self).wf(),
        ensures
            old(self).next_is(CssRule::NUMBER) ==> old(self).took_one(final(self)) && (r matches Ok(
                n,
            ) && n.text@ == old(self).next().spec_text()),
            !old(self).next_is(CssRule::NUMBER) ==> old(self).refused(
                final(self),
                CssRule::NUMBER,
                r,
            ),
    {
        let token = self.take(CssRule::NUMBER)?;
        Ok(CssNumber { text: token.get_source().to_string() })
    }

    /// Takes a percentage and returns the number before its `%`.
    pub fn expect_percentage(&mut self) -> (r: CssResult<'a, CssNumber>)
        requires
            old(self).wf(),
        ensures
            old(self).next_is(CssRule::PERCENTAGE) ==> {
                let t = old(self).next();
                if trims_to_text(t, 0, 1) {
                    old(self).took_one(final(self)) && (r matches Ok(n) && n.text@
                        == trimmed_text(t, 0, 1))
                } else {
                    old(self).same_tokens(final(self)) && final(self).index() == old(self).index()
                        && r matches Err(CssExpectError::MalformedToken(CssRule::PERCENTAGE))
                }
            },
            !old(self).next_is(CssRule::PERCENTAGE) ==> old(self).refused(
                final(self),
                CssRule::PERCENTAGE,
                r,
            ),
    {
        let token = self.take(CssRule::PERCENTAGE)?;
        match token.get_source().trimmed(0, 1) {
            Some(slice) => Ok(CssNumber { text: slice.to_string() }),
            None => self.fail_malformed(CssRule::PERCENTAGE),
        }
    }

    /// Takes a dimension: a number followed by a known unit.
    pub fn expect_dimension(&mut self) -> (r: CssResult<'a, Dimension>)
        requires
            old(self).wf(),
        ensures
            old(self).next_is(CssRule::DIMENSION) ==> {
                let t = old(self).next();
                &&& old(self).same_tokens(final(self))
                &&& r is Ok <==> dimension_readable(t)
                &&& r matches Ok(d) ==> final(self).index() == old(self).index() + 1
                    && dimension_of(t, d)
                &&& r is Err ==> final(self).index() == old(self).index()
                &&& r matches Err(e) ==> dimension_refusal(t, e)
            },
            !old(self).next_is(CssRule::DIMENSION) ==> old(self).refused(
                final(self),
                CssRule::DIMENSION,
                r,
            ),
    {
        let token = self.take(CssRule::DIMENSION)?;
        proof {
            lemma_children_wf(*token);
        }
        let components = match token.get_children() {
            Some(components) => components,
            None => {
                return self.fail_malformed(CssRule::DIMENSION);
            },
        };
        if components.len() < 2 {
            return self.fail_malformed(CssRule::DIMENSION);
        }
        if components[0].get_rule() != CssRule::NUMBER {
            return self.fail_type(CssRule::NUMBER);
        }
        if components[1].get_rule() != CssRule::IDENT {
            return self.fail_type(CssRule::IDENT);
        }
        let number = CssNumber { text: components[0].get_source().to_string() };
        let unit_slice = components[1].get_source();
        let unit = unit_slice.get();
        match Dimension::from_pair(number, unit) {
            Some(dimension) => Ok(dimension),
            None => self.0.fail_because(CssExpectError::UnknownDimensionUnit(unit_slice)),
        }
    }

    /// Takes a quoted string and returns its text without the quotes.
    pub fn expect_quoted_string(&mut self) -> (r: CssResult<'a, SourceSlice<'a>>)
        requires
            old(self).wf(),
        ensures
            old(self).next_is(CssRule::STRING) ==> {
                let t = old(self).next();
                if trims_to_text(t, 1, 1) {
                    old(self).took_one(final(self)) && (r matches Ok(s) && trimmed_slice(t, 1, 1, s))
                } else {
                    old(self).same_tokens(final(self)) && final(self).index() == old(self).index()
                        && r matches Err(CssExpectError::MalformedToken(CssRule::STRING))
                }
            },
            !old(self).next_is(CssRule::STRING) ==> old(self).refused(
                final(self),
                CssRule::STRING,
                r,
            ),
    {
        let token = self.take(CssRule::STRING)?;
        match token.get_source().trimmed(1, 1) {
            Some(slice) => Ok(slice),
            None => self.fail_malformed(CssRule::STRING),
        }
    }

    /// Takes a `url(...)` token and returns the text between the parentheses.
    pub fn expect_url(&mut self) -> (r: CssResult<'a, SourceSlice<'a>>)
        requires
            old(self).wf(),
        ensures
            old(self).next_is(CssRule::URL) ==> {
                let t = old(self).next();
                if t.children_seq().len() > 0 {
                    old(self).took_one(final(self)) && r == Ok::<_, CssExpectError<'a>>(
                        t.children_seq()[0].spec_source(),
                    )
                } else {
                    old(self).same_tokens(final(self)) && final(self).index() == old(self).index()
                        && r matches Err(CssExpectError::MalformedToken(CssRule::URL))
                }
            },
            !old(self).next_is(CssRule::URL) ==> old(self).refused(final(self), CssRule::URL, r),
            r matches Ok(s) ==> s.wf() && s.coherent(),
    {
        let token = self.take(CssRule::URL)?;
        proof {
            lemma_children_wf(*token);
        }
        match token.get_children() {
            Some(children) if children.len() > 0 => Ok(children[0].get_source()),
            _ => self.fail_malformed(CssRule::URL),
        }
    }

    /// Takes a hash token and returns its text without the `#`.
    pub fn expect_hash(&mut self) -> (r: CssResult<'a, SourceSlice<'a>>)
        requires
            old(self).wf(),
        ensures
            old(self).next_is(CssRule::HASH) ==> {
                let t = old(self).next();
                if trims_to_text(t, 1, 0) {
                    old(self).took_one(final(self)) && (r matches Ok(s) && trimmed_slice(t, 1, 0, s))
                } else {
                    old(self).same_tokens(final(self)) && final(self).index() == old(self).index()
                        && r matches Err(CssExpectError::MalformedToken(CssRule::HASH))
                }
            },
            !old(self).next_is(CssRule::HASH) ==> old(self).refused(final(self), CssRule::HASH, r),
    {
        let token = self.take(CssRule::HASH)?;
        match token.get_source().trimmed(1, 0) {
            Some(slice) => Ok(slice),
            None => self.fail_malformed(CssRule::HASH),
        }
    }

    /// Takes an identifier and returns its text.
    pub fn expect_identifier(&mut self) -> (r: CssResult<'a, SourceSlice<'a>>)
        requires
            old(self).wf(),
        ensures
            old(self).next_is(CssRule::IDENT) ==> old(self).took_one(final(self)) && r == Ok::<
                _,
                CssExpectError<'a>,
            >(old(self).next().spec_source()),
            !old(self).next_is(CssRule::IDENT) ==> old(self).refused(final(self), CssRule::IDENT, r),
            r matches Ok(s) ==> s.wf() && s.coherent(),
    {
        let token = self.take(CssRule::IDENT)?;
        Ok(token.get_source())
    }

    /// Takes a function token and returns the name it starts with.
    pub fn expect_function(&mut self) -> (r: CssResult<'a, SourceSlice<'a>>)
        requires
            old(self).wf(),
        ensures
            old(self).next_is(CssRule::FUNCTION) ==> {
                let t = old(self).next();
                let c = t.children_seq();
                &&& old(self).same_tokens(final(self))
                &&& c.len() == 0 ==> (final(self).index() == old(self).index() && r matches Err(
                    CssExpectError::MalformedToken(CssRule::FUNCTION),
                ))
                &&& c.len() > 0 ==> final(self).index() == old(self).index() + 1 && (if c[0].rule
                    == CssRule::IDENT {
                    r == Ok::<_, CssExpectError<'a>>(c[0].spec_source())
                } else {
                    r matches Err(CssExpectError::FailedExpectation(found, e)) && found == c[0].rule
                        && e == CssRule::IDENT
                })
            },
            !old(self).next_is(CssRule::FUNCTION) ==> old(self).refused(
                final(self),
                CssRule::FUNCTION,
                r,
            ),
            r matches Ok(s) ==> s.wf() && s.coherent(),
    {
        let token = self.take(CssRule::FUNCTION)?;
        proof {
            lemma_children_wf(*token);
        }
        let children = match token.get_children() {
            Some(children) => children,
            None => {
                return self.fail_malformed(CssRule::FUNCTION);
            },
        };
        if children.len() == 0 {
            return self.fail_malformed(CssRule::FUNCTION);
        }
        let mut name_expector = CssTokenTracker::from_vec(children);
        name_expector.expect_identifier()
    }

    /// Takes a component value and reads the unit it spells.
    pub fn expect_component_value(&mut self) -> (r: CssResult<'a, Unit>)
        requires
            old(self).wf(),
        ensures
            old(self).next_is(CssRule::COMPONENT_VALUE) ==> {
                let t = old(self).next();
                &&& old(self).took_one(final(self))
                &&& r is Ok <==> component_readable(t)
                &&& r matches Ok(u) ==> (component_unit_of(t, u))
                &&& r matches Err(e) ==> component_refusal(t, e)
            },
            !old(self).next_is(CssRule::COMPONENT_VALUE) ==> old(self).refused(
                final(self),
                CssRule::COMPONENT_VALUE,
                r,
            ),
    {
        let token = self.take(CssRule::COMPONENT_VALUE)?;
        Self::read_component(token)
    }

    /// Reads the unit that the first child of `token` spells.
    fn read_component(token: &'a CssToken<'a>) -> (r: CssResult<'a, Unit>)
        requires
            token.wf(),
        ensures
            r is Ok <==> component_readable(*token),
            r matches Ok(u) ==> component_unit_of(*token, u),
            r matches Err(e) ==> component_refusal(*token, e),
    {
        proof {
            lemma_children_wf(*token);
        }
        let mut value_expector = match CssTokenTracker::new(token) {
            Some(tracker) => tracker,
            None => {
                return Err(CssExpectError::MalformedToken(CssRule::COMPONENT_VALUE));
            },
        };
        let first = match value_expector.peek() {
            Some(first) => first,
            None => {
                return Err(CssExpectError::MalformedToken(CssRule::COMPONENT_VALUE));
            },
        };
        let rule = first.get_rule();
        if rule == CssRule::SIMPLE_BLOCK || rule == CssRule::FUNCTION_BLOCK {
            Err(CssExpectError::Unsupported(rule))
        } else if rule == CssRule::DIMENSION {
            Ok(Unit::Dimension(value_expector.expect_dimension()?))
        } else if rule == CssRule::NUMBER {
            Ok(Unit::Number(value_expector.expect_number()?))
        } else if rule == CssRule::IDENT {
            let ident = value_expector.expect_identifier()?;
            Ok(Unit::UnknownIdent(ident.to_string()))
        } else if rule == CssRule::STRING {
            let string = value_expector.expect_quoted_string()?;
            Ok(Unit::String(string.to_string()))
        } else if rule == CssRule::HASH {
            let hash = value_expector.expect_hash()?;
            Ok(Unit::Hash(crate::unit::Hash(hash.to_string())))
        } else if rule == CssRule::PERCENTAGE {
            Ok(Unit::Percentage(Percentage(value_expector.expect_percentage()?)))
        } else {
            Err(CssExpectError::MalformedToken(CssRule::COMPONENT_VALUE))
        }
    }

    /// Reads the units of the values of a declaration group, shorthand values left out.
    fn read_group(group: &'a CssToken<'a>) -> (r: CssResult<'a, Vec<Unit>>)
        requires
            group.wf(),
        ensures
            r is Ok <==> group_readable(group.children_seq()),
            r matches Ok(units) ==> group_units(group.children_seq(), units@),
            r matches Err(e) ==> group_refusal(group.children_seq(), e),
    {
        proof {
            lemma_children_wf(*group);
        }
        let ghost values_seq = group.children_seq();
        let mut units: Vec<Unit> = Vec::new();
        let values = match group.get_children() {
            Some(values) => values,
            None => {
                assert(values_seq.len() == 0);
                return Ok(units);
            },
        };
        let mut j: usize = 0;
        while j < values.len()
            invariant
                values@ == values_seq,
                values_seq == group.children_seq(),
                forall|i: int|
                    #![trigger values_seq[i]]
                    0 <= i < values_seq.len() ==> values_seq[i].wf(),
                j <= values@.len(),
                group_readable(values_seq.take(j as int)),
                group_units(values_seq.take(j as int), units@),
            decreases values@.len() - j,
        {
            let value = &values[j];
            let ghost prefix = values_seq.take(j as int + 1);
            assert(prefix.drop_last() =~= values_seq.take(j as int));
            assert(prefix.last() == values_seq[j as int]);
            if value.get_rule() != CssRule::DECLARATION_SHORTHAND {
                proof {
                    lemma_children_wf(*value);
                }
                let components = match value.get_children() {
                    Some(components) => components,
                    None => {
                        let error = CssExpectError::MalformedToken(CssRule::DECLARATION_VALUE);
                        proof {
                            lemma_group_refusal_at(values_seq, j as int, error);
                        }
                        return Err(error);
                    },
                };
                if components.len() == 0 {
                    let error = CssExpectError::MalformedToken(CssRule::DECLARATION_VALUE);
                    proof {
                        lemma_group_refusal_at(values_seq, j as int, error);
                    }
                    return Err(error);
                }
                let unit = match Self::read_component(&components[0]) {
                    Ok(unit) => unit,
                    Err(error) => {
                        proof {
                            lemma_group_refusal_at(values_seq, j as int, error);
                        }
                        return Err(error);
                    },
                };
                let ghost before = units@;
                units.push(unit);
                assert(units@.drop_last() =~= before);
            }
            j += 1;
        }
        assert(values_seq.take(j as int) =~= values_seq);
        Ok(units)
    }

    /// Reads a declaration of a property that has no reader of its own: the units of every group.
    fn read_unknown_property(name: String, declaration_groups_token: &'a CssToken<'a>) -> (r: CssResult<
        'a,
        Vec<CssStyleAttribute>,
    >)
        requires
            declaration_groups_token.wf(),
        ensures
            r is Ok <==> groups_readable(declaration_groups_token.children_seq()),
            r matches Err(e) ==> groups_refusal(declaration_groups_token.children_seq(), e),
            r matches Ok(attrs) ==> {
                let groups = declaration_groups_token.children_seq();
                &&& attrs@.len() == 1
                &&& attrs@[0] matches CssStyleAttribute::UnknownProperty(n, units)
                &&& n == name
                &&& units@.len() == groups.len()
                &&& forall|k: int|
                    #![trigger groups[k]]
                    0 <= k < groups.len() ==> group_units(groups[k].children_seq(), units@[k]@)
            },
    {
        proof {
            lemma_children_wf(*declaration_groups_token);
        }
        let ghost groups_seq = declaration_groups_token.children_seq();
        let mut prop_groups: Vec<Vec<Unit>> = Vec::new();
        match declaration_groups_token.get_children() {
            Some(groups) => {
                let mut i: usize = 0;
                while i < groups.len()
                    invariant
                        groups@ == groups_seq,
                        groups_seq == declaration_groups_token.children_seq(),
                        forall|k: int|
                            #![trigger groups_seq[k]]
                            0 <= k < groups_seq.len() ==> groups_seq[k].wf(),
                        i <= groups@.len(),
                        prop_groups@.len() == i,
                        forall|k: int|
                            #![trigger groups_seq[k]]
                            0 <= k < i ==> group_readable(groups_seq[k].children_seq())
                                && group_units(groups_seq[k].children_seq(), prop_groups@[k]@),
                    decreases groups@.len() - i,
                {
                    let group_units_read = match Self::read_group(&groups[i]) {
                        Ok(units) => units,
                        Err(error) => {
                            assert(!group_readable(groups_seq[i as int].children_seq()));
                            assert(!groups_readable(groups_seq));
                            assert(groups_readable(groups_seq.take(i as int))) by {
                                assert forall|k: int|
                                    #![trigger groups_seq.take(i as int)[k]]
                                    0 <= k < i implies group_readable(
                                    groups_seq.take(i as int)[k].children_seq(),
                                ) by {
                                    assert(groups_seq.take(i as int)[k] == groups_seq[k]);
                                }
                            }
                            return Err(error);
                        },
                    };
                    let ghost before = prop_groups@;
                    prop_groups.push(group_units_read);
                    assert forall|k: int|
                        #![trigger groups_seq[k]]
                        0 <= k < i + 1 implies group_readable(groups_seq[k].children_seq())
                        && group_units(groups_seq[k].children_seq(), prop_groups@[k]@) by {
                        if k < i {
                            assert(prop_groups@[k] == before[k]);
                        }
                    }
                    i += 1;
                }
            },
            None => {},
        }
        let mut attrs: Vec<CssStyleAttribute> = Vec::new();
        attrs.push(CssStyleAttribute::UnknownProperty(name, prop_groups));
        Ok(attrs)
    }

    /// Reads the value of the declaration of `attr_name`: one value for most properties, one to
    /// four sides for `padding` and `spacing`, and the units of every group for a property that has
    /// no reader; a property whose values are not read yet is refused.
    pub fn parse_style_attr(attr_name: SourceSlice<'a>, declaration_groups_token: &'a CssToken<'a>) -> (r:
        CssResult<'a, Vec<CssStyleAttribute>>)
        requires
            attr_name.wf(),
            declaration_groups_token.wf(),
        ensures
            style_attr_outcome(attr_name, *declaration_groups_token, r),
    {
        proof {
            reveal_strlit("color");
            assert("color"@ =~= seq!['c', 'o', 'l', 'o', 'r']);
            reveal_strlit("background-color");
            assert("background-color"@ =~= seq!['b', 'a', 'c', 'k', 'g', 'r', 'o', 'u', 'n', 'd', '-', 'c', 'o', 'l', 'o', 'r']);
            reveal_strlit("width");
            assert("width"@ =~= seq!['w', 'i', 'd', 't', 'h']);
            reveal_strlit("height");
            assert("height"@ =~= seq!['h', 'e', 'i', 'g', 'h', 't']);
            reveal_strlit("padding");
            assert("padding"@ =~= seq!['p', 'a', 'd', 'd', 'i', 'n', 'g']);
            reveal_strlit("spacing");
            assert("spacing"@ =~= seq!['s', 'p', 'a', 'c', 'i', 'n', 'g']);
            reveal_strlit("font-family");
            assert("font-family"@ =~= seq!['f', 'o', 'n', 't', '-', 'f', 'a', 'm', 'i', 'l', 'y']);
            reveal_strlit("font-size");
            assert("font-size"@ =~= seq!['f', 'o', 'n', 't', '-', 's', 'i', 'z', 'e']);
            reveal_strlit("font-shaping");
            assert("font-shaping"@ =~= seq!['f', 'o', 'n', 't', '-', 's', 'h', 'a', 'p', 'i', 'n', 'g']);
            reveal_strlit("line-height");
            assert("line-height"@ =~= seq!['l', 'i', 'n', 'e', '-', 'h', 'e', 'i', 'g', 'h', 't']);
            reveal_strlit("text-wrap");
            assert("text-wrap"@ =~= seq!['t', 'e', 'x', 't', '-', 'w', 'r', 'a', 'p']);
            reveal_strlit("max-width");
            assert("max-width"@ =~= seq!['m', 'a', 'x', '-', 'w', 'i', 'd', 't', 'h']);
            reveal_strlit("max-height");
            assert("max-height"@ =~= seq!['m', 'a', 'x', '-', 'h', 'e', 'i', 'g', 'h', 't']);
            reveal_strlit("justify-content");
            assert("justify-content"@ =~= seq!['j', 'u', 's', 't', 'i', 'f', 'y', '-', 'c', 'o', 'n', 't', 'e', 'n', 't']);
            reveal_strlit("vertical-align");
            assert("vertical-align"@ =~= seq!['v', 'e', 'r', 't', 'i', 'c', 'a', 'l', '-', 'a', 'l', 'i', 'g', 'n']);
            reveal_strlit("overflow-x");
            assert("overflow-x"@ =~= seq!['o', 'v', 'e', 'r', 'f', 'l', 'o', 'w', '-', 'x']);
            reveal_strlit("overflow-y");
            assert("overflow-y"@ =~= seq!['o', 'v', 'e', 'r', 'f', 'l', 'o', 'w', '-', 'y']);
            reveal_strlit("object-fit");
            assert("object-fit"@ =~= seq!['o', 'b', 'j', 'e', 'c', 't', '-', 'f', 'i', 't']);
            reveal_strlit("image-rendering");
            assert("image-rendering"@ =~= seq!['i', 'm', 'a', 'g', 'e', '-', 'r', 'e', 'n', 'd', 'e', 'r', 'i', 'n', 'g']);
            reveal_strlit("rotation");
            assert("rotation"@ =~= seq!['r', 'o', 't', 'a', 't', 'i', 'o', 'n']);
            reveal_strlit("opacity");
            assert("opacity"@ =~= seq!['o', 'p', 'a', 'c', 'i', 't', 'y']);
        }
        let name = attr_name.get();
        if str_eq(name, "color") {
            read_single::<types::CssColor>(declaration_groups_token)
        } else if str_eq(name, "background-color") {
            read_single::<types::CssBackgroundColor>(declaration_groups_token)
        } else if str_eq(name, "width") {
            read_single::<types::CssWidth>(declaration_groups_token)
        } else if str_eq(name, "height") {
            read_single::<types::CssHeight>(declaration_groups_token)
        } else if str_eq(name, "padding") {
            read_sides::<types::CssPadding>(declaration_groups_token)
        } else if str_eq(name, "spacing") {
            read_sides::<types::CssSpacing>(declaration_groups_token)
        } else if str_eq(name, "font-family") {
            Err(CssExpectError::InvalidStyleAttrName(attr_name))
        } else if str_eq(name, "font-size") {
            read_single::<types::CssFontSize>(declaration_groups_token)
        } else if str_eq(name, "font-shaping") {
            Err(CssExpectError::InvalidStyleAttrName(attr_name))
        } else if str_eq(name, "line-height") {
            read_single::<types::CssLineHeight>(declaration_groups_token)
        } else if str_eq(name, "text-wrap") {
            Err(CssExpectError::InvalidStyleAttrName(attr_name))
        } else if str_eq(name, "max-width") {
            read_single::<types::CssMaxWidth>(declaration_groups_token)
        } else if str_eq(name, "max-height") {
            read_single::<types::CssMaxHeight>(declaration_groups_token)
        } else if str_eq(name, "justify-content") {
            Err(CssExpectError::InvalidStyleAttrName(attr_name))
        } else if str_eq(name, "vertical-align") {
            read_single::<types::CssVerticalAlign>(declaration_groups_token)
        } else if str_eq(name, "overflow-x") {
            Err(CssExpectError::InvalidStyleAttrName(attr_name))
        } else if str_eq(name, "overflow-y") {
            Err(CssExpectError::InvalidStyleAttrName(attr_name))
        } else if str_eq(name, "object-fit") {
            Err(CssExpectError::InvalidStyleAttrName(attr_name))
        } else if str_eq(name, "image-rendering") {
            Err(CssExpectError::InvalidStyleAttrName(attr_name))
        } else if str_eq(name, "rotation") {
            Err(CssExpectError::InvalidStyleAttrName(attr_name))
        } else if str_eq(name, "opacity") {
            Err(CssExpectError::InvalidStyleAttrName(attr_name))
        } else {
            Self::read_unknown_property(attr_name.to_string(), declaration_groups_token)
        }
    }



    /// Finishes the qualified rule just taken, from what reading its selector gave, `selectors`,
    /// and from its declaration block `block`: each declaration gives the property its values set
    /// and whether it is marked important. Gives the rule's token back where its selector could
    /// not be made into selectors or a declaration's place holds another rule.
    #[verifier::loop_isolation(false)]
    pub fn finish_qualified_rule(
        &mut self,
        block: &'a CssToken<'a>,
        selectors: SelectorResult<Vec<SelectorNode>>,
    ) -> (r: CssResult<'a, (Vec<SelectorNode>, CssStyleProperties)>)
        requires
            old(self).wf(),
            1 <= old(self).index() <= old(self).tokens().len(),
            block.wf(),
        ensures
            old(self).same_tokens(final(self)),
            rule_outcome(*block, selectors, r),
            final(self).index() == old(self).index() - if rule_gives_back(*block, selectors) {
                1int
            } else {
                0int
            },
    {
        let selectors = match selectors {
            Ok(selectors) => selectors,
            Err(selector_err) => {
                if let SelectorExpectError::ParseError(_) = selector_err {
                    return Err(CssExpectError::InvalidSelector(selector_err));
                }
                return self.0.fail_because(CssExpectError::InvalidSelector(selector_err));
            },
        };
        let ghost ds = block.children_seq();
        proof {
            lemma_children_wf(*block);
        }
        let mut sheet = CssStyleProperties::new();
        if let Some(declarations) = block.get_children() {
            let mut i: usize = 0;
            while i < declarations.len()
                invariant
                    old(self).wf(),
                    1 <= old(self).index() <= old(self).tokens().len(),
                    *self == *old(self),
                    ds == block.children_seq(),
                    declarations@ == ds,
                    forall|k: int| 0 <= k < ds.len() ==> (#[trigger] ds[k]).wf(),
                    i <= ds.len(),
                    readable_declaration_run(ds, 0) == i + readable_declaration_run(ds, i as int),
                    sheet.0@.len() == i,
                    forall|k: int| 0 <= k < i ==> declaration_of(ds[k], #[trigger] sheet.0@[k]),
                decreases ds.len() - i,
            {
                let declaration_token = &declarations[i];
                let rule = declaration_token.get_rule();
                if rule != CssRule::DECLARATION {
                    assert(readable_declaration_run(ds, i as int) == 0);
                    return self.0.fail_because(CssExpectError::FailedExpectation(rule, CssRule::DECLARATION));
                }
                proof {
                    lemma_children_wf(*declaration_token);
                }
                let decl_components = match declaration_token.get_children() {
                    Some(decl_components) => decl_components,
                    None => {
                        assert(readable_declaration_run(ds, i as int) == 0);
                        return Err(CssExpectError::MalformedToken(CssRule::DECLARATION));
                    },
                };
                if decl_components.len() < 2 {
                    assert(readable_declaration_run(ds, i as int) == 0);
                    return Err(CssExpectError::MalformedToken(CssRule::DECLARATION));
                }
                let decl_name = decl_components[0].get_source();
                let ghost name_token = decl_components@[0];
                let ghost values_token = decl_components@[1];
                let decl_values = match Self::parse_style_attr(decl_name, &decl_components[1]) {
                    Ok(decl_values) => decl_values,
                    Err(error) => {
                        proof {
                            if exists|attrs: Vec<CssStyleAttribute>|
                                #[trigger] style_attr_outcome(name_token.spec_source(), values_token, Ok(attrs)) {
                                let attrs = choose|attrs: Vec<CssStyleAttribute>|
                                    #[trigger] style_attr_outcome(name_token.spec_source(), values_token, Ok(attrs));
                                lemma_style_attr_outcome_unique(name_token.spec_source(), values_token, Ok(attrs), Err(error));
                            }
                            assert(!declaration_readable(ds[i as int]));
                            assert(readable_declaration_run(ds, i as int) == 0);
                        }
                        return Err(error);
                    },
                };
                let ghost attrs = decl_values;
                let important = decl_components.len() > 2;
                let property = match CssStyleProperty::from_attribute_values(decl_values) {
                    Some(property) => property,
                    None => {
                        proof {
                            assert forall|other: Vec<CssStyleAttribute>|
                                #[trigger] style_attr_outcome(name_token.spec_source(), values_token, Ok(other))
                                    implies !values_make_property(other@) by {
                                lemma_style_attr_outcome_unique(name_token.spec_source(), values_token, Ok(attrs), Ok(other));
                            }
                            assert(!declaration_readable(ds[i as int]));
                            assert(readable_declaration_run(ds, i as int) == 0);
                        }
                        return Err(CssExpectError::InvalidStyleAttrName(decl_name));
                    },
                };
                proof {
                    assert(values_make_property(attrs@));
                    assert(declaration_readable(ds[i as int]));
                    assert(declaration_of(ds[i as int], (property, important)));
                }
                let ghost before = sheet.0@;
                sheet.push((property, important));
                proof {
                    assert forall|k: int| 0 <= k < i + 1 implies declaration_of(ds[k], #[trigger] sheet.0@[k]) by {
                        if k < i {
                            assert(sheet.0@[k] == before[k]);
                        }
                    }
                }
                i += 1;
            }
        }
        proof {
            assert(readable_declaration_run(ds, ds.len() as int) == 0);
        }
        Ok((selectors, sheet))
    }

    /// Takes a qualified rule: has `selector_parser` walk its selector's text, reads the
    /// selectors from that walk, then finishes the rule from them and its declaration block. A
    /// rule without a selector and a block is malformed and given back.
    pub fn expect_qualified_rule<P: SelectorParser>(&mut self, selector_parser: &P) -> (r: CssResult<
        'a,
        (Vec<SelectorNode>, CssStyleProperties),
    >)
        requires
            old(self).wf(),
        ensures
            old(self).next_is(CssRule::QUALIFIED_RULE) ==> {
                let t = old(self).next();
                let c = t.children_seq();
                &&& old(self).same_tokens(final(self))
                &&& c.len() < 2 ==> (final(self).index() == old(self).index() && (r matches Err(
                    CssExpectError::MalformedToken(rule),
                ) && rule == CssRule::QUALIFIED_RULE))
                &&& c.len() >= 2 ==> exists|
                    answer: Result<Vec<TokenEvent<SelectorRule>>, String>,
                    selectors: SelectorResult<Vec<SelectorNode>>,
                |
                    #[trigger] selectors_from_answer(
                        c[0].spec_text(),
                        c[0].spec_source().spec_text_bytes(),
                        answer,
                        selectors,
                    ) && #[trigger] rule_outcome(c[1], selectors, r) && final(self).index() == old(
                        self,
                    ).index() + 1 - if rule_gives_back(c[1], selectors) {
                        1int
                    } else {
                        0int
                    }
            },
            !old(self).next_is(CssRule::QUALIFIED_RULE) ==> old(self).refused(
                final(self),
                CssRule::QUALIFIED_RULE,
                r,
            ),
    {
        let token = self.take(CssRule::QUALIFIED_RULE)?;
        proof {
            lemma_children_wf(*token);
        }
        let components = match token.get_children() {
            Some(components) => components,
            None => {
                return self.fail_malformed(CssRule::QUALIFIED_RULE);
            },
        };
        if components.len() < 2 {
            return self.fail_malformed(CssRule::QUALIFIED_RULE);
        }
        let selector_text = components[0].get_source().get();
        let answer = selector_parser.selector_events(selector_text);
        let ghost given = answer;
        let selectors = match answer {
            Err(message) => Err(SelectorExpectError::ParseError(message)),
            Ok(events) => match SourceInfo::try_new(selector_text) {
                None => Err(SelectorExpectError::ParseError("the selector cannot be scanned".to_owned())),
                Some(selector_info) => {
                    let read = SelectorNode::from_source(&selector_info, &events);
                    proof {
                        assert(selectors_from_walk(&selector_info, events@, read));
                    }
                    read
                },
            },
        };
        let ghost sel = selectors;
        proof {
            assert(selectors_from_answer(
                components@[0].spec_text(),
                components@[0].spec_source().spec_text_bytes(),
                given,
                sel,
            ));
        }
        let r = self.finish_qualified_rule(&components[1], selectors);
        assert(rule_outcome(components@[1], sel, r));
        r
    }

    /// Takes a stylesheet and reads its rules in order: a qualified rule gives one style rule for
    /// each of its selectors, each with the rule's declarations; an at-rule is recorded under its
    /// name, in place of an earlier one of the same name.
    pub fn expect_stylesheet<P: SelectorParser>(&mut self, selector_parser: &P) -> (r: CssResult<'a, Stylesheet>)
        requires
            old(self).wf(),
        ensures
            old(self).next_is(CssRule::STYLESHEET) ==> {
                let rules = old(self).next().children_seq();
                &&& old(self).same_tokens(final(self))
                &&& r matches Ok(sheet) ==> {
                    &&& old(self).took_one(final(self))
                    &&& at_rule_names_unique(sheet.at_rules@)
                    &&& stylesheet_rules_readable(rules, rules.len() as int)
                    &&& at_rule_names(sheet.at_rules@) == recorded_at_rule_names(rules, rules.len() as int)
                    &&& stylesheet_style_rules(rules, sheet.style_rules@)
                }
                &&& r matches Err(e) ==> exists|q: int|
                    0 <= q < rules.len() && stylesheet_rules_readable(rules, q)
                        && #[trigger] stylesheet_rule_refusal(rules[q], e)
                &&& old(self).next().value is Leaf ==> (r matches Ok(sheet) && sheet.at_rules@.len()
                    == 0 && sheet.style_rules@.len() == 0)
            },
            !old(self).next_is(CssRule::STYLESHEET) ==> old(self).refused(
                final(self),
                CssRule::STYLESHEET,
                r,
            ),
    {
        let token = self.take(CssRule::STYLESHEET)?;
        let mut stylesheet = Stylesheet::new();
        let ghost rules = token.children_seq();
        let ghost mut reads: Seq<Seq<SelectorNode>> = seq![];
        let mut rule_expector = match CssTokenTracker::new(token) {
            Some(rule_expector) => rule_expector,
            None => {
                proof {
                    assert(at_rule_names(stylesheet.at_rules@) =~= Seq::<Seq<char>>::empty());
                    assert(style_rules_made(rules, reads, stylesheet.style_rules@));
                }
                return Ok(stylesheet);
            },
        };
        proof {
            assert(at_rule_names(stylesheet.at_rules@) =~= Seq::<Seq<char>>::empty());
        }
        while rule_expector.len() > 0
            invariant
                old(self).next_is(CssRule::STYLESHEET),
                old(self).took_one(self),
                old(self).next().value is Internal,
                rules == old(self).next().children_seq(),
                rule_expector.wf(),
                rule_expector.tokens() == rules,
                at_rule_names_unique(stylesheet.at_rules@),
                stylesheet_rules_readable(rules, rule_expector.index()),
                at_rule_names(stylesheet.at_rules@) == recorded_at_rule_names(rules, rule_expector.index()),
                reads.len() == rule_expector.index(),
                forall|q: int|
                    0 <= q < reads.len() && rules[q].rule == CssRule::QUALIFIED_RULE ==> rule_selectors_read(
                        rules[q],
                        #[trigger] reads[q],
                    ),
                style_rules_made(rules, reads, stylesheet.style_rules@),
            decreases rule_expector.tokens().len() - rule_expector.index(),
        {
            let ghost q = rule_expector.index();
            let rule = rule_expector.peek().unwrap().get_rule();
            if rule == CssRule::QUALIFIED_RULE {
                let (selectors, properties) = match rule_expector.expect_qualified_rule(selector_parser) {
                    Ok(read) => read,
                    Err(error) => {
                        assert(stylesheet_rule_refusal(rules[q], error));
                        return Err(error);
                    },
                };
                let ghost sels = selectors@;
                proof {
                    let t = rules[q];
                    let c = t.children_seq();
                    assert(c.len() >= 2);
                    assert(rule_declarations_of(t, properties.0@));
                    assert(rule_selectors_read(t, sels));
                }
                let mut selectors = selectors;
                let mut rules_for_selectors: Vec<(SelectorNode, CssStyleProperties)> = Vec::new();
                while selectors.len() > 0
                    invariant
                        rule_declarations_of(rules[q], properties.0@),
                        rules_for_selectors@.len() + selectors@.len() == sels.len(),
                        forall|i: int|
                            0 <= i < rules_for_selectors@.len() ==> (#[trigger] rules_for_selectors@[i]).0
                                == sels[i] && declarations_eq(properties.0@, rules_for_selectors@[i].1.0@),
                        forall|i: int|
                            0 <= i < selectors@.len() ==> #[trigger] selectors@[i] == sels[rules_for_selectors@.len()
                                + i],
                    decreases selectors@.len(),
                {
                    let ghost before_sel = selectors@;
                    let selector = selectors.remove(0);
                    let copied = properties.clone();
                    let ghost before = rules_for_selectors@;
                    rules_for_selectors.push((selector, copied));
                    proof {
                        assert(selector == sels[before.len() as int]);
                        assert forall|i: int| 0 <= i < rules_for_selectors@.len() implies (
                        #[trigger] rules_for_selectors@[i]).0 == sels[i] && declarations_eq(
                            properties.0@,
                            rules_for_selectors@[i].1.0@,
                        ) by {
                            if i < before.len() {
                                assert(rules_for_selectors@[i] == before[i]);
                            }
                        }
                        assert forall|i: int| 0 <= i < selectors@.len() implies #[trigger] selectors@[i]
                            == sels[rules_for_selectors@.len() + i] by {
                            assert(selectors@[i] == before_sel[i + 1]);
                        }
                    }
                }
                let ghost old_rules = stylesheet.style_rules@;
                let ghost moved = rules_for_selectors@;
                stylesheet.style_rules.append(&mut rules_for_selectors);
                proof {
                    let added = stylesheet.style_rules@;
                    let new_reads = reads.push(sels);
                    let m = old_rules.len() as int;
                    assert(new_reads.drop_last() =~= reads);
                    assert(added.take(m) =~= old_rules);
                    assert(added.skip(m) =~= moved);
                    assert forall|i: int| 0 <= i < sels.len() implies (#[trigger] added.skip(m)[i]).0 == sels[i]
                        && declarations_of_rule(rules[q], added.skip(m)[i].1.0@) by {
                        assert(added.skip(m)[i] == moved[i]);
                        assert(rule_declarations_of(rules[q], properties.0@));
                    }
                    assert(style_rules_made(rules, new_reads, added));
                    assert forall|q2: int|
                        0 <= q2 < new_reads.len() && rules[q2].rule == CssRule::QUALIFIED_RULE implies rule_selectors_read(
                        rules[q2],
                        #[trigger] new_reads[q2],
                    ) by {
                        if q2 < reads.len() {
                            assert(new_reads[q2] == reads[q2]);
                        }
                    }
                    reads = new_reads;
                    assert(recorded_at_rule_names(rules, q + 1) == recorded_at_rule_names(rules, q));
                }
            } else if rule == CssRule::AT_RULE {
                let at_rule = match rule_expector.expect_at_rule() {
                    Ok(at_rule) => at_rule,
                    Err(error) => {
                        assert(stylesheet_rule_refusal(rules[q], error));
                        return Err(error);
                    },
                };
                let ghost old_at = stylesheet.at_rules@;
                stylesheet.insert_at_rule(at_rule);
                proof {
                    let new_reads = reads.push(Seq::<SelectorNode>::empty());
                    assert(new_reads.drop_last() =~= reads);
                    assert(style_rules_made(rules, new_reads, stylesheet.style_rules@));
                    assert forall|q2: int|
                        0 <= q2 < new_reads.len() && rules[q2].rule == CssRule::QUALIFIED_RULE implies rule_selectors_read(
                        rules[q2],
                        #[trigger] new_reads[q2],
                    ) by {
                        if q2 < reads.len() {
                            assert(new_reads[q2] == reads[q2]);
                        }
                    }
                    reads = new_reads;
                    let name = at_rule.name@;
                    let names = at_rule_names(old_at);
                    let new_at = stylesheet.at_rules@;
                    assert(name == at_rule_name(rules[q]));
                    if exists|i: int| 0 <= i < old_at.len() && old_at[i].name@ == name {
                        let p = choose|i: int| 0 <= i < old_at.len() && old_at[i].name@ == name;
                        assert(names[p] == name);
                        assert(names.contains(name));
                        assert forall|i: int| 0 <= i < new_at.len() implies #[trigger] new_at[i].name@ == names[i] by {
                            if old_at[i].name@ != name {
                                assert(new_at[i] == old_at[i]);
                            } else {
                                assert(i == p);
                                let w = choose|w: int| 0 <= w < new_at.len() && new_at[w] == at_rule;
                                if w != p {
                                    assert(old_at[w].name@ != name);
                                    assert(new_at[w] == old_at[w]);
                                }
                            }
                        }
                        assert(at_rule_names(new_at) =~= names);
                    } else {
                        assert(!names.contains(name)) by {
                            if names.contains(name) {
                                let i = choose|i: int| 0 <= i < names.len() && names[i] == name;
                                assert(old_at[i].name@ == name);
                            }
                        }
                        assert(at_rule_names(new_at) =~= names.push(name));
                    }
                }
            } else {
                assert(stylesheet_rule_refusal(rules[q], CssExpectError::FailedExpectation(rule, CssRule::QUALIFIED_RULE)));
                return Err(CssExpectError::FailedExpectation(rule, CssRule::QUALIFIED_RULE));
            }
        }
        proof {
            assert(stylesheet_style_rules(rules, stylesheet.style_rules@));
        }
        Ok(stylesheet)
    }


    /// Reads a stylesheet from the parse tree `css_token` of the stylesheet grammar's top rule,
    /// whose first child is the stylesheet.
    pub fn read_stylesheet<P: SelectorParser>(css_token: &'a CssToken<'a>, selector_parser: &P) -> (r:
        CssResult<'a, Stylesheet>)
        requires
            css_token.wf(),
        ensures
            css_token.value is Leaf ==> r matches Err(CssExpectError::MalformedToken(CssRule::CSS)),
            css_token.value is Internal && css_token.children_seq().len() == 0 ==> (r matches Err(
                CssExpectError::TooFewTokens(s),
            ) && s@ == "STYLESHEET"@),
            css_token.children_seq().len() > 0 && css_token.children_seq()[0].rule
                != CssRule::STYLESHEET ==> (r matches Err(CssExpectError::FailedExpectation(found, e))
                && found == css_token.children_seq()[0].rule && e == CssRule::STYLESHEET),
            r matches Ok(sheet) ==> {
                let rules = css_token.children_seq()[0].children_seq();
                &&& at_rule_names_unique(sheet.at_rules@)
                &&& stylesheet_rules_readable(rules, rules.len() as int)
                &&& at_rule_names(sheet.at_rules@) == recorded_at_rule_names(rules, rules.len() as int)
                &&& stylesheet_style_rules(rules, sheet.style_rules@)
            },
            css_token.children_seq().len() > 0 && css_token.children_seq()[0].rule == CssRule::STYLESHEET
                ==> (r matches Err(e) ==> {
                let rules = css_token.children_seq()[0].children_seq();
                exists|q: int|
                    0 <= q < rules.len() && stylesheet_rules_readable(rules, q)
                        && #[trigger] stylesheet_rule_refusal(rules[q], e)
            }),
            css_token.children_seq().len() > 0 && css_token.children_seq()[0].rule == CssRule::STYLESHEET
                && css_token.children_seq()[0].value is Leaf ==> (r matches Ok(sheet)
                && sheet.at_rules@.len() == 0 && sheet.style_rules@.len() == 0),
    {
        let mut expector = match CssTokenTracker::new(css_token) {
            Some(expector) => expector,
            None => {
                return Err(CssExpectError::MalformedToken(CssRule::CSS));
            },
        };
        proof {
            reveal_strlit("STYLESHEET");
        }
        expector.expect_stylesheet(selector_parser)
    }


    /// Reads the value of an at-rule's declaration named `attr_name`; no at-rule declaration has a
    /// reader yet, so every name is refused.
    pub fn parse_at_rule_attr(
        &self,
        attr_name: SourceSlice<'a>,
        component_value_list: &'a CssToken<'a>,
    ) -> (r: CssResult<'a, Vec<CssStyleAttribute>>)
        ensures
            r matches Err(CssExpectError::InvalidAtRuleName(s)) && s == attr_name,
    {
        Err(CssExpectError::InvalidAtRuleName(attr_name))
    }

    /// Reads component values until one cannot be read; returns the units read.
    fn read_component_run(&mut self) -> (r: Vec<Unit>)
        requires
            old(self).wf(),
        ensures
            component_run(old(self).tokens().skip(old(self).index()), r@),
    {
        let ghost start = self.index();
        let ghost rest = self.tokens().skip(start);
        let mut units: Vec<Unit> = Vec::new();
        loop
            invariant_except_break
                self.wf(),
                self.tokens() == old(self).tokens(),
                start == old(self).index(),
                rest == self.tokens().skip(start),
                self.index() == start + units@.len(),
                component_prefix(rest, units@),
            ensures
                component_run(rest, units@),
            decreases self.tokens().len() - self.index(),
        {
            let ghost before = *self;
            let result = self.expect_component_value();
            match result {
                Ok(unit) => {
                    proof {
                        assert(rest[units@.len() as int] == before.next());
                        lemma_component_prefix_push(rest, units@, unit);
                    }
                    units.push(unit);
                },
                Err(_) => {
                    proof {
                        if units@.len() < rest.len() {
                            assert(rest[units@.len() as int] == before.next());
                        }
                    }
                    break;
                },
            }
        }
        units
    }

    /// Takes a list of component values and reads the run of them that can be read.
    pub fn expect_component_values(&mut self) -> (r: CssResult<'a, Vec<Unit>>)
        requires
            old(self).wf(),
        ensures
            old(self).next_is(CssRule::COMPONENT_VALUE_LIST) ==> old(self).took_one(final(self))
                && (r matches Ok(units) && component_run(old(self).next().children_seq(), units@)),
            !old(self).next_is(CssRule::COMPONENT_VALUE_LIST) ==> old(self).refused(
                final(self),
                CssRule::COMPONENT_VALUE_LIST,
                r,
            ),
    {
        let token = self.take(CssRule::COMPONENT_VALUE_LIST)?;
        match CssTokenTracker::new(token) {
            Some(mut values_expector) => {
                let ghost children = values_expector.tokens();
                let units = values_expector.read_component_run();
                assert(children.skip(0) =~= children);
                assert(children == token.children_seq());
                assert(component_run(token.children_seq(), units@));
                Ok(units)
            },
            None => {
                let units: Vec<Unit> = Vec::new();
                assert(component_run(token.children_seq(), units@));
                Ok(units)
            },
        }
    }

    /// Takes an at-rule and returns it with the name its first child starts with.
    pub fn expect_at_rule(&mut self) -> (r: CssResult<'a, AtRule>)
        requires
            old(self).wf(),
        ensures
            old(self).next_is(CssRule::AT_RULE) ==> {
                let t = old(self).next();
                &&& old(self).same_tokens(final(self))
                &&& r is Ok <==> at_rule_readable(t)
                &&& r matches Ok(a) ==> (old(self).took_one(final(self)) && a.name@
                    == t.children_seq()[0].children_seq()[0].spec_text())
                &&& r is Err ==> (final(self).index() == old(self).index() && r matches Err(
                    CssExpectError::MalformedToken(CssRule::AT_RULE),
                ))
            },
            !old(self).next_is(CssRule::AT_RULE) ==> old(self).refused(
                final(self),
                CssRule::AT_RULE,
                r,
            ),
    {
        let token = self.take(CssRule::AT_RULE)?;
        proof {
            lemma_children_wf(*token);
        }
        let children = match token.get_children() {
            Some(children) => children,
            None => {
                return self.fail_malformed(CssRule::AT_RULE);
            },
        };
        if children.len() == 0 {
            return self.fail_malformed(CssRule::AT_RULE);
        }
        let head = &children[0];
        proof {
            lemma_children_wf(*head);
        }
        let name_tokens = match head.get_children() {
            Some(name_tokens) => name_tokens,
            None => {
                return self.fail_malformed(CssRule::AT_RULE);
            },
        };
        if name_tokens.len() == 0 {
            return self.fail_malformed(CssRule::AT_RULE);
        }
        let name = name_tokens[0].get_source();
        Ok(AtRule { name: name.to_string() })
    }

    /// Takes a function block and returns the function's name and the parameters that can be read.
    pub fn expect_function_block(&mut self) -> (r: CssResult<'a, (SourceSlice<'a>, Vec<Unit>)>)
        requires
            old(self).wf(),
        ensures
            old(self).next_is(CssRule::FUNCTION_BLOCK) ==> {
                let t = old(self).next();
                &&& old(self).same_tokens(final(self))
                &&& r is Ok <==> function_block_readable(t)
                &&& r matches Ok((name, params)) ==> (old(self).took_one(final(self))
                    && function_block_of(t, name, params@))
                &&& r is Err ==> final(self).index() == old(self).index() + if t.value is Internal {
                    1int
                } else {
                    0int
                }
                &&& r matches Err(e) ==> function_block_refusal(t, e)
            },
            !old(self).next_is(CssRule::FUNCTION_BLOCK) ==> old(self).refused(
                final(self),
                CssRule::FUNCTION_BLOCK,
                r,
            ),
            r matches Ok((name, _)) ==> name.wf() && name.coherent(),
    {
        let token = self.take(CssRule::FUNCTION_BLOCK)?;
        proof {
            lemma_children_wf(*token);
        }
        let mut function_expector = match CssTokenTracker::new(token) {
            Some(tracker) => tracker,
            None => {
                return self.fail_malformed(CssRule::FUNCTION_BLOCK);
            },
        };
        let name = function_expector.expect_function()?;
        let params = function_expector.read_component_run();
        Ok((name, params))
    }
}

} // verus!
