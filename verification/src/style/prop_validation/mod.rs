//! The values that declarations accept, and how a value is read from its tokens.
pub mod color;
pub mod font;
pub mod image_rendering;
pub mod justify_content;
pub mod line_height;
pub mod max_size;
pub mod object_fit;
pub mod opacity;
pub mod overflow;
pub mod padding;
pub mod position_horizontal;
pub mod position_vertical;
pub mod size;
pub mod spacing;
pub mod types;
pub mod vertical_align;
pub mod word_break;

use vstd::prelude::*;
use crate::rules::CssRule;
use crate::syntax::{
    component_run, dimension_of, dimension_readable, function_block_readable, trimmed_text,
    trims_to_text, CssToken, CssTokenTracker,
};
use crate::text::{concat_spec, concat_texts};
use vstd::string::StringExecFns;
use crate::unit::{clone_unit, lemma_same_units_print_alike, lemma_unit_eq_refl, unit_css, unit_eq, CssNumber, Percentage, Unit};
use types::KeywordGlobal;

verus! {

/// The token kinds a property value may be written with, as a set of flags.
#[derive(Debug, Clone, Copy, PartialEq, Eq, Structural)]
pub struct TokenExpected {
    pub bits: u8,
}

#[allow(non_snake_case)]
impl TokenExpected {
    /// An identifier token.
    pub fn Ident() -> (r: TokenExpected)
        ensures
            r.bits == 1,
    {
        TokenExpected { bits: 1 }
    }
    /// A hash token.
    pub fn Hash() -> (r: TokenExpected)
        ensures
            r.bits == 2,
    {
        TokenExpected { bits: 2 }
    }
    /// A quoted string token.
    pub fn QuotedString() -> (r: TokenExpected)
        ensures
            r.bits == 4,
    {
        TokenExpected { bits: 4 }
    }
    /// An unquoted `url(...)` token.
    pub fn UnquotedUrl() -> (r: TokenExpected)
        ensures
            r.bits == 8,
    {
        TokenExpected { bits: 8 }
    }
    /// A number token.
    pub fn Number() -> (r: TokenExpected)
        ensures
            r.bits == 16,
    {
        TokenExpected { bits: 16 }
    }
    /// A percentage token.
    pub fn Percentage() -> (r: TokenExpected)
        ensures
            r.bits == 32,
    {
        TokenExpected { bits: 32 }
    }
    /// A dimension token.
    pub fn Dimension() -> (r: TokenExpected)
        ensures
            r.bits == 64,
    {
        TokenExpected { bits: 64 }
    }
    /// A function token.
    pub fn Function() -> (r: TokenExpected)
        ensures
            r.bits == 128,
    {
        TokenExpected { bits: 128 }
    }
}

impl TokenExpected {
    /// No flag at all.
    pub fn none() -> (r: TokenExpected)
        ensures
            r.bits == 0,
    {
        TokenExpected { bits: 0 }
    }

    /// The flags of both sets.
    pub fn or(self, other: TokenExpected) -> (r: TokenExpected)
        ensures
            r.bits == self.bits | other.bits,
    {
        TokenExpected { bits: self.bits | other.bits }
    }

    /// The flags common to both sets.
    pub fn and(self, other: TokenExpected) -> (r: TokenExpected)
        ensures
            r.bits == self.bits & other.bits,
    {
        TokenExpected { bits: self.bits & other.bits }
    }

    /// The raw flags.
    pub fn bits(&self) -> (r: u8)
        ensures
            r == self.bits,
    {
        self.bits
    }

    /// Whether the two sets share a flag.
    pub fn intersects(&self, other: &TokenExpected) -> (r: bool)
        ensures
            r == (self.bits & other.bits != 0),
    {
        self.bits & other.bits != 0
    }

    /// Whether every flag of `other` is in `self`.
    pub fn contains(&self, other: &TokenExpected) -> (r: bool)
        ensures
            r == (self.bits & other.bits == other.bits),
    {
        self.bits & other.bits == other.bits
    }

    /// Whether no flag is set.
    pub fn is_none(&self) -> (r: bool)
        ensures
            r == (self.bits == 0),
    {
        self.bits == 0
    }
}

/// Sharing a flag does not depend on the order of the two sets.
pub proof fn lemma_intersects_symmetric(a: TokenExpected, b: TokenExpected)
    ensures
        (a.bits & b.bits != 0) == (b.bits & a.bits != 0),
{
    let (x, y) = (a.bits, b.bits);
    assert((x & y != 0) == (y & x != 0)) by (bit_vector);
}

/// A union shares a flag with a set exactly when one of its parts does.
pub proof fn lemma_intersects_or(a: TokenExpected, b: TokenExpected, c: TokenExpected)
    ensures
        ((a.bits | b.bits) & c.bits != 0) == ((a.bits & c.bits != 0) || (b.bits & c.bits != 0)),
{
    let (x, y, z) = (a.bits, b.bits, c.bits);
    assert(((x | y) & z != 0) == ((x & z != 0) || (y & z != 0))) by (bit_vector);
}

/// A union contains each of its parts.
pub proof fn lemma_or_contains(a: TokenExpected, b: TokenExpected)
    ensures
        (a.bits | b.bits) & a.bits == a.bits,
        (a.bits | b.bits) & b.bits == b.bits,
{
    let (x, y) = (a.bits, b.bits);
    assert((x | y) & x == x) by (bit_vector);
    assert((x | y) & y == y) by (bit_vector);
}

/// A keyword was not recognised.
#[derive(Debug, Clone, Copy, PartialEq, Eq, Structural)]
pub struct KeywordParseError;

/// A set of keywords, each with its CSS spelling.
pub trait CssKeyword: Sized + Copy {
    /// The keyword that `s` spells, if any.
    spec fn spec_from_name(s: Seq<char>) -> Option<Self>;

    /// The CSS spelling of the keyword.
    spec fn spec_name(&self) -> Seq<char>;

    /// Reads the keyword spelled exactly `s`.
    fn from_str(s: &str) -> (r: Result<Self, KeywordParseError>)
        ensures
            r matches Ok(k) ==> Self::spec_from_name(s@) == Some(k),
            r is Err ==> Self::spec_from_name(s@) is None,
    ;

    /// The CSS spelling of the keyword.
    fn as_str(&self) -> (r: &'static str)
        ensures
            r@ == self.spec_name(),
    ;
}

/// A property that has no keywords of its own.
#[derive(Debug, Clone, Copy, PartialEq, Eq, Structural)]
pub struct KeywordNone;

impl CssKeyword for KeywordNone {
    open spec fn spec_from_name(s: Seq<char>) -> Option<Self> {
        None
    }

    open spec fn spec_name(&self) -> Seq<char> {
        Seq::empty()
    }

    fn from_str(s: &str) -> (r: Result<Self, KeywordParseError>) {
        Err(KeywordParseError)
    }

    fn as_str(&self) -> (r: &'static str) {
        proof {
            reveal_strlit("");
        }
        ""
    }
}

/// The value type of a property: which tokens it may be written with, and its keywords.
pub trait CssValue: Sized {
    /// The keywords the property accepts.
    type Keyword: CssKeyword;

    /// The name of the value type, used in error messages.
    spec fn spec_css_type_name() -> Seq<char>;

    /// The token kinds the value may be written with.
    spec fn spec_type_token() -> TokenExpected;

    /// The unit the value holds.
    spec fn spec_unit(&self) -> Unit;

    /// The name of the value type, used in error messages.
    fn css_type_name() -> (r: &'static str)
        ensures
            r@ == Self::spec_css_type_name(),
    ;

    /// The token kinds the value may be written with.
    fn type_token() -> (r: TokenExpected)
        ensures
            r == Self::spec_type_token(),
    ;

    /// Wraps a unit.
    fn from_unit(unit: Unit) -> (r: Self)
        ensures
            r.spec_unit() == unit,
    ;

    /// Unwraps the unit.
    fn into_unit(self) -> (r: Unit)
        ensures
            r == self.spec_unit(),
    ;
}

/// Where a failed attempt to read a value at `idx` among `tokens` leaves the reading: past a
/// function block with children, which is taken before its function is read, else where it was.
pub open spec fn index_after_failure<'a>(tokens: Seq<CssToken<'a>>, idx: int) -> int {
    if 0 <= idx < tokens.len() && tokens[idx].rule == CssRule::FUNCTION_BLOCK && tokens[idx].value is Internal {
        idx + 1
    } else {
        idx
    }
}

/// Reads a value of type `T` from the next token of `tracker`: a keyword of the type, a
/// global keyword or an unknown identifier, a string, a url, a number, a percentage, a hash
/// or a dimension, as far as the type accepts that token kind; else a function block.
/// On failure, a message that names the type and the token.
pub fn parse<'a, T: CssValue>(tracker: &mut CssTokenTracker<'a>) -> (r: Result<CssAttributeValue<T>, String>)
    requires
        old(tracker).wf(),
    ensures
        old(tracker).same_tokens(final(tracker)),
        old(tracker).index() < old(tracker).tokens().len() ==> (r is Ok <==> value_readable(
            T::spec_type_token().bits,
            old(tracker).next(),
        )),
        old(tracker).index() >= old(tracker).tokens().len() ==> r is Err && final(tracker).index()
            == old(tracker).index(),
        r matches Ok(v) ==> old(tracker).took_one(final(tracker)) && value_of::<T>(
            T::spec_type_token().bits,
            old(tracker).next(),
            v,
        ),
        r is Err ==> final(tracker).index() == index_after_failure(old(tracker).tokens(), old(tracker).index()),
        r matches Err(message) ==> message@ == failure_message(
            T::spec_css_type_name(),
            old(tracker).tokens(),
            final(tracker).index(),
        ),
{
    let valid_tokens = T::type_token();
    if valid_tokens.intersects(&TokenExpected::Ident()) {
        if let Ok(ident) = tracker.expect_identifier() {
            let text = ident.get();
            if let Ok(keyword) = T::Keyword::from_str(text) {
                return Ok(CssAttributeValue::Keyword(keyword));
            }
            if let Ok(global) = KeywordGlobal::from_str(text) {
                return Ok(CssAttributeValue::Global(global));
            }
            return Ok(CssAttributeValue::Value(Unit::UnknownIdent(ident.to_string())));
        }
    }
    if valid_tokens.intersects(&TokenExpected::QuotedString()) {
        if let Ok(string) = tracker.expect_quoted_string() {
            return Ok(CssAttributeValue::Value(Unit::String(string.to_string())));
        }
    }
    if valid_tokens.intersects(&TokenExpected::UnquotedUrl()) {
        if let Ok(url) = tracker.expect_url() {
            return Ok(CssAttributeValue::Value(Unit::String(url.to_string())));
        }
    }
    if valid_tokens.intersects(&TokenExpected::Number()) {
        if let Ok(number) = tracker.expect_number() {
            return Ok(CssAttributeValue::Value(Unit::Number(number)));
        }
    }
    if valid_tokens.intersects(&TokenExpected::Percentage()) {
        if let Ok(percent) = tracker.expect_percentage() {
            return Ok(CssAttributeValue::Value(Unit::Percentage(Percentage(percent))));
        }
    }
    if valid_tokens.intersects(&TokenExpected::Hash()) {
        if let Ok(hash) = tracker.expect_hash() {
            return Ok(CssAttributeValue::Value(Unit::Hash(crate::unit::Hash(hash.to_string()))));
        }
    }
    if valid_tokens.intersects(&TokenExpected::Dimension()) {
        if let Ok(dimension) = tracker.expect_dimension() {
            return Ok(CssAttributeValue::Value(Unit::Dimension(dimension)));
        }
    }
    if let Ok((name, params)) = tracker.expect_function_block() {
        return Ok(
            CssAttributeValue::Value(
                Unit::Function {
                    name: name.to_string(),
                    required_return_type: valid_tokens,
                    params,
                },
            ),
        );
    }
    Err(describe_failure(T::css_type_name(), tracker))
}

/// The message for a value of type `value_type` that could not be read at the token at `idx`
/// among `tokens`: it names the type, the token's text and the token's rule, or says that no
/// token is left.
pub open spec fn failure_message<'a>(value_type: Seq<char>, tokens: Seq<CssToken<'a>>, idx: int) -> Seq<char> {
    if 0 <= idx < tokens.len() {
        "Failed to parse CssValue of type '"@ + value_type + "' from '"@ + tokens[idx].spec_text()
            + "'; current token's type: "@ + tokens[idx].rule.spec_name()
    } else {
        "Failed to parse CssValue of type '"@ + value_type + "': no token is left"@
    }
}

/// The message for a value of type `value_type` that could not be read at the next token.
fn describe_failure<'a>(value_type: &str, tracker: &CssTokenTracker<'a>) -> (r: String)
    requires
        tracker.wf(),
    ensures
        r@ == failure_message(value_type@, tracker.tokens(), tracker.index()),
{
    match tracker.peek() {
        Some(token) => {
            let source = token.get_source();
            let parts: [&str; 6] = [
                "Failed to parse CssValue of type '",
                value_type,
                "' from '",
                source.get(),
                "'; current token's type: ",
                token.get_rule().name(),
            ];
            let r = concat_texts(&parts);
            proof {
                let texts = parts@.map_values(|p: &str| p@);
                reveal_with_fuel(concat_spec, 7);
                assert(texts =~= seq![
                    "Failed to parse CssValue of type '"@,
                    value_type@,
                    "' from '"@,
                    token.spec_text(),
                    "'; current token's type: "@,
                    token.rule.spec_name(),
                ]);
                assert(texts.drop_last().drop_last().drop_last().drop_last().drop_last().drop_last()
                    =~= Seq::<Seq<char>>::empty());
            }
            r
        },
        None => {
            let parts: [&str; 3] = ["Failed to parse CssValue of type '", value_type, "': no token is left"];
            let r = concat_texts(&parts);
            proof {
                let texts = parts@.map_values(|p: &str| p@);
                reveal_with_fuel(concat_spec, 4);
                assert(texts =~= seq![
                    "Failed to parse CssValue of type '"@,
                    value_type@,
                    "': no token is left"@,
                ]);
                assert(texts.drop_last().drop_last().drop_last() =~= Seq::<Seq<char>>::empty());
            }
            r
        },
    }
}

/// The next token `t` can be read as a value that may be written with the token kinds `flags`.
pub open spec fn value_readable<'a>(flags: u8, t: CssToken<'a>) -> bool {
    ||| flags & 1u8 != 0 && t.rule == CssRule::IDENT
    ||| flags & 4u8 != 0 && t.rule == CssRule::STRING && trims_to_text(t, 1, 1)
    ||| flags & 8u8 != 0 && t.rule == CssRule::URL && t.children_seq().len() > 0
    ||| flags & 16u8 != 0 && t.rule == CssRule::NUMBER
    ||| flags & 32u8 != 0 && t.rule == CssRule::PERCENTAGE && trims_to_text(t, 0, 1)
    ||| flags & 2u8 != 0 && t.rule == CssRule::HASH && trims_to_text(t, 1, 0)
    ||| flags & 64u8 != 0 && t.rule == CssRule::DIMENSION && dimension_readable(t)
    ||| t.rule == CssRule::FUNCTION_BLOCK && function_block_readable(t)
}

/// `v` is the value that the readable token `t` spells for a type written with `flags`.
pub open spec fn value_of<'a, T: CssValue>(flags: u8, t: CssToken<'a>, v: CssAttributeValue<T>) -> bool {
    let text = t.spec_text();
    if t.rule == CssRule::IDENT {
        match T::Keyword::spec_from_name(text) {
            Some(k) => v == CssAttributeValue::<T>::Keyword(k),
            None => match KeywordGlobal::spec_from_name(text) {
                Some(g) => v == CssAttributeValue::<T>::Global(g),
                None => v matches CssAttributeValue::Value(Unit::UnknownIdent(s)) && s@ == text,
            },
        }
    } else if t.rule == CssRule::STRING {
        v matches CssAttributeValue::Value(Unit::String(s)) && s@ == trimmed_text(t, 1, 1)
    } else if t.rule == CssRule::URL {
        v matches CssAttributeValue::Value(Unit::String(s)) && s@ == t.children_seq()[0].spec_text()
    } else if t.rule == CssRule::NUMBER {
        v matches CssAttributeValue::Value(Unit::Number(n)) && n.text@ == text
    } else if t.rule == CssRule::PERCENTAGE {
        v matches CssAttributeValue::Value(Unit::Percentage(p)) && p.0.text@ == trimmed_text(t, 0, 1)
    } else if t.rule == CssRule::HASH {
        v matches CssAttributeValue::Value(Unit::Hash(h)) && h.0@ == trimmed_text(t, 1, 0)
    } else if t.rule == CssRule::DIMENSION {
        v matches CssAttributeValue::Value(Unit::Dimension(d)) && dimension_of(t, d)
    } else {
        v matches CssAttributeValue::Value(Unit::Function { name, required_return_type, params })
            && name@ == t.children_seq()[0].children_seq()[0].spec_text()
            && required_return_type.bits == flags && component_run(t.children_seq().skip(1), params@)
    }
}

/// A property value: a unit, one of the property's keywords, or a global keyword.
#[derive(Debug)]
pub enum CssAttributeValue<T: CssValue> {
    Value(Unit),
    Keyword(T::Keyword),
    Global(KeywordGlobal),
}

/// `a` and `b` are the same property value (units compared with `unit_eq`).
pub open spec fn attr_value_eq<T: CssValue>(a: CssAttributeValue<T>, b: CssAttributeValue<T>) -> bool {
    match a {
        CssAttributeValue::Value(u) => b matches CssAttributeValue::Value(u2) && unit_eq(u, u2),
        _ => a == b,
    }
}

/// Every property value is the same as itself.
pub proof fn lemma_attr_value_eq_refl<T: CssValue>(a: CssAttributeValue<T>)
    ensures
        attr_value_eq(a, a),
{
    if let CssAttributeValue::Value(u) = a {
        lemma_unit_eq_refl(u);
    }
}

impl<T: CssValue> Clone for CssAttributeValue<T> {
    fn clone(&self) -> (r: Self)
        ensures
            attr_value_eq(*self, r),
    {
        match self {
            CssAttributeValue::Value(unit) => CssAttributeValue::Value(clone_unit(unit)),
            CssAttributeValue::Keyword(keyword) => CssAttributeValue::Keyword(*keyword),
            CssAttributeValue::Global(global) => CssAttributeValue::Global(*global),
        }
    }
}


/// A declaration's value, tagged with the property it belongs to.
#[derive(Debug)]
pub enum CssStyleAttribute {
    Color(CssAttributeValue<types::CssColor>),
    BackgroundColor(CssAttributeValue<types::CssBackgroundColor>),
    Width(CssAttributeValue<types::CssWidth>),
    Height(CssAttributeValue<types::CssHeight>),
    Padding(CssAttributeValue<types::CssPadding>),
    Spacing(CssAttributeValue<types::CssSpacing>),
    FontFamily(CssAttributeValue<types::CssFontFamily>),
    FontSize(CssAttributeValue<types::CssFontSize>),
    Top(CssAttributeValue<types::CssTop>),
    Bottom(CssAttributeValue<types::CssBottom>),
    Left(CssAttributeValue<types::CssLeft>),
    Right(CssAttributeValue<types::CssRight>),
    LineHeight(CssAttributeValue<types::CssLineHeight>),
    WordBreak(CssAttributeValue<types::CssWordBreak>),
    MaxWidth(CssAttributeValue<types::CssMaxWidth>),
    MaxHeight(CssAttributeValue<types::CssMaxHeight>),
    JustifyContent(CssAttributeValue<types::CssJustifyContent>),
    VerticalAlign(CssAttributeValue<types::CssVerticalAlign>),
    OverflowX(CssAttributeValue<types::CssOverflowX>),
    OverflowY(CssAttributeValue<types::CssOverflowY>),
    ImageRendering(CssAttributeValue<types::CssImageRendering>),
    ObjectFit(CssAttributeValue<types::CssObjectFit>),
    Opacity(CssAttributeValue<types::CssOpacity>),
    UnknownProperty(String, Vec<Vec<Unit>>),
}

/// A value type that knows which declaration value it makes.
pub trait IntoStyleAttribute: CssValue {
    /// The declaration value that `value` makes.
    spec fn spec_attribute(value: CssAttributeValue<Self>) -> CssStyleAttribute;

    /// `a` belongs to the property of this value type.
    spec fn spec_is_attribute(a: CssStyleAttribute) -> bool;

    /// Tags `value` with its property.
    fn into_attribute(value: CssAttributeValue<Self>) -> (r: CssStyleAttribute)
        ensures
            r == Self::spec_attribute(value),
            Self::spec_is_attribute(r),
    ;
}

impl IntoStyleAttribute for types::CssColor {
    open spec fn spec_attribute(value: CssAttributeValue<Self>) -> CssStyleAttribute {
        CssStyleAttribute::Color(value)
    }

    open spec fn spec_is_attribute(a: CssStyleAttribute) -> bool {
        a is Color
    }

    fn into_attribute(value: CssAttributeValue<Self>) -> (r: CssStyleAttribute) {
        CssStyleAttribute::Color(value)
    }
}

impl IntoStyleAttribute for types::CssBackgroundColor {
    open spec fn spec_attribute(value: CssAttributeValue<Self>) -> CssStyleAttribute {
        CssStyleAttribute::BackgroundColor(value)
    }

    open spec fn spec_is_attribute(a: CssStyleAttribute) -> bool {
        a is BackgroundColor
    }

    fn into_attribute(value: CssAttributeValue<Self>) -> (r: CssStyleAttribute) {
        CssStyleAttribute::BackgroundColor(value)
    }
}

impl IntoStyleAttribute for types::CssWidth {
    open spec fn spec_attribute(value: CssAttributeValue<Self>) -> CssStyleAttribute {
        CssStyleAttribute::Width(value)
    }

    open spec fn spec_is_attribute(a: CssStyleAttribute) -> bool {
        a is Width
    }

    fn into_attribute(value: CssAttributeValue<Self>) -> (r: CssStyleAttribute) {
        CssStyleAttribute::Width(value)
    }
}

impl IntoStyleAttribute for types::CssHeight {
    open spec fn spec_attribute(value: CssAttributeValue<Self>) -> CssStyleAttribute {
        CssStyleAttribute::Height(value)
    }

    open spec fn spec_is_attribute(a: CssStyleAttribute) -> bool {
        a is Height
    }

    fn into_attribute(value: CssAttributeValue<Self>) -> (r: CssStyleAttribute) {
        CssStyleAttribute::Height(value)
    }
}

impl IntoStyleAttribute for types::CssPadding {
    open spec fn spec_attribute(value: CssAttributeValue<Self>) -> CssStyleAttribute {
        CssStyleAttribute::Padding(value)
    }

    open spec fn spec_is_attribute(a: CssStyleAttribute) -> bool {
        a is Padding
    }

    fn into_attribute(value: CssAttributeValue<Self>) -> (r: CssStyleAttribute) {
        CssStyleAttribute::Padding(value)
    }
}

impl IntoStyleAttribute for types::CssSpacing {
    open spec fn spec_attribute(value: CssAttributeValue<Self>) -> CssStyleAttribute {
        CssStyleAttribute::Spacing(value)
    }

    open spec fn spec_is_attribute(a: CssStyleAttribute) -> bool {
        a is Spacing
    }

    fn into_attribute(value: CssAttributeValue<Self>) -> (r: CssStyleAttribute) {
        CssStyleAttribute::Spacing(value)
    }
}

impl IntoStyleAttribute for types::CssFontFamily {
    open spec fn spec_attribute(value: CssAttributeValue<Self>) -> CssStyleAttribute {
        CssStyleAttribute::FontFamily(value)
    }

    open spec fn spec_is_attribute(a: CssStyleAttribute) -> bool {
        a is FontFamily
    }

    fn into_attribute(value: CssAttributeValue<Self>) -> (r: CssStyleAttribute) {
        CssStyleAttribute::FontFamily(value)
    }
}

impl IntoStyleAttribute for types::CssFontSize {
    open spec fn spec_attribute(value: CssAttributeValue<Self>) -> CssStyleAttribute {
        CssStyleAttribute::FontSize(value)
    }

    open spec fn spec_is_attribute(a: CssStyleAttribute) -> bool {
        a is FontSize
    }

    fn into_attribute(value: CssAttributeValue<Self>) -> (r: CssStyleAttribute) {
        CssStyleAttribute::FontSize(value)
    }
}

impl IntoStyleAttribute for types::CssTop {
    open spec fn spec_attribute(value: CssAttributeValue<Self>) -> CssStyleAttribute {
        CssStyleAttribute::Top(value)
    }

    open spec fn spec_is_attribute(a: CssStyleAttribute) -> bool {
        a is Top
    }

    fn into_attribute(value: CssAttributeValue<Self>) -> (r: CssStyleAttribute) {
        CssStyleAttribute::Top(value)
    }
}

impl IntoStyleAttribute for types::CssBottom {
    open spec fn spec_attribute(value: CssAttributeValue<Self>) -> CssStyleAttribute {
        CssStyleAttribute::Bottom(value)
    }

    open spec fn spec_is_attribute(a: CssStyleAttribute) -> bool {
        a is Bottom
    }

    fn into_attribute(value: CssAttributeValue<Self>) -> (r: CssStyleAttribute) {
        CssStyleAttribute::Bottom(value)
    }
}

impl IntoStyleAttribute for types::CssLeft {
    open spec fn spec_attribute(value: CssAttributeValue<Self>) -> CssStyleAttribute {
        CssStyleAttribute::Left(value)
    }

    open spec fn spec_is_attribute(a: CssStyleAttribute) -> bool {
        a is Left
    }

    fn into_attribute(value: CssAttributeValue<Self>) -> (r: CssStyleAttribute) {
        CssStyleAttribute::Left(value)
    }
}

impl IntoStyleAttribute for types::CssRight {
    open spec fn spec_attribute(value: CssAttributeValue<Self>) -> CssStyleAttribute {
        CssStyleAttribute::Right(value)
    }

    open spec fn spec_is_attribute(a: CssStyleAttribute) -> bool {
        a is Right
    }

    fn into_attribute(value: CssAttributeValue<Self>) -> (r: CssStyleAttribute) {
        CssStyleAttribute::Right(value)
    }
}

impl IntoStyleAttribute for types::CssLineHeight {
    open spec fn spec_attribute(value: CssAttributeValue<Self>) -> CssStyleAttribute {
        CssStyleAttribute::LineHeight(value)
    }

    open spec fn spec_is_attribute(a: CssStyleAttribute) -> bool {
        a is LineHeight
    }

    fn into_attribute(value: CssAttributeValue<Self>) -> (r: CssStyleAttribute) {
        CssStyleAttribute::LineHeight(value)
    }
}

impl IntoStyleAttribute for types::CssWordBreak {
    open spec fn spec_attribute(value: CssAttributeValue<Self>) -> CssStyleAttribute {
        CssStyleAttribute::WordBreak(value)
    }

    open spec fn spec_is_attribute(a: CssStyleAttribute) -> bool {
        a is WordBreak
    }

    fn into_attribute(value: CssAttributeValue<Self>) -> (r: CssStyleAttribute) {
        CssStyleAttribute::WordBreak(value)
    }
}

impl IntoStyleAttribute for types::CssMaxWidth {
    open spec fn spec_attribute(value: CssAttributeValue<Self>) -> CssStyleAttribute {
        CssStyleAttribute::MaxWidth(value)
    }

    open spec fn spec_is_attribute(a: CssStyleAttribute) -> bool {
        a is MaxWidth
    }

    fn into_attribute(value: CssAttributeValue<Self>) -> (r: CssStyleAttribute) {
        CssStyleAttribute::MaxWidth(value)
    }
}

impl IntoStyleAttribute for types::CssMaxHeight {
    open spec fn spec_attribute(value: CssAttributeValue<Self>) -> CssStyleAttribute {
        CssStyleAttribute::MaxHeight(value)
    }

    open spec fn spec_is_attribute(a: CssStyleAttribute) -> bool {
        a is MaxHeight
    }

    fn into_attribute(value: CssAttributeValue<Self>) -> (r: CssStyleAttribute) {
        CssStyleAttribute::MaxHeight(value)
    }
}

impl IntoStyleAttribute for types::CssJustifyContent {
    open spec fn spec_attribute(value: CssAttributeValue<Self>) -> CssStyleAttribute {
        CssStyleAttribute::JustifyContent(value)
    }

    open spec fn spec_is_attribute(a: CssStyleAttribute) -> bool {
        a is JustifyContent
    }

    fn into_attribute(value: CssAttributeValue<Self>) -> (r: CssStyleAttribute) {
        CssStyleAttribute::JustifyContent(value)
    }
}

impl IntoStyleAttribute for types::CssVerticalAlign {
    open spec fn spec_attribute(value: CssAttributeValue<Self>) -> CssStyleAttribute {
        CssStyleAttribute::VerticalAlign(value)
    }

    open spec fn spec_is_attribute(a: CssStyleAttribute) -> bool {
        a is VerticalAlign
    }

    fn into_attribute(value: CssAttributeValue<Self>) -> (r: CssStyleAttribute) {
        CssStyleAttribute::VerticalAlign(value)
    }
}

impl IntoStyleAttribute for types::CssOverflowX {
    open spec fn spec_attribute(value: CssAttributeValue<Self>) -> CssStyleAttribute {
        CssStyleAttribute::OverflowX(value)
    }

    open spec fn spec_is_attribute(a: CssStyleAttribute) -> bool {
        a is OverflowX
    }

    fn into_attribute(value: CssAttributeValue<Self>) -> (r: CssStyleAttribute) {
        CssStyleAttribute::OverflowX(value)
    }
}

impl IntoStyleAttribute for types::CssOverflowY {
    open spec fn spec_attribute(value: CssAttributeValue<Self>) -> CssStyleAttribute {
        CssStyleAttribute::OverflowY(value)
    }

    open spec fn spec_is_attribute(a: CssStyleAttribute) -> bool {
        a is OverflowY
    }

    fn into_attribute(value: CssAttributeValue<Self>) -> (r: CssStyleAttribute) {
        CssStyleAttribute::OverflowY(value)
    }
}

impl IntoStyleAttribute for types::CssImageRendering {
    open spec fn spec_attribute(value: CssAttributeValue<Self>) -> CssStyleAttribute {
        CssStyleAttribute::ImageRendering(value)
    }

    open spec fn spec_is_attribute(a: CssStyleAttribute) -> bool {
        a is ImageRendering
    }

    fn into_attribute(value: CssAttributeValue<Self>) -> (r: CssStyleAttribute) {
        CssStyleAttribute::ImageRendering(value)
    }
}

impl IntoStyleAttribute for types::CssObjectFit {
    open spec fn spec_attribute(value: CssAttributeValue<Self>) -> CssStyleAttribute {
        CssStyleAttribute::ObjectFit(value)
    }

    open spec fn spec_is_attribute(a: CssStyleAttribute) -> bool {
        a is ObjectFit
    }

    fn into_attribute(value: CssAttributeValue<Self>) -> (r: CssStyleAttribute) {
        CssStyleAttribute::ObjectFit(value)
    }
}

impl IntoStyleAttribute for types::CssOpacity {
    open spec fn spec_attribute(value: CssAttributeValue<Self>) -> CssStyleAttribute {
        CssStyleAttribute::Opacity(value)
    }

    open spec fn spec_is_attribute(a: CssStyleAttribute) -> bool {
        a is Opacity
    }

    fn into_attribute(value: CssAttributeValue<Self>) -> (r: CssStyleAttribute) {
        CssStyleAttribute::Opacity(value)
    }
}



/// A property value printed as CSS: the unit, or the keyword's spelling.
pub open spec fn attr_css<T: CssValue>(v: CssAttributeValue<T>) -> Seq<char> {
    match v {
        CssAttributeValue::Value(u) => unit_css(u),
        CssAttributeValue::Keyword(k) => k.spec_name(),
        CssAttributeValue::Global(g) => g.spec_name(),
    }
}

impl<T: CssValue> CssAttributeValue<T> {
    /// The value printed as CSS.
    pub fn to_css_string(&self) -> (r: String)
        ensures
            r@ == attr_css(*self),
    {
        match self {
            CssAttributeValue::Value(u) => u.to_css_string(),
            CssAttributeValue::Keyword(k) => k.as_str().to_owned(),
            CssAttributeValue::Global(g) => g.as_str().to_owned(),
        }
    }
}

/// Values that are the same print the same CSS.
pub proof fn lemma_same_values_print_alike<T: CssValue>(a: CssAttributeValue<T>, b: CssAttributeValue<T>)
    requires
        attr_value_eq(a, b),
    ensures
        attr_css(a) == attr_css(b),
{
    if let CssAttributeValue::Value(u) = a {
        if let CssAttributeValue::Value(u2) = b {
            lemma_same_units_print_alike(u, u2);
        }
    }
}

/// The first `n` units of `units` printed as CSS, separated by spaces.
pub open spec fn group_css(units: Seq<Unit>, n: int) -> Seq<char>
    decreases n,
{
    if n <= 0 || n > units.len() {
        Seq::empty()
    } else if n == 1 {
        unit_css(units[0])
    } else {
        group_css(units, n - 1) + seq![' '] + unit_css(units[n - 1])
    }
}

/// The first `n` groups of `groups` printed as CSS, separated by `, `.
pub open spec fn groups_css(groups: Seq<Vec<Unit>>, n: int) -> Seq<char>
    decreases n,
{
    if n <= 0 || n > groups.len() {
        Seq::empty()
    } else if n == 1 {
        group_css(groups[0]@, groups[0]@.len() as int)
    } else {
        groups_css(groups, n - 1) + seq![',', ' '] + group_css(groups[n - 1]@, groups[n - 1]@.len() as int)
    }
}

/// The units of a group printed as CSS, separated by spaces.
pub fn group_to_css_string(units: &Vec<Unit>) -> (r: String)
    ensures
        r@ == group_css(units@, units@.len() as int),
{
    let mut r = String::new();
    let mut i: usize = 0;
    while i < units.len()
        invariant
            i <= units@.len(),
            r@ == group_css(units@, i as int),
        decreases units@.len() - i,
    {
        let ghost before = r@;
        proof {
            reveal_strlit(" ");
            assert(" "@ =~= seq![' ']);
        }
        if i > 0 {
            r.append(" ");
        }
        let part = units[i].to_css_string();
        r.append(part.as_str());
        proof {
            if i == 0 {
                assert(r@ =~= group_css(units@, 1));
            } else {
                assert(r@ =~= before + seq![' '] + part@);
                assert(r@ =~= group_css(units@, i as int + 1));
            }
        }
        i += 1;
    }
    r
}

/// The groups printed as CSS, separated by `, `.
pub fn groups_to_css_string(groups: &Vec<Vec<Unit>>) -> (r: String)
    ensures
        r@ == groups_css(groups@, groups@.len() as int),
{
    let mut r = String::new();
    let mut i: usize = 0;
    while i < groups.len()
        invariant
            i <= groups@.len(),
            r@ == groups_css(groups@, i as int),
        decreases groups@.len() - i,
    {
        let ghost before = r@;
        proof {
            reveal_strlit(", ");
            assert(", "@ =~= seq![',', ' ']);
        }
        if i > 0 {
            r.append(", ");
        }
        let part = group_to_css_string(&groups[i]);
        r.append(part.as_str());
        proof {
            if i == 0 {
                assert(r@ =~= groups_css(groups@, 1));
            } else {
                assert(r@ =~= before + seq![',', ' '] + part@);
                assert(r@ =~= groups_css(groups@, i as int + 1));
            }
        }
        i += 1;
    }
    r
}

/// A declaration value printed as CSS: the value, or, for an unknown property, its name, `: `,
/// and its groups.
pub open spec fn attribute_css(a: CssStyleAttribute) -> Seq<char> {
    match a {
        CssStyleAttribute::Color(x) => attr_css(x),
        CssStyleAttribute::BackgroundColor(x) => attr_css(x),
        CssStyleAttribute::Width(x) => attr_css(x),
        CssStyleAttribute::Height(x) => attr_css(x),
        CssStyleAttribute::Padding(x) => attr_css(x),
        CssStyleAttribute::Spacing(x) => attr_css(x),
        CssStyleAttribute::FontFamily(x) => attr_css(x),
        CssStyleAttribute::FontSize(x) => attr_css(x),
        CssStyleAttribute::Top(x) => attr_css(x),
        CssStyleAttribute::Bottom(x) => attr_css(x),
        CssStyleAttribute::Left(x) => attr_css(x),
        CssStyleAttribute::Right(x) => attr_css(x),
        CssStyleAttribute::LineHeight(x) => attr_css(x),
        CssStyleAttribute::WordBreak(x) => attr_css(x),
        CssStyleAttribute::MaxWidth(x) => attr_css(x),
        CssStyleAttribute::MaxHeight(x) => attr_css(x),
        CssStyleAttribute::JustifyContent(x) => attr_css(x),
        CssStyleAttribute::VerticalAlign(x) => attr_css(x),
        CssStyleAttribute::OverflowX(x) => attr_css(x),
        CssStyleAttribute::OverflowY(x) => attr_css(x),
        CssStyleAttribute::ImageRendering(x) => attr_css(x),
        CssStyleAttribute::ObjectFit(x) => attr_css(x),
        CssStyleAttribute::Opacity(x) => attr_css(x),
        CssStyleAttribute::UnknownProperty(name, groups) => name@ + seq![':', ' '] + groups_css(
            groups@,
            groups@.len() as int,
        ),
    }
}

impl CssStyleAttribute {
    /// The declaration value printed as CSS.
    pub fn to_css_string(&self) -> (r: String)
        ensures
            r@ == attribute_css(*self),
    {
        match self {
            CssStyleAttribute::Color(x) => x.to_css_string(),
            CssStyleAttribute::BackgroundColor(x) => x.to_css_string(),
            CssStyleAttribute::Width(x) => x.to_css_string(),
            CssStyleAttribute::Height(x) => x.to_css_string(),
            CssStyleAttribute::Padding(x) => x.to_css_string(),
            CssStyleAttribute::Spacing(x) => x.to_css_string(),
            CssStyleAttribute::FontFamily(x) => x.to_css_string(),
            CssStyleAttribute::FontSize(x) => x.to_css_string(),
            CssStyleAttribute::Top(x) => x.to_css_string(),
            CssStyleAttribute::Bottom(x) => x.to_css_string(),
            CssStyleAttribute::Left(x) => x.to_css_string(),
            CssStyleAttribute::Right(x) => x.to_css_string(),
            CssStyleAttribute::LineHeight(x) => x.to_css_string(),
            CssStyleAttribute::WordBreak(x) => x.to_css_string(),
            CssStyleAttribute::MaxWidth(x) => x.to_css_string(),
            CssStyleAttribute::MaxHeight(x) => x.to_css_string(),
            CssStyleAttribute::JustifyContent(x) => x.to_css_string(),
            CssStyleAttribute::VerticalAlign(x) => x.to_css_string(),
            CssStyleAttribute::OverflowX(x) => x.to_css_string(),
            CssStyleAttribute::OverflowY(x) => x.to_css_string(),
            CssStyleAttribute::ImageRendering(x) => x.to_css_string(),
            CssStyleAttribute::ObjectFit(x) => x.to_css_string(),
            CssStyleAttribute::Opacity(x) => x.to_css_string(),
            CssStyleAttribute::UnknownProperty(name, groups) => {
                let mut r = name.clone();
                proof {
                    reveal_strlit(": ");
                    assert(": "@ =~= seq![':', ' ']);
                }
                r.append(": ");
                r.append(groups_to_css_string(groups).as_str());
                r
            },
        }
    }
}

} // verus!
