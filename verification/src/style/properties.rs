//! Style properties: the value a declaration sets, and the declarations of a rule.
use vstd::prelude::*;
use crate::text::{ascii_eq_ignore_case, ascii_eq_ignore_case_spec};
use crate::unit::{clone_unit, lemma_same_units_print_alike, unit_eq, Unit};
use vstd::string::StringExecFns;
use super::prop_validation::{
    attr_css, attr_value_eq, group_css, groups_css, groups_to_css_string, lemma_attr_value_eq_refl,
    lemma_same_values_print_alike, types,
    CssAttributeValue, CssStyleAttribute,
};

verus! {

/// The value a declaration sets, by property. `padding` and `spacing` hold their four sides:
/// top, right, bottom, left.
#[derive(Debug)]
pub enum CssStyleProperty {
    Color(CssAttributeValue<types::CssColor>),
    BackgroundColor(CssAttributeValue<types::CssBackgroundColor>),
    Width(CssAttributeValue<types::CssWidth>),
    Height(CssAttributeValue<types::CssHeight>),
    Padding(
        CssAttributeValue<types::CssPadding>,
        CssAttributeValue<types::CssPadding>,
        CssAttributeValue<types::CssPadding>,
        CssAttributeValue<types::CssPadding>,
    ),
    Spacing(
        CssAttributeValue<types::CssSpacing>,
        CssAttributeValue<types::CssSpacing>,
        CssAttributeValue<types::CssSpacing>,
        CssAttributeValue<types::CssSpacing>,
    ),
    FontFamily(CssAttributeValue<types::CssFontFamily>),
    FontSize(CssAttributeValue<types::CssFontSize>),
    LineHeight(CssAttributeValue<types::CssLineHeight>),
    WordBreak(CssAttributeValue<types::CssWordBreak>),
    MaxWidth(CssAttributeValue<types::CssMaxWidth>),
    MaxHeight(CssAttributeValue<types::CssMaxHeight>),
    JustifyContent(CssAttributeValue<types::CssJustifyContent>),
    VerticalAlign(CssAttributeValue<types::CssVerticalAlign>),
    OverflowX(CssAttributeValue<types::CssOverflowX>),
    OverflowY(CssAttributeValue<types::CssOverflowY>),
    ObjectFit(CssAttributeValue<types::CssObjectFit>),
    ImageRendering(CssAttributeValue<types::CssImageRendering>),
    Opacity(CssAttributeValue<types::CssOpacity>),
    UnknownProperty(String, Vec<Vec<Unit>>),
}

/// Two lists of units hold the same units.
pub open spec fn units_eq(a: Seq<Unit>, b: Seq<Unit>) -> bool {
    a.len() == b.len() && forall|i: int| #![trigger a[i]] 0 <= i < a.len() ==> unit_eq(a[i], b[i])
}

/// Two lists of groups of units hold the same units.
pub open spec fn groups_eq(a: Seq<Vec<Unit>>, b: Seq<Vec<Unit>>) -> bool {
    a.len() == b.len() && forall|i: int| #![trigger a[i]] 0 <= i < a.len() ==> units_eq(a[i]@, b[i]@)
}

/// A copy of `units`.
pub fn clone_units(units: &Vec<Unit>) -> (r: Vec<Unit>)
    ensures
        units_eq(units@, r@),
{
    let mut copied: Vec<Unit> = Vec::new();
    let mut i: usize = 0;
    while i < units.len()
        invariant
            i <= units@.len(),
            copied@.len() == i,
            forall|k: int| #![trigger units@[k]] 0 <= k < i ==> unit_eq(units@[k], copied@[k]),
        decreases units@.len() - i,
    {
        copied.push(clone_unit(&units[i]));
        i += 1;
    }
    copied
}

/// A copy of `groups`.
pub fn clone_groups(groups: &Vec<Vec<Unit>>) -> (r: Vec<Vec<Unit>>)
    ensures
        groups_eq(groups@, r@),
{
    let mut copied: Vec<Vec<Unit>> = Vec::new();
    let mut i: usize = 0;
    while i < groups.len()
        invariant
            i <= groups@.len(),
            copied@.len() == i,
            forall|k: int| #![trigger groups@[k]] 0 <= k < i ==> units_eq(groups@[k]@, copied@[k]@),
        decreases groups@.len() - i,
    {
        copied.push(clone_units(&groups[i]));
        i += 1;
    }
    copied
}

/// Two properties are the same (units compared with `unit_eq`).
pub open spec fn property_eq(a: CssStyleProperty, b: CssStyleProperty) -> bool {
    match a {
        CssStyleProperty::Color(x) => b matches CssStyleProperty::Color(y) && attr_value_eq(x, y),
        CssStyleProperty::BackgroundColor(x) => b matches CssStyleProperty::BackgroundColor(y) && attr_value_eq(x, y),
        CssStyleProperty::Width(x) => b matches CssStyleProperty::Width(y) && attr_value_eq(x, y),
        CssStyleProperty::Height(x) => b matches CssStyleProperty::Height(y) && attr_value_eq(x, y),
        CssStyleProperty::Padding(a1, a2, a3, a4) => b matches CssStyleProperty::Padding(b1, b2, b3, b4)
            && attr_value_eq(a1, b1) && attr_value_eq(a2, b2) && attr_value_eq(a3, b3)
            && attr_value_eq(a4, b4),
        CssStyleProperty::Spacing(a1, a2, a3, a4) => b matches CssStyleProperty::Spacing(b1, b2, b3, b4)
            && attr_value_eq(a1, b1) && attr_value_eq(a2, b2) && attr_value_eq(a3, b3)
            && attr_value_eq(a4, b4),
        CssStyleProperty::FontFamily(x) => b matches CssStyleProperty::FontFamily(y) && attr_value_eq(x, y),
        CssStyleProperty::FontSize(x) => b matches CssStyleProperty::FontSize(y) && attr_value_eq(x, y),
        CssStyleProperty::LineHeight(x) => b matches CssStyleProperty::LineHeight(y) && attr_value_eq(x, y),
        CssStyleProperty::WordBreak(x) => b matches CssStyleProperty::WordBreak(y) && attr_value_eq(x, y),
        CssStyleProperty::MaxWidth(x) => b matches CssStyleProperty::MaxWidth(y) && attr_value_eq(x, y),
        CssStyleProperty::MaxHeight(x) => b matches CssStyleProperty::MaxHeight(y) && attr_value_eq(x, y),
        CssStyleProperty::JustifyContent(x) => b matches CssStyleProperty::JustifyContent(y) && attr_value_eq(x, y),
        CssStyleProperty::VerticalAlign(x) => b matches CssStyleProperty::VerticalAlign(y) && attr_value_eq(x, y),
        CssStyleProperty::OverflowX(x) => b matches CssStyleProperty::OverflowX(y) && attr_value_eq(x, y),
        CssStyleProperty::OverflowY(x) => b matches CssStyleProperty::OverflowY(y) && attr_value_eq(x, y),
        CssStyleProperty::ObjectFit(x) => b matches CssStyleProperty::ObjectFit(y) && attr_value_eq(x, y),
        CssStyleProperty::ImageRendering(x) => b matches CssStyleProperty::ImageRendering(y) && attr_value_eq(x, y),
        CssStyleProperty::Opacity(x) => b matches CssStyleProperty::Opacity(y) && attr_value_eq(x, y),
        CssStyleProperty::UnknownProperty(n, g) => b matches CssStyleProperty::UnknownProperty(n2, g2)
            && n == n2 && groups_eq(g@, g2@),
    }
}

/// The position, among the one to four values written, of the value that side `k` takes:
/// one value sets every side; two set top and bottom, then right and left; three set top,
/// right and left, then bottom; four set top, right, bottom, left.
pub open spec fn side_index(n: int, k: int) -> int {
    if n == 1 {
        0
    } else if n == 2 {
        k % 2
    } else if n == 3 {
        if k == 3 {
            1
        } else {
            k
        }
    } else {
        k
    }
}

/// `values` are one to four `padding` values.
pub open spec fn all_padding(values: Seq<CssStyleAttribute>) -> bool {
    1 <= values.len() <= 4 && forall|i: int|
        #![trigger values[i]]
        0 <= i < values.len() ==> values[i] is Padding
}

/// `p` holds the four sides that the `padding` values `values` give.
pub open spec fn padding_sides(values: Seq<CssStyleAttribute>, p: CssStyleProperty) -> bool {
    let n = values.len() as int;
    p matches CssStyleProperty::Padding(a1, a2, a3, a4) && attr_value_eq(
        values[side_index(n, 0)]->Padding_0,
        a1,
    ) && attr_value_eq(values[side_index(n, 1)]->Padding_0, a2) && attr_value_eq(
        values[side_index(n, 2)]->Padding_0,
        a3,
    ) && attr_value_eq(values[side_index(n, 3)]->Padding_0, a4)
}

/// `values` are one to four `spacing` values.
pub open spec fn all_spacing(values: Seq<CssStyleAttribute>) -> bool {
    1 <= values.len() <= 4 && forall|i: int|
        #![trigger values[i]]
        0 <= i < values.len() ==> values[i] is Spacing
}

/// `p` holds the four sides that the `spacing` values `values` give.
pub open spec fn spacing_sides(values: Seq<CssStyleAttribute>, p: CssStyleProperty) -> bool {
    let n = values.len() as int;
    p matches CssStyleProperty::Spacing(a1, a2, a3, a4) && attr_value_eq(
        values[side_index(n, 0)]->Spacing_0,
        a1,
    ) && attr_value_eq(values[side_index(n, 1)]->Spacing_0, a2) && attr_value_eq(
        values[side_index(n, 2)]->Spacing_0,
        a3,
    ) && attr_value_eq(values[side_index(n, 3)]->Spacing_0, a4)
}

/// `values` are one value of a property that `from_attribute_values` keeps as it is.
pub open spec fn single_property(values: Seq<CssStyleAttribute>) -> bool {
    values.len() == 1 && (values[0] is Color
        || values[0] is BackgroundColor
        || values[0] is Width
        || values[0] is Height
        || values[0] is MaxWidth
        || values[0] is MaxHeight
        || values[0] is LineHeight
        || values[0] is VerticalAlign
        || values[0] is FontFamily
        || values[0] is FontSize
        || values[0] is UnknownProperty)
}

/// The values `values` read from one declaration set a property.
pub open spec fn values_make_property(values: Seq<CssStyleAttribute>) -> bool {
    single_property(values) || all_padding(values) || all_spacing(values)
}

/// `p` is the property that the values `values` read from one declaration set.
pub open spec fn property_from_values(values: Seq<CssStyleAttribute>, p: CssStyleProperty) -> bool {
    if single_property(values) {
        p == property_of_single(values[0])
    } else if all_padding(values) {
        padding_sides(values, p)
    } else if all_spacing(values) {
        spacing_sides(values, p)
    } else {
        false
    }
}

/// The property that the one value `a` sets.
pub open spec fn property_of_single(a: CssStyleAttribute) -> CssStyleProperty {
    match a {
        CssStyleAttribute::Color(x) => CssStyleProperty::Color(x),
        CssStyleAttribute::BackgroundColor(x) => CssStyleProperty::BackgroundColor(x),
        CssStyleAttribute::Width(x) => CssStyleProperty::Width(x),
        CssStyleAttribute::Height(x) => CssStyleProperty::Height(x),
        CssStyleAttribute::MaxWidth(x) => CssStyleProperty::MaxWidth(x),
        CssStyleAttribute::MaxHeight(x) => CssStyleProperty::MaxHeight(x),
        CssStyleAttribute::LineHeight(x) => CssStyleProperty::LineHeight(x),
        CssStyleAttribute::VerticalAlign(x) => CssStyleProperty::VerticalAlign(x),
        CssStyleAttribute::FontFamily(x) => CssStyleProperty::FontFamily(x),
        CssStyleAttribute::FontSize(x) => CssStyleProperty::FontSize(x),
        CssStyleAttribute::UnknownProperty(n, g) => CssStyleProperty::UnknownProperty(n, g),
        _ => arbitrary(),
    }
}

impl CssStyleProperty {
    /// The property that the values read from one declaration set: one value of most properties
    /// as it is; one to four `padding` or `spacing` values spread over the four sides; `None` for
    /// any other list of values.
    pub fn from_attribute_values(values: Vec<CssStyleAttribute>) -> (r: Option<Self>)
        ensures
            single_property(values@) ==> r == Some(property_of_single(values@[0])),
            all_padding(values@) ==> (r matches Some(p) && padding_sides(values@, p)),
            all_spacing(values@) ==> (r matches Some(p) && spacing_sides(values@, p)),
            !single_property(values@) && !all_padding(values@) && !all_spacing(values@) ==> r is None,
    {
        let mut values = values;
        let n = values.len();
        if n == 1 {
            let ghost only = values@[0];
            let last = values.pop();
            assert(last == Some(only));
            match last {
                Some(CssStyleAttribute::Color(x)) => Some(CssStyleProperty::Color(x)),
                Some(CssStyleAttribute::BackgroundColor(x)) => Some(CssStyleProperty::BackgroundColor(x)),
                Some(CssStyleAttribute::Width(x)) => Some(CssStyleProperty::Width(x)),
                Some(CssStyleAttribute::Height(x)) => Some(CssStyleProperty::Height(x)),
                Some(CssStyleAttribute::MaxWidth(x)) => Some(CssStyleProperty::MaxWidth(x)),
                Some(CssStyleAttribute::MaxHeight(x)) => Some(CssStyleProperty::MaxHeight(x)),
                Some(CssStyleAttribute::LineHeight(x)) => Some(CssStyleProperty::LineHeight(x)),
                Some(CssStyleAttribute::VerticalAlign(x)) => Some(CssStyleProperty::VerticalAlign(x)),
                Some(CssStyleAttribute::FontFamily(x)) => Some(CssStyleProperty::FontFamily(x)),
                Some(CssStyleAttribute::FontSize(x)) => Some(CssStyleProperty::FontSize(x)),
                Some(CssStyleAttribute::Padding(x)) => {
                    let a1 = x.clone();
                    let a2 = x.clone();
                    let a3 = x.clone();
                    proof {
                        lemma_attr_value_eq_refl(x);
                    }
                    Some(CssStyleProperty::Padding(a1, a2, a3, x))
                },
                Some(CssStyleAttribute::Spacing(x)) => {
                    let a1 = x.clone();
                    let a2 = x.clone();
                    let a3 = x.clone();
                    proof {
                        lemma_attr_value_eq_refl(x);
                    }
                    Some(CssStyleProperty::Spacing(a1, a2, a3, x))
                },
                Some(CssStyleAttribute::UnknownProperty(name, groups)) => Some(
                    CssStyleProperty::UnknownProperty(name, groups),
                ),
                _ => None,
            }
        } else if n == 2 {
            if let (CssStyleAttribute::Padding(x1), CssStyleAttribute::Padding(x2)) = (&values[0], &values[1]) {
                return Some(CssStyleProperty::Padding(x1.clone(), x2.clone(), x1.clone(), x2.clone()));
            }
            if let (CssStyleAttribute::Spacing(x1), CssStyleAttribute::Spacing(x2)) = (&values[0], &values[1]) {
                return Some(CssStyleProperty::Spacing(x1.clone(), x2.clone(), x1.clone(), x2.clone()));
            }
            None
        } else if n == 3 {
            if let (CssStyleAttribute::Padding(x1), CssStyleAttribute::Padding(x2), CssStyleAttribute::Padding(x3)) = (
                &values[0],
                &values[1],
                &values[2],
            ) {
                return Some(CssStyleProperty::Padding(x1.clone(), x2.clone(), x3.clone(), x2.clone()));
            }
            if let (CssStyleAttribute::Spacing(x1), CssStyleAttribute::Spacing(x2), CssStyleAttribute::Spacing(x3)) = (
                &values[0],
                &values[1],
                &values[2],
            ) {
                return Some(CssStyleProperty::Spacing(x1.clone(), x2.clone(), x3.clone(), x2.clone()));
            }
            None
        } else if n == 4 {
            if let (
                CssStyleAttribute::Padding(x1),
                CssStyleAttribute::Padding(x2),
                CssStyleAttribute::Padding(x3),
                CssStyleAttribute::Padding(x4),
            ) = (&values[0], &values[1], &values[2], &values[3]) {
                return Some(CssStyleProperty::Padding(x1.clone(), x2.clone(), x3.clone(), x4.clone()));
            }
            if let (
                CssStyleAttribute::Spacing(x1),
                CssStyleAttribute::Spacing(x2),
                CssStyleAttribute::Spacing(x3),
                CssStyleAttribute::Spacing(x4),
            ) = (&values[0], &values[1], &values[2], &values[3]) {
                return Some(CssStyleProperty::Spacing(x1.clone(), x2.clone(), x3.clone(), x4.clone()));
            }
            None
        } else {
            None
        }
    }

    /// The name of the property.
    pub open spec fn spec_prop_name(&self) -> Seq<char> {
        match self {
            CssStyleProperty::Color(..) => "color"@,
            CssStyleProperty::BackgroundColor(..) => "background-color"@,
            CssStyleProperty::Width(..) => "width"@,
            CssStyleProperty::Height(..) => "height"@,
            CssStyleProperty::Padding(..) => "padding"@,
            CssStyleProperty::Spacing(..) => "spacing"@,
            CssStyleProperty::FontFamily(..) => "font-family"@,
            CssStyleProperty::FontSize(..) => "font-size"@,
            CssStyleProperty::LineHeight(..) => "line-height"@,
            CssStyleProperty::WordBreak(..) => "word-break"@,
            CssStyleProperty::MaxWidth(..) => "max-width"@,
            CssStyleProperty::MaxHeight(..) => "max-height"@,
            CssStyleProperty::JustifyContent(..) => "justify-content"@,
            CssStyleProperty::VerticalAlign(..) => "vertical-align"@,
            CssStyleProperty::OverflowX(..) => "overflow-x"@,
            CssStyleProperty::OverflowY(..) => "overflow-y"@,
            CssStyleProperty::ObjectFit(..) => "object-fit"@,
            CssStyleProperty::ImageRendering(..) => "image-rendering"@,
            CssStyleProperty::Opacity(..) => "opacity"@,
            CssStyleProperty::UnknownProperty(name, _) => name@,
        }
    }

    /// The name of the property.
    pub fn get_prop_name(&self) -> (r: String)
        ensures
            r@ == self.spec_prop_name(),
    {
        match self {
            CssStyleProperty::Color(..) => "color".to_owned(),
            CssStyleProperty::BackgroundColor(..) => "background-color".to_owned(),
            CssStyleProperty::Width(..) => "width".to_owned(),
            CssStyleProperty::Height(..) => "height".to_owned(),
            CssStyleProperty::Padding(..) => "padding".to_owned(),
            CssStyleProperty::Spacing(..) => "spacing".to_owned(),
            CssStyleProperty::FontFamily(..) => "font-family".to_owned(),
            CssStyleProperty::FontSize(..) => "font-size".to_owned(),
            CssStyleProperty::LineHeight(..) => "line-height".to_owned(),
            CssStyleProperty::WordBreak(..) => "word-break".to_owned(),
            CssStyleProperty::MaxWidth(..) => "max-width".to_owned(),
            CssStyleProperty::MaxHeight(..) => "max-height".to_owned(),
            CssStyleProperty::JustifyContent(..) => "justify-content".to_owned(),
            CssStyleProperty::VerticalAlign(..) => "vertical-align".to_owned(),
            CssStyleProperty::OverflowX(..) => "overflow-x".to_owned(),
            CssStyleProperty::OverflowY(..) => "overflow-y".to_owned(),
            CssStyleProperty::ObjectFit(..) => "object-fit".to_owned(),
            CssStyleProperty::ImageRendering(..) => "image-rendering".to_owned(),
            CssStyleProperty::Opacity(..) => "opacity".to_owned(),
            CssStyleProperty::UnknownProperty(name, _) => name.clone(),
        }
    }
}

impl Clone for CssStyleProperty {
    fn clone(&self) -> (r: Self)
        ensures
            property_eq(*self, r),
    {
        match self {
            CssStyleProperty::Color(x) => CssStyleProperty::Color(x.clone()),
            CssStyleProperty::BackgroundColor(x) => CssStyleProperty::BackgroundColor(x.clone()),
            CssStyleProperty::Width(x) => CssStyleProperty::Width(x.clone()),
            CssStyleProperty::Height(x) => CssStyleProperty::Height(x.clone()),
            CssStyleProperty::Padding(a1, a2, a3, a4) => CssStyleProperty::Padding(
                a1.clone(),
                a2.clone(),
                a3.clone(),
                a4.clone(),
            ),
            CssStyleProperty::Spacing(a1, a2, a3, a4) => CssStyleProperty::Spacing(
                a1.clone(),
                a2.clone(),
                a3.clone(),
                a4.clone(),
            ),
            CssStyleProperty::FontFamily(x) => CssStyleProperty::FontFamily(x.clone()),
            CssStyleProperty::FontSize(x) => CssStyleProperty::FontSize(x.clone()),
            CssStyleProperty::LineHeight(x) => CssStyleProperty::LineHeight(x.clone()),
            CssStyleProperty::WordBreak(x) => CssStyleProperty::WordBreak(x.clone()),
            CssStyleProperty::MaxWidth(x) => CssStyleProperty::MaxWidth(x.clone()),
            CssStyleProperty::MaxHeight(x) => CssStyleProperty::MaxHeight(x.clone()),
            CssStyleProperty::JustifyContent(x) => CssStyleProperty::JustifyContent(x.clone()),
            CssStyleProperty::VerticalAlign(x) => CssStyleProperty::VerticalAlign(x.clone()),
            CssStyleProperty::OverflowX(x) => CssStyleProperty::OverflowX(x.clone()),
            CssStyleProperty::OverflowY(x) => CssStyleProperty::OverflowY(x.clone()),
            CssStyleProperty::ObjectFit(x) => CssStyleProperty::ObjectFit(x.clone()),
            CssStyleProperty::ImageRendering(x) => CssStyleProperty::ImageRendering(x.clone()),
            CssStyleProperty::Opacity(x) => CssStyleProperty::Opacity(x.clone()),
            CssStyleProperty::UnknownProperty(name, groups) => CssStyleProperty::UnknownProperty(
                name.clone(),
                clone_groups(groups),
            ),
        }
    }
}

/// The name `query` names the property `p`, ignoring the case of ASCII letters.
pub open spec fn names_property(query: Seq<char>, p: CssStyleProperty) -> bool {
    ascii_eq_ignore_case_spec(
        vstd::utf8::encode_utf8(query),
        vstd::utf8::encode_utf8(p.spec_prop_name()),
    )
}

/// The position of the last declaration in `props` that sets the property named `query`; -1
/// when none does.
pub open spec fn last_match(props: Seq<(CssStyleProperty, bool)>, query: Seq<char>) -> int
    decreases props.len(),
{
    if props.len() == 0 {
        -1
    } else if names_property(query, props.last().0) {
        props.len() - 1
    } else {
        last_match(props.drop_last(), query)
    }
}

/// A declaration added last is what its property's name evaluates to, in any case of its ASCII
/// letters: it overrides every earlier declaration of that property.
pub proof fn lemma_last_declaration_wins(
    props: Seq<(CssStyleProperty, bool)>,
    declaration: (CssStyleProperty, bool),
    query: Seq<char>,
)
    requires
        names_property(query, declaration.0),
    ensures
        last_match(props.push(declaration), query) == props.len(),
{
    assert(props.push(declaration).last() == declaration);
}

/// A declaration added last leaves what the names of other properties evaluate to unchanged.
pub proof fn lemma_other_declarations_stay(
    props: Seq<(CssStyleProperty, bool)>,
    declaration: (CssStyleProperty, bool),
    query: Seq<char>,
)
    requires
        !names_property(query, declaration.0),
    ensures
        last_match(props.push(declaration), query) == last_match(props, query),
{
    assert(props.push(declaration).drop_last() =~= props);
}

/// Every property is named by its own name.
pub proof fn lemma_property_names_itself(p: CssStyleProperty)
    ensures
        names_property(p.spec_prop_name(), p),
{
}

/// The declarations of a rule, in order, each with whether it is marked `!important`.
#[derive(Debug)]
pub struct CssStyleProperties(pub Vec<(CssStyleProperty, bool)>);

impl CssStyleProperties {
    /// No declaration.
    pub fn new() -> (r: Self)
        ensures
            r.0@.len() == 0,
    {
        CssStyleProperties(Vec::new())
    }

    /// Adds a declaration at the end.
    pub fn push(&mut self, declaration: (CssStyleProperty, bool))
        ensures
            final(self).0@ == old(self).0@.push(declaration),
    {
        self.0.push(declaration);
    }

    /// The number of declarations.
    pub fn len(&self) -> (r: usize)
        ensures
            r == self.0@.len(),
    {
        self.0.len()
    }

    /// The value of the last declaration that sets the property named `prop_name` (ignoring the
    /// case of ASCII letters): a later declaration overrides an earlier one.
    pub fn eval_prop(&self, prop_name: &str) -> (r: Option<CssStyleProperty>)
        ensures
            last_match(self.0@, prop_name@) == -1 <==> r is None,
            r matches Some(p) ==> property_eq(self.0@[last_match(self.0@, prop_name@)].0, p),
    {
        let mut result: Option<CssStyleProperty> = None;
        let mut i: usize = 0;
        while i < self.0.len()
            invariant
                i <= self.0@.len(),
                last_match(self.0@.take(i as int), prop_name@) == -1 <==> result is None,
                result matches Some(p) ==> property_eq(
                    self.0@[last_match(self.0@.take(i as int), prop_name@)].0,
                    p,
                ),
                last_match(self.0@.take(i as int), prop_name@) < i,
            decreases self.0@.len() - i,
        {
            let ghost before = self.0@.take(i as int);
            let ghost after = self.0@.take(i as int + 1);
            assert(after.drop_last() =~= before);
            let (prop, _) = &self.0[i];
            let name = prop.get_prop_name();
            if ascii_eq_ignore_case(prop_name, name.as_str()) {
                result = Some(prop.clone());
            }
            i += 1;
        }
        assert(self.0@.take(i as int) =~= self.0@);
        result
    }
}

/// The two lists of declarations set the same properties, in the same order, equally important.
pub open spec fn declarations_eq(a: Seq<(CssStyleProperty, bool)>, b: Seq<(CssStyleProperty, bool)>) -> bool {
    &&& a.len() == b.len()
    &&& forall|i: int| #![trigger a[i]] 0 <= i < a.len() ==> property_eq(a[i].0, b[i].0) && a[i].1 == b[i].1
}

impl Clone for CssStyleProperties {
    fn clone(&self) -> (r: Self)
        ensures
            declarations_eq(self.0@, r.0@),
    {
        let mut copied: Vec<(CssStyleProperty, bool)> = Vec::new();
        let mut i: usize = 0;
        while i < self.0.len()
            invariant
                i <= self.0@.len(),
                copied@.len() == i,
                forall|k: int|
                    #![trigger self.0@[k]]
                    0 <= k < i ==> property_eq(self.0@[k].0, copied@[k].0) && self.0@[k].1 == copied@[k].1,
            decreases self.0@.len() - i,
        {
            let (prop, important) = &self.0[i];
            copied.push((prop.clone(), *important));
            i += 1;
        }
        CssStyleProperties(copied)
    }
}

impl Default for CssStyleProperties {
    fn default() -> (r: Self)
        ensures
            r.0@.len() == 0,
    {
        CssStyleProperties(Vec::new())
    }
}


/// A declaration printed as CSS, without its importance: the property's name, `: ` and its value
/// (four sides separated by spaces); an unknown property gets a comment that it is not checked.
pub open spec fn property_css(p: CssStyleProperty) -> Seq<char> {
    match p {
        CssStyleProperty::Color(x) => "color: "@ + attr_css(x),
        CssStyleProperty::BackgroundColor(x) => "background-color: "@ + attr_css(x),
        CssStyleProperty::Width(x) => "width: "@ + attr_css(x),
        CssStyleProperty::Height(x) => "height: "@ + attr_css(x),
        CssStyleProperty::Padding(a1, a2, a3, a4) => "padding: "@ + attr_css(a1) + seq![' '] + attr_css(a2)
            + seq![' '] + attr_css(a3) + seq![' '] + attr_css(a4),
        CssStyleProperty::Spacing(a1, a2, a3, a4) => "spacing: "@ + attr_css(a1) + seq![' '] + attr_css(a2)
            + seq![' '] + attr_css(a3) + seq![' '] + attr_css(a4),
        CssStyleProperty::FontFamily(x) => "font-family: "@ + attr_css(x),
        CssStyleProperty::FontSize(x) => "font-size: "@ + attr_css(x),
        CssStyleProperty::LineHeight(x) => "line-height: "@ + attr_css(x),
        CssStyleProperty::WordBreak(x) => "word-break: "@ + attr_css(x),
        CssStyleProperty::MaxWidth(x) => "max-width: "@ + attr_css(x),
        CssStyleProperty::MaxHeight(x) => "max-height: "@ + attr_css(x),
        CssStyleProperty::JustifyContent(x) => "justify-content: "@ + attr_css(x),
        CssStyleProperty::VerticalAlign(x) => "vertical-align: "@ + attr_css(x),
        CssStyleProperty::OverflowX(x) => "overflow-x: "@ + attr_css(x),
        CssStyleProperty::OverflowY(x) => "overflow-y: "@ + attr_css(x),
        CssStyleProperty::ObjectFit(x) => "object-fit: "@ + attr_css(x),
        CssStyleProperty::ImageRendering(x) => "image-rendering: "@ + attr_css(x),
        CssStyleProperty::Opacity(x) => "opacity: "@ + attr_css(x),
        CssStyleProperty::UnknownProperty(name, groups) => name@ + seq![':', ' '] + groups_css(
            groups@,
            groups@.len() as int,
        ) + " /* this prop is unknown and has no validation or guarantees */"@,
    }
}

/// A declaration printed as a line of a rule: indented, marked `!important` if it is, and ended
/// with `;`.
pub open spec fn declaration_css(d: (CssStyleProperty, bool)) -> Seq<char> {
    "    "@ + property_css(d.0) + (if d.1 {
        " !important"@
    } else {
        Seq::empty()
    }) + ";\n"@
}

/// The first `n` declarations printed as the lines of a rule.
pub open spec fn declarations_css(ds: Seq<(CssStyleProperty, bool)>, n: int) -> Seq<char>
    decreases n,
{
    if n <= 0 || n > ds.len() {
        Seq::empty()
    } else {
        declarations_css(ds, n - 1) + declaration_css(ds[n - 1])
    }
}

/// Lists of units that hold the same units print their first `n` units alike.
proof fn lemma_same_group_prints_alike(a: Seq<Unit>, b: Seq<Unit>, n: int)
    requires
        units_eq(a, b),
    ensures
        group_css(a, n) == group_css(b, n),
    decreases n,
{
    if 0 < n <= a.len() {
        lemma_same_units_print_alike(a[n - 1], b[n - 1]);
        if n > 1 {
            lemma_same_group_prints_alike(a, b, n - 1);
        }
    }
}

/// Lists of groups that hold the same units print their first `n` groups alike.
proof fn lemma_same_groups_print_alike(a: Seq<Vec<Unit>>, b: Seq<Vec<Unit>>, n: int)
    requires
        groups_eq(a, b),
    ensures
        groups_css(a, n) == groups_css(b, n),
    decreases n,
{
    if 0 < n <= a.len() {
        assert(units_eq(a[n - 1]@, b[n - 1]@));
        lemma_same_group_prints_alike(a[n - 1]@, b[n - 1]@, a[n - 1]@.len() as int);
        if n > 1 {
            lemma_same_groups_print_alike(a, b, n - 1);
        }
    }
}

/// Properties that are the same print the same CSS.
pub proof fn lemma_same_properties_print_alike(a: CssStyleProperty, b: CssStyleProperty)
    requires
        property_eq(a, b),
    ensures
        property_css(a) == property_css(b),
{
    match (a, b) {
        (CssStyleProperty::Color(x), CssStyleProperty::Color(y)) => lemma_same_values_print_alike(x, y),
        (CssStyleProperty::BackgroundColor(x), CssStyleProperty::BackgroundColor(y)) =>
            lemma_same_values_print_alike(x, y),
        (CssStyleProperty::Width(x), CssStyleProperty::Width(y)) => lemma_same_values_print_alike(x, y),
        (CssStyleProperty::Height(x), CssStyleProperty::Height(y)) => lemma_same_values_print_alike(x, y),
        (CssStyleProperty::Padding(a1, a2, a3, a4), CssStyleProperty::Padding(b1, b2, b3, b4)) => {
            lemma_same_values_print_alike(a1, b1);
            lemma_same_values_print_alike(a2, b2);
            lemma_same_values_print_alike(a3, b3);
            lemma_same_values_print_alike(a4, b4);
        },
        (CssStyleProperty::Spacing(a1, a2, a3, a4), CssStyleProperty::Spacing(b1, b2, b3, b4)) => {
            lemma_same_values_print_alike(a1, b1);
            lemma_same_values_print_alike(a2, b2);
            lemma_same_values_print_alike(a3, b3);
            lemma_same_values_print_alike(a4, b4);
        },
        (CssStyleProperty::FontFamily(x), CssStyleProperty::FontFamily(y)) => lemma_same_values_print_alike(x, y),
        (CssStyleProperty::FontSize(x), CssStyleProperty::FontSize(y)) => lemma_same_values_print_alike(x, y),
        (CssStyleProperty::LineHeight(x), CssStyleProperty::LineHeight(y)) => lemma_same_values_print_alike(x, y),
        (CssStyleProperty::WordBreak(x), CssStyleProperty::WordBreak(y)) => lemma_same_values_print_alike(x, y),
        (CssStyleProperty::MaxWidth(x), CssStyleProperty::MaxWidth(y)) => lemma_same_values_print_alike(x, y),
        (CssStyleProperty::MaxHeight(x), CssStyleProperty::MaxHeight(y)) => lemma_same_values_print_alike(x, y),
        (CssStyleProperty::JustifyContent(x), CssStyleProperty::JustifyContent(y)) =>
            lemma_same_values_print_alike(x, y),
        (CssStyleProperty::VerticalAlign(x), CssStyleProperty::VerticalAlign(y)) =>
            lemma_same_values_print_alike(x, y),
        (CssStyleProperty::OverflowX(x), CssStyleProperty::OverflowX(y)) => lemma_same_values_print_alike(x, y),
        (CssStyleProperty::OverflowY(x), CssStyleProperty::OverflowY(y)) => lemma_same_values_print_alike(x, y),
        (CssStyleProperty::ObjectFit(x), CssStyleProperty::ObjectFit(y)) => lemma_same_values_print_alike(x, y),
        (CssStyleProperty::ImageRendering(x), CssStyleProperty::ImageRendering(y)) =>
            lemma_same_values_print_alike(x, y),
        (CssStyleProperty::Opacity(x), CssStyleProperty::Opacity(y)) => lemma_same_values_print_alike(x, y),
        (CssStyleProperty::UnknownProperty(_, g), CssStyleProperty::UnknownProperty(_, g2)) =>
            lemma_same_groups_print_alike(g@, g2@, g@.len() as int),
        _ => {},
    }
}

/// A copy of a list of declarations prints as the list does: lists that set the same properties,
/// in the same order and equally important, print their first `n` declarations alike.
pub proof fn lemma_copies_print_alike(
    a: Seq<(CssStyleProperty, bool)>,
    b: Seq<(CssStyleProperty, bool)>,
    n: int,
)
    requires
        declarations_eq(a, b),
    ensures
        declarations_css(a, n) == declarations_css(b, n),
    decreases n,
{
    if 0 < n <= a.len() {
        assert(property_eq(a[n - 1].0, b[n - 1].0) && a[n - 1].1 == b[n - 1].1);
        lemma_same_properties_print_alike(a[n - 1].0, b[n - 1].0);
        lemma_copies_print_alike(a, b, n - 1);
    }
}

/// A property is named as it is printed: its CSS text is its name, `: ` and its value, so
/// looking a property up by name finds it by the name it is written with.
pub proof fn lemma_property_named_as_printed(p: CssStyleProperty)
    ensures
        property_css(p) == p.spec_prop_name() + ": "@ + property_css(p).skip(p.spec_prop_name().len() + 2int),
{
    reveal_strlit(": ");
    assert(": "@ =~= seq![':', ' ']);
    match p {
        CssStyleProperty::Color(..) => {
            reveal_strlit("color");
            reveal_strlit("color: ");
            assert("color: "@ =~= "color"@ + ": "@);
        },
        CssStyleProperty::BackgroundColor(..) => {
            reveal_strlit("background-color");
            reveal_strlit("background-color: ");
            assert("background-color: "@ =~= "background-color"@ + ": "@);
        },
        CssStyleProperty::Width(..) => {
            reveal_strlit("width");
            reveal_strlit("width: ");
            assert("width: "@ =~= "width"@ + ": "@);
        },
        CssStyleProperty::Height(..) => {
            reveal_strlit("height");
            reveal_strlit("height: ");
            assert("height: "@ =~= "height"@ + ": "@);
        },
        CssStyleProperty::Padding(..) => {
            reveal_strlit("padding");
            reveal_strlit("padding: ");
            assert("padding: "@ =~= "padding"@ + ": "@);
        },
        CssStyleProperty::Spacing(..) => {
            reveal_strlit("spacing");
            reveal_strlit("spacing: ");
            assert("spacing: "@ =~= "spacing"@ + ": "@);
        },
        CssStyleProperty::FontFamily(..) => {
            reveal_strlit("font-family");
            reveal_strlit("font-family: ");
            assert("font-family: "@ =~= "font-family"@ + ": "@);
        },
        CssStyleProperty::FontSize(..) => {
            reveal_strlit("font-size");
            reveal_strlit("font-size: ");
            assert("font-size: "@ =~= "font-size"@ + ": "@);
        },
        CssStyleProperty::LineHeight(..) => {
            reveal_strlit("line-height");
            reveal_strlit("line-height: ");
            assert("line-height: "@ =~= "line-height"@ + ": "@);
        },
        CssStyleProperty::WordBreak(..) => {
            reveal_strlit("word-break");
            reveal_strlit("word-break: ");
            assert("word-break: "@ =~= "word-break"@ + ": "@);
        },
        CssStyleProperty::MaxWidth(..) => {
            reveal_strlit("max-width");
            reveal_strlit("max-width: ");
            assert("max-width: "@ =~= "max-width"@ + ": "@);
        },
        CssStyleProperty::MaxHeight(..) => {
            reveal_strlit("max-height");
            reveal_strlit("max-height: ");
            assert("max-height: "@ =~= "max-height"@ + ": "@);
        },
        CssStyleProperty::JustifyContent(..) => {
            reveal_strlit("justify-content");
            reveal_strlit("justify-content: ");
            assert("justify-content: "@ =~= "justify-content"@ + ": "@);
        },
        CssStyleProperty::VerticalAlign(..) => {
            reveal_strlit("vertical-align");
            reveal_strlit("vertical-align: ");
            assert("vertical-align: "@ =~= "vertical-align"@ + ": "@);
        },
        CssStyleProperty::OverflowX(..) => {
            reveal_strlit("overflow-x");
            reveal_strlit("overflow-x: ");
            assert("overflow-x: "@ =~= "overflow-x"@ + ": "@);
        },
        CssStyleProperty::OverflowY(..) => {
            reveal_strlit("overflow-y");
            reveal_strlit("overflow-y: ");
            assert("overflow-y: "@ =~= "overflow-y"@ + ": "@);
        },
        CssStyleProperty::ObjectFit(..) => {
            reveal_strlit("object-fit");
            reveal_strlit("object-fit: ");
            assert("object-fit: "@ =~= "object-fit"@ + ": "@);
        },
        CssStyleProperty::ImageRendering(..) => {
            reveal_strlit("image-rendering");
            reveal_strlit("image-rendering: ");
            assert("image-rendering: "@ =~= "image-rendering"@ + ": "@);
        },
        CssStyleProperty::Opacity(..) => {
            reveal_strlit("opacity");
            reveal_strlit("opacity: ");
            assert("opacity: "@ =~= "opacity"@ + ": "@);
        },
        CssStyleProperty::UnknownProperty(..) => {},
    }
    assert(property_css(p) =~= p.spec_prop_name() + ": "@ + property_css(p).skip(p.spec_prop_name().len() + 2int));
}

impl CssStyleProperty {
    /// The declaration printed as CSS, without its importance.
    pub fn to_css_string(&self) -> (r: String)
        ensures
            r@ == property_css(*self),
    {
        proof {
            reveal_strlit(" ");
            assert(" "@ =~= seq![' ']);
            reveal_strlit(": ");
            assert(": "@ =~= seq![':', ' ']);
        }
        match self {
            CssStyleProperty::Color(x) => {
                let mut r = "color: ".to_owned();
                r.append(x.to_css_string().as_str());
                r
            },
            CssStyleProperty::BackgroundColor(x) => {
                let mut r = "background-color: ".to_owned();
                r.append(x.to_css_string().as_str());
                r
            },
            CssStyleProperty::Width(x) => {
                let mut r = "width: ".to_owned();
                r.append(x.to_css_string().as_str());
                r
            },
            CssStyleProperty::Height(x) => {
                let mut r = "height: ".to_owned();
                r.append(x.to_css_string().as_str());
                r
            },
            CssStyleProperty::Padding(a1, a2, a3, a4) => {
                let mut r = "padding: ".to_owned();
                r.append(a1.to_css_string().as_str());
                r.append(" ");
                r.append(a2.to_css_string().as_str());
                r.append(" ");
                r.append(a3.to_css_string().as_str());
                r.append(" ");
                r.append(a4.to_css_string().as_str());
                r
            },
            CssStyleProperty::Spacing(a1, a2, a3, a4) => {
                let mut r = "spacing: ".to_owned();
                r.append(a1.to_css_string().as_str());
                r.append(" ");
                r.append(a2.to_css_string().as_str());
                r.append(" ");
                r.append(a3.to_css_string().as_str());
                r.append(" ");
                r.append(a4.to_css_string().as_str());
                r
            },
            CssStyleProperty::FontFamily(x) => {
                let mut r = "font-family: ".to_owned();
                r.append(x.to_css_string().as_str());
                r
            },
            CssStyleProperty::FontSize(x) => {
                let mut r = "font-size: ".to_owned();
                r.append(x.to_css_string().as_str());
                r
            },
            CssStyleProperty::LineHeight(x) => {
                let mut r = "line-height: ".to_owned();
                r.append(x.to_css_string().as_str());
                r
            },
            CssStyleProperty::WordBreak(x) => {
                let mut r = "word-break: ".to_owned();
                r.append(x.to_css_string().as_str());
                r
            },
            CssStyleProperty::MaxWidth(x) => {
                let mut r = "max-width: ".to_owned();
                r.append(x.to_css_string().as_str());
                r
            },
            CssStyleProperty::MaxHeight(x) => {
                let mut r = "max-height: ".to_owned();
                r.append(x.to_css_string().as_str());
                r
            },
            CssStyleProperty::JustifyContent(x) => {
                let mut r = "justify-content: ".to_owned();
                r.append(x.to_css_string().as_str());
                r
            },
            CssStyleProperty::VerticalAlign(x) => {
                let mut r = "vertical-align: ".to_owned();
                r.append(x.to_css_string().as_str());
                r
            },
            CssStyleProperty::OverflowX(x) => {
                let mut r = "overflow-x: ".to_owned();
                r.append(x.to_css_string().as_str());
                r
            },
            CssStyleProperty::OverflowY(x) => {
                let mut r = "overflow-y: ".to_owned();
                r.append(x.to_css_string().as_str());
                r
            },
            CssStyleProperty::ObjectFit(x) => {
                let mut r = "object-fit: ".to_owned();
                r.append(x.to_css_string().as_str());
                r
            },
            CssStyleProperty::ImageRendering(x) => {
                let mut r = "image-rendering: ".to_owned();
                r.append(x.to_css_string().as_str());
                r
            },
            CssStyleProperty::Opacity(x) => {
                let mut r = "opacity: ".to_owned();
                r.append(x.to_css_string().as_str());
                r
            },
            CssStyleProperty::UnknownProperty(name, groups) => {
                let mut r = name.clone();
                r.append(": ");
                r.append(groups_to_css_string(groups).as_str());
                r.append(" /* this prop is unknown and has no validation or guarantees */");
                r
            },
        }
    }
}

impl CssStyleProperties {
    /// The declarations printed as the lines of a rule, in order.
    pub fn to_css_string(&self) -> (r: String)
        ensures
            r@ == declarations_css(self.0@, self.0@.len() as int),
    {
        let mut r = String::new();
        let mut i: usize = 0;
        while i < self.0.len()
            invariant
                i <= self.0@.len(),
                r@ == declarations_css(self.0@, i as int),
            decreases self.0@.len() - i,
        {
            let ghost before = r@;
            let (item, important) = &self.0[i];
            r.append("    ");
            r.append(item.to_css_string().as_str());
            if *important {
                r.append(" !important");
            }
            r.append(";\n");
            proof {
                assert(r@ =~= before + declaration_css(self.0@[i as int]));
            }
            i += 1;
        }
        r
    }
}

} // verus!

