use peacock_crest::rules::CssRule;
use peacock_crest::source::{parse_source, ParserToken, SourceInfo, SourceSlice, TokenEvent};
use peacock_crest::style::prop_validation::color::KeywordColor;
use peacock_crest::style::prop_validation::types::{CssColor, CssPadding, CssWidth, KeywordGlobal};
use peacock_crest::style::prop_validation::{parse, CssAttributeValue, CssStyleAttribute};
use peacock_crest::style::properties::{CssStyleProperties, CssStyleProperty};
use peacock_crest::style::{read_single, CssStyleValueExpector};
use peacock_crest::syntax::{CssExpectError, CssTokenTracker};
use peacock_crest::unit::{Dimension, Length, Unit};

struct Node {
    rule: CssRule,
    start: usize,
    end: usize,
    kids: Vec<Node>,
}

fn n(rule: CssRule, start: usize, end: usize, kids: Vec<Node>) -> Node {
    Node { rule, start, end, kids }
}

fn walk(node: &Node, out: &mut Vec<TokenEvent<CssRule>>) {
    out.push(TokenEvent::Start { rule: node.rule, pos: node.start });
    for kid in node.kids.iter() {
        walk(kid, out);
    }
    out.push(TokenEvent::End { rule: node.rule, pos: node.end });
}

fn tree<'a>(info: &'a SourceInfo, node: &Node) -> ParserToken<'a, CssRule> {
    let mut events = Vec::new();
    walk(node, &mut events);
    parse_source(info, &events).unwrap()
}

fn name_slice<'a>(info: &'a SourceInfo, len: usize) -> SourceSlice<'a> {
    info.location_from_idx(0).slice(&info.location_from_idx(len))
}

/// Declaration groups with one group holding one component value made of `value`.
fn one_value(len: usize, value: Node) -> Node {
    n(
        CssRule::DECLARATION_GROUPS,
        0,
        len,
        vec![n(
            CssRule::DECLARATION_GROUP,
            0,
            len,
            vec![n(CssRule::DECLARATION_VALUE, 0, len, vec![n(CssRule::COMPONENT_VALUE, 0, len, vec![value])])],
        )],
    )
}

fn dimension(start: usize, split: usize, end: usize) -> Node {
    n(
        CssRule::DIMENSION,
        start,
        end,
        vec![n(CssRule::NUMBER, start, split, vec![]), n(CssRule::IDENT, split, end, vec![])],
    )
}

#[test]
fn width_reads_a_dimension() {
    let value_info = SourceInfo::new("48em");
    let name_info = SourceInfo::new("width");
    let groups = tree(&value_info, &one_value(4, dimension(0, 2, 4)));
    let attrs = CssTokenTracker::parse_style_attr(name_slice(&name_info, 5), &groups).unwrap();
    assert_eq!(attrs.len(), 1);
    match &attrs[0] {
        CssStyleAttribute::Width(CssAttributeValue::Value(Unit::Dimension(Dimension::Length(Length::Em(num))))) => {
            assert_eq!(num.text, "48")
        },
        other => panic!("unexpected {other:?}"),
    }
    assert_eq!(attrs[0].to_css_string(), "48em");
}

#[test]
fn color_reads_keywords_globals_hashes_and_unknown_names() {
    let name_info = SourceInfo::new("color");
    let red_info = SourceInfo::new("red");
    let red = tree(&red_info, &one_value(3, n(CssRule::IDENT, 0, 3, vec![])));
    let attrs = CssTokenTracker::parse_style_attr(name_slice(&name_info, 5), &red).unwrap();
    assert!(matches!(&attrs[0], CssStyleAttribute::Color(CssAttributeValue::Keyword(KeywordColor::Red))));
    let inherit_info = SourceInfo::new("inherit");
    let inherit = tree(&inherit_info, &one_value(7, n(CssRule::IDENT, 0, 7, vec![])));
    let attrs = CssTokenTracker::parse_style_attr(name_slice(&name_info, 5), &inherit).unwrap();
    assert!(matches!(&attrs[0], CssStyleAttribute::Color(CssAttributeValue::Global(KeywordGlobal::Inherit))));
    let hash_info = SourceInfo::new("#fff");
    let hash = tree(&hash_info, &one_value(4, n(CssRule::HASH, 0, 4, vec![])));
    let attrs = CssTokenTracker::parse_style_attr(name_slice(&name_info, 5), &hash).unwrap();
    assert!(matches!(&attrs[0], CssStyleAttribute::Color(CssAttributeValue::Value(Unit::Hash(h))) if h.0 == "fff"));
    let odd_info = SourceInfo::new("bluish");
    let odd = tree(&odd_info, &one_value(6, n(CssRule::IDENT, 0, 6, vec![])));
    let attrs = CssTokenTracker::parse_style_attr(name_slice(&name_info, 5), &odd).unwrap();
    assert!(matches!(&attrs[0], CssStyleAttribute::Color(CssAttributeValue::Value(Unit::UnknownIdent(s))) if s == "bluish"));
}

#[test]
fn a_value_of_the_wrong_kind_is_refused() {
    let name_info = SourceInfo::new("width");
    let value_info = SourceInfo::new("10%");
    let groups = tree(&value_info, &one_value(3, n(CssRule::PERCENTAGE, 0, 3, vec![])));
    match CssTokenTracker::parse_style_attr(name_slice(&name_info, 5), &groups) {
        Err(CssExpectError::InvalidAttributeValue(location, message)) => {
            assert_eq!(location.idx, 0);
            assert!(message.contains("CssWidth"));
            assert!(message.contains("PERCENTAGE"));
            assert!(message.contains("10%"));
        },
        other => panic!("unexpected {other:?}"),
    }
}

#[test]
fn properties_not_read_yet_are_refused_by_name() {
    let name_info = SourceInfo::new("font-family");
    let value_info = SourceInfo::new("serif");
    let groups = tree(&value_info, &one_value(5, n(CssRule::IDENT, 0, 5, vec![])));
    match CssTokenTracker::parse_style_attr(name_slice(&name_info, 11), &groups) {
        Err(CssExpectError::InvalidStyleAttrName(name)) => assert_eq!(name.get(), "font-family"),
        other => panic!("unexpected {other:?}"),
    }
}

#[test]
fn unknown_properties_keep_their_units_by_group() {
    let name_info = SourceInfo::new("margin");
    let value_info = SourceInfo::new("1px auto/x");
    let groups = n(
        CssRule::DECLARATION_GROUPS,
        0,
        10,
        vec![
            n(
                CssRule::DECLARATION_GROUP,
                0,
                8,
                vec![
                    n(CssRule::DECLARATION_VALUE, 0, 3, vec![n(CssRule::COMPONENT_VALUE, 0, 3, vec![dimension(0, 1, 3)])]),
                    n(CssRule::DECLARATION_VALUE, 4, 8, vec![n(CssRule::COMPONENT_VALUE, 4, 8, vec![n(CssRule::IDENT, 4, 8, vec![])])]),
                    n(CssRule::DECLARATION_SHORTHAND, 8, 9, vec![]),
                ],
            ),
            n(
                CssRule::DECLARATION_GROUP,
                9,
                10,
                vec![n(CssRule::DECLARATION_VALUE, 9, 10, vec![n(CssRule::COMPONENT_VALUE, 9, 10, vec![n(CssRule::IDENT, 9, 10, vec![])])])],
            ),
        ],
    );
    let groups = tree(&value_info, &groups);
    let attrs = CssTokenTracker::parse_style_attr(name_slice(&name_info, 6), &groups).unwrap();
    match &attrs[0] {
        CssStyleAttribute::UnknownProperty(name, units) => {
            assert_eq!(name, "margin");
            assert_eq!(units.len(), 2);
            assert_eq!(units[0].len(), 2);
            assert_eq!(units[1].len(), 1);
        },
        other => panic!("unexpected {other:?}"),
    }
    assert_eq!(attrs[0].to_css_string(), "margin: 1px auto, x");
}

#[test]
fn an_unknown_property_reports_its_first_unreadable_value() {
    let name_info = SourceInfo::new("margin");
    let value_info = SourceInfo::new("2zz, (x)");
    let groups = n(
        CssRule::DECLARATION_GROUPS,
        0,
        8,
        vec![
            n(
                CssRule::DECLARATION_GROUP,
                0,
                3,
                vec![n(CssRule::DECLARATION_VALUE, 0, 3, vec![n(CssRule::COMPONENT_VALUE, 0, 3, vec![dimension(0, 1, 3)])])],
            ),
            n(
                CssRule::DECLARATION_GROUP,
                5,
                8,
                vec![n(CssRule::DECLARATION_VALUE, 5, 8, vec![n(CssRule::COMPONENT_VALUE, 5, 8, vec![n(CssRule::SIMPLE_BLOCK, 5, 8, vec![])])])],
            ),
        ],
    );
    let groups = tree(&value_info, &groups);
    match CssTokenTracker::parse_style_attr(name_slice(&name_info, 6), &groups) {
        Err(CssExpectError::UnknownDimensionUnit(unit)) => assert_eq!(unit.get(), "zz"),
        other => panic!("unexpected {other:?}"),
    }
    let block_only = tree(&value_info, &one_value(8, n(CssRule::SIMPLE_BLOCK, 5, 8, vec![])));
    assert!(matches!(
        CssTokenTracker::parse_style_attr(name_slice(&name_info, 6), &block_only),
        Err(CssExpectError::Unsupported(CssRule::SIMPLE_BLOCK))
    ));
    let empty_value = n(
        CssRule::DECLARATION_GROUPS,
        0,
        8,
        vec![n(CssRule::DECLARATION_GROUP, 0, 8, vec![n(CssRule::DECLARATION_VALUE, 0, 8, vec![])])],
    );
    let empty_value = tree(&value_info, &empty_value);
    assert!(matches!(
        CssTokenTracker::parse_style_attr(name_slice(&name_info, 6), &empty_value),
        Err(CssExpectError::MalformedToken(CssRule::DECLARATION_VALUE))
    ));
}

#[test]
fn padding_spreads_one_value_over_four_sides() {
    let name_info = SourceInfo::new("padding");
    let value_info = SourceInfo::new("1px");
    let groups = tree(&value_info, &one_value(3, dimension(0, 1, 3)));
    let attrs = CssTokenTracker::parse_style_attr(name_slice(&name_info, 7), &groups).unwrap();
    assert_eq!(attrs.len(), 1);
    let property = CssStyleProperty::from_attribute_values(attrs).unwrap();
    assert_eq!(property.to_css_string(), "padding: 1px 1px 1px 1px");
    assert_eq!(property.get_prop_name(), "padding");
}

fn px(v: &str) -> CssAttributeValue<CssPadding> {
    CssAttributeValue::Value(Unit::Dimension(Dimension::Length(Length::Px(peacock_crest::unit::CssNumber::new(v)))))
}

#[test]
fn sides_follow_the_css_shorthand() {
    let two = vec![CssStyleAttribute::Padding(px("1")), CssStyleAttribute::Padding(px("2"))];
    assert_eq!(CssStyleProperty::from_attribute_values(two).unwrap().to_css_string(), "padding: 1px 2px 1px 2px");
    let three = vec![
        CssStyleAttribute::Padding(px("1")),
        CssStyleAttribute::Padding(px("2")),
        CssStyleAttribute::Padding(px("3")),
    ];
    assert_eq!(CssStyleProperty::from_attribute_values(three).unwrap().to_css_string(), "padding: 1px 2px 3px 2px");
    let four = vec![
        CssStyleAttribute::Padding(px("1")),
        CssStyleAttribute::Padding(px("2")),
        CssStyleAttribute::Padding(px("3")),
        CssStyleAttribute::Padding(px("4")),
    ];
    assert_eq!(CssStyleProperty::from_attribute_values(four).unwrap().to_css_string(), "padding: 1px 2px 3px 4px");
    let five = vec![
        CssStyleAttribute::Padding(px("1")),
        CssStyleAttribute::Padding(px("2")),
        CssStyleAttribute::Padding(px("3")),
        CssStyleAttribute::Padding(px("4")),
        CssStyleAttribute::Padding(px("5")),
    ];
    assert!(CssStyleProperty::from_attribute_values(five).is_none());
    let mixed = vec![CssStyleAttribute::Padding(px("1")), CssStyleAttribute::Color(CssAttributeValue::Keyword(KeywordColor::Red))];
    assert!(CssStyleProperty::from_attribute_values(mixed).is_none());
    let top = vec![CssStyleAttribute::Top(CssAttributeValue::Global(KeywordGlobal::Unset))];
    assert!(CssStyleProperty::from_attribute_values(top).is_none());
    assert!(CssStyleProperty::from_attribute_values(vec![]).is_none());
}

#[test]
fn the_last_declaration_of_a_property_wins() {
    let mut props = CssStyleProperties::new();
    props.push((CssStyleProperty::Color(CssAttributeValue::Keyword(KeywordColor::Red)), false));
    props.push((CssStyleProperty::UnknownProperty("margin".to_string(), vec![]), false));
    props.push((CssStyleProperty::Color(CssAttributeValue::Keyword(KeywordColor::Blue)), true));
    assert_eq!(props.len(), 3);
    let color = props.eval_prop("COLOR").unwrap();
    assert!(matches!(color, CssStyleProperty::Color(CssAttributeValue::Keyword(KeywordColor::Blue))));
    assert!(props.eval_prop("width").is_none());
    assert!(props.eval_prop("Margin").is_some());
    assert_eq!(
        props.to_css_string(),
        "    color: red;\n    margin:  /* this prop is unknown and has no validation or guarantees */;\n    color: blue !important;\n"
    );
    let copy = props.clone();
    assert_eq!(copy.to_css_string(), props.to_css_string());
    assert_eq!(CssStyleProperties::default().len(), 0);
}

#[test]
fn the_value_expector_reports_the_first_error() {
    let value_info = SourceInfo::new("1px");
    let groups = tree(&value_info, &one_value(3, dimension(0, 1, 3)));
    let mut expector = CssStyleValueExpector::new(&groups).unwrap();
    expector.expect::<CssPadding>();
    expector.expect::<CssPadding>();
    match expector.resolve() {
        Err(CssExpectError::TooFewTokens(s)) => assert_eq!(s, "DECLARATION_VALUES"),
        other => panic!("unexpected {other:?}"),
    }
    let mut expector = CssStyleValueExpector::new(&groups).unwrap();
    expector.expect::<CssPadding>();
    expector.optional::<CssPadding>();
    let values = expector.resolve().unwrap();
    assert_eq!(values.len(), 1);
    let not_groups = tree(&value_info, &n(CssRule::DECLARATION, 0, 3, vec![]));
    assert!(matches!(
        CssStyleValueExpector::new(&not_groups),
        Err(CssExpectError::FailedExpectation(CssRule::DECLARATION, CssRule::DECLARATION_GROUPS))
    ));
    let empty_groups = tree(&value_info, &n(CssRule::DECLARATION_GROUPS, 0, 3, vec![]));
    assert!(matches!(
        CssStyleValueExpector::new(&empty_groups),
        Err(CssExpectError::MalformedToken(CssRule::DECLARATION_GROUPS))
    ));
    assert!(read_single::<CssColor>(&empty_groups).is_err());
}

#[test]
fn values_are_read_by_their_type() {
    let info = SourceInfo::new("5");
    let number = tree(&info, &n(CssRule::COMPONENT_VALUE, 0, 1, vec![n(CssRule::NUMBER, 0, 1, vec![])]));
    let mut tracker = CssTokenTracker::new(&number).unwrap();
    assert!(parse::<CssWidth>(&mut tracker).is_err());
    let mut tracker = CssTokenTracker::new(&number).unwrap();
    match parse::<peacock_crest::style::prop_validation::types::CssLineHeight>(&mut tracker) {
        Ok(CssAttributeValue::Value(Unit::Number(num))) => assert_eq!(num.text, "5"),
        other => panic!("unexpected {other:?}"),
    }
    assert!(!tracker.is_empty());
}
