use peacock_crest::rules::{CssRule, SelectorRule};
use peacock_crest::selector::{
    chain, SelectorAttributeType, SelectorCombinator, SelectorExpectError, SelectorNode,
    SelectorNodeType, SelectorParser, SelectorTokenTracker,
};
use peacock_crest::source::{parse_source, ParserToken, SourceInfo, TokenEvent};
use peacock_crest::style::prop_validation::color::KeywordColor;
use peacock_crest::style::prop_validation::CssAttributeValue;
use peacock_crest::style::properties::CssStyleProperty;
use peacock_crest::style::{AtRule, Stylesheet};
use peacock_crest::syntax::{CssExpectError, CssTokenTracker};
use peacock_crest::unit::{Dimension, Length, Unit};

struct Node<R> {
    rule: R,
    start: usize,
    end: usize,
    kids: Vec<Node<R>>,
}

fn n<R>(rule: R, start: usize, end: usize, kids: Vec<Node<R>>) -> Node<R> {
    Node { rule, start, end, kids }
}

fn walk<R: Copy>(node: &Node<R>, out: &mut Vec<TokenEvent<R>>) {
    out.push(TokenEvent::Start { rule: node.rule, pos: node.start });
    for kid in node.kids.iter() {
        walk(kid, out);
    }
    out.push(TokenEvent::End { rule: node.rule, pos: node.end });
}

fn events<R: Copy>(node: &Node<R>) -> Vec<TokenEvent<R>> {
    let mut out = Vec::new();
    walk(node, &mut out);
    out
}

fn tree<'a, R: Copy>(info: &'a SourceInfo, node: &Node<R>) -> ParserToken<'a, R> {
    parse_source(info, &events(node)).unwrap()
}

fn type_compound(start: usize, end: usize) -> Node<SelectorRule> {
    n(
        SelectorRule::SELECTOR_COMPOUND,
        start,
        end,
        vec![n(
            SelectorRule::SELECTOR_TYPE,
            start,
            end,
            vec![n(SelectorRule::WQ_NAME, start, end, vec![n(SelectorRule::IDENT, start, end, vec![])])],
        )],
    )
}

fn list(len: usize, complex: Vec<Node<SelectorRule>>) -> Node<SelectorRule> {
    n(
        SelectorRule::SELECTOR_LIST,
        0,
        len,
        vec![n(SelectorRule::SELECTOR_COMPLEX_LIST, 0, len, complex)],
    )
}

fn child_selector(kind: SelectorRule) -> Node<SelectorRule> {
    list(
        7,
        vec![n(
            SelectorRule::SELECTOR_COMPLEX,
            0,
            7,
            vec![
                type_compound(0, 3),
                n(SelectorRule::SELECTOR_COMBINATOR, 3, 6, vec![n(kind, 4, 5, vec![])]),
                type_compound(6, 7),
            ],
        )],
    )
}

#[test]
fn a_child_selector_is_read_and_printed() {
    let info = SourceInfo::new("div > p");
    let selectors = SelectorNode::from_source(&info, &events(&child_selector(SelectorRule::SELECTOR_COMBINATOR__CHILD))).unwrap();
    assert_eq!(selectors.len(), 1);
    assert_eq!(selectors[0].0.len(), 2);
    assert!(matches!(&selectors[0].0[0], SelectorNodeType::TypeName(t) if t == "div"));
    assert!(matches!(&selectors[0].0[1], SelectorNodeType::Child(_)));
    assert_eq!(selectors[0].to_css_string(), "div > p");
}

#[test]
fn a_column_combinator_is_not_read_yet() {
    let info = SourceInfo::new("div ||p");
    let selectors = SelectorNode::from_source(&info, &events(&child_selector(SelectorRule::SELECTOR_COMBINATOR__COLUMN)));
    assert!(matches!(selectors, Err(SelectorExpectError::Unsupported(SelectorRule::SELECTOR_COMBINATOR__COLUMN))));
}

#[test]
fn an_unknown_combinator_ends_the_list() {
    let info = SourceInfo::new("div ? p");
    let shape = child_selector(SelectorRule::IDENT);
    let selectors = SelectorNode::from_source(&info, &events(&shape)).unwrap();
    assert!(selectors.is_empty());
    let root = tree(&info, &shape);
    let complex_list = &root.get_children().unwrap()[0];
    let mut tracker = SelectorTokenTracker::new(complex_list).unwrap();
    assert!(matches!(tracker.expect_complex(), Err(SelectorExpectError::InvalidCombinator(SelectorRule::IDENT))));
}

#[test]
fn a_broken_walk_is_a_parse_error() {
    let info = SourceInfo::new("p");
    assert!(matches!(SelectorNode::from_source(&info, &vec![]), Err(SelectorExpectError::ParseError(_))));
}

#[test]
fn a_compound_selector_keeps_every_part_in_order() {
    let info = SourceInfo::new("a.b#c[d=\"e\" s]:f");
    let compound = n(
        SelectorRule::SELECTOR_COMPOUND,
        0,
        16,
        vec![
            n(SelectorRule::SELECTOR_TYPE, 0, 1, vec![n(SelectorRule::WQ_NAME, 0, 1, vec![n(SelectorRule::IDENT, 0, 1, vec![])])]),
            n(SelectorRule::SELECTOR_SUBCLASS, 1, 3, vec![n(SelectorRule::SELECTOR_CLASS, 1, 3, vec![n(SelectorRule::IDENT, 2, 3, vec![])])]),
            n(SelectorRule::SELECTOR_SUBCLASS, 3, 5, vec![n(SelectorRule::SELECTOR_ID, 3, 5, vec![n(SelectorRule::HASH, 3, 5, vec![])])]),
            n(
                SelectorRule::SELECTOR_SUBCLASS,
                5,
                14,
                vec![n(
                    SelectorRule::SELECTOR_ATTRIBUTE,
                    5,
                    14,
                    vec![
                        n(SelectorRule::IDENT, 6, 7, vec![]),
                        n(
                            SelectorRule::ATTR_MATCHER,
                            7,
                            11,
                            vec![n(SelectorRule::ATTR_MATCHER__EXACT_MATCH, 7, 8, vec![]), n(SelectorRule::STRING, 8, 11, vec![])],
                        ),
                        n(SelectorRule::ATTR_MODIFIER, 12, 13, vec![]),
                    ],
                )],
            ),
            n(SelectorRule::SELECTOR_SUBCLASS, 14, 16, vec![n(SelectorRule::SELECTOR_PSEUDOCLASS, 14, 16, vec![n(SelectorRule::IDENT, 15, 16, vec![])])]),
        ],
    );
    let root = tree(&info, &n(SelectorRule::SELECTOR, 0, 16, vec![compound]));
    let mut tracker = SelectorTokenTracker::new(&root).unwrap();
    let node = tracker.expect_compound().unwrap();
    assert_eq!(node.0.len(), 5);
    assert!(matches!(&node.0[1], SelectorNodeType::Class(c) if c == "b"));
    assert!(matches!(&node.0[2], SelectorNodeType::Id(c) if c == "c"));
    match &node.0[3] {
        SelectorNodeType::Attribute { name, attr_matcher: SelectorAttributeType::ExactMatch(v), case_sensitive } => {
            assert_eq!(name, "d");
            assert_eq!(v, "e");
            assert!(*case_sensitive);
        },
        other => panic!("unexpected {other:?}"),
    }
    assert_eq!(node.to_css_string(), "a.b#c[d=\"e\"]:f");
    assert_eq!(tracker.len(), 0);
    assert!(!tracker.is_empty());
}

#[test]
fn a_type_selector_without_a_name_is_universal() {
    let info = SourceInfo::new("*");
    let compound = n(SelectorRule::SELECTOR_COMPOUND, 0, 1, vec![n(SelectorRule::SELECTOR_TYPE, 0, 1, vec![])]);
    let root = tree(&info, &n(SelectorRule::SELECTOR, 0, 1, vec![compound]));
    let mut tracker = SelectorTokenTracker::new(&root).unwrap();
    let node = tracker.expect_compound().unwrap();
    assert!(matches!(node.0[0], SelectorNodeType::Universal));
    assert_eq!(node.to_css_string(), "*");
}

#[test]
fn the_wrong_token_is_refused_and_given_back() {
    let info = SourceInfo::new("p");
    let root = tree(&info, &n(SelectorRule::SELECTOR, 0, 1, vec![n(SelectorRule::IDENT, 0, 1, vec![])]));
    let mut tracker = SelectorTokenTracker::new(&root).unwrap();
    assert!(matches!(
        tracker.expect_compound(),
        Err(SelectorExpectError::FailedExpectation(SelectorRule::IDENT, SelectorRule::SELECTOR_COMPOUND))
    ));
    assert!(tracker.expect_identifier().is_ok());
    match tracker.expect_identifier() {
        Err(SelectorExpectError::TooFewTokens(s)) => assert_eq!(s, "IDENT"),
        other => panic!("unexpected {other:?}"),
    }
    let leaf_info = SourceInfo::new("x");
    let leaf = tree(&leaf_info, &n(SelectorRule::SELECTOR, 0, 1, vec![n(SelectorRule::SELECTOR_COMPLEX, 0, 1, vec![])]));
    let mut tracker = SelectorTokenTracker::new(&leaf).unwrap();
    assert!(matches!(tracker.expect_complex(), Err(SelectorExpectError::MalformedToken(SelectorRule::SELECTOR_COMPLEX))));
    let pseudo = tree(
        &leaf_info,
        &n(SelectorRule::SELECTOR, 0, 1, vec![n(
            SelectorRule::SELECTOR_COMPOUND,
            0,
            1,
            vec![n(
                SelectorRule::SELECTOR_SUBCLASS,
                0,
                1,
                vec![n(SelectorRule::SELECTOR_PSEUDOCLASS, 0, 1, vec![n(SelectorRule::FUNCTION, 0, 1, vec![])])],
            )],
        )]),
    );
    let mut tracker = SelectorTokenTracker::new(&pseudo).unwrap();
    let node = tracker.expect_compound().unwrap();
    assert!(node.0.is_empty());
}

#[test]
fn chains_lead_from_the_front_to_the_back() {
    let first = SelectorNode(vec![SelectorNodeType::TypeName("a".to_string())]);
    let rest = vec![
        SelectorCombinator::Child(SelectorNode(vec![SelectorNodeType::TypeName("b".to_string())])),
        SelectorCombinator::Descendent(SelectorNode(vec![SelectorNodeType::Class("c".to_string())])),
        SelectorCombinator::NextSibling(SelectorNode(vec![SelectorNodeType::Universal])),
        SelectorCombinator::SubsequentSibling(SelectorNode(vec![SelectorNodeType::Id("d".to_string())])),
    ];
    let chained = chain(first, rest).unwrap();
    assert_eq!(chained.to_css_string(), "a > b .c + * ~ #d");
    let alone = chain(SelectorNode(vec![SelectorNodeType::PseudoClass("hover".to_string())]), vec![]).unwrap();
    assert_eq!(alone.to_css_string(), ":hover");
    let column = vec![SelectorCombinator::Column(SelectorNode::new())];
    assert!(matches!(chain(SelectorNode::new(), column), Err(SelectorExpectError::Unsupported(_))));
    let mut combinator = SelectorCombinator::Child(SelectorNode::new());
    combinator.get_node().push(SelectorNodeType::Namespace("svg".to_string()));
    match combinator {
        SelectorCombinator::Child(node) => assert_eq!(node.to_css_string(), "|svg"),
        _ => panic!("the combinator changed kind"),
    }
}

#[test]
fn attribute_comparisons_print_with_their_operators() {
    assert_eq!(SelectorAttributeType::Present.to_css_string(), "");
    assert_eq!(SelectorAttributeType::ListContains("x".to_string()).to_css_string(), "~=\"x\"");
    assert_eq!(SelectorAttributeType::StartsWith("x".to_string()).to_css_string(), "^=\"x\"");
    assert_eq!(SelectorAttributeType::StartsWithDashed("x".to_string()).to_css_string(), "|=\"x\"");
    assert_eq!(SelectorAttributeType::Endswith("x".to_string()).to_css_string(), "$=\"x\"");
    assert_eq!(SelectorAttributeType::RawContains("x".to_string()).to_css_string(), "*=\"x\"");
    let pseudo = SelectorNode(vec![SelectorNodeType::PseudoElement(
        "part".to_string(),
        Some(vec![peacock_crest::unit::Unit::UnknownIdent("a".to_string()), peacock_crest::unit::Unit::Integer(2)]),
    )]);
    assert_eq!(pseudo.to_css_string(), "::part(a, 2)");
}

/// Reads a selector that is one type name.
struct TypeNames;

impl SelectorParser for TypeNames {
    fn selector_events(&self, text: &str) -> Result<Vec<TokenEvent<SelectorRule>>, String> {
        if text.is_empty() || !text.chars().all(|c| c.is_ascii_alphabetic()) {
            return Err(format!("not a type name: '{text}'"));
        }
        let len = text.len();
        Ok(events(&list(len, vec![n(SelectorRule::SELECTOR_COMPLEX, 0, len, vec![type_compound(0, len)])])))
    }
}

fn declaration(name: (usize, usize), value: (usize, usize), important: bool) -> Node<CssRule> {
    let (vs, ve) = value;
    let mut kids = vec![
        n(CssRule::IDENT, name.0, name.1, vec![]),
        n(
            CssRule::DECLARATION_GROUPS,
            vs,
            ve,
            vec![n(
                CssRule::DECLARATION_GROUP,
                vs,
                ve,
                vec![n(CssRule::DECLARATION_VALUE, vs, ve, vec![n(CssRule::COMPONENT_VALUE, vs, ve, vec![n(CssRule::IDENT, vs, ve, vec![])])])],
            )],
        ),
    ];
    if important {
        kids.push(n(CssRule::IMPORTANT, ve, ve + 1, vec![]));
    }
    n(CssRule::DECLARATION, name.0, ve, kids)
}

#[test]
fn a_stylesheet_is_read_rule_by_rule() {
    // p{color:red}@x{}@x{}q{color:blue!}
    let source = "p{color:red}@x{}@x{}q{color:blue!}";
    let info = SourceInfo::new(source);
    let rule_p = n(
        CssRule::QUALIFIED_RULE,
        0,
        12,
        vec![n(CssRule::SELECTOR, 0, 1, vec![]), n(CssRule::DECL_BLOCK, 1, 12, vec![declaration((2, 7), (8, 11), false)])],
    );
    let at = |start: usize| n(CssRule::AT_RULE, start, start + 4, vec![n(CssRule::COMPONENT_VALUE, start, start + 2, vec![n(CssRule::IDENT, start + 1, start + 2, vec![])])]);
    let rule_q = n(
        CssRule::QUALIFIED_RULE,
        20,
        34,
        vec![n(CssRule::SELECTOR, 20, 21, vec![]), n(CssRule::DECL_BLOCK, 21, 34, vec![declaration((22, 27), (28, 32), true)])],
    );
    let css = n(CssRule::CSS, 0, 34, vec![n(CssRule::STYLESHEET, 0, 34, vec![rule_p, at(12), at(16), rule_q])]);
    let root = tree(&info, &css);
    let sheet = CssTokenTracker::read_stylesheet(&root, &TypeNames).unwrap();
    assert_eq!(sheet.style_rules.len(), 2);
    assert_eq!(sheet.at_rules.len(), 1);
    assert_eq!(sheet.at_rules[0].name, "x");
    let (selector, props) = &sheet.style_rules[1];
    assert_eq!(selector.to_css_string(), "q");
    assert!(props.0[0].1);
    assert!(matches!(props.eval_prop("color"), Some(CssStyleProperty::Color(CssAttributeValue::Keyword(KeywordColor::Blue)))));
    assert_eq!(sheet.to_css_string(), "p {\n    color: red;\n}\n\nq {\n    color: blue !important;\n}\n\n");
}

#[test]
fn a_selector_the_parser_refuses_is_reported() {
    let source = "1{color:red}";
    let info = SourceInfo::new(source);
    let rule = n(
        CssRule::QUALIFIED_RULE,
        0,
        12,
        vec![n(CssRule::SELECTOR, 0, 1, vec![]), n(CssRule::DECL_BLOCK, 1, 12, vec![declaration((2, 7), (8, 11), false)])],
    );
    let css = n(CssRule::CSS, 0, 12, vec![n(CssRule::STYLESHEET, 0, 12, vec![rule])]);
    let root = tree(&info, &css);
    match CssTokenTracker::read_stylesheet(&root, &TypeNames) {
        Err(CssExpectError::InvalidSelector(SelectorExpectError::ParseError(message))) => assert!(message.contains("'1'")),
        other => panic!("unexpected {other:?}"),
    }
}

#[test]
fn an_empty_stylesheet_has_no_rules() {
    let info = SourceInfo::new(" ");
    let css = n(CssRule::CSS, 0, 1, vec![n(CssRule::STYLESHEET, 0, 1, vec![])]);
    let root = tree(&info, &css);
    let sheet = CssTokenTracker::read_stylesheet(&root, &TypeNames).unwrap();
    assert!(sheet.style_rules.is_empty() && sheet.at_rules.is_empty());
    assert_eq!(sheet.to_css_string(), "");
    let leaf = tree(&info, &n(CssRule::CSS, 0, 1, vec![]));
    assert!(matches!(CssTokenTracker::read_stylesheet(&leaf, &TypeNames), Err(CssExpectError::MalformedToken(CssRule::CSS))));
    let wrong = tree(&info, &n(CssRule::CSS, 0, 1, vec![n(CssRule::IDENT, 0, 1, vec![])]));
    assert!(matches!(
        CssTokenTracker::read_stylesheet(&wrong, &TypeNames),
        Err(CssExpectError::FailedExpectation(CssRule::IDENT, CssRule::STYLESHEET))
    ));
}

#[test]
fn at_rules_are_kept_by_name() {
    let mut sheet = Stylesheet::new();
    sheet.insert_at_rule(AtRule { name: "media".to_string() });
    sheet.insert_at_rule(AtRule { name: "font-face".to_string() });
    sheet.insert_at_rule(AtRule { name: "media".to_string() });
    assert_eq!(sheet.at_rules.len(), 2);
    assert_eq!(sheet.at_rules[0].to_css_string(), "@media \"at-rules aren't (yet) implemented\";\n");
}

#[test]
fn a_namespace_joins_the_compound_selector_before_it() {
    // "div > p|n": the namespace follows the compound selector after the combinator.
    let info = SourceInfo::new("div > p|n");
    let shape = list(
        9,
        vec![n(
            SelectorRule::SELECTOR_COMPLEX,
            0,
            9,
            vec![
                type_compound(0, 3),
                n(SelectorRule::SELECTOR_COMBINATOR, 3, 6, vec![n(SelectorRule::SELECTOR_COMBINATOR__CHILD, 4, 5, vec![])]),
                type_compound(6, 7),
                n(SelectorRule::SELECTOR_COMBINATOR__NAMESPACE, 8, 9, vec![]),
            ],
        )],
    );
    let selectors = SelectorNode::from_source(&info, &events(&shape)).unwrap();
    assert_eq!(selectors.len(), 1);
    match &selectors[0].0[1] {
        SelectorNodeType::Child(next) => {
            assert_eq!(next.0.len(), 2);
            assert!(matches!(&next.0[0], SelectorNodeType::TypeName(t) if t == "p"));
            assert!(matches!(&next.0[1], SelectorNodeType::Namespace(ns) if ns == "n"));
        },
        other => panic!("unexpected {other:?}"),
    }
}

#[test]
fn a_namespace_before_any_combinator_is_refused() {
    let info = SourceInfo::new("div|n");
    let shape = n(
        SelectorRule::SELECTOR_COMPLEX,
        0,
        5,
        vec![type_compound(0, 3), n(SelectorRule::SELECTOR_COMBINATOR__NAMESPACE, 4, 5, vec![])],
    );
    let root = tree(&info, &shape);
    let roots = vec![root];
    let mut tracker = SelectorTokenTracker::from_vec(&roots);
    assert!(matches!(
        tracker.expect_complex(),
        Err(SelectorExpectError::UnknownSelectorRule(SelectorRule::SELECTOR_COMBINATOR__NAMESPACE))
    ));
    let missing = n(
        SelectorRule::SELECTOR_COMPLEX,
        0,
        5,
        vec![type_compound(0, 3), n(SelectorRule::SELECTOR_COMBINATOR, 3, 5, vec![n(SelectorRule::SELECTOR_COMBINATOR__CHILD, 4, 5, vec![])])],
    );
    let root = tree(&info, &missing);
    let roots = vec![root];
    let mut tracker = SelectorTokenTracker::from_vec(&roots);
    match tracker.expect_complex() {
        Err(SelectorExpectError::TooFewTokens(rule)) => assert_eq!(rule, "SELECTOR_COMPOUND"),
        other => panic!("unexpected {other:?}"),
    }
}

#[test]
fn a_qualified_rule_gives_back_what_it_cannot_read() {
    let source = "p{color:red}";
    let info = SourceInfo::new(source);
    let good = n(
        CssRule::QUALIFIED_RULE,
        0,
        12,
        vec![n(CssRule::SELECTOR, 0, 1, vec![]), n(CssRule::DECL_BLOCK, 1, 12, vec![declaration((2, 7), (8, 11), false)])],
    );
    let root = tree(&info, &good);
    let roots = vec![root];
    let mut tracker = CssTokenTracker::from_vec(&roots);
    let (selectors, props) = tracker.expect_qualified_rule(&TypeNames).unwrap();
    assert_eq!(tracker.0.idx, 1);
    assert_eq!(selectors.len(), 1);
    assert_eq!(props.len(), 1);
    assert!(!props.0[0].1);

    let stray = n(
        CssRule::QUALIFIED_RULE,
        0,
        12,
        vec![n(CssRule::SELECTOR, 0, 1, vec![]), n(CssRule::DECL_BLOCK, 1, 12, vec![n(CssRule::IDENT, 2, 7, vec![])])],
    );
    let root = tree(&info, &stray);
    let roots = vec![root];
    let mut tracker = CssTokenTracker::from_vec(&roots);
    assert!(matches!(
        tracker.expect_qualified_rule(&TypeNames),
        Err(CssExpectError::FailedExpectation(CssRule::IDENT, CssRule::DECLARATION))
    ));
    assert_eq!(tracker.0.idx, 0);

    let unread = "p{font-family:x}";
    let info = SourceInfo::new(unread);
    let rule = n(
        CssRule::QUALIFIED_RULE,
        0,
        16,
        vec![n(CssRule::SELECTOR, 0, 1, vec![]), n(CssRule::DECL_BLOCK, 1, 16, vec![declaration((2, 13), (14, 15), false)])],
    );
    let root = tree(&info, &rule);
    let roots = vec![root];
    let mut tracker = CssTokenTracker::from_vec(&roots);
    match tracker.expect_qualified_rule(&TypeNames) {
        Err(CssExpectError::InvalidStyleAttrName(name)) => assert_eq!(name.get(), "font-family"),
        other => panic!("unexpected {other:?}"),
    }
    assert_eq!(tracker.0.idx, 1);

    let bare = tree(&info, &n(CssRule::QUALIFIED_RULE, 0, 16, vec![n(CssRule::SELECTOR, 0, 1, vec![])]));
    let roots = vec![bare];
    let mut tracker = CssTokenTracker::from_vec(&roots);
    assert!(matches!(tracker.expect_qualified_rule(&TypeNames), Err(CssExpectError::MalformedToken(CssRule::QUALIFIED_RULE))));
    assert_eq!(tracker.0.idx, 0);
}

fn declaration_of(name: (usize, usize), value: (usize, usize), component: Node<CssRule>) -> Node<CssRule> {
    let (vs, ve) = value;
    n(
        CssRule::DECLARATION,
        name.0,
        ve,
        vec![
            n(CssRule::IDENT, name.0, name.1, vec![]),
            n(
                CssRule::DECLARATION_GROUPS,
                vs,
                ve,
                vec![n(
                    CssRule::DECLARATION_GROUP,
                    vs,
                    ve,
                    vec![n(CssRule::DECLARATION_VALUE, vs, ve, vec![n(CssRule::COMPONENT_VALUE, vs, ve, vec![component])])],
                )],
            ),
        ],
    )
}

#[test]
fn declarations() {
    // The declarations "padding: 0; width: 48em; background-color: white;" inside a rule.
    let source = "p{padding: 0; width: 48em; background-color: white;}";
    let info = SourceInfo::new(source);
    let block = vec![
        declaration_of((2, 9), (11, 12), n(CssRule::NUMBER, 11, 12, vec![])),
        declaration_of(
            (14, 19),
            (21, 25),
            n(CssRule::DIMENSION, 21, 25, vec![n(CssRule::NUMBER, 21, 23, vec![]), n(CssRule::IDENT, 23, 25, vec![])]),
        ),
        declaration_of((27, 43), (45, 50), n(CssRule::IDENT, 45, 50, vec![])),
    ];
    let rule = n(
        CssRule::QUALIFIED_RULE,
        0,
        52,
        vec![n(CssRule::SELECTOR, 0, 1, vec![]), n(CssRule::DECL_BLOCK, 1, 52, block)],
    );
    let root = tree(&info, &rule);
    let roots = vec![root];
    let mut tracker = CssTokenTracker::from_vec(&roots);
    let (_, props) = tracker.expect_qualified_rule(&TypeNames).unwrap();
    assert_eq!(props.len(), 3);
    for (prop, _) in props.0.iter() {
        match prop {
            CssStyleProperty::BackgroundColor(value) => {
                assert!(matches!(value, CssAttributeValue::Keyword(KeywordColor::White)))
            },
            CssStyleProperty::Width(value) => match value {
                CssAttributeValue::Value(Unit::Dimension(Dimension::Length(Length::Em(number)))) => {
                    assert_eq!(number.text, "48")
                },
                other => panic!("unexpected {other:?}"),
            },
            CssStyleProperty::Padding(a, b, c, d) => {
                for side in [a, b, c, d] {
                    assert!(matches!(side, CssAttributeValue::Value(Unit::Number(number)) if number.text == "0"));
                }
            },
            other => panic!("unexpected {other:?}"),
        }
    }
}
