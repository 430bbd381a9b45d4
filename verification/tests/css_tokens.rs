use peacock_crest::rules::CssRule;
use peacock_crest::source::{parse_source, ExpectError, ParserToken, SourceInfo, TokenEvent};
use peacock_crest::syntax::{CssExpectError, CssTokenTracker};
use peacock_crest::unit::{Dimension, Length, Resolution, Unit};

struct Node {
    rule: CssRule,
    start: usize,
    end: usize,
    kids: Vec<Node>,
}

fn n(rule: CssRule, start: usize, end: usize, kids: Vec<Node>) -> Node {
    Node { rule, start, end, kids }
}

fn walk(node: &Node, out: &mut Vec<TokenEvent<CssRule>>) {
    out.push(TokenEvent::Start { rule: node.rule, pos: node.start });
    for kid in node.kids.iter() {
        walk(kid, out);
    }
    out.push(TokenEvent::End { rule: node.rule, pos: node.end });
}

/// A parent spanning `len` bytes with the given children.
fn parent<'a>(info: &'a SourceInfo, len: usize, kids: Vec<Node>) -> ParserToken<'a, CssRule> {
    let mut events = Vec::new();
    walk(&n(CssRule::COMPONENT_VALUE_LIST, 0, len, kids), &mut events);
    parse_source(info, &events).unwrap()
}

#[test]
fn leaf_tokens_are_read_without_their_punctuation() {
    let info = SourceInfo::new("12 50% \"hi\" #abc url(x.png) name");
    let root = parent(
        &info,
        32,
        vec![
            n(CssRule::NUMBER, 0, 2, vec![]),
            n(CssRule::PERCENTAGE, 3, 6, vec![]),
            n(CssRule::STRING, 7, 11, vec![]),
            n(CssRule::HASH, 12, 16, vec![]),
            n(CssRule::URL, 17, 27, vec![n(CssRule::STRING, 21, 26, vec![])]),
            n(CssRule::IDENT, 28, 32, vec![]),
        ],
    );
    let mut tracker = CssTokenTracker::new(&root).unwrap();
    assert_eq!(tracker.len(), 6);
    assert_eq!(tracker.expect_number().unwrap().text, "12");
    assert_eq!(tracker.expect_percentage().unwrap().text, "50");
    assert_eq!(tracker.expect_quoted_string().unwrap().get(), "hi");
    assert_eq!(tracker.expect_hash().unwrap().get(), "abc");
    assert_eq!(tracker.expect_url().unwrap().get(), "x.png");
    assert_eq!(tracker.expect_identifier().unwrap().get(), "name");
    assert!(!tracker.is_empty());
    match tracker.expect_number() {
        Err(CssExpectError::TooFewTokens(s)) => assert_eq!(s, "NUMBER"),
        other => panic!("unexpected {other:?}"),
    }
}

#[test]
fn the_wrong_token_is_given_back() {
    let info = SourceInfo::new("abc");
    let root = parent(&info, 3, vec![n(CssRule::IDENT, 0, 3, vec![])]);
    let mut tracker = CssTokenTracker::new(&root).unwrap();
    assert!(matches!(tracker.expect_number(), Err(CssExpectError::FailedExpectation(CssRule::IDENT, CssRule::NUMBER))));
    assert!(matches!(tracker.expect_url(), Err(CssExpectError::FailedExpectation(CssRule::IDENT, CssRule::URL))));
    assert_eq!(tracker.expect_identifier().unwrap().get(), "abc");
}

#[test]
fn dimensions_need_a_known_unit() {
    let info = SourceInfo::new("3furlong 2dpi 4");
    let root = parent(
        &info,
        15,
        vec![
            n(CssRule::DIMENSION, 0, 8, vec![n(CssRule::NUMBER, 0, 1, vec![]), n(CssRule::IDENT, 1, 8, vec![])]),
            n(CssRule::DIMENSION, 9, 13, vec![n(CssRule::NUMBER, 9, 10, vec![]), n(CssRule::IDENT, 10, 13, vec![])]),
            n(CssRule::DIMENSION, 14, 15, vec![]),
        ],
    );
    let mut tracker = CssTokenTracker::new(&root).unwrap();
    match tracker.expect_dimension() {
        Err(CssExpectError::UnknownDimensionUnit(unit)) => assert_eq!(unit.get(), "furlong"),
        other => panic!("unexpected {other:?}"),
    }
    let peeked = tracker.peek().unwrap();
    assert_eq!(peeked.get_source().get(), "3furlong");
    let _ = tracker.expect_identifier();
    let mut tracker = CssTokenTracker::new(&root).unwrap();
    let _ = tracker.expect_dimension();
    let _ = tracker.0.pop_front();
    assert!(matches!(tracker.expect_dimension(), Ok(Dimension::Resolution(Resolution::Dpi(_)))));
    assert!(matches!(tracker.expect_dimension(), Err(CssExpectError::MalformedToken(CssRule::DIMENSION))));
}

#[test]
fn component_values_are_read_until_one_cannot_be() {
    let info = SourceInfo::new("1px a {} b");
    let list = n(
        CssRule::COMPONENT_VALUE_LIST,
        0,
        10,
        vec![
            n(CssRule::COMPONENT_VALUE, 0, 3, vec![n(CssRule::DIMENSION, 0, 3, vec![n(CssRule::NUMBER, 0, 1, vec![]), n(CssRule::IDENT, 1, 3, vec![])])]),
            n(CssRule::COMPONENT_VALUE, 4, 5, vec![n(CssRule::IDENT, 4, 5, vec![])]),
            n(CssRule::COMPONENT_VALUE, 6, 8, vec![n(CssRule::SIMPLE_BLOCK, 6, 8, vec![])]),
            n(CssRule::COMPONENT_VALUE, 9, 10, vec![n(CssRule::IDENT, 9, 10, vec![])]),
        ],
    );
    let mut events = Vec::new();
    walk(&n(CssRule::DECLARATION_VALUES, 0, 10, vec![list]), &mut events);
    let root = parse_source(&info, &events).unwrap();
    let mut tracker = CssTokenTracker::new(&root).unwrap();
    let units = tracker.expect_component_values().unwrap();
    assert_eq!(units.len(), 2);
    assert!(matches!(&units[0], Unit::Dimension(Dimension::Length(Length::Px(_)))));
    assert!(matches!(&units[1], Unit::UnknownIdent(s) if s == "a"));
    let list_token = &root.get_children().unwrap()[0];
    let mut values = CssTokenTracker::new(list_token).unwrap();
    assert!(values.expect_component_value().is_ok());
    assert!(values.expect_component_value().is_ok());
    assert!(matches!(values.expect_component_value(), Err(CssExpectError::Unsupported(CssRule::SIMPLE_BLOCK))));
    assert!(values.expect_component_value().is_ok());
}

#[test]
fn function_blocks_and_at_rules() {
    let info = SourceInfo::new("rgb(1 2) @page{}");
    let root = parent(
        &info,
        16,
        vec![
            n(
                CssRule::FUNCTION_BLOCK,
                0,
                8,
                vec![
                    n(CssRule::FUNCTION, 0, 4, vec![n(CssRule::IDENT, 0, 3, vec![])]),
                    n(CssRule::COMPONENT_VALUE, 4, 5, vec![n(CssRule::NUMBER, 4, 5, vec![])]),
                    n(CssRule::COMPONENT_VALUE, 6, 7, vec![n(CssRule::NUMBER, 6, 7, vec![])]),
                ],
            ),
            n(CssRule::AT_RULE, 9, 16, vec![n(CssRule::COMPONENT_VALUE, 9, 14, vec![n(CssRule::IDENT, 10, 14, vec![])])]),
        ],
    );
    let mut tracker = CssTokenTracker::new(&root).unwrap();
    let (name, params) = tracker.expect_function_block().unwrap();
    assert_eq!(name.get(), "rgb");
    assert_eq!(params.len(), 2);
    let at_rule = tracker.expect_at_rule().unwrap();
    assert_eq!(at_rule.name, "page");
    match tracker.parse_at_rule_attr(name, &root) {
        Err(CssExpectError::InvalidAtRuleName(n)) => assert_eq!(n.get(), "rgb"),
        other => panic!("unexpected {other:?}"),
    }
    let bare = parent(&info, 3, vec![n(CssRule::FUNCTION, 0, 3, vec![])]);
    let mut tracker = CssTokenTracker::new(&bare).unwrap();
    assert!(matches!(tracker.expect_function(), Err(CssExpectError::MalformedToken(CssRule::FUNCTION))));
}

#[test]
fn a_leaf_has_no_tracker() {
    let info = SourceInfo::new("x");
    let root = parent(&info, 1, vec![]);
    assert!(CssTokenTracker::new(&root).is_none());
    let empty: Vec<ParserToken<CssRule>> = vec![];
    let tracker = CssTokenTracker::from_vec(&empty);
    assert!(!tracker.is_empty());
    assert!(tracker.peek().is_none());
}

#[test]
fn expect_errors_wrap_each_kind_of_failure() {
    let syntax: ExpectError = ExpectError::from(CssExpectError::MalformedToken(CssRule::URL));
    assert!(matches!(syntax, ExpectError::SyntaxError(CssExpectError::MalformedToken(CssRule::URL))));
    let generic: ExpectError = ExpectError::from("no tree".to_string());
    match generic {
        ExpectError::Generic(message) => assert_eq!(message, "no tree"),
        other => panic!("unexpected {other:?}"),
    }
}
