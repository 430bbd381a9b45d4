use peacock_crest::rules::{CssRule, SelectorRule};
use peacock_crest::source::{
    floored_binary_index, parse_css, parse_selector, parse_source, ParserToken, ParserTokenValue,
    SourceInfo, TokenEvent, TokenTracker,
};

fn start<R>(rule: R, pos: usize) -> TokenEvent<R> {
    TokenEvent::Start { rule, pos }
}

fn end<R>(rule: R, pos: usize) -> TokenEvent<R> {
    TokenEvent::End { rule, pos }
}

#[test]
fn floored_binary_index_finds_the_floor() {
    let arr = [1usize, 3, 5, 9, 15];
    assert!(floored_binary_index(&arr, 0).is_none());
    assert!(floored_binary_index(&arr, 16).is_none());
    assert_eq!(floored_binary_index(&arr, 2), Some(0));
    assert_eq!(floored_binary_index(&arr, 4), Some(1));
    assert_eq!(floored_binary_index(&arr, 6), Some(2));
    assert_eq!(floored_binary_index(&arr, 8), Some(2));
    assert_eq!(floored_binary_index(&arr, 14), Some(3));
    assert_eq!(floored_binary_index(&arr, 15), Some(4));
    assert_eq!(floored_binary_index(&arr, 1), Some(0));
    assert_eq!(floored_binary_index(&[4usize], 4), Some(0));
}

#[test]
fn locations_have_lines_and_columns() {
    let info = SourceInfo::new("a {\n  b: c;\n}");
    let first = info.location_from_idx(0);
    assert_eq!((first.line, first.column), (1, 1));
    let brace = info.location_from_idx(2);
    assert_eq!((brace.line, brace.column), (1, 3));
    let b = info.location_from_idx(6);
    assert_eq!(b.idx, 6);
    assert_eq!(b.line, 2);
    assert_eq!(b.column, 3);
    let slice = info.location_from_idx(6).slice(&info.location_from_idx(10));
    assert_eq!(slice.get(), "b: c");
    assert_eq!(slice.to_string(), "b: c");
    let inner = slice.trimmed(1, 1).unwrap();
    assert_eq!(inner.get(), ": ");
    assert!(slice.trimmed(3, 3).is_none());
}

#[test]
fn every_line_starts_at_column_one() {
    let info = SourceInfo::new("ab\ncd");
    let c = info.location_from_idx(3);
    assert_eq!((c.idx, c.line, c.column), (3, 2, 1));
    let newline = info.location_from_idx(2);
    assert_eq!((newline.line, newline.column), (1, 3));
    let d = info.location_from_idx(4);
    assert_eq!((d.line, d.column), (2, 2));
    let crlf = SourceInfo::new("a\r\nb");
    let b = crlf.location_from_idx(3);
    assert_eq!((b.line, b.column), (3, 1));
    let leading = SourceInfo::new("\nx");
    let x = leading.location_from_idx(1);
    assert_eq!((x.line, x.column), (2, 1));
    let beyond = info.location_from_idx(100);
    assert_eq!((beyond.line, beyond.column), (2, 98));
    let last = info.location_from_idx(usize::MAX);
    assert_eq!((last.line, last.column), (2, usize::MAX - 2));
}

#[test]
fn only_scannable_sources_are_accepted() {
    assert!(SourceInfo::accepts("div > p"));
    assert!(!SourceInfo::accepts(""));
    assert!(SourceInfo::accepts("é"));
    assert!(!SourceInfo::accepts("aé"));
    assert!(SourceInfo::try_new("ab").is_some());
    assert!(SourceInfo::try_new("").is_none());
}

#[test]
fn parse_source_builds_the_tree() {
    let info = SourceInfo::new("ab");
    let events = vec![
        start(CssRule::COMPONENT_VALUE_LIST, 0),
        start(CssRule::COMPONENT_VALUE, 0),
        start(CssRule::IDENT, 0),
        end(CssRule::IDENT, 1),
        end(CssRule::COMPONENT_VALUE, 1),
        start(CssRule::COMPONENT_VALUE, 1),
        end(CssRule::COMPONENT_VALUE, 2),
        end(CssRule::COMPONENT_VALUE_LIST, 2),
    ];
    let root = parse_source(&info, &events).unwrap();
    assert_eq!(root.get_rule(), CssRule::COMPONENT_VALUE_LIST);
    assert_eq!(root.get_source().get(), "ab");
    let children = root.get_children().unwrap();
    assert_eq!(children.len(), 2);
    assert!(!children[0].is_leaf());
    assert!(children[1].is_leaf());
    assert_eq!(children[0].get_children().unwrap()[0].get_source().get(), "a");
    let (s, e) = children[1].get_indices();
    assert_eq!((s.idx, e.idx), (1, 2));
}

#[test]
fn parse_source_refuses_broken_walks() {
    let info = SourceInfo::new("ab");
    let none: Vec<TokenEvent<CssRule>> = vec![];
    assert!(parse_source(&info, &none).is_none());
    assert!(parse_source(&info, &vec![end(CssRule::CSS, 0)]).is_none());
    assert!(parse_source(&info, &vec![start(CssRule::CSS, 0)]).is_none());
    assert!(parse_source(&info, &vec![start(CssRule::CSS, 0), end(CssRule::CSS, 5)]).is_none());
}

#[test]
fn parse_css_keeps_only_the_root() {
    let info = SourceInfo::new("abc");
    let events = vec![
        start(CssRule::CSS, 0),
        start(CssRule::STYLESHEET, 0),
        end(CssRule::STYLESHEET, 2),
        end(CssRule::CSS, 2),
    ];
    let root = parse_css(&info, &events).unwrap();
    assert!(root.is_leaf());
    assert_eq!(root.get_rule(), CssRule::CSS);
    assert_eq!(root.end.idx, 3);
    assert!(parse_css(&info, &vec![end(CssRule::CSS, 0)]).is_none());
}

#[test]
fn parse_selector_keeps_the_last_top_node() {
    let info = SourceInfo::new("p");
    let events = vec![
        start(SelectorRule::SELECTOR, 0),
        start(SelectorRule::IDENT, 0),
        end(SelectorRule::IDENT, 1),
        end(SelectorRule::SELECTOR, 1),
    ];
    let root = parse_selector(&info, &events).unwrap();
    assert_eq!(root.get_rule(), SelectorRule::SELECTOR);
    assert_eq!(root.get_children().unwrap().len(), 1);
    assert!(parse_selector(&info, &vec![end(SelectorRule::SELECTOR, 1)]).is_none());
    let lone = vec![start(SelectorRule::IDENT, 0), end(SelectorRule::IDENT, 1)];
    assert!(parse_selector(&info, &lone).is_none());
}

#[test]
fn token_tracker_takes_and_gives_back() {
    let info = SourceInfo::new("abc");
    let tokens: Vec<ParserToken<CssRule>> = (0..3)
        .map(|i| ParserToken {
            value: ParserTokenValue::Leaf,
            rule: CssRule::IDENT,
            start: info.location_from_idx(i),
            end: info.location_from_idx(i + 1),
        })
        .collect();
    let mut tracker = TokenTracker::new(&tokens);
    assert_eq!(tracker.len(), 3);
    assert!(tracker.is_empty());
    assert_eq!(tracker.peek().unwrap().get_source().get(), "a");
    assert_eq!(tracker.pop_front().unwrap().get_source().get(), "a");
    let failed: Result<(), &str> = tracker.fail_because("no");
    assert_eq!(failed, Err("no"));
    assert_eq!(tracker.idx, 0);
    let two = tracker.pop_front_count(2).unwrap();
    assert_eq!(two[1].get_source().get(), "b");
    assert!(tracker.pop_front_count(2).is_none());
    assert_eq!(tracker.idx, 2);
    assert!(tracker.pop_front().is_some());
    assert!(tracker.pop_front().is_none());
    assert!(!tracker.is_empty());
    assert_eq!(tracker.len(), 0);
}

#[test]
fn parse_source_adds_later_trees_to_the_first() {
    let info = SourceInfo::new("ab");
    let events = vec![
        start(CssRule::COMPONENT_VALUE_LIST, 0),
        start(CssRule::IDENT, 0),
        end(CssRule::IDENT, 1),
        end(CssRule::COMPONENT_VALUE_LIST, 1),
        start(CssRule::COMPONENT_VALUE, 1),
        end(CssRule::COMPONENT_VALUE, 2),
    ];
    let root = parse_source(&info, &events).unwrap();
    assert_eq!(root.get_rule(), CssRule::COMPONENT_VALUE_LIST);
    assert_eq!(root.get_source().get(), "a");
    let children = root.get_children().unwrap();
    assert_eq!(children.len(), 2);
    assert_eq!(children[0].get_rule(), CssRule::IDENT);
    assert_eq!(children[1].get_rule(), CssRule::COMPONENT_VALUE);
    assert_eq!(children[1].get_source().get(), "b");
}

#[test]
fn nodes_must_cover_whole_characters() {
    let info = SourceInfo::try_new("é").unwrap();
    let cut = vec![
        start(CssRule::CSS, 0),
        start(CssRule::IDENT, 0),
        end(CssRule::IDENT, 1),
        end(CssRule::CSS, 2),
    ];
    assert!(parse_source(&info, &cut).is_none());
    assert!(parse_css(&info, &cut).is_none());
    let whole = vec![
        start(CssRule::CSS, 0),
        start(CssRule::IDENT, 0),
        end(CssRule::IDENT, 2),
        end(CssRule::CSS, 2),
    ];
    assert_eq!(parse_source(&info, &whole).unwrap().get_children().unwrap()[0].get_source().get(), "é");
    assert!(parse_css(&info, &whole).is_some());
}

#[test]
fn parse_selector_keeps_a_tree_only_after_an_attachment() {
    let info = SourceInfo::new("pq");
    let events = vec![
        start(SelectorRule::SELECTOR, 0),
        start(SelectorRule::IDENT, 0),
        end(SelectorRule::IDENT, 1),
        end(SelectorRule::SELECTOR, 1),
        start(SelectorRule::IDENT, 1),
        end(SelectorRule::IDENT, 2),
    ];
    let root = parse_selector(&info, &events).unwrap();
    assert_eq!(root.get_rule(), SelectorRule::IDENT);
    assert_eq!(root.get_source().get(), "q");
    let cut = vec![start(SelectorRule::SELECTOR, 0), start(SelectorRule::IDENT, 0), end(SelectorRule::IDENT, 1)];
    assert!(parse_selector(&info, &cut).is_none());
}

#[test]
fn parse_source_ends_the_root_at_the_last_stray_end_and_drops_open_nodes() {
    let info = SourceInfo::new("abcd");
    let events = vec![
        start(CssRule::CSS, 0),
        end(CssRule::CSS, 1),
        start(CssRule::IDENT, 1),
        end(CssRule::NUMBER, 2),
        end(CssRule::CSS, 3),
        start(CssRule::COMPONENT_VALUE, 3),
        start(CssRule::IDENT, 3),
        end(CssRule::IDENT, 4),
    ];
    let root = parse_source(&info, &events).unwrap();
    assert_eq!(root.get_rule(), CssRule::CSS);
    assert_eq!(root.get_source().get(), "abc");
    let children = root.get_children().unwrap();
    assert_eq!(children.len(), 1);
    assert_eq!(children[0].get_rule(), CssRule::IDENT);
    assert_eq!(children[0].get_source().get(), "b");
}
