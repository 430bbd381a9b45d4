# peacock_crest

A library for CSS selectors and stylesheets, written in Verus: every public function of `src/`
carries a contract, and Verus proves every function of `src/` free of panics and overflow and
true to the contracts it has.

## How text becomes values

1. `source::SourceInfo` holds the text and the positions where its lines start.
2. A parser (in `app/`, a pest grammar) turns the text into the depth-first walk of its parse tree,
   a list of `source::TokenEvent`s.
3. `source::parse_source` builds the tree from the walk; the tree of a tree's walk is that tree.
4. The trackers read the tree: `syntax::CssTokenTracker` reads stylesheets, rules, declarations
   and component values; `selector::SelectorTokenTracker` reads selector lists, complex and
   compound selectors.
5. `style` turns declarations into properties (`style::properties`), and every value, selector,
   property list and stylesheet prints back as CSS (`to_css_string`).

## Layout

- `src/source.rs`: sources, locations, slices, parse trees and the trackers that walk them.
- `src/syntax.rs`: reading stylesheets and CSS tokens.
- `src/selector/`: reading and printing selectors.
- `src/style/`: property values, keywords, declarations and stylesheets.
- `src/unit.rs`, `src/text.rs`, `src/css.rs`, `src/boo.rs`, `src/rules.rs`: units, text helpers,
  simple style types, borrowed-or-owned values and the grammar rules.
- `tests/`: tests on concrete values.
- `app/`: the pest glue, file reading, and the float conversions of units.
