//! Selectors: what they are made of, and how they are read from their parse tree.
pub mod types;

use vstd::prelude::*;
use crate::rules::SelectorRule;
use crate::source::{lemma_children_wf, parse_source, source_walk, walk, ParserToken, SourceInfo, SourceSlice, TokenEvent, TokenTracker};
use crate::syntax::{trimmed_slice_of, trimmed_text_of, trims_to_text_of};
use crate::text::str_eq;
use vstd::string::StringExecFns;
use crate::unit::{unit_css, Unit};
pub use types::{
    SelectorAttributeType, SelectorCombinator, SelectorExpectError, SelectorResult,
    SelectorSubclassType,
};

verus! {

/// One part of a selector.
#[derive(Debug)]
pub enum SelectorNodeType {
    Namespace(String),
    Universal,
    TypeName(String),
    Id(String),
    Class(String),
    Attribute { name: String, attr_matcher: SelectorAttributeType, case_sensitive: bool },
    NextSibling(Box<SelectorNode>),
    SubsequentSibling(Box<SelectorNode>),
    Child(Box<SelectorNode>),
    Descendent(Box<SelectorNode>),
    PseudoClass(String),
    PseudoElement(String, Option<Vec<Unit>>),
}

/// A compound selector: its parts, the last of which may lead on, through a combinator, to the
/// next compound selector.
#[derive(Debug)]
pub struct SelectorNode(pub Vec<SelectorNodeType>);

impl SelectorNode {
    /// A selector with no part.
    pub fn new() -> (r: Self)
        ensures
            r.0@.len() == 0,
    {
        SelectorNode(Vec::new())
    }

    /// Adds a part at the end.
    pub fn push(&mut self, part: SelectorNodeType)
        ensures
            final(self).0@ == old(self).0@.push(part),
    {
        self.0.push(part);
    }
}



/// The text of the value token of an attribute matcher: a string without its quotes, or an
/// identifier.
pub open spec fn matcher_value_text<'a>(v: SelectorToken<'a>) -> Seq<char> {
    if v.rule == SelectorRule::STRING {
        trimmed_text_of(v.start, v.end, 1, 1)
    } else {
        v.spec_text()
    }
}

/// The rule names one of the six ways of comparing an attribute's value.
pub open spec fn is_matcher_kind(rule: SelectorRule) -> bool {
    ||| rule == SelectorRule::ATTR_MATCHER__EXACT_MATCH
    ||| rule == SelectorRule::ATTR_MATCHER__LIST_CONTAINS
    ||| rule == SelectorRule::ATTR_MATCHER__STARTS_WITH
    ||| rule == SelectorRule::ATTR_MATCHER__STARTS_WITH_DASHED
    ||| rule == SelectorRule::ATTR_MATCHER__ENDS_WITH
    ||| rule == SelectorRule::ATTR_MATCHER__CONTAINS
}

/// The attribute matcher `t` has a kind and a value that can be read.
pub open spec fn attr_matcher_readable<'a>(t: SelectorToken<'a>) -> bool {
    let c = t.children_seq();
    &&& c.len() >= 2
    &&& is_matcher_kind(c[0].rule)
    &&& c[1].rule == SelectorRule::IDENT || (c[1].rule == SelectorRule::STRING && trims_to_text_of(
        c[1].start,
        c[1].end,
        1,
        1,
    ))
}

/// `m` is what the readable attribute matcher `t` spells.
pub open spec fn attr_matcher_of<'a>(t: SelectorToken<'a>, m: SelectorAttributeType) -> bool {
    let c = t.children_seq();
    let text = matcher_value_text(c[1]);
    match c[0].rule {
        SelectorRule::ATTR_MATCHER__EXACT_MATCH => m matches SelectorAttributeType::ExactMatch(s) && s@ == text,
        SelectorRule::ATTR_MATCHER__LIST_CONTAINS => m matches SelectorAttributeType::ListContains(s) && s@ == text,
        SelectorRule::ATTR_MATCHER__STARTS_WITH => m matches SelectorAttributeType::StartsWith(s) && s@ == text,
        SelectorRule::ATTR_MATCHER__STARTS_WITH_DASHED => m matches SelectorAttributeType::StartsWithDashed(s)
            && s@ == text,
        SelectorRule::ATTR_MATCHER__ENDS_WITH => m matches SelectorAttributeType::Endswith(s) && s@ == text,
        SelectorRule::ATTR_MATCHER__CONTAINS => m matches SelectorAttributeType::RawContains(s) && s@ == text,
        _ => false,
    }
}

/// An attribute matcher read from a matcher token prints as the CSS operator of the token's
/// kind followed by the quoted value it was read with: `=` for an exact match, `~=` for a list
/// that contains the value, `^=` for a prefix, `|=` for a dashed prefix, `$=` for a suffix and
/// `*=` for a substring.
pub proof fn lemma_matcher_prints_its_operator<'a>(t: SelectorToken<'a>, m: SelectorAttributeType)
    requires
        attr_matcher_readable(t),
        attr_matcher_of(t, m),
    ensures
        ({
            let k = t.children_seq()[0].rule;
            let quoted = "\""@ + matcher_value_text(t.children_seq()[1]) + "\""@;
            &&& k == SelectorRule::ATTR_MATCHER__EXACT_MATCH ==> matcher_css(m) == "="@ + quoted
            &&& k == SelectorRule::ATTR_MATCHER__LIST_CONTAINS ==> matcher_css(m) == "~="@ + quoted
            &&& k == SelectorRule::ATTR_MATCHER__STARTS_WITH ==> matcher_css(m) == "^="@ + quoted
            &&& k == SelectorRule::ATTR_MATCHER__STARTS_WITH_DASHED ==> matcher_css(m) == "|="@ + quoted
            &&& k == SelectorRule::ATTR_MATCHER__ENDS_WITH ==> matcher_css(m) == "$="@ + quoted
            &&& k == SelectorRule::ATTR_MATCHER__CONTAINS ==> matcher_css(m) == "*="@ + quoted
        }),
{
    reveal_strlit("\"");
    reveal_strlit("=");
    reveal_strlit("=\"");
    assert("=\""@ =~= "="@ + "\""@);
    reveal_strlit("~=");
    reveal_strlit("~=\"");
    assert("~=\""@ =~= "~="@ + "\""@);
    reveal_strlit("^=");
    reveal_strlit("^=\"");
    assert("^=\""@ =~= "^="@ + "\""@);
    reveal_strlit("|=");
    reveal_strlit("|=\"");
    assert("|=\""@ =~= "|="@ + "\""@);
    reveal_strlit("$=");
    reveal_strlit("$=\"");
    assert("$=\""@ =~= "$="@ + "\""@);
    reveal_strlit("*=");
    reveal_strlit("*=\"");
    assert("*=\""@ =~= "*="@ + "\""@);
    let text = matcher_value_text(t.children_seq()[1]);
    match m {
        SelectorAttributeType::Present => {},
        SelectorAttributeType::ExactMatch(a) => {
            assert(matcher_css(m) =~= "="@ + ("\""@ + text + "\""@));
        },
        SelectorAttributeType::ListContains(a) => {
            assert(matcher_css(m) =~= "~="@ + ("\""@ + text + "\""@));
        },
        SelectorAttributeType::StartsWith(a) => {
            assert(matcher_css(m) =~= "^="@ + ("\""@ + text + "\""@));
        },
        SelectorAttributeType::StartsWithDashed(a) => {
            assert(matcher_css(m) =~= "|="@ + ("\""@ + text + "\""@));
        },
        SelectorAttributeType::Endswith(a) => {
            assert(matcher_css(m) =~= "$="@ + ("\""@ + text + "\""@));
        },
        SelectorAttributeType::RawContains(a) => {
            assert(matcher_css(m) =~= "*="@ + ("\""@ + text + "\""@));
        },
    }
}

/// The token at `k` among `c` is a case modifier `s` or `S`.
pub open spec fn case_sensitive_at<'a>(c: Seq<SelectorToken<'a>>, k: int) -> bool {
    &&& 0 <= k < c.len()
    &&& c[k].rule == SelectorRule::ATTR_MODIFIER
    &&& (c[k].spec_text() == "s"@ || c[k].spec_text() == "S"@)
}

/// The namespace prefix `p` is empty or names its namespace first.
pub open spec fn prefix_readable<'a>(p: SelectorToken<'a>) -> bool {
    p.value is Leaf || (p.children_seq().len() > 0 && p.children_seq()[0].rule == SelectorRule::IDENT)
}

/// `ns` is the namespace the readable prefix `p` names.
pub open spec fn prefix_of<'a>(p: SelectorToken<'a>, ns: Option<SourceSlice<'a>>) -> bool {
    if p.value is Leaf {
        ns is None
    } else {
        ns == Some(p.children_seq()[0].spec_source())
    }
}

/// The qualified name `t` can be read.
pub open spec fn wq_readable<'a>(t: SelectorToken<'a>) -> bool {
    let c = t.children_seq();
    &&& t.value is Internal
    &&& c.len() > 0
    &&& c[0].rule == SelectorRule::IDENT || (c[0].rule == SelectorRule::PREFIX_NAMESPACE
        && prefix_readable(c[0]) && c.len() > 1 && c[1].rule == SelectorRule::IDENT)
}

/// `(ns, name)` is what the readable qualified name `t` spells.
pub open spec fn wq_of<'a>(t: SelectorToken<'a>, ns: Option<SourceSlice<'a>>, name: SourceSlice<'a>) -> bool {
    let c = t.children_seq();
    if c[0].rule == SelectorRule::IDENT {
        ns is None && name == c[0].spec_source()
    } else {
        prefix_of(c[0], ns) && name == c[1].spec_source()
    }
}

/// The type selector `t` can be read.
pub open spec fn type_readable<'a>(t: SelectorToken<'a>) -> bool {
    let c = t.children_seq();
    ||| t.value is Leaf
    ||| c.len() > 0 && c[0].rule == SelectorRule::PREFIX_NAMESPACE && prefix_readable(c[0])
    ||| c.len() > 0 && c[0].rule == SelectorRule::WQ_NAME && wq_readable(c[0])
}

/// `(ns, name)` is what the readable type selector `t` spells.
pub open spec fn type_of<'a>(
    t: SelectorToken<'a>,
    ns: Option<SourceSlice<'a>>,
    name: Option<SourceSlice<'a>>,
) -> bool {
    let c = t.children_seq();
    if t.value is Leaf {
        ns is None && name is None
    } else if c[0].rule == SelectorRule::PREFIX_NAMESPACE {
        prefix_of(c[0], ns) && name is None
    } else {
        name matches Some(n) && wq_of(c[0], ns, n)
    }
}


/// `sub` is what the subclass selector `t`, which can be read, spells.
pub open spec fn subclass_readable<'a>(t: SelectorToken<'a>) -> bool {
    let c = t.children_seq();
    &&& t.value is Internal
    &&& c.len() > 0
    &&& {
        let s = c[0];
        let sc = s.children_seq();
        ||| s.rule == SelectorRule::SELECTOR_ID && s.value is Internal && sc.len() > 0 && sc[0].rule
            == SelectorRule::HASH && trims_to_text_of(sc[0].start, sc[0].end, 1, 0)
        ||| s.rule == SelectorRule::SELECTOR_CLASS && s.value is Internal && sc.len() > 0 && sc[0].rule
            == SelectorRule::IDENT
        ||| s.rule == SelectorRule::SELECTOR_ATTRIBUTE && s.value is Internal && sc.len() > 0
            && sc[0].rule == SelectorRule::IDENT
        ||| s.rule == SelectorRule::SELECTOR_PSEUDOCLASS && s.value is Internal && sc.len() > 0
            && sc[0].rule == SelectorRule::IDENT
    }
}

/// The attribute selector `t` spells the attribute `name`, compared as `m`, case-sensitively or
/// not: the matcher is `Present` unless a readable matcher follows the name, and the comparison is
/// case-sensitive only where a modifier `s` or `S` follows.
pub open spec fn attribute_of<'a>(
    t: SelectorToken<'a>,
    name: Seq<char>,
    m: SelectorAttributeType,
    case_sensitive: bool,
) -> bool {
    let c = t.children_seq();
    let has_matcher = c.len() > 1 && c[1].rule == SelectorRule::ATTR_MATCHER && attr_matcher_readable(
        c[1],
    );
    &&& name == c[0].spec_text()
    &&& if has_matcher {
        attr_matcher_of(c[1], m)
    } else {
        m is Present
    }
    &&& case_sensitive == case_sensitive_at(
        c,
        if has_matcher {
            2
        } else {
            1
        },
    )
}

/// `sub` is what the readable subclass selector `t` spells.
pub open spec fn subclass_of<'a>(t: SelectorToken<'a>, sub: SelectorSubclassType) -> bool {
    let s = t.children_seq()[0];
    let sc = s.children_seq();
    if s.rule == SelectorRule::SELECTOR_ID {
        sub matches SelectorSubclassType::Id(x) && x@ == trimmed_text_of(sc[0].start, sc[0].end, 1, 0)
    } else if s.rule == SelectorRule::SELECTOR_CLASS {
        sub matches SelectorSubclassType::Class(x) && x@ == sc[0].spec_text()
    } else if s.rule == SelectorRule::SELECTOR_ATTRIBUTE {
        sub matches SelectorSubclassType::Attribute { name, attr_matcher, case_sensitive }
            && attribute_of(s, name@, attr_matcher, case_sensitive)
    } else {
        sub matches SelectorSubclassType::PseudoClass(x) && x@ == sc[0].spec_text()
    }
}


/// The namespace and the type name that the readable type selector `t` writes, each if written.
pub open spec fn type_texts<'a>(t: SelectorToken<'a>) -> (Option<Seq<char>>, Option<Seq<char>>) {
    let c = t.children_seq();
    if t.value is Leaf {
        (None, None)
    } else if c[0].rule == SelectorRule::PREFIX_NAMESPACE {
        (prefix_text(c[0]), None)
    } else {
        let w = c[0].children_seq();
        if w[0].rule == SelectorRule::IDENT {
            (None, Some(w[0].spec_text()))
        } else {
            (prefix_text(w[0]), Some(w[1].spec_text()))
        }
    }
}

/// The namespace that the readable prefix `p` names, if any.
pub open spec fn prefix_text<'a>(p: SelectorToken<'a>) -> Option<Seq<char>> {
    if p.value is Leaf {
        None
    } else {
        Some(p.children_seq()[0].spec_text())
    }
}

/// `parts` are the parts that the readable type selector `t` gives a compound selector: `*` when
/// it writes neither namespace nor name, else the namespace and then the name, each if written.
pub open spec fn type_parts_of<'a>(t: SelectorToken<'a>, parts: Seq<SelectorNodeType>) -> bool {
    let (ns, name) = type_texts(t);
    if ns is None && name is None {
        parts.len() == 1 && parts[0] is Universal
    } else {
        let k: int = if ns is Some {
            1
        } else {
            0
        };
        &&& parts.len() == k + if name is Some {
            1int
        } else {
            0int
        }
        &&& ns matches Some(x) ==> parts[0] matches SelectorNodeType::Namespace(s) && s@ == x
        &&& name matches Some(x) ==> parts[k] matches SelectorNodeType::TypeName(s) && s@ == x
    }
}

/// The part that the subclass `sub` makes.
pub open spec fn subclass_part(sub: SelectorSubclassType) -> SelectorNodeType {
    match sub {
        SelectorSubclassType::Id(x) => SelectorNodeType::Id(x),
        SelectorSubclassType::Class(x) => SelectorNodeType::Class(x),
        SelectorSubclassType::Attribute { name, attr_matcher, case_sensitive } => SelectorNodeType::Attribute {
            name,
            attr_matcher,
            case_sensitive,
        },
        SelectorSubclassType::PseudoClass(x) => SelectorNodeType::PseudoClass(x),
        SelectorSubclassType::PseudoElement(x, params) => SelectorNodeType::PseudoElement(x, params),
    }
}

/// `t` is a subclass selector that can be read.
pub open spec fn subclass_ok<'a>(t: SelectorToken<'a>) -> bool {
    t.rule == SelectorRule::SELECTOR_SUBCLASS && subclass_readable(t)
}

/// `part` is the part that the readable subclass selector `t` makes.
pub open spec fn subclass_part_of<'a>(t: SelectorToken<'a>, part: SelectorNodeType) -> bool {
    exists|sub: SelectorSubclassType| subclass_of(t, sub) && part == subclass_part(sub)
}

/// `parts` are the parts of readable subclass selectors at the front of `tokens`, one each.
pub open spec fn subclass_prefix<'a>(tokens: Seq<SelectorToken<'a>>, parts: Seq<SelectorNodeType>) -> bool {
    &&& parts.len() <= tokens.len()
    &&& forall|i: int|
        #![trigger tokens[i]]
        0 <= i < parts.len() ==> subclass_ok(tokens[i]) && subclass_part_of(tokens[i], parts[i])
}

/// `parts` are the parts of the longest run of readable subclass selectors `tokens` starts with.
pub open spec fn subclass_run<'a>(tokens: Seq<SelectorToken<'a>>, parts: Seq<SelectorNodeType>) -> bool {
    &&& subclass_prefix(tokens, parts)
    &&& parts.len() < tokens.len() ==> !subclass_ok(tokens[parts.len() as int])
}

/// Reading one more subclass selector extends a prefix read.
proof fn lemma_subclass_prefix_push<'a>(
    tokens: Seq<SelectorToken<'a>>,
    parts: Seq<SelectorNodeType>,
    part: SelectorNodeType,
)
    requires
        subclass_prefix(tokens, parts),
        parts.len() < tokens.len(),
        subclass_ok(tokens[parts.len() as int]),
        subclass_part_of(tokens[parts.len() as int], part),
    ensures
        subclass_prefix(tokens, parts.push(part)),
{
    let pushed = parts.push(part);
    assert forall|i: int|
        #![trigger tokens[i]]
        0 <= i < pushed.len() implies subclass_ok(tokens[i]) && subclass_part_of(tokens[i], pushed[i]) by {
        if i < parts.len() {
            assert(pushed[i] == parts[i]);
        }
    }
}

/// `parts` are what the compound selector `t` spells: the parts of its type selector, if one can
/// be read first, then those of the run of subclass selectors that follows.
pub open spec fn compound_parts_of<'a>(t: SelectorToken<'a>, parts: Seq<SelectorNodeType>) -> bool {
    let c = t.children_seq();
    let has_type = c.len() > 0 && c[0].rule == SelectorRule::SELECTOR_TYPE && type_readable(c[0]);
    if has_type {
        exists|m: int|
            0 <= m <= parts.len() && type_parts_of(c[0], parts.take(m)) && subclass_run(
                c.skip(1),
                parts.skip(m),
            )
    } else {
        subclass_run(c, parts)
    }
}

/// `node` is what the compound selector `t` spells.
pub open spec fn compound_of<'a>(t: SelectorToken<'a>, node: SelectorNode) -> bool {
    compound_parts_of(t, node.0@)
}

/// The part that a combinator adds to the compound selector before it.
pub open spec fn combinator_part(c: SelectorCombinator) -> SelectorNodeType {
    match c {
        SelectorCombinator::SubsequentSibling(n) => SelectorNodeType::SubsequentSibling(Box::new(n)),
        SelectorCombinator::NextSibling(n) => SelectorNodeType::NextSibling(Box::new(n)),
        SelectorCombinator::Descendent(n) => SelectorNodeType::Descendent(Box::new(n)),
        SelectorCombinator::Child(n) => SelectorNodeType::Child(Box::new(n)),
        SelectorCombinator::Column(_) => arbitrary(),
    }
}

/// `out` is `first` followed, through each combinator of `rest` in turn, by the compound selectors
/// of `rest`: every compound selector ends with a part that leads, through its combinator, to
/// the next one.
pub open spec fn chain_of(first: SelectorNode, rest: Seq<SelectorCombinator>, out: SelectorNode) -> bool
    decreases rest.len(),
{
    if rest.len() == 0 {
        out.0@ == first.0@
    } else {
        &&& out.0@.len() == first.0@.len() + 1
        &&& out.0@.drop_last() == first.0@
        &&& out.0@.last() == combinator_part(rest[0].with_node(part_node(out.0@.last())))
        &&& chain_of(rest[0].node(), rest.skip(1), part_node(out.0@.last()))
    }
}

/// The compound selector that a combinator part leads to.
pub open spec fn part_node(p: SelectorNodeType) -> SelectorNode {
    match p {
        SelectorNodeType::NextSibling(n) => *n,
        SelectorNodeType::SubsequentSibling(n) => *n,
        SelectorNodeType::Child(n) => *n,
        SelectorNodeType::Descendent(n) => *n,
        _ => arbitrary(),
    }
}

/// No combinator of `rest` is a column combinator.
pub open spec fn no_column(rest: Seq<SelectorCombinator>) -> bool {
    forall|i: int| #![trigger rest[i]] 0 <= i < rest.len() ==> !(rest[i] is Column)
}


/// Leading through the first combinator of `rest` to a chain of the others makes a chain.
proof fn lemma_chain_step(
    first: SelectorNode,
    rest: Seq<SelectorCombinator>,
    out: SelectorNode,
    inner: SelectorNode,
)
    requires
        rest.len() > 0,
        !(rest[0] is Column),
        out.0@.len() == first.0@.len() + 1,
        out.0@.drop_last() == first.0@,
        chain_of(rest[0].node(), rest.skip(1), inner),
        out.0@.last() == combinator_part(rest[0].with_node(inner)),
    ensures
        chain_of(first, rest, out),
{
}

/// The part that a combinator adds to the compound selector before it; a column combinator is
/// not read yet.
fn combinator_into_part(c: SelectorCombinator) -> (r: SelectorResult<SelectorNodeType>)
    ensures
        c is Column ==> r matches Err(SelectorExpectError::Unsupported(
            SelectorRule::SELECTOR_COMBINATOR__COLUMN,
        )),
        !(c is Column) ==> r == Ok::<_, SelectorExpectError>(combinator_part(c)),
{
    match c {
        SelectorCombinator::SubsequentSibling(n) => Ok(SelectorNodeType::SubsequentSibling(Box::new(n))),
        SelectorCombinator::NextSibling(n) => Ok(SelectorNodeType::NextSibling(Box::new(n))),
        SelectorCombinator::Descendent(n) => Ok(SelectorNodeType::Descendent(Box::new(n))),
        SelectorCombinator::Child(n) => Ok(SelectorNodeType::Child(Box::new(n))),
        SelectorCombinator::Column(_) => Err(
            SelectorExpectError::Unsupported(SelectorRule::SELECTOR_COMBINATOR__COLUMN),
        ),
    }
}

/// Joins a compound selector and the combinators that follow it into one selector: working from
/// the back, each compound selector gets a last part that leads, through its combinator, to the
/// one after it. A column combinator is not read yet.
#[verifier::loop_isolation(false)]
pub fn chain(first: SelectorNode, rest: Vec<SelectorCombinator>) -> (r: SelectorResult<SelectorNode>)
    ensures
        r is Ok <==> no_column(rest@),
        r matches Ok(out) ==> chain_of(first, rest@, out),
        !no_column(rest@) ==> r matches Err(SelectorExpectError::Unsupported(
            SelectorRule::SELECTOR_COMBINATOR__COLUMN,
        )),
{
    let ghost rest0 = rest@;
    let mut first = first;
    let ghost first0 = first;
    let mut rest = rest;
    if rest.len() == 0 {
        return Ok(first);
    }
    let ghost mut inner: SelectorNode = rest0.last().node();
    proof {
        assert(rest0.last().with_node(inner) == rest0.last());
        assert(rest0.skip(rest0.len() as int) =~= Seq::<SelectorCombinator>::empty());
    }
    while rest.len() > 1
        invariant
            1 <= rest@.len() <= rest0.len(),
            first == first0,
            forall|k: int| 0 <= k < rest@.len() - 1 ==> #[trigger] rest@[k] == rest0[k],
            rest@.last() == rest0[rest@.len() - 1].with_node(inner),
            chain_of(rest0[rest@.len() - 1].node(), rest0.skip(rest@.len() as int), inner),
            no_column(rest0.skip(rest@.len() as int)),
        decreases rest@.len(),
    {
        let ghost m = rest@.len() as int;
        let combinator = rest.pop().unwrap();
        let ghost c = combinator;
        let mut prev = rest.pop().unwrap();
        assert(prev == rest0[m - 2]);
        let part = match combinator_into_part(combinator) {
            Ok(part) => part,
            Err(error) => {
                assert(rest0[m - 1] is Column);
                assert(!no_column(rest0));
                return Err(error);
            },
        };
        let ghost prev_node = prev.node();
        let node = prev.get_node();
        node.push(part);
        let ghost new_node = prev.node();
        proof {
            assert(new_node.0@ == prev_node.0@.push(part));
            assert(rest0.skip(m - 1).skip(1) =~= rest0.skip(m));
            assert(rest0.skip(m - 1)[0] == rest0[m - 1]);
            assert(new_node.0@.drop_last() =~= prev_node.0@);
            assert(chain_of(rest0[m - 1].node(), rest0.skip(m - 1).skip(1), inner));
            assert(c == rest0[m - 1].with_node(inner));
            lemma_chain_step(rest0[m - 2].node(), rest0.skip(m - 1), new_node, inner);
            assert forall|i: int| 0 <= i < rest0.skip(m - 1).len() implies !(
            #[trigger] rest0.skip(m - 1)[i] is Column) by {
                if i > 0 {
                    assert(rest0.skip(m - 1)[i] == rest0.skip(m)[i - 1]);
                }
            }
            inner = new_node;
        }
        rest.push(prev);
    }
    let last = rest.pop().unwrap();
    let part = match combinator_into_part(last) {
        Ok(part) => part,
        Err(error) => {
            assert(rest0[0] is Column);
            return Err(error);
        },
    };
    let ghost before = first;
    first.push(part);
    proof {
        assert(first.0@.drop_last() =~= before.0@);
        assert(last == rest0[0].with_node(inner));
        lemma_chain_step(first0, rest0, first, inner);
        assert forall|i: int| 0 <= i < rest0.len() implies !(#[trigger] rest0[i] is Column) by {
            if i > 0 {
                assert(rest0[i] == rest0.skip(1)[i - 1]);
            }
        }
    }
    Ok(first)
}


/// The part that the subclass `sub` makes.
fn subclass_into_part(sub: SelectorSubclassType) -> (r: SelectorNodeType)
    ensures
        r == subclass_part(sub),
{
    match sub {
        SelectorSubclassType::Id(x) => SelectorNodeType::Id(x),
        SelectorSubclassType::Class(x) => SelectorNodeType::Class(x),
        SelectorSubclassType::Attribute { name, attr_matcher, case_sensitive } => SelectorNodeType::Attribute {
            name,
            attr_matcher,
            case_sensitive,
        },
        SelectorSubclassType::PseudoClass(x) => SelectorNodeType::PseudoClass(x),
        SelectorSubclassType::PseudoElement(x, params) => SelectorNodeType::PseudoElement(x, params),
    }
}


/// The combinator that the first child of the combinator token `t` names, around `n`.
pub open spec fn combinator_kind_of<'a>(t: SelectorToken<'a>, c: SelectorCombinator) -> bool {
    let k = t.children_seq()[0].rule;
    ||| k == SelectorRule::SELECTOR_COMBINATOR__NEXT_SIBLING && c is NextSibling
    ||| k == SelectorRule::SELECTOR_COMBINATOR__CHILD && c is Child
    ||| k == SelectorRule::SELECTOR_COMBINATOR__COLUMN && c is Column
    ||| k == SelectorRule::SELECTOR_COMBINATOR__SUBSEQUENT_SIBLING && c is SubsequentSibling
    ||| k == SelectorRule::SELECTOR_COMBINATOR__DESCENDENT && c is Descendent
}

/// The rule of a combinator token's first child names one of the known combinators.
pub open spec fn is_combinator_kind(k: SelectorRule) -> bool {
    ||| k == SelectorRule::SELECTOR_COMBINATOR__NEXT_SIBLING
    ||| k == SelectorRule::SELECTOR_COMBINATOR__CHILD
    ||| k == SelectorRule::SELECTOR_COMBINATOR__COLUMN
    ||| k == SelectorRule::SELECTOR_COMBINATOR__SUBSEQUENT_SIBLING
    ||| k == SelectorRule::SELECTOR_COMBINATOR__DESCENDENT
}

/// The combinator token `t` names a known combinator.
pub open spec fn combinator_readable<'a>(t: SelectorToken<'a>) -> bool {
    t.children_seq().len() > 0 && is_combinator_kind(t.children_seq()[0].rule)
}

/// What reading the combinator token `t` reports when it names no known combinator.
pub open spec fn combinator_refusal<'a>(t: SelectorToken<'a>, e: SelectorExpectError) -> bool {
    if t.children_seq().len() == 0 {
        e == SelectorExpectError::MalformedToken(SelectorRule::SELECTOR_COMBINATOR)
    } else {
        e == SelectorExpectError::InvalidCombinator(t.children_seq()[0].rule)
    }
}

/// A compound selector with children is at `k` among `c`.
pub open spec fn compound_at<'a>(c: Seq<SelectorToken<'a>>, k: int) -> bool {
    &&& 0 <= k < c.len()
    &&& c[k].rule == SelectorRule::SELECTOR_COMPOUND
    &&& c[k].value is Internal
}

/// What reading a compound selector at `k` among `c` reports when none can be read there.
pub open spec fn compound_refusal<'a>(c: Seq<SelectorToken<'a>>, k: int, e: SelectorExpectError) -> bool {
    if k >= c.len() {
        e matches SelectorExpectError::TooFewTokens(s) && s@ == SelectorRule::SELECTOR_COMPOUND.spec_name()
    } else if c[k].rule != SelectorRule::SELECTOR_COMPOUND {
        e == SelectorExpectError::FailedExpectation(c[k].rule, SelectorRule::SELECTOR_COMPOUND)
    } else {
        e == SelectorExpectError::MalformedToken(SelectorRule::SELECTOR_COMPOUND)
    }
}

/// The index just past the run of namespace tokens that starts at `k` among `c`.
pub open spec fn namespace_run_end<'a>(c: Seq<SelectorToken<'a>>, k: int) -> int
    decreases c.len() - k,
{
    if 0 <= k < c.len() && c[k].rule == SelectorRule::SELECTOR_COMBINATOR__NAMESPACE {
        namespace_run_end(c, k + 1)
    } else {
        k
    }
}

/// A run of namespace tokens ends within the tokens, at the first token that is no namespace.
pub proof fn lemma_namespace_run_end<'a>(c: Seq<SelectorToken<'a>>, k: int)
    requires
        0 <= k <= c.len(),
    ensures
        k <= namespace_run_end(c, k) <= c.len(),
        namespace_run_end(c, k) < c.len() ==> c[namespace_run_end(c, k)].rule
            != SelectorRule::SELECTOR_COMBINATOR__NAMESPACE,
    decreases c.len() - k,
{
    if k < c.len() && c[k].rule == SelectorRule::SELECTOR_COMBINATOR__NAMESPACE {
        lemma_namespace_run_end(c, k + 1);
    }
}

/// The tail of a complex selector from `i` on can be read: each combinator names a known
/// combinator and is followed by a compound selector, and then by any number of namespaces.
pub open spec fn complex_tail_readable<'a>(c: Seq<SelectorToken<'a>>, i: int) -> bool
    decreases c.len() - i,
{
    if 0 <= i < c.len() {
        let e = namespace_run_end(c, i + 2);
        &&& c[i].rule == SelectorRule::SELECTOR_COMBINATOR
        &&& compound_at(c, i + 1)
        &&& combinator_readable(c[i])
        &&& if i < e <= c.len() {
            complex_tail_readable(c, e)
        } else {
            false
        }
    } else {
        true
    }
}

/// What reading the tail of a complex selector from `i` on reports at the first place where it
/// cannot be read.
pub open spec fn complex_tail_refusal<'a>(c: Seq<SelectorToken<'a>>, i: int, e: SelectorExpectError) -> bool
    decreases c.len() - i,
{
    if 0 <= i < c.len() {
        let n = namespace_run_end(c, i + 2);
        if c[i].rule != SelectorRule::SELECTOR_COMBINATOR {
            e == SelectorExpectError::UnknownSelectorRule(c[i].rule)
        } else if !compound_at(c, i + 1) {
            compound_refusal(c, i + 1, e)
        } else if !combinator_readable(c[i]) {
            combinator_refusal(c[i], e)
        } else if i < n <= c.len() {
            complex_tail_refusal(c, n, e)
        } else {
            false
        }
    } else {
        false
    }
}

/// Where the combinators of the tail of a complex selector from `i` on stand.
pub open spec fn complex_tail_groups<'a>(c: Seq<SelectorToken<'a>>, i: int) -> Seq<int>
    decreases c.len() - i,
{
    if 0 <= i < c.len() {
        let e = namespace_run_end(c, i + 2);
        if i < e <= c.len() {
            seq![i] + complex_tail_groups(c, e)
        } else {
            seq![]
        }
    } else {
        seq![]
    }
}

/// `parts` are a namespace part for each of the namespace tokens `tokens`, with its text.
pub open spec fn namespace_parts_of<'a>(tokens: Seq<SelectorToken<'a>>, parts: Seq<SelectorNodeType>) -> bool {
    &&& parts.len() == tokens.len()
    &&& forall|k: int|
        #![trigger parts[k]]
        0 <= k < parts.len() ==> (parts[k] matches SelectorNodeType::Namespace(s) && s@
            == tokens[k].spec_text())
}

/// `comb` is what the combinator token at `p` among `c` makes: a combinator of its kind around
/// the compound selector after it, which also gets a namespace part for each namespace token
/// that follows.
pub open spec fn combinator_group_of<'a>(c: Seq<SelectorToken<'a>>, p: int, comb: SelectorCombinator) -> bool {
    let e = namespace_run_end(c, p + 2);
    let parts = comb.node().0@;
    let m = parts.len() - (e - (p + 2));
    &&& combinator_kind_of(c[p], comb)
    &&& 0 <= m
    &&& compound_parts_of(c[p + 1], parts.take(m))
    &&& namespace_parts_of(c.subrange(p + 2, e), parts.skip(m))
}

/// The children `c` of a complex selector can be read.
pub open spec fn complex_readable<'a>(c: Seq<SelectorToken<'a>>) -> bool {
    compound_at(c, 0) && complex_tail_readable(c, 1)
}

/// What reading the children `c` of a complex selector reports when they cannot be read.
pub open spec fn complex_refusal<'a>(c: Seq<SelectorToken<'a>>, e: SelectorExpectError) -> bool {
    if !compound_at(c, 0) {
        compound_refusal(c, 0, e)
    } else {
        complex_tail_refusal(c, 1, e)
    }
}

/// `(first, rest)` is what the readable children `c` of a complex selector spell: the first
/// compound selector, then one combinator for each combinator token.
pub open spec fn complex_of<'a>(c: Seq<SelectorToken<'a>>, first: SelectorNode, rest: Seq<SelectorCombinator>) -> bool {
    let g = complex_tail_groups(c, 1);
    &&& compound_of(c[0], first)
    &&& rest.len() == g.len()
    &&& forall|j: int| 0 <= j < g.len() ==> combinator_group_of(c, g[j], #[trigger] rest[j])
}

/// The token `t` is a complex selector that can be read.
pub open spec fn complex_token_readable<'a>(t: SelectorToken<'a>) -> bool {
    &&& t.rule == SelectorRule::SELECTOR_COMPLEX
    &&& t.value is Internal
    &&& complex_readable(t.children_seq())
}

/// How many complex selectors that can be read stand in a row among `tokens` from `k` on.
pub open spec fn readable_complex_run<'a>(tokens: Seq<SelectorToken<'a>>, k: int) -> nat
    decreases tokens.len() - k,
{
    if 0 <= k < tokens.len() && complex_token_readable(tokens[k]) {
        1 + readable_complex_run(tokens, k + 1)
    } else {
        0
    }
}

/// The readable complex selector `t` has a column combinator.
pub open spec fn complex_has_column<'a>(t: SelectorToken<'a>) -> bool {
    let c = t.children_seq();
    let g = complex_tail_groups(c, 1);
    exists|j: int|
        0 <= j < g.len() && (#[trigger] c[g[j]]).children_seq()[0].rule
            == SelectorRule::SELECTOR_COMBINATOR__COLUMN
}

/// `node` is the selector that the readable complex selector `t` makes: its compound selectors
/// joined through its combinators.
pub open spec fn selector_of<'a>(t: SelectorToken<'a>, node: SelectorNode) -> bool {
    exists|first: SelectorNode, rest: Seq<SelectorCombinator>|
        complex_of(t.children_seq(), first, rest) && #[trigger] chain_of(first, rest, node)
}

/// `r` is what reading the selector list `t` gives: one selector for each complex selector that
/// can be read in a row from the start of its first child, or an error where one of them has a
/// column combinator; a list without such a child is malformed.
pub open spec fn selector_list_outcome<'a>(t: SelectorToken<'a>, r: SelectorResult<Vec<SelectorNode>>) -> bool {
    let c = t.children_seq();
    if !(c.len() > 0 && c[0].value is Internal) {
        r matches Err(SelectorExpectError::MalformedToken(rule)) && rule == SelectorRule::SELECTOR_LIST
    } else {
        let l = c[0].children_seq();
        let n = readable_complex_run(l, 0);
        if exists|j: int| 0 <= j < n && #[trigger] complex_has_column(l[j]) {
            r matches Err(SelectorExpectError::Unsupported(rule)) && rule
                == SelectorRule::SELECTOR_COMBINATOR__COLUMN
        } else {
            r matches Ok(selectors) && selectors@.len() == n && forall|j: int|
                0 <= j < n ==> selector_of(l[j], #[trigger] selectors@[j])
        }
    }
}

/// A readable complex selector has a column combinator exactly where what it spells does.
proof fn lemma_column_of_complex<'a>(t: SelectorToken<'a>, first: SelectorNode, rest: Seq<SelectorCombinator>)
    requires
        complex_of(t.children_seq(), first, rest),
    ensures
        complex_has_column(t) <==> !no_column(rest),
{
    let c = t.children_seq();
    let g = complex_tail_groups(c, 1);
    if complex_has_column(t) {
        let j = choose|j: int|
            0 <= j < g.len() && (#[trigger] c[g[j]]).children_seq()[0].rule
                == SelectorRule::SELECTOR_COMBINATOR__COLUMN;
        assert(combinator_group_of(c, g[j], rest[j]));
        assert(rest[j] is Column);
    }
    if !no_column(rest) {
        let j = choose|j: int| 0 <= j < rest.len() && #[trigger] rest[j] is Column;
        assert(combinator_group_of(c, g[j], rest[j]));
        assert(c[g[j]].children_seq()[0].rule == SelectorRule::SELECTOR_COMBINATOR__COLUMN);
    }
}

/// A node of a selector's parse tree.
pub type SelectorToken<'a> = ParserToken<'a, SelectorRule>;

/// Walks the children of a node of a selector's parse tree.
#[derive(Debug)]
pub struct SelectorTokenTracker<'a>(pub TokenTracker<'a, SelectorRule>);

impl<'a> SelectorTokenTracker<'a> {
    /// The tracker is well formed.
    pub open spec fn wf(&self) -> bool {
        self.0.wf()
    }

    /// The tokens the tracker walks.
    pub open spec fn tokens(&self) -> Seq<SelectorToken<'a>> {
        self.0.tokens@
    }

    /// How many tokens have been taken.
    pub open spec fn index(&self) -> int {
        self.0.idx as int
    }

    /// The next token (meaningful when one is left).
    pub open spec fn next(&self) -> SelectorToken<'a> {
        self.0.tokens@[self.0.idx as int]
    }

    /// A token is left and it has `rule`.
    pub open spec fn next_is(&self, rule: SelectorRule) -> bool {
        self.index() < self.tokens().len() && self.next().rule == rule
    }

    /// `new` walks the same tokens as `self`.
    pub open spec fn same_tokens(&self, new: &Self) -> bool {
        &&& new.wf()
        &&& new.0.tokens == self.0.tokens
    }

    /// `new` has taken one more token than `self`.
    pub open spec fn took_one(&self, new: &Self) -> bool {
        self.same_tokens(new) && new.index() == self.index() + 1
    }

    /// `new` is where `self` was, and `r` says why no token of `rule` could be taken.
    pub open spec fn refused<T>(&self, new: &Self, rule: SelectorRule, r: SelectorResult<T>) -> bool {
        &&& self.same_tokens(new)
        &&& new.index() == self.index()
        &&& if self.index() >= self.tokens().len() {
            r matches Err(SelectorExpectError::TooFewTokens(s)) && s@ == rule.spec_name()
        } else {
            r matches Err(SelectorExpectError::FailedExpectation(found, expected)) && found
                == self.next().rule && expected == rule
        }
    }

    /// A tracker over the children of `token`; `None` for a leaf.
    pub fn new(token: &'a SelectorToken<'a>) -> (r: Option<SelectorTokenTracker<'a>>)
        requires
            token.wf(),
        ensures
            r is None <==> token.value is Leaf,
            r matches Some(t) ==> t.wf() && t.tokens() == token.children_seq() && t.index() == 0,
    {
        proof {
            lemma_children_wf(*token);
        }
        match token.get_children() {
            Some(children) => Some(SelectorTokenTracker(TokenTracker::new(children))),
            None => None,
        }
    }

    /// A tracker over `vec`.
    pub fn from_vec(vec: &'a Vec<SelectorToken<'a>>) -> (r: Self)
        requires
            forall|i: int| 0 <= i < vec@.len() ==> (#[trigger] vec@[i]).wf(),
        ensures
            r.wf(),
            r.tokens() == vec@,
            r.index() == 0,
    {
        SelectorTokenTracker(TokenTracker::new(vec))
    }

    /// The next token, without taking it.
    pub fn peek(&self) -> (r: Option<&'a SelectorToken<'a>>)
        requires
            self.wf(),
        ensures
            r is Some <==> self.index() < self.tokens().len(),
            r matches Some(t) ==> *t == self.next(),
    {
        self.0.peek()
    }

    /// The number of tokens not yet taken.
    pub fn len(&self) -> (r: usize)
        requires
            self.wf(),
        ensures
            r == self.tokens().len() - self.index(),
    {
        self.0.len()
    }

    /// Whether there are still tokens to take.
    pub fn is_empty(&self) -> (r: bool)
        requires
            self.wf(),
        ensures
            r == (self.index() < self.tokens().len()),
    {
        self.0.is_empty()
    }

    /// Gives back the token just taken and reports that it has the wrong rule.
    fn fail_type<O>(&mut self, expected: SelectorRule) -> (r: SelectorResult<O>)
        requires
            old(self).wf(),
            1 <= old(self).index() <= old(self).tokens().len(),
        ensures
            final(self).same_tokens(old(self)),
            final(self).index() == old(self).index() - 1,
            r matches Err(SelectorExpectError::FailedExpectation(found, e)) && found == old(
                self,
            ).tokens()[old(self).index() - 1].rule && e == expected,
    {
        let current_rule = self.0.tokens[self.0.idx - 1].get_rule();
        self.0.fail_because(SelectorExpectError::FailedExpectation(current_rule, expected))
    }

    /// Gives back the token just taken and reports that it is malformed.
    fn fail_malformed<O>(&mut self, rule: SelectorRule) -> (r: SelectorResult<O>)
        requires
            old(self).wf(),
            1 <= old(self).index() <= old(self).tokens().len(),
        ensures
            final(self).same_tokens(old(self)),
            final(self).index() == old(self).index() - 1,
            r matches Err(SelectorExpectError::MalformedToken(e)) && e == rule,
    {
        self.0.fail_because(SelectorExpectError::MalformedToken(rule))
    }

    /// Takes the next token when it has `rule`; otherwise says why not and takes nothing.
    fn take(&mut self, rule: SelectorRule) -> (r: SelectorResult<&'a SelectorToken<'a>>)
        requires
            old(self).wf(),
        ensures
            old(self).next_is(rule) ==> old(self).took_one(final(self)) && (r matches Ok(t)
                && *t == old(self).next() && t.wf()),
            !old(self).next_is(rule) ==> old(self).refused(final(self), rule, r),
    {
        let token = match self.0.pop_front() {
            Some(token) => token,
            None => {
                return Err(SelectorExpectError::TooFewTokens(rule.name().to_owned()));
            },
        };
        if token.get_rule() != rule {
            return self.fail_type(rule);
        }
        Ok(token)
    }

    /// Takes an identifier and returns its text.
    pub fn expect_identifier(&mut self) -> (r: SelectorResult<SourceSlice<'a>>)
        requires
            old(self).wf(),
        ensures
            old(self).next_is(SelectorRule::IDENT) ==> old(self).took_one(final(self)) && r
                == Ok::<_, SelectorExpectError>(old(self).next().spec_source()),
            !old(self).next_is(SelectorRule::IDENT) ==> old(self).refused(
                final(self),
                SelectorRule::IDENT,
                r,
            ),
            r matches Ok(s) ==> s.wf() && s.coherent(),
    {
        let token = self.take(SelectorRule::IDENT)?;
        Ok(token.get_source())
    }

    /// Takes a quoted string and returns its text without the quotes.
    pub fn expect_quoted_string(&mut self) -> (r: SelectorResult<SourceSlice<'a>>)
        requires
            old(self).wf(),
        ensures
            old(self).next_is(SelectorRule::STRING) ==> {
                let t = old(self).next();
                if trims_to_text_of(t.start, t.end, 1, 1) {
                    old(self).took_one(final(self)) && (r matches Ok(s) && trimmed_slice_of(
                        t.start,
                        t.end,
                        1,
                        1,
                        s,
                    ))
                } else {
                    old(self).same_tokens(final(self)) && final(self).index() == old(self).index()
                        && r matches Err(SelectorExpectError::MalformedToken(SelectorRule::STRING))
                }
            },
            !old(self).next_is(SelectorRule::STRING) ==> old(self).refused(
                final(self),
                SelectorRule::STRING,
                r,
            ),
            r matches Ok(s) ==> s.wf() && s.coherent(),
    {
        let token = self.take(SelectorRule::STRING)?;
        match token.get_source().trimmed(1, 1) {
            Some(slice) => Ok(slice),
            None => self.fail_malformed(SelectorRule::STRING),
        }
    }

    /// Takes a hash token and returns its text without the `#`.
    pub fn expect_hash(&mut self) -> (r: SelectorResult<SourceSlice<'a>>)
        requires
            old(self).wf(),
        ensures
            old(self).next_is(SelectorRule::HASH) ==> {
                let t = old(self).next();
                if trims_to_text_of(t.start, t.end, 1, 0) {
                    old(self).took_one(final(self)) && (r matches Ok(s) && trimmed_slice_of(
                        t.start,
                        t.end,
                        1,
                        0,
                        s,
                    ))
                } else {
                    old(self).same_tokens(final(self)) && final(self).index() == old(self).index()
                        && r matches Err(SelectorExpectError::MalformedToken(SelectorRule::HASH))
                }
            },
            !old(self).next_is(SelectorRule::HASH) ==> old(self).refused(
                final(self),
                SelectorRule::HASH,
                r,
            ),
            r matches Ok(s) ==> s.wf() && s.coherent(),
    {
        let token = self.take(SelectorRule::HASH)?;
        match token.get_source().trimmed(1, 0) {
            Some(slice) => Ok(slice),
            None => self.fail_malformed(SelectorRule::HASH),
        }
    }

    /// Takes a token of `rule` with children, and returns it with a tracker over its children;
    /// gives a leaf back as malformed.
    fn take_inner(&mut self, rule: SelectorRule) -> (r: SelectorResult<(&'a SelectorToken<'a>, SelectorTokenTracker<'a>)>)
        requires
            old(self).wf(),
        ensures
            old(self).next_is(rule) && old(self).next().value is Internal ==> old(self).took_one(
                final(self),
            ) && (r matches Ok((t, tr)) && *t == old(self).next() && tr.wf() && tr.tokens()
                == t.children_seq() && tr.index() == 0),
            old(self).next_is(rule) && old(self).next().value is Leaf ==> old(self).same_tokens(
                final(self),
            ) && final(self).index() == old(self).index() && (r matches Err(
                SelectorExpectError::MalformedToken(e),
            ) && e == rule),
            !old(self).next_is(rule) ==> old(self).refused(final(self), rule, r),
    {
        let token = self.take(rule)?;
        match SelectorTokenTracker::new(token) {
            Some(tracker) => Ok((token, tracker)),
            None => self.fail_malformed(rule),
        }
    }

    /// Takes a class selector and returns its name.
    pub fn expect_class(&mut self) -> (r: SelectorResult<SourceSlice<'a>>)
        requires
            old(self).wf(),
        ensures
            old(self).next_is(SelectorRule::SELECTOR_CLASS) ==> {
                let t = old(self).next();
                let c = t.children_seq();
                &&& old(self).same_tokens(final(self))
                &&& r is Ok <==> (t.value is Internal && c.len() > 0 && c[0].rule == SelectorRule::IDENT)
                &&& r matches Ok(s) ==> (old(self).took_one(final(self)) && s == c[0].spec_source())
            },
            !old(self).next_is(SelectorRule::SELECTOR_CLASS) ==> old(self).refused(
                final(self),
                SelectorRule::SELECTOR_CLASS,
                r,
            ),
            r matches Ok(s) ==> s.wf() && s.coherent(),
    {
        let (_, mut class_expector) = self.take_inner(SelectorRule::SELECTOR_CLASS)?;
        class_expector.expect_identifier()
    }

    /// Takes an id selector and returns the id without its `#`.
    pub fn expect_id(&mut self) -> (r: SelectorResult<SourceSlice<'a>>)
        requires
            old(self).wf(),
        ensures
            old(self).next_is(SelectorRule::SELECTOR_ID) ==> {
                let t = old(self).next();
                let c = t.children_seq();
                &&& old(self).same_tokens(final(self))
                &&& r is Ok <==> (t.value is Internal && c.len() > 0 && c[0].rule == SelectorRule::HASH
                    && trims_to_text_of(c[0].start, c[0].end, 1, 0))
                &&& r matches Ok(s) ==> (old(self).took_one(final(self)) && trimmed_slice_of(
                    c[0].start,
                    c[0].end,
                    1,
                    0,
                    s,
                ))
            },
            !old(self).next_is(SelectorRule::SELECTOR_ID) ==> old(self).refused(
                final(self),
                SelectorRule::SELECTOR_ID,
                r,
            ),
            r matches Ok(s) ==> s.wf() && s.coherent(),
    {
        let (_, mut id_expector) = self.take_inner(SelectorRule::SELECTOR_ID)?;
        id_expector.expect_hash()
    }

    /// Takes a pseudo-class selector and returns its name.
    fn expect_pseudoclass(&mut self) -> (r: SelectorResult<SourceSlice<'a>>)
        requires
            old(self).wf(),
        ensures
            old(self).next_is(SelectorRule::SELECTOR_PSEUDOCLASS) ==> {
                let t = old(self).next();
                let c = t.children_seq();
                &&& old(self).same_tokens(final(self))
                &&& r is Ok <==> (t.value is Internal && c.len() > 0 && c[0].rule == SelectorRule::IDENT)
                &&& r matches Ok(s) ==> (old(self).took_one(final(self)) && s == c[0].spec_source())
                &&& t.value is Internal && c.len() > 0 && c[0].rule == SelectorRule::FUNCTION ==> r
                    matches Err(SelectorExpectError::Unsupported(SelectorRule::FUNCTION))
            },
            !old(self).next_is(SelectorRule::SELECTOR_PSEUDOCLASS) ==> old(self).refused(
                final(self),
                SelectorRule::SELECTOR_PSEUDOCLASS,
                r,
            ),
            r matches Ok(s) ==> s.wf() && s.coherent(),
    {
        let (_, mut psclass_expector) = self.take_inner(SelectorRule::SELECTOR_PSEUDOCLASS)?;
        match psclass_expector.peek() {
            Some(first) => {
                let rule = first.get_rule();
                if rule == SelectorRule::IDENT {
                    psclass_expector.expect_identifier()
                } else if rule == SelectorRule::FUNCTION {
                    Err(SelectorExpectError::Unsupported(SelectorRule::FUNCTION))
                } else {
                    Err(SelectorExpectError::UnknownSelectorRule(rule))
                }
            },
            None => Err(SelectorExpectError::MalformedToken(SelectorRule::SELECTOR_PSEUDOCLASS)),
        }
    }

    /// Takes a case modifier: `s` or `S` is case-sensitive, `i` or `I` is not.
    fn expect_attr_modifier(&mut self) -> (r: SelectorResult<bool>)
        requires
            old(self).wf(),
        ensures
            old(self).next_is(SelectorRule::ATTR_MODIFIER) ==> {
                let text = old(self).next().spec_text();
                let known = text == "s"@ || text == "S"@ || text == "i"@ || text == "I"@;
                &&& old(self).same_tokens(final(self))
                &&& r is Ok <==> known
                &&& known ==> old(self).took_one(final(self)) && r == Ok::<bool, SelectorExpectError>(
                    text == "s"@ || text == "S"@,
                )
                &&& !known ==> final(self).index() == old(self).index()
            },
            !old(self).next_is(SelectorRule::ATTR_MODIFIER) ==> old(self).refused(
                final(self),
                SelectorRule::ATTR_MODIFIER,
                r,
            ),
    {
        proof {
            reveal_strlit("s");
            reveal_strlit("S");
            reveal_strlit("i");
            reveal_strlit("I");
            assert("s"@ =~= seq!['s']);
            assert("S"@ =~= seq!['S']);
            assert("i"@ =~= seq!['i']);
            assert("I"@ =~= seq!['I']);
        }
        let token = self.take(SelectorRule::ATTR_MODIFIER)?;
        let text = token.get_source().get();
        if str_eq(text, "s") || str_eq(text, "S") {
            Ok(true)
        } else if str_eq(text, "i") || str_eq(text, "I") {
            Ok(false)
        } else {
            self.fail_malformed(SelectorRule::ATTR_MODIFIER)
        }
    }

    /// Takes an attribute matcher: how the attribute's value is compared, and with what.
    fn expect_attr_matcher(&mut self) -> (r: SelectorResult<SelectorAttributeType>)
        requires
            old(self).wf(),
        ensures
            old(self).next_is(SelectorRule::ATTR_MATCHER) ==> {
                let t = old(self).next();
                &&& old(self).same_tokens(final(self))
                &&& r is Ok <==> attr_matcher_readable(t)
                &&& r matches Ok(m) ==> old(self).took_one(final(self)) && attr_matcher_of(t, m)
                &&& r is Err ==> final(self).index() == old(self).index()
            },
            !old(self).next_is(SelectorRule::ATTR_MATCHER) ==> old(self).refused(
                final(self),
                SelectorRule::ATTR_MATCHER,
                r,
            ),
    {
        let (token, mut matcher_expector) = self.take_inner(SelectorRule::ATTR_MATCHER)?;
        proof {
            lemma_children_wf(*token);
        }
        let matcher_type = match matcher_expector.0.pop_front() {
            Some(matcher_type) => matcher_type,
            None => {
                return self.fail_malformed(SelectorRule::ATTR_MATCHER);
            },
        };
        let value_rule = match matcher_expector.peek() {
            Some(value) => value.get_rule(),
            None => {
                return self.fail_malformed(SelectorRule::ATTR_MATCHER);
            },
        };
        let value = if value_rule == SelectorRule::STRING {
            match matcher_expector.expect_quoted_string() {
                Ok(value) => value,
                Err(_) => {
                    return self.fail_malformed(SelectorRule::ATTR_MATCHER);
                },
            }
        } else if value_rule == SelectorRule::IDENT {
            match matcher_expector.expect_identifier() {
                Ok(value) => value,
                Err(_) => {
                    return self.fail_malformed(SelectorRule::ATTR_MATCHER);
                },
            }
        } else {
            return self.fail_malformed(SelectorRule::ATTR_MATCHER);
        };
        let kind = matcher_type.get_rule();
        if kind == SelectorRule::ATTR_MATCHER__EXACT_MATCH {
            Ok(SelectorAttributeType::ExactMatch(value.to_string()))
        } else if kind == SelectorRule::ATTR_MATCHER__LIST_CONTAINS {
            Ok(SelectorAttributeType::ListContains(value.to_string()))
        } else if kind == SelectorRule::ATTR_MATCHER__STARTS_WITH {
            Ok(SelectorAttributeType::StartsWith(value.to_string()))
        } else if kind == SelectorRule::ATTR_MATCHER__STARTS_WITH_DASHED {
            Ok(SelectorAttributeType::StartsWithDashed(value.to_string()))
        } else if kind == SelectorRule::ATTR_MATCHER__ENDS_WITH {
            Ok(SelectorAttributeType::Endswith(value.to_string()))
        } else if kind == SelectorRule::ATTR_MATCHER__CONTAINS {
            Ok(SelectorAttributeType::RawContains(value.to_string()))
        } else {
            self.fail_malformed(SelectorRule::ATTR_MATCHER)
        }
    }

    /// Takes an attribute selector: the attribute's name, how its value is compared, and
    /// whether case matters.
    fn expect_attribute(&mut self) -> (r: SelectorResult<(SourceSlice<'a>, SelectorAttributeType, bool)>)
        requires
            old(self).wf(),
        ensures
            old(self).next_is(SelectorRule::SELECTOR_ATTRIBUTE) ==> {
                let t = old(self).next();
                let c = t.children_seq();
                &&& old(self).same_tokens(final(self))
                &&& r is Ok <==> (t.value is Internal && c.len() > 0 && c[0].rule == SelectorRule::IDENT)
                &&& r matches Ok((name, m, cs)) ==> (old(self).took_one(final(self)) && name
                    == c[0].spec_source() && attribute_of(t, name.spec_text(), m, cs))
            },
            !old(self).next_is(SelectorRule::SELECTOR_ATTRIBUTE) ==> old(self).refused(
                final(self),
                SelectorRule::SELECTOR_ATTRIBUTE,
                r,
            ),
            r matches Ok((name, _, _)) ==> name.wf() && name.coherent(),
    {
        let (token, mut attribute_expector) = self.take_inner(SelectorRule::SELECTOR_ATTRIBUTE)?;
        let ghost c = token.children_seq();
        let attr_name = attribute_expector.expect_identifier()?;
        let matcher = match attribute_expector.expect_attr_matcher() {
            Ok(matcher) => matcher,
            Err(_) => SelectorAttributeType::Present,
        };
        let ghost at = attribute_expector.index();
        let sensitive = match attribute_expector.expect_attr_modifier() {
            Ok(sensitive) => sensitive,
            Err(_) => false,
        };
        proof {
            let has_matcher = c.len() > 1 && c[1].rule == SelectorRule::ATTR_MATCHER
                && attr_matcher_readable(c[1]);
            assert(at == if has_matcher {
                2int
            } else {
                1int
            });
        }
        Ok((attr_name, matcher, sensitive))
    }

    /// Takes a namespace prefix and returns the namespace it names, if any.
    pub fn expect_prefix_namespace(&mut self) -> (r: SelectorResult<Option<SourceSlice<'a>>>)
        requires
            old(self).wf(),
        ensures
            old(self).next_is(SelectorRule::PREFIX_NAMESPACE) ==> {
                let t = old(self).next();
                &&& old(self).took_one(final(self))
                &&& r is Ok <==> prefix_readable(t)
                &&& r matches Ok(ns) ==> prefix_of(t, ns)
            },
            !old(self).next_is(SelectorRule::PREFIX_NAMESPACE) ==> old(self).refused(
                final(self),
                SelectorRule::PREFIX_NAMESPACE,
                r,
            ),
            r matches Ok(Some(s)) ==> s.wf() && s.coherent(),
    {
        let token = self.take(SelectorRule::PREFIX_NAMESPACE)?;
        match SelectorTokenTracker::new(token) {
            Some(mut namespace_expector) => {
                let namespace = namespace_expector.expect_identifier()?;
                Ok(Some(namespace))
            },
            None => Ok(None),
        }
    }

    /// Takes a qualified name: an optional namespace prefix, then the name.
    pub fn expect_wq_name(&mut self) -> (r: SelectorResult<(Option<SourceSlice<'a>>, SourceSlice<'a>)>)
        requires
            old(self).wf(),
        ensures
            old(self).next_is(SelectorRule::WQ_NAME) ==> {
                let t = old(self).next();
                &&& old(self).same_tokens(final(self))
                &&& r is Ok <==> wq_readable(t)
                &&& r matches Ok((ns, name)) ==> old(self).took_one(final(self)) && wq_of(t, ns, name)
            },
            !old(self).next_is(SelectorRule::WQ_NAME) ==> old(self).refused(
                final(self),
                SelectorRule::WQ_NAME,
                r,
            ),
            r matches Ok((ns, name)) ==> name.wf() && name.coherent() && (ns matches Some(s) ==> s.wf()
                && s.coherent()),
    {
        let (_, mut wq_expector) = self.take_inner(SelectorRule::WQ_NAME)?;
        let rule = match wq_expector.peek() {
            Some(first) => first.get_rule(),
            None => {
                return Err(SelectorExpectError::MalformedToken(SelectorRule::WQ_NAME));
            },
        };
        if rule == SelectorRule::PREFIX_NAMESPACE {
            let prefix = wq_expector.expect_prefix_namespace()?;
            let ident = wq_expector.expect_identifier()?;
            Ok((prefix, ident))
        } else if rule == SelectorRule::IDENT {
            let ident = wq_expector.expect_identifier()?;
            Ok((None, ident))
        } else {
            Err(SelectorExpectError::UnknownSelectorRule(rule))
        }
    }

    /// Takes a type selector and returns its namespace and name, each if written; both missing
    /// for `*`.
    fn expect_type(&mut self) -> (r: SelectorResult<(Option<SourceSlice<'a>>, Option<SourceSlice<'a>>)>)
        requires
            old(self).wf(),
        ensures
            old(self).next_is(SelectorRule::SELECTOR_TYPE) ==> {
                let t = old(self).next();
                &&& old(self).same_tokens(final(self))
                &&& r is Ok <==> type_readable(t)
                &&& r matches Ok((ns, name)) ==> old(self).took_one(final(self)) && type_of(t, ns, name)
                &&& r is Err ==> final(self).index() == old(self).index()
            },
            !old(self).next_is(SelectorRule::SELECTOR_TYPE) ==> old(self).refused(
                final(self),
                SelectorRule::SELECTOR_TYPE,
                r,
            ),
            r matches Ok((ns, name)) ==> (ns matches Some(s) ==> s.wf() && s.coherent()) && (
            name matches Some(s) ==> s.wf() && s.coherent()),
    {
        let token = self.take(SelectorRule::SELECTOR_TYPE)?;
        let mut type_expector = match SelectorTokenTracker::new(token) {
            Some(type_expector) => type_expector,
            None => {
                return Ok((None, None));
            },
        };
        let rule = match type_expector.peek() {
            Some(first) => first.get_rule(),
            None => {
                return self.fail_malformed(SelectorRule::SELECTOR_TYPE);
            },
        };
        if rule == SelectorRule::PREFIX_NAMESPACE {
            match type_expector.expect_prefix_namespace() {
                Ok(namespace) => Ok((namespace, None)),
                Err(_) => self.fail_malformed(SelectorRule::SELECTOR_TYPE),
            }
        } else if rule == SelectorRule::WQ_NAME {
            match type_expector.expect_wq_name() {
                Ok((namespace, name)) => Ok((namespace, Some(name))),
                Err(_) => self.fail_malformed(SelectorRule::SELECTOR_TYPE),
            }
        } else {
            self.fail_malformed(SelectorRule::SELECTOR_TYPE)
        }
    }

    /// Takes a subclass selector: an id, a class, an attribute or a pseudo-class.
    fn expect_subclass(&mut self) -> (r: SelectorResult<SelectorSubclassType>)
        requires
            old(self).wf(),
        ensures
            old(self).next_is(SelectorRule::SELECTOR_SUBCLASS) ==> {
                let t = old(self).next();
                &&& old(self).same_tokens(final(self))
                &&& r is Ok <==> subclass_readable(t)
                &&& r matches Ok(sub) ==> old(self).took_one(final(self)) && subclass_of(t, sub)
            },
            !old(self).next_is(SelectorRule::SELECTOR_SUBCLASS) ==> old(self).refused(
                final(self),
                SelectorRule::SELECTOR_SUBCLASS,
                r,
            ),
    {
        let (_, mut subclass_expector) = self.take_inner(SelectorRule::SELECTOR_SUBCLASS)?;
        let rule = match subclass_expector.peek() {
            Some(first) => first.get_rule(),
            None => {
                return Err(SelectorExpectError::MalformedToken(SelectorRule::SELECTOR_SUBCLASS));
            },
        };
        if rule == SelectorRule::SELECTOR_ID {
            let ident = subclass_expector.expect_id()?;
            Ok(SelectorSubclassType::Id(ident.to_string()))
        } else if rule == SelectorRule::SELECTOR_CLASS {
            let ident = subclass_expector.expect_class()?;
            Ok(SelectorSubclassType::Class(ident.to_string()))
        } else if rule == SelectorRule::SELECTOR_ATTRIBUTE {
            let (name, attr_matcher, case_sensitive) = subclass_expector.expect_attribute()?;
            Ok(SelectorSubclassType::Attribute { name: name.to_string(), attr_matcher, case_sensitive })
        } else if rule == SelectorRule::SELECTOR_PSEUDOCLASS {
            let psclass = subclass_expector.expect_pseudoclass()?;
            Ok(SelectorSubclassType::PseudoClass(psclass.to_string()))
        } else {
            Err(SelectorExpectError::UnknownSelectorRule(rule))
        }
    }

    /// Reads subclass selectors until one cannot be read, adding their parts to `node`.
    fn read_subclass_run(&mut self, node: &mut SelectorNode)
        requires
            old(self).wf(),
        ensures
            final(node).0@.len() >= old(node).0@.len(),
            final(node).0@.take(old(node).0@.len() as int) == old(node).0@,
            subclass_run(
                old(self).tokens().skip(old(self).index()),
                final(node).0@.skip(old(node).0@.len() as int),
            ),
    {
        let ghost start = self.index();
        let ghost rest = self.tokens().skip(start);
        let ghost base = node.0@;
        loop
            invariant_except_break
                self.wf(),
                self.tokens() == old(self).tokens(),
                start == old(self).index(),
                rest == self.tokens().skip(start),
                base == old(node).0@,
                node.0@.len() >= base.len(),
                node.0@.take(base.len() as int) == base,
                self.index() == start + node.0@.len() - base.len(),
                subclass_prefix(rest, node.0@.skip(base.len() as int)),
            ensures
                node.0@.len() >= base.len(),
                node.0@.take(base.len() as int) == base,
                subclass_run(rest, node.0@.skip(base.len() as int)),
            decreases self.tokens().len() - self.index(),
        {
            let ghost before = *self;
            let ghost parts = node.0@.skip(base.len() as int);
            match self.expect_subclass() {
                Ok(sub) => {
                    let ghost s0 = sub;
                    let part = subclass_into_part(sub);
                    proof {
                        assert(rest[parts.len() as int] == before.next());
                        assert(subclass_of(rest[parts.len() as int], s0) && part == subclass_part(s0));
                        lemma_subclass_prefix_push(rest, parts, part);
                    }
                    let ghost old_node = node.0@;
                    node.push(part);
                    proof {
                        assert(node.0@.skip(base.len() as int) =~= parts.push(part));
                        assert(node.0@.take(base.len() as int) =~= old_node.take(base.len() as int));
                    }
                },
                Err(_) => {
                    proof {
                        if parts.len() < rest.len() {
                            assert(rest[parts.len() as int] == before.next());
                        }
                    }
                    break;
                },
            }
        }
    }

    /// Takes a compound selector: its type selector, if one is there, then its subclass
    /// selectors; a type selector that names neither namespace nor type makes `*`.
    pub fn expect_compound(&mut self) -> (r: SelectorResult<SelectorNode>)
        requires
            old(self).wf(),
        ensures
            old(self).next_is(SelectorRule::SELECTOR_COMPOUND) ==> {
                let t = old(self).next();
                &&& old(self).same_tokens(final(self))
                &&& r is Ok <==> t.value is Internal
                &&& r matches Ok(node) ==> old(self).took_one(final(self)) && compound_of(t, node)
                &&& r is Err ==> final(self).index() == old(self).index()
                &&& t.value is Leaf ==> r matches Err(SelectorExpectError::MalformedToken(
                    SelectorRule::SELECTOR_COMPOUND,
                ))
            },
            !old(self).next_is(SelectorRule::SELECTOR_COMPOUND) ==> old(self).refused(
                final(self),
                SelectorRule::SELECTOR_COMPOUND,
                r,
            ),
    {
        let (token, mut compound_expector) = self.take_inner(SelectorRule::SELECTOR_COMPOUND)?;
        let ghost c = token.children_seq();
        let mut node = SelectorNode::new();
        match compound_expector.expect_type() {
            Ok((namespace_opt, type_name_opt)) => {
                if namespace_opt.is_none() && type_name_opt.is_none() {
                    node.push(SelectorNodeType::Universal);
                } else {
                    if let Some(namespace) = namespace_opt {
                        node.push(SelectorNodeType::Namespace(namespace.to_string()));
                    }
                    if let Some(tname) = type_name_opt {
                        node.push(SelectorNodeType::TypeName(tname.to_string()));
                    }
                }
            },
            Err(_) => {},
        }
        let ghost type_parts = node.0@;
        let ghost at = compound_expector.index();
        compound_expector.read_subclass_run(&mut node);
        proof {
            let has_type = c.len() > 0 && c[0].rule == SelectorRule::SELECTOR_TYPE && type_readable(c[0]);
            if has_type {
                assert(at == 1);
                assert(node.0@.take(type_parts.len() as int) == type_parts);
                assert(type_parts_of(c[0], type_parts));
            } else {
                assert(at == 0);
                assert(type_parts.len() == 0);
                assert(c.skip(0) =~= c);
                assert(node.0@.skip(0) =~= node.0@);
            }
        }
        Ok(node)
    }

    /// The combinator that the combinator token `token` names, around `next`.
    fn combinator_from(token: &'a SelectorToken<'a>, next: SelectorNode) -> (r: SelectorResult<SelectorCombinator>)
        requires
            token.wf(),
        ensures
            r is Ok <==> combinator_readable(*token),
            r matches Ok(c) ==> combinator_kind_of(*token, c) && c.node() == next,
            r matches Err(e) ==> combinator_refusal(*token, e),
    {
        let components = match token.get_children() {
            Some(components) => components,
            None => {
                return Err(SelectorExpectError::MalformedToken(SelectorRule::SELECTOR_COMBINATOR));
            },
        };
        if components.len() == 0 {
            return Err(SelectorExpectError::MalformedToken(SelectorRule::SELECTOR_COMBINATOR));
        }
        let kind = components[0].get_rule();
        if kind == SelectorRule::SELECTOR_COMBINATOR__NEXT_SIBLING {
            Ok(SelectorCombinator::NextSibling(next))
        } else if kind == SelectorRule::SELECTOR_COMBINATOR__CHILD {
            Ok(SelectorCombinator::Child(next))
        } else if kind == SelectorRule::SELECTOR_COMBINATOR__COLUMN {
            Ok(SelectorCombinator::Column(next))
        } else if kind == SelectorRule::SELECTOR_COMBINATOR__SUBSEQUENT_SIBLING {
            Ok(SelectorCombinator::SubsequentSibling(next))
        } else if kind == SelectorRule::SELECTOR_COMBINATOR__DESCENDENT {
            Ok(SelectorCombinator::Descendent(next))
        } else {
            Err(SelectorExpectError::InvalidCombinator(kind))
        }
    }

    /// Takes a complex selector: its first compound selector, then each combinator with the
    /// compound selector after it; a namespace after a compound selector is added to it.
    pub fn expect_complex(&mut self) -> (r: SelectorResult<(SelectorNode, Vec<SelectorCombinator>)>)
        requires
            old(self).wf(),
        ensures
            old(self).next_is(SelectorRule::SELECTOR_COMPLEX) ==> {
                let t = old(self).next();
                let c = t.children_seq();
                &&& old(self).same_tokens(final(self))
                &&& t.value is Leaf ==> (final(self).index() == old(self).index() && r matches Err(
                    SelectorExpectError::MalformedToken(SelectorRule::SELECTOR_COMPLEX),
                ))
                &&& t.value is Internal ==> {
                    &&& old(self).took_one(final(self))
                    &&& r is Ok <==> complex_readable(c)
                    &&& r matches Ok((first, rest)) ==> complex_of(c, first, rest@)
                    &&& r matches Err(e) ==> complex_refusal(c, e)
                }
            },
            !old(self).next_is(SelectorRule::SELECTOR_COMPLEX) ==> old(self).refused(
                final(self),
                SelectorRule::SELECTOR_COMPLEX,
                r,
            ),
    {
        let (token, mut complex_expector) = self.take_inner(SelectorRule::SELECTOR_COMPLEX)?;
        let ghost c = token.children_seq();
        proof {
            lemma_children_wf(*token);
        }
        let first = complex_expector.expect_compound()?;
        let ghost g = complex_tail_groups(c, 1);
        let mut rest: Vec<SelectorCombinator> = Vec::new();
        proof {
            assert(g.skip(0) =~= g);
        }
        while complex_expector.len() > 0
            invariant
                old(self).next_is(SelectorRule::SELECTOR_COMPLEX),
                old(self).took_one(self),
                *token == old(self).next(),
                token.value is Internal,
                c == token.children_seq(),
                forall|k: int| 0 <= k < c.len() ==> (#[trigger] c[k]).wf(),
                complex_expector.wf(),
                complex_expector.tokens() == c,
                1 <= complex_expector.index() <= c.len(),
                compound_at(c, 0),
                compound_of(c[0], first),
                complex_tail_readable(c, 1) == complex_tail_readable(c, complex_expector.index()),
                forall|e: SelectorExpectError|
                    #![trigger complex_tail_refusal(c, 1, e)]
                    #![trigger complex_tail_refusal(c, complex_expector.index(), e)]
                    complex_tail_refusal(c, 1, e) == complex_tail_refusal(c, complex_expector.index(), e),
                g == complex_tail_groups(c, 1),
                rest@.len() <= g.len(),
                g.skip(rest@.len() as int) == complex_tail_groups(c, complex_expector.index()),
                forall|j: int| 0 <= j < rest@.len() ==> combinator_group_of(c, g[j], #[trigger] rest@[j]),
            decreases c.len() - complex_expector.index(),
        {
            let ghost i = complex_expector.index();
            let combinator_token = complex_expector.0.pop_front().unwrap();
            let rule = combinator_token.get_rule();
            if rule != SelectorRule::SELECTOR_COMBINATOR {
                assert(complex_tail_refusal(c, i, SelectorExpectError::UnknownSelectorRule(rule)));
                return Err(SelectorExpectError::UnknownSelectorRule(rule));
            }
            let mut next = match complex_expector.expect_compound() {
                Ok(next) => next,
                Err(error) => {
                    assert(complex_tail_refusal(c, i, error));
                    return Err(error);
                },
            };
            let ghost base = next.0@;
            let ghost start = i + 2;
            proof {
                assert(c.subrange(start, start) =~= Seq::<SelectorToken<'a>>::empty());
                assert(next.0@.skip(base.len() as int) =~= Seq::<SelectorNodeType>::empty());
                assert(next.0@.take(base.len() as int) =~= base);
            }
            loop
                invariant_except_break
                    complex_expector.wf(),
                    complex_expector.tokens() == c,
                    forall|k: int| 0 <= k < c.len() ==> (#[trigger] c[k]).wf(),
                    0 <= start <= complex_expector.index() <= c.len(),
                    namespace_run_end(c, start) == namespace_run_end(c, complex_expector.index()),
                    next.0@.len() == base.len() + (complex_expector.index() - start),
                    next.0@.take(base.len() as int) == base,
                    namespace_parts_of(
                        c.subrange(start, complex_expector.index()),
                        next.0@.skip(base.len() as int),
                    ),
                ensures
                    complex_expector.wf(),
                    complex_expector.tokens() == c,
                    start <= complex_expector.index() <= c.len(),
                    namespace_run_end(c, start) == complex_expector.index(),
                    next.0@.len() == base.len() + (complex_expector.index() - start),
                    next.0@.take(base.len() as int) == base,
                    namespace_parts_of(
                        c.subrange(start, complex_expector.index()),
                        next.0@.skip(base.len() as int),
                    ),
                decreases c.len() - complex_expector.index(),
            {
                let ghost k = complex_expector.index();
                let is_namespace = match complex_expector.peek() {
                    Some(peek) => peek.get_rule() == SelectorRule::SELECTOR_COMBINATOR__NAMESPACE,
                    None => false,
                };
                if !is_namespace {
                    break;
                }
                let namespace_token = complex_expector.0.pop_front().unwrap();
                let text = namespace_token.get_source().to_string();
                let ghost before = next.0@;
                next.push(SelectorNodeType::Namespace(text));
                proof {
                    assert(next.0@.take(base.len() as int) =~= before.take(base.len() as int));
                    let ns = c.subrange(start, k + 1);
                    let parts = next.0@.skip(base.len() as int);
                    assert(ns =~= c.subrange(start, k).push(c[k]));
                    assert(parts =~= before.skip(base.len() as int).push(
                        SelectorNodeType::Namespace(text),
                    ));
                    assert forall|m: int| 0 <= m < parts.len() implies (#[trigger] parts[m] matches SelectorNodeType::Namespace(s)
                        && s@ == ns[m].spec_text()) by {
                        if m < parts.len() - 1 {
                            assert(parts[m] == before.skip(base.len() as int)[m]);
                        }
                    }
                }
            }
            let combinator = match Self::combinator_from(combinator_token, next) {
                Ok(combinator) => combinator,
                Err(error) => {
                    assert(complex_tail_refusal(c, i, error));
                    return Err(error);
                },
            };
            proof {
                let e = complex_expector.index();
                let n = rest@.len() as int;
                assert(complex_tail_groups(c, i) == seq![i] + complex_tail_groups(c, e));
                assert(g.skip(n)[0] == i);
                assert(g[n] == i);
                assert(g.skip(n + 1) =~= g.skip(n).skip(1));
                assert(g.skip(n).skip(1) =~= complex_tail_groups(c, e));
                let parts = combinator.node().0@;
                assert(parts.take(base.len() as int) == base);
                assert(compound_parts_of(c[i + 1], base));
                assert(combinator_group_of(c, i, combinator));
                assert forall|e0: SelectorExpectError|
                    complex_tail_refusal(c, 1, e0) == complex_tail_refusal(c, e, e0) by {
                    assert(complex_tail_refusal(c, 1, e0) == complex_tail_refusal(c, i, e0));
                }
            }
            let ghost before = rest@;
            rest.push(combinator);
            proof {
                assert forall|j: int| 0 <= j < rest@.len() implies combinator_group_of(
                    c,
                    g[j],
                    #[trigger] rest@[j],
                ) by {
                    if j < before.len() {
                        assert(rest@[j] == before[j]);
                    }
                }
            }
        }
        proof {
            let n = rest@.len() as int;
            assert(complex_tail_groups(c, c.len() as int) == Seq::<int>::empty());
            assert(g.skip(n).len() == 0);
        }
        Ok((first, rest))
    }

    /// Takes a selector list and returns its selectors, each made into one chain; reading stops at
    /// the first complex selector that cannot be read.
    pub fn expect_selector_list(&mut self) -> (r: SelectorResult<Vec<SelectorNode>>)
        requires
            old(self).wf(),
        ensures
            old(self).next_is(SelectorRule::SELECTOR_LIST) ==> {
                let t = old(self).next();
                let c = t.children_seq();
                &&& old(self).same_tokens(final(self))
                &&& selector_list_outcome(t, r)
                &&& if c.len() > 0 && c[0].value is Internal {
                    old(self).took_one(final(self))
                } else {
                    final(self).index() == old(self).index()
                }
            },
            !old(self).next_is(SelectorRule::SELECTOR_LIST) ==> old(self).refused(
                final(self),
                SelectorRule::SELECTOR_LIST,
                r,
            ),
    {
        let token = self.take(SelectorRule::SELECTOR_LIST)?;
        proof {
            lemma_children_wf(*token);
        }
        let children = match token.get_children() {
            Some(children) => children,
            None => {
                return self.fail_malformed(SelectorRule::SELECTOR_LIST);
            },
        };
        if children.len() == 0 {
            return self.fail_malformed(SelectorRule::SELECTOR_LIST);
        }
        let mut list_expector = match SelectorTokenTracker::new(&children[0]) {
            Some(list_expector) => list_expector,
            None => {
                return self.fail_malformed(SelectorRule::SELECTOR_LIST);
            },
        };
        let ghost l = children@[0].children_seq();
        let ghost n = readable_complex_run(l, 0);
        let mut selectors: Vec<SelectorNode> = Vec::new();
        loop
            invariant_except_break
                old(self).next_is(SelectorRule::SELECTOR_LIST),
                old(self).took_one(self),
                *token == old(self).next(),
                children@ == token.children_seq(),
                children@.len() > 0,
                children@[0].value is Internal,
                l == children@[0].children_seq(),
                n == readable_complex_run(l, 0),
                list_expector.wf(),
                list_expector.tokens() == l,
                list_expector.index() == selectors@.len(),
                n == selectors@.len() + readable_complex_run(l, list_expector.index()),
                forall|j: int|
                    0 <= j < selectors@.len() ==> !complex_has_column(#[trigger] l[j]) && selector_of(
                        l[j],
                        selectors@[j],
                    ),
            ensures
                old(self).took_one(self),
                selectors@.len() == n,
                forall|j: int|
                    0 <= j < selectors@.len() ==> !complex_has_column(#[trigger] l[j]) && selector_of(
                        l[j],
                        selectors@[j],
                    ),
            decreases l.len() - list_expector.index(),
        {
            let ghost k = list_expector.index();
            match list_expector.expect_complex() {
                Ok((first, rest)) => {
                    let ghost rest0 = rest@;
                    proof {
                        assert(complex_token_readable(l[k]));
                        lemma_column_of_complex(l[k], first, rest0);
                    }
                    let selector = match chain(first, rest) {
                        Ok(selector) => selector,
                        Err(error) => {
                            assert(complex_has_column(l[k]));
                            assert(readable_complex_run(l, k) >= 1);
                            return Err(error);
                        },
                    };
                    assert(selector_of(l[k], selector));
                    let ghost before = selectors@;
                    selectors.push(selector);
                    proof {
                        assert forall|j: int| 0 <= j < selectors@.len() implies !complex_has_column(
                            #[trigger] l[j],
                        ) && selector_of(l[j], selectors@[j]) by {
                            if j < before.len() {
                                assert(selectors@[j] == before[j]);
                            }
                        }
                    }
                },
                Err(_) => {
                    assert(readable_complex_run(l, k) == 0);
                    break;
                },
            }
        }
        proof {
            assert(!exists|j: int| 0 <= j < n && #[trigger] complex_has_column(l[j]));
        }
        Ok(selectors)
    }
}


/// Turns the text of a selector into the depth-first walk of its parse tree under the selector
/// grammar, or the parser's message when the grammar does not accept the text.
pub trait SelectorParser {
    fn selector_events(&self, text: &str) -> Result<Vec<TokenEvent<SelectorRule>>, String>;
}

/// `r` is what reading the tree `t` as a selector list gives: its selectors when it is one, else
/// the report that another rule was found.
pub open spec fn selector_tree_outcome<'a>(t: SelectorToken<'a>, r: SelectorResult<Vec<SelectorNode>>) -> bool {
    if t.rule == SelectorRule::SELECTOR_LIST {
        selector_list_outcome(t, r)
    } else {
        r matches Err(SelectorExpectError::FailedExpectation(found, expected)) && found == t.rule
            && expected == SelectorRule::SELECTOR_LIST
    }
}

/// `r` is what reading the selectors from the walk `events` over `source_info` gives: a parse
/// error where `parse_source` builds no tree from the walk, else what reading the tree it builds
/// as a selector list gives.
pub open spec fn selectors_from_walk<'a>(
    source_info: &'a SourceInfo,
    events: Seq<TokenEvent<SelectorRule>>,
    r: SelectorResult<Vec<SelectorNode>>,
) -> bool {
    match source_walk(source_info.spec_bytes(), events) {
        None => r matches Err(SelectorExpectError::ParseError(_)),
        Some(w) => exists|u: SelectorToken<'a>|
            #[trigger] walk(u) == w && u.wf() && u.start.source_info == source_info && selector_tree_outcome(
                u,
                r,
            ),
    }
}

/// `r` is what reading the selectors of the selector text `text`, whose bytes are `bytes`, gives
/// from the selector parser's `answer`: the parser's message when it refused the text, a parse
/// error when the text cannot be held as a source, else what reading the selectors from the
/// parser's walk over a source of that text gives.
pub open spec fn selectors_from_answer(
    text: Seq<char>,
    bytes: Seq<u8>,
    answer: Result<Vec<TokenEvent<SelectorRule>>, String>,
    r: SelectorResult<Vec<SelectorNode>>,
) -> bool {
    match answer {
        Err(message) => r matches Err(SelectorExpectError::ParseError(m)) && m == message,
        Ok(events) => if !(1 <= bytes.len() <= usize::MAX / 2 && crate::source::scan_is_char_aligned(bytes)) {
            r matches Err(SelectorExpectError::ParseError(_))
        } else {
            exists|info: SourceInfo| info.spec_text() == text && #[trigger] selectors_from_walk(&info, events@, r)
        },
    }
}

impl SelectorNode {
    /// Reads the selectors of a selector list from the depth-first walk `events` of its parse tree
    /// over `source_info`, as `parse_source` builds the tree; a walk from which no tree can be
    /// built is a parse error.
    pub fn from_source<'a>(source_info: &'a SourceInfo, events: &Vec<TokenEvent<SelectorRule>>) -> (r:
        SelectorResult<Vec<SelectorNode>>)
        ensures
            selectors_from_walk(source_info, events@, r),
    {
        let root = match parse_source(source_info, events) {
            Some(root) => root,
            None => {
                return Err(SelectorExpectError::ParseError("the events do not make a parse tree".to_owned()));
            },
        };
        let ghost u = root;
        let roots = vec![root];
        let mut tracker = SelectorTokenTracker::from_vec(&roots);
        let r = tracker.expect_selector_list();
        proof {
            assert(tracker.0.tokens@[0] == u);
            assert(selector_tree_outcome(u, r));
        }
        r
    }
}


/// How an attribute selector's comparison is printed: the operator and the value in double
/// quotes, or nothing for a presence test.
pub open spec fn matcher_css(m: SelectorAttributeType) -> Seq<char> {
    match m {
        SelectorAttributeType::Present => Seq::empty(),
        SelectorAttributeType::ExactMatch(a) => "=\""@ + a@ + "\""@,
        SelectorAttributeType::ListContains(a) => "~=\""@ + a@ + "\""@,
        SelectorAttributeType::StartsWith(a) => "^=\""@ + a@ + "\""@,
        SelectorAttributeType::StartsWithDashed(a) => "|=\""@ + a@ + "\""@,
        SelectorAttributeType::Endswith(a) => "$=\""@ + a@ + "\""@,
        SelectorAttributeType::RawContains(a) => "*=\""@ + a@ + "\""@,
    }
}

/// The first `n` units of `units` printed as CSS, separated by `, `.
pub open spec fn units_csv(units: Seq<Unit>, n: int) -> Seq<char>
    decreases n,
{
    if n <= 0 || n > units.len() {
        Seq::empty()
    } else if n == 1 {
        unit_css(units[0])
    } else {
        units_csv(units, n - 1) + ", "@ + unit_css(units[n - 1])
    }
}

/// A selector printed as CSS: its parts one after the other.
pub open spec fn node_css(n: SelectorNode) -> Seq<char>
    decreases n, 1nat, 0int,
{
    parts_css(n, n.0@.len() as int)
}

/// A combinator read from a combinator token prints, after the compound selector it ends and
/// before the one it leads to, as the CSS symbol of the token's kind: ` + ` for a next-sibling
/// token, ` ~ ` for a subsequent-sibling token, ` > ` for a child token and a space for a
/// descendant token. So reading a selector and printing it keeps each combinator's symbol.
pub proof fn lemma_combinator_prints_its_symbol<'a>(t: SelectorToken<'a>, c: SelectorCombinator, n: SelectorNode)
    requires
        t.children_seq().len() > 0,
        combinator_kind_of(t, c),
        n.0@.len() > 0,
        n.0@.last() == combinator_part(c),
    ensures
        ({
            let k = t.children_seq()[0].rule;
            let before = parts_css(n, n.0@.len() - 1);
            let printed = node_css(n);
            &&& k == SelectorRule::SELECTOR_COMBINATOR__NEXT_SIBLING ==> printed == before + " + "@
                + node_css(c.node())
            &&& k == SelectorRule::SELECTOR_COMBINATOR__SUBSEQUENT_SIBLING ==> printed == before
                + " ~ "@ + node_css(c.node())
            &&& k == SelectorRule::SELECTOR_COMBINATOR__CHILD ==> printed == before + " > "@ + node_css(
                c.node(),
            )
            &&& k == SelectorRule::SELECTOR_COMBINATOR__DESCENDENT ==> printed == before + " "@
                + node_css(c.node())
        }),
{
    let len = n.0@.len() as int;
    assert(n.0@[len - 1] == n.0@.last());
}

/// The first `k` parts of the selector `n` printed as CSS: `*`, `|` and a namespace, a type
/// name, `#` and an id, `.` and a class, an attribute selector in brackets, a combinator with
/// the selector it leads to, `:` and a pseudo-class, or `::` and a pseudo-element with its
/// parameters.
pub open spec fn parts_css(n: SelectorNode, k: int) -> Seq<char>
    decreases n, 0nat, k,
{
    if k <= 0 || k > n.0@.len() {
        Seq::empty()
    } else {
        parts_css(n, k - 1) + match n.0@[k - 1] {
            SelectorNodeType::Universal => "*"@,
            SelectorNodeType::Namespace(x) => "|"@ + x@,
            SelectorNodeType::TypeName(x) => x@,
            SelectorNodeType::Id(x) => "#"@ + x@,
            SelectorNodeType::Class(x) => "."@ + x@,
            SelectorNodeType::Attribute { name, attr_matcher, case_sensitive: _ } => "["@ + name@
                + matcher_css(attr_matcher) + "]"@,
            SelectorNodeType::NextSibling(b) => " + "@ + node_css(*b),
            SelectorNodeType::SubsequentSibling(b) => " ~ "@ + node_css(*b),
            SelectorNodeType::Child(b) => " > "@ + node_css(*b),
            SelectorNodeType::Descendent(b) => " "@ + node_css(*b),
            SelectorNodeType::PseudoClass(x) => ":"@ + x@,
            SelectorNodeType::PseudoElement(x, params) => "::"@ + x@ + match params {
                Some(ps) => "("@ + units_csv(ps@, ps@.len() as int) + ")"@,
                None => Seq::empty(),
            },
        }
    }
}

impl SelectorAttributeType {
    /// How the comparison is printed.
    pub fn to_css_string(&self) -> (r: String)
        ensures
            r@ == matcher_css(*self),
    {
        let (op, value) = match self {
            SelectorAttributeType::Present => {
                return String::new();
            },
            SelectorAttributeType::ExactMatch(a) => ("=\"", a),
            SelectorAttributeType::ListContains(a) => ("~=\"", a),
            SelectorAttributeType::StartsWith(a) => ("^=\"", a),
            SelectorAttributeType::StartsWithDashed(a) => ("|=\"", a),
            SelectorAttributeType::Endswith(a) => ("$=\"", a),
            SelectorAttributeType::RawContains(a) => ("*=\"", a),
        };
        let mut r = op.to_owned();
        r.append(value.as_str());
        r.append("\"");
        r
    }
}

/// The units printed as CSS, separated by `, `.
fn units_to_csv(units: &Vec<Unit>) -> (r: String)
    ensures
        r@ == units_csv(units@, units@.len() as int),
{
    let mut r = String::new();
    let mut i: usize = 0;
    while i < units.len()
        invariant
            i <= units@.len(),
            r@ == units_csv(units@, i as int),
        decreases units@.len() - i,
    {
        let ghost before = r@;
        if i > 0 {
            r.append(", ");
        }
        let part = units[i].to_css_string();
        r.append(part.as_str());
        proof {
            if i == 0 {
                assert(r@ =~= units_csv(units@, 1));
            } else {
                assert(r@ =~= before + ", "@ + part@);
                assert(r@ =~= units_csv(units@, i as int + 1));
            }
        }
        i += 1;
    }
    r
}

impl SelectorNode {
    /// The selector printed as CSS.
    pub fn to_css_string(&self) -> (r: String)
        ensures
            r@ == node_css(*self),
        decreases self,
    {
        let mut r = String::new();
        let mut i: usize = 0;
        while i < self.0.len()
            invariant
                i <= self.0@.len(),
                r@ == parts_css(*self, i as int),
            decreases self.0@.len() - i,
        {
            let ghost before = r@;
            proof {
                vstd::std_specs::vec::axiom_vec_index_decreases(self.0, i as int);
            }
            match &self.0[i] {
                SelectorNodeType::Universal => r.append("*"),
                SelectorNodeType::Namespace(x) => {
                    r.append("|");
                    r.append(x.as_str());
                },
                SelectorNodeType::TypeName(x) => r.append(x.as_str()),
                SelectorNodeType::Id(x) => {
                    r.append("#");
                    r.append(x.as_str());
                },
                SelectorNodeType::Class(x) => {
                    r.append(".");
                    r.append(x.as_str());
                },
                SelectorNodeType::Attribute { name, attr_matcher, case_sensitive: _ } => {
                    r.append("[");
                    r.append(name.as_str());
                    r.append(attr_matcher.to_css_string().as_str());
                    r.append("]");
                },
                SelectorNodeType::NextSibling(b) => {
                    r.append(" + ");
                    r.append(b.to_css_string().as_str());
                },
                SelectorNodeType::SubsequentSibling(b) => {
                    r.append(" ~ ");
                    r.append(b.to_css_string().as_str());
                },
                SelectorNodeType::Child(b) => {
                    r.append(" > ");
                    r.append(b.to_css_string().as_str());
                },
                SelectorNodeType::Descendent(b) => {
                    r.append(" ");
                    r.append(b.to_css_string().as_str());
                },
                SelectorNodeType::PseudoClass(x) => {
                    r.append(":");
                    r.append(x.as_str());
                },
                SelectorNodeType::PseudoElement(x, params) => {
                    r.append("::");
                    r.append(x.as_str());
                    match params {
                        Some(ps) => {
                            r.append("(");
                            r.append(units_to_csv(ps).as_str());
                            r.append(")");
                        },
                        None => {},
                    }
                },
            }
            proof {
                assert(r@ =~= parts_css(*self, i as int + 1));
            }
            i += 1;
        }
        r
    }
}

} // verus!
