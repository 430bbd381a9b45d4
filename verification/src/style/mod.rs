//! Stylesheets: rules, their selectors and their declarations, and reading the values of a
//! declaration one after the other.
pub mod prop_validation;
pub mod properties;

use vstd::prelude::*;
use crate::rules::CssRule;
use crate::source::{lemma_children_wf, SourceLocation};
use crate::syntax::{CssExpectError, CssResult, CssToken, CssTokenTracker};
use vstd::string::StringExecFns;
use crate::selector::{node_css, SelectorNode};
use crate::text::str_eq;
use properties::{declarations_css, CssStyleProperties};
use prop_validation::{
    index_after_failure, parse, value_of, value_readable, CssStyleAttribute, CssValue, IntoStyleAttribute,
};

verus! {

/// An at-rule of a stylesheet; only its name is kept.
#[derive(Debug)]
pub struct AtRule {
    pub name: String,
}

/// A stylesheet: its at-rules, by name, and its style rules, one for each selector of a rule.
#[derive(Debug)]
pub struct Stylesheet {
    pub at_rules: Vec<AtRule>,
    pub style_rules: Vec<(SelectorNode, CssStyleProperties)>,
}

/// No two at-rules share a name.
pub open spec fn at_rule_names_unique(at_rules: Seq<AtRule>) -> bool {
    forall|i: int, j: int|
        #![trigger at_rules[i], at_rules[j]]
        0 <= i < j < at_rules.len() ==> at_rules[i].name@ != at_rules[j].name@
}

impl Stylesheet {
    /// A stylesheet with no rule.
    pub fn new() -> (r: Self)
        ensures
            r.at_rules@.len() == 0,
            r.style_rules@.len() == 0,
    {
        Stylesheet { at_rules: Vec::new(), style_rules: Vec::new() }
    }

    /// Records `rule` under its name, in place of an at-rule of the same name.
    pub fn insert_at_rule(&mut self, rule: AtRule)
        requires
            at_rule_names_unique(old(self).at_rules@),
        ensures
            at_rule_names_unique(final(self).at_rules@),
            final(self).style_rules == old(self).style_rules,
            (exists|i: int|
                0 <= i < old(self).at_rules@.len() && old(self).at_rules@[i].name@ == rule.name@)
                ==> final(self).at_rules@.len() == old(self).at_rules@.len(),
            !(exists|i: int|
                0 <= i < old(self).at_rules@.len() && old(self).at_rules@[i].name@ == rule.name@)
                ==> final(self).at_rules@ == old(self).at_rules@.push(rule),
            exists|i: int|
                0 <= i < final(self).at_rules@.len() && final(self).at_rules@[i] == rule,
            forall|i: int|
                0 <= i < old(self).at_rules@.len() && old(self).at_rules@[i].name@ != rule.name@
                    ==> #[trigger] final(self).at_rules@[i] == old(self).at_rules@[i],
    {
        let mut i: usize = 0;
        while i < self.at_rules.len()
            invariant
                i <= self.at_rules@.len(),
                self.at_rules == old(self).at_rules,
                self.style_rules == old(self).style_rules,
                at_rule_names_unique(self.at_rules@),
                forall|k: int| 0 <= k < i ==> (#[trigger] self.at_rules@[k]).name@ != rule.name@,
            decreases self.at_rules@.len() - i,
        {
            if str_eq(self.at_rules[i].name.as_str(), rule.name.as_str()) {
                let ghost before = self.at_rules@;
                let mut slot = self.at_rules.remove(i);
                slot = rule;
                self.at_rules.insert(i, slot);
                proof {
                    assert(self.at_rules@ =~= before.update(i as int, slot));
                    assert(self.at_rules@[i as int] == slot);
                }
                return;
            }
            i += 1;
        }
        self.at_rules.push(rule);
        proof {
            let n = old(self).at_rules@.len() as int;
            assert(self.at_rules@[n] == rule);
        }
    }
}

/// The tokens that `expect` reads from a declaration group: the children of the component value
/// that the group's first value starts with.
pub open spec fn deep_tokens<'a>(group: CssToken<'a>) -> Option<Seq<CssToken<'a>>> {
    let c = group.children_seq();
    if c.len() > 0 && c[0].children_seq().len() > 0 && c[0].children_seq()[0].value is Internal {
        Some(c[0].children_seq()[0].children_seq())
    } else {
        None
    }
}

/// The tokens that `optional` reads from a declaration group: the children of its first value.
pub open spec fn shallow_tokens<'a>(group: CssToken<'a>) -> Option<Seq<CssToken<'a>>> {
    let c = group.children_seq();
    if c.len() > 0 && c[0].value is Internal {
        Some(c[0].children_seq())
    } else {
        None
    }
}

/// A tracker over the tokens that `expect` reads from `group`.
fn deep_tracker<'a>(group: &'a CssToken<'a>) -> (r: Option<CssTokenTracker<'a>>)
    requires
        group.wf(),
    ensures
        r is Some <==> deep_tokens(*group) is Some,
        r matches Some(t) ==> t.wf() && t.tokens() == deep_tokens(*group)->0 && t.index() == 0,
{
    proof {
        lemma_children_wf(*group);
    }
    let values = match group.get_children() {
        Some(values) => values,
        None => {
            return None;
        },
    };
    if values.len() == 0 {
        return None;
    }
    let value = &values[0];
    proof {
        lemma_children_wf(*value);
    }
    let components = match value.get_children() {
        Some(components) => components,
        None => {
            return None;
        },
    };
    if components.len() == 0 {
        return None;
    }
    CssTokenTracker::new(&components[0])
}

/// A tracker over the tokens that `optional` reads from `group`.
fn shallow_tracker<'a>(group: &'a CssToken<'a>) -> (r: Option<CssTokenTracker<'a>>)
    requires
        group.wf(),
    ensures
        r is Some <==> shallow_tokens(*group) is Some,
        r matches Some(t) ==> t.wf() && t.tokens() == shallow_tokens(*group)->0 && t.index() == 0,
{
    proof {
        lemma_children_wf(*group);
    }
    let values = match group.get_children() {
        Some(values) => values,
        None => {
            return None;
        },
    };
    if values.len() == 0 {
        return None;
    }
    CssTokenTracker::new(&values[0])
}

/// The token the first expected value of a declaration is read from: the first token of the
/// first group's value, or, when that value has no token, of the second group's.
pub open spec fn first_value_token<'a>(groups: Seq<CssToken<'a>>) -> Option<CssToken<'a>> {
    if groups.len() > 0 && deep_tokens(groups[0]) is Some {
        let d0 = deep_tokens(groups[0])->0;
        if d0.len() > 0 {
            Some(d0[0])
        } else if groups.len() > 1 && deep_tokens(groups[1]) is Some && (deep_tokens(
            groups[1],
        )->0).len() > 0 {
            Some((deep_tokens(groups[1])->0)[0])
        } else {
            None
        }
    } else {
        None
    }
}

/// The declaration groups `token` start with a value of type `T`.
pub open spec fn single_value_readable<'a, T: CssValue>(token: CssToken<'a>) -> bool {
    &&& token.rule == CssRule::DECLARATION_GROUPS
    &&& first_value_token(token.children_seq()) matches Some(t)
    &&& value_readable(T::spec_type_token().bits, t)
}

/// What reading the first value of type `T` from the declaration groups `token` reports when it
/// cannot be read: another rule, no group whose first value has tokens, no second group to
/// go on to, a second group without a value, or the value's failure where it was read.
pub open spec fn first_value_refusal<'a, T: CssValue>(token: CssToken<'a>, e: CssExpectError<'a>) -> bool {
    let groups = token.children_seq();
    if token.rule != CssRule::DECLARATION_GROUPS {
        e == CssExpectError::FailedExpectation(token.rule, CssRule::DECLARATION_GROUPS)
    } else if !(groups.len() > 0 && deep_tokens(groups[0]) is Some) {
        e == CssExpectError::MalformedToken(CssRule::DECLARATION_GROUPS)
    } else if (deep_tokens(groups[0])->0).len() == 0 && groups.len() == 1 {
        e matches CssExpectError::TooFewTokens(s) && s@ == "DECLARATION_VALUES"@
    } else if (deep_tokens(groups[0])->0).len() == 0 && deep_tokens(groups[1]) is None {
        e == CssExpectError::MalformedToken(CssRule::DECLARATION_GROUP)
    } else {
        let g: int = if (deep_tokens(groups[0])->0).len() > 0 {
            0
        } else {
            1
        };
        let toks = deep_tokens(groups[g])->0;
        e matches CssExpectError::InvalidAttributeValue(loc, message) && loc == groups[g].start
            && message@ == prop_validation::failure_message(
            T::spec_css_type_name(),
            toks,
            index_after_failure(toks, 0),
        )
    }
}

/// Reading the first value of a declaration fails exactly as `first_value_refusal` says.
proof fn lemma_first_value_read<'a, T: IntoStyleAttribute>(
    token: CssToken<'a>,
    e0: CssStyleValueExpector<'a>,
    e1: CssStyleValueExpector<'a>,
)
    requires
        token.rule == CssRule::DECLARATION_GROUPS,
        e0.wf(),
        e0.groups@ == token.children_seq(),
        e0.next_group == 1,
        e0.css_expector.tokens() == deep_tokens(e0.groups@[0])->0,
        e0.css_expector.index() == 0,
        e0.location == e0.groups@[0].start,
        !e0.has_errored,
        e0.results@.len() == 0,
        token.children_seq().len() > 0,
        deep_tokens(token.children_seq()[0]) is Some,
        e1.wf(),
        e1.groups == e0.groups,
        e1.results@.len() == e0.results@.len() + 1,
        !e0.can_expect() ==> e1.has_errored,
        !e0.can_expect() ==> {
            &&& e0.next_group == e0.groups@.len() ==> (e1.results@.last() matches Err(
                CssExpectError::TooFewTokens(s),
            ) && s@ == "DECLARATION_VALUES"@)
            &&& e0.next_group < e0.groups@.len() ==> e1.results@.last() == Err::<
                CssStyleAttribute,
                CssExpectError<'a>,
            >(CssExpectError::MalformedToken(CssRule::DECLARATION_GROUP))
        },
        e0.can_expect() ==> e1.location == if e0.tracker_done() {
            e0.groups@[e0.next_group as int].start
        } else {
            e0.location
        },
        ({
            let flags = T::spec_type_token().bits;
            let toks = e0.value_tokens();
            let idx = e0.value_index();
            &&& e0.can_expect() && idx < toks.len() && value_readable(flags, toks[idx]) ==> !e1.has_errored
            &&& e0.can_expect() && !(idx < toks.len() && value_readable(flags, toks[idx])) ==> {
                &&& e1.has_errored
                &&& e1.results@.last() matches Err(CssExpectError::InvalidAttributeValue(loc, message))
                    && loc == e1.location && message@ == prop_validation::failure_message(
                    T::spec_css_type_name(),
                    toks,
                    index_after_failure(toks, idx),
                )
            }
        }),
    ensures
        e1.has_errored ==> (e1.results@.last() matches Err(e) && first_value_refusal::<T>(token, e)),
{
    let groups = token.children_seq();
    let d0 = deep_tokens(groups[0])->0;
    if e1.has_errored {
        if d0.len() > 0 {
            assert(!e0.tracker_done());
            assert(e0.value_tokens() == d0);
        } else {
            assert(e0.tracker_done());
            if groups.len() > 1 && deep_tokens(groups[1]) is Some {
                assert(e0.can_expect());
                assert(e0.value_tokens() == deep_tokens(groups[1])->0);
            }
        }
    }
}

/// `r` is what reading the one value of type `T` from the declaration groups `token` gives.
pub open spec fn single_outcome<'a, T: IntoStyleAttribute>(
    token: CssToken<'a>,
    r: CssResult<'a, Vec<CssStyleAttribute>>,
) -> bool {
    &&& r is Ok <==> single_value_readable::<T>(token)
    &&& r matches Err(e) ==> first_value_refusal::<T>(token, e)
    &&& r matches Ok(values) ==> {
        &&& values@.len() == 1
        &&& exists|v: prop_validation::CssAttributeValue<T>|
            value_of::<T>(T::spec_type_token().bits, first_value_token(token.children_seq())->0, v)
                && values@[0] == T::spec_attribute(v)
    }
}

/// `a` is the declaration value that a value of type `T` read from the token `t` makes.
pub open spec fn value_read_from<'a, T: IntoStyleAttribute>(flags: u8, t: CssToken<'a>, a: CssStyleAttribute) -> bool {
    exists|v: prop_validation::CssAttributeValue<T>| value_of::<T>(flags, t, v) && a == T::spec_attribute(v)
}

/// Where a value that may be missing is read from, at the place `(tokens, index, next group)`
/// among the declaration groups `groups`: the tokens being read while one is left, else the
/// tokens of the next group's first value; `None` when there is nothing to read from.
pub open spec fn optional_place<'a>(groups: Seq<CssToken<'a>>, place: (Seq<CssToken<'a>>, int, int)) -> Option<
    (Seq<CssToken<'a>>, int, int),
> {
    if place.1 < place.0.len() {
        Some(place)
    } else if 0 <= place.2 < groups.len() {
        match shallow_tokens(groups[place.2]) {
            Some(tokens) => Some((tokens, 0, place.2 + 1)),
            None => None,
        }
    } else {
        None
    }
}

/// The token that a value that may be missing, of a type written with `flags`, is read from at
/// `place`, when one can be read there.
pub open spec fn optional_token<'a>(groups: Seq<CssToken<'a>>, flags: u8, place: (Seq<CssToken<'a>>, int, int)) -> Option<
    CssToken<'a>,
> {
    match optional_place(groups, place) {
        Some(q) => if 0 <= q.1 < q.0.len() && value_readable(flags, q.0[q.1]) {
            Some(q.0[q.1])
        } else {
            None
        },
        None => None,
    }
}

/// The token that one reading of a value that may be missing reads from at `place`, if any.
pub open spec fn optional_token_read<'a>(groups: Seq<CssToken<'a>>, flags: u8, place: (Seq<CssToken<'a>>, int, int)) -> Seq<
    CssToken<'a>,
> {
    match optional_token(groups, flags, place) {
        Some(t) => seq![t],
        None => seq![],
    }
}

/// Where reading a value that may be missing from `place` leaves the reading: past the value
/// read, or where a failed reading stops; a group without a value is entered and left behind.
pub open spec fn after_optional<'a>(groups: Seq<CssToken<'a>>, flags: u8, place: (Seq<CssToken<'a>>, int, int)) -> (
    Seq<CssToken<'a>>,
    int,
    int,
) {
    match optional_place(groups, place) {
        Some(q) => if 0 <= q.1 < q.0.len() && value_readable(flags, q.0[q.1]) {
            (q.0, q.1 + 1, q.2)
        } else {
            (q.0, prop_validation::index_after_failure(q.0, q.1), q.2)
        },
        None => if place.1 >= place.0.len() && 0 <= place.2 < groups.len() {
            (place.0, place.1, place.2 + 1)
        } else {
            place
        },
    }
}

/// The tokens that `n` readings of values that may be missing, one after the other from
/// `place`, read values from.
pub open spec fn optional_tokens_read<'a>(
    groups: Seq<CssToken<'a>>,
    flags: u8,
    place: (Seq<CssToken<'a>>, int, int),
    n: nat,
) -> Seq<CssToken<'a>>
    decreases n,
{
    if n == 0 {
        seq![]
    } else {
        optional_token_read(groups, flags, place) + optional_tokens_read(
            groups,
            flags,
            after_optional(groups, flags, place),
            (n - 1) as nat,
        )
    }
}

/// `n` readings of values that may be missing read at most `n` values.
pub proof fn lemma_optional_tokens_read_len<'a>(
    groups: Seq<CssToken<'a>>,
    flags: u8,
    place: (Seq<CssToken<'a>>, int, int),
    n: nat,
)
    ensures
        optional_tokens_read(groups, flags, place, n).len() <= n,
    decreases n,
{
    if n > 0 {
        lemma_optional_tokens_read_len(groups, flags, after_optional(groups, flags, place), (n - 1) as nat);
    }
}

/// Where reading goes on after the first value of a declaration: just past it, in the first
/// group's first value when that has a token, else in the second group's.
pub open spec fn after_first_value<'a>(groups: Seq<CssToken<'a>>) -> (Seq<CssToken<'a>>, int, int) {
    let d0 = deep_tokens(groups[0])->0;
    if d0.len() > 0 {
        (d0, 1, 1)
    } else {
        (deep_tokens(groups[1])->0, 1, 2)
    }
}

/// `r` is what reading one to four sides of type `T` from the declaration groups `token` gives:
/// the first value, then a value for each of three readings of a value that may be missing.
pub open spec fn sides_outcome<'a, T: IntoStyleAttribute>(
    token: CssToken<'a>,
    r: CssResult<'a, Vec<CssStyleAttribute>>,
) -> bool {
    let groups = token.children_seq();
    let flags = T::spec_type_token().bits;
    let rest = optional_tokens_read(groups, flags, after_first_value(groups), 3);
    &&& r is Ok <==> single_value_readable::<T>(token)
    &&& r matches Err(e) ==> first_value_refusal::<T>(token, e)
    &&& r matches Ok(values) ==> {
        &&& values@.len() == 1 + rest.len()
        &&& value_read_from::<T>(flags, first_value_token(groups)->0, values@[0])
        &&& forall|k: int| 0 <= k < rest.len() ==> value_read_from::<T>(flags, #[trigger] rest[k], values@.skip(1)[k])
        &&& forall|i: int| 0 <= i < values@.len() ==> T::spec_is_attribute(#[trigger] values@[i])
    }
}

/// Reads the one value of type `T` of a declaration.
pub fn read_single<'a, T: IntoStyleAttribute>(declaration_groups_token: &'a CssToken<'a>) -> (r:
    CssResult<'a, Vec<CssStyleAttribute>>)
    requires
        declaration_groups_token.wf(),
    ensures
        single_outcome::<T>(*declaration_groups_token, r),
{
    let mut expector = CssStyleValueExpector::new(declaration_groups_token)?;
    let ghost e0 = expector;
    expector.expect::<T>();
    proof {
        lemma_first_value_read::<T>(*declaration_groups_token, e0, expector);
    }
    expector.resolve()
}

/// Reads the one to four sides of type `T` of a declaration: one expected value, then up to
/// three optional ones.
#[verifier::spinoff_prover]
#[verifier::rlimit(40)]
pub fn read_sides<'a, T: IntoStyleAttribute>(declaration_groups_token: &'a CssToken<'a>) -> (r:
    CssResult<'a, Vec<CssStyleAttribute>>)
    requires
        declaration_groups_token.wf(),
    ensures
        sides_outcome::<T>(*declaration_groups_token, r),
{
    let mut expector = CssStyleValueExpector::new(declaration_groups_token)?;
    let ghost groups = expector.groups@;
    let ghost flags = T::spec_type_token().bits;
    let ghost e0 = expector;
    expector.expect::<T>();
    proof {
        lemma_first_value_read::<T>(*declaration_groups_token, e0, expector);
    }
    let ghost r1 = expector.results@;
    let ghost p1 = expector.place();
    let ghost s1 = optional_token_read(groups, flags, p1);
    expector.optional::<T>();
    let ghost r2 = expector.results@;
    let ghost p2 = expector.place();
    let ghost s2 = optional_token_read(groups, flags, p2);
    proof {
        if !expector.has_errored {
            assert(p1 == after_first_value(groups));
            assert(p2 == after_optional(groups, flags, p1));
            assert(r2.len() == r1.len() + s1.len());
            assert(r2.take(r1.len() as int) == r1);
            assert(s1.len() == 1 ==> (r2.last() matches Ok(a) && value_read_from::<T>(flags, s1[0], a)));
        }
    }
    expector.optional::<T>();
    let ghost r3 = expector.results@;
    let ghost p3 = expector.place();
    let ghost s3 = optional_token_read(groups, flags, p3);
    proof {
        if !expector.has_errored {
            assert(p3 == after_optional(groups, flags, p2));
            assert(r3.len() == r2.len() + s2.len());
            assert(r3.take(r2.len() as int) == r2);
            assert(s2.len() == 1 ==> (r3.last() matches Ok(a) && value_read_from::<T>(flags, s2[0], a)));
        }
    }
    expector.optional::<T>();
    let ghost r4 = expector.results@;
    proof {
        if !expector.has_errored {
            assert(r4.len() == r3.len() + s3.len());
            assert(r4.take(r3.len() as int) == r3);
            assert(s3.len() == 1 ==> (r4.last() matches Ok(a) && value_read_from::<T>(flags, s3[0], a)));
            reveal_with_fuel(optional_tokens_read, 4);
            assert(optional_tokens_read(groups, flags, p1, 3) =~= s1 + s2 + s3);
        }
        assert(expector.has_errored ==> expector.results@ == r1);
    }
    expector.resolve()
}

/// Reads the values of a declaration, one expected or optional value after the other. The
/// first error stops the reading and is what `resolve` reports.
#[derive(Debug)]
pub struct CssStyleValueExpector<'a> {
    /// The declaration groups.
    pub groups: &'a Vec<CssToken<'a>>,
    /// The first group not yet entered.
    pub next_group: usize,
    /// The tracker over the tokens being read.
    pub css_expector: CssTokenTracker<'a>,
    /// Where the group being read starts.
    pub location: SourceLocation<'a>,
    /// Whether an expected value failed.
    pub has_errored: bool,
    /// The values read, and the error that stopped the reading.
    pub results: Vec<Result<CssStyleAttribute, CssExpectError<'a>>>,
}

/// One call of `expect` or `optional` takes the reader from `o` to `n`: after an error nothing
/// changes; otherwise the values read so far stay, and at most one result (a value, or the error
/// that stops the reading) is added after them.
pub open spec fn value_step<'a>(o: CssStyleValueExpector<'a>, n: CssStyleValueExpector<'a>) -> bool {
    &&& n.wf()
    &&& o.has_errored ==> n == o
    &&& !o.has_errored ==> (n.results@ == o.results@ || (n.results@.len() == o.results@.len() + 1
        && n.results@.drop_last() == o.results@))
}

/// Over any run of `expect` and `optional` calls from a fresh reader, the results only grow at
/// the end: every earlier state's results begin every later state's, so the values come in call
/// order; once an expected value fails, nothing changes any more, so the one error is the first
/// failure's and it stands last; and a reader that has not failed holds values only. With
/// `resolve`, the run gives the values read in order, or the first failure's error.
pub proof fn lemma_value_steps<'a>(states: Seq<CssStyleValueExpector<'a>>)
    requires
        states.len() > 0,
        states[0].wf(),
        states[0].results@.len() == 0,
        !states[0].has_errored,
        forall|k: int| 0 <= k < states.len() - 1 ==> #[trigger] value_step(states[k], states[k + 1]),
    ensures
        forall|k: int, m: int|
            #![trigger states[k], states[m]]
            0 <= k <= m < states.len() ==> states[k].results@.len() <= states[m].results@.len()
                && states[m].results@.take(states[k].results@.len() as int) == states[k].results@,
        forall|k: int, m: int|
            #![trigger states[k], states[m]]
            0 <= k <= m < states.len() && states[k].has_errored ==> states[m] == states[k],
        forall|k: int|
            #![trigger states[k]]
            0 <= k < states.len() ==> states[k].wf() && (states[k].has_errored <==> (states[k].results@.len()
                > 0 && states[k].results@.last() is Err)) && forall|i: int|
                0 <= i < states[k].results@.len() - 1 ==> (#[trigger] states[k].results@[i]) is Ok,
    decreases states.len(),
{
    let n = states.len() - 1;
    if n > 0 {
        let before = states.drop_last();
        assert forall|k: int| 0 <= k < before.len() - 1 implies #[trigger] value_step(before[k], before[k + 1]) by {
            assert(value_step(states[k], states[k + 1]));
        }
        lemma_value_steps(before);
        let last = n - 1;
        assert(value_step(states[last], states[last + 1]));
        assert(states[last + 1] == states[n]);
        assert forall|k: int, m: int|
            #![trigger states[k], states[m]]
            0 <= k <= m < states.len() implies states[k].results@.len() <= states[m].results@.len()
                && states[m].results@.take(states[k].results@.len() as int) == states[k].results@ by {
            if m < n {
                assert(before[k] == states[k] && before[m] == states[m]);
            } else if k == m {
                assert(states[m].results@.take(states[m].results@.len() as int) =~= states[m].results@);
            } else {
                assert(before[k] == states[k] && before[n - 1] == states[n - 1]);
                let p = states[n - 1].results@;
                let q = states[n].results@;
                let r = states[k].results@;
                assert(p.take(r.len() as int) == r);
                if q != p {
                    assert(q.take(r.len() as int) =~= q.drop_last().take(r.len() as int));
                }
            }
        }
        assert forall|k: int, m: int|
            #![trigger states[k], states[m]]
            0 <= k <= m < states.len() && states[k].has_errored implies states[m] == states[k] by {
            if m < n {
                assert(before[k] == states[k] && before[m] == states[m]);
            } else if k < m {
                assert(before[k] == states[k] && before[n - 1] == states[n - 1]);
            }
        }
        assert forall|k: int|
            #![trigger states[k]]
            0 <= k < states.len() implies states[k].wf() && (states[k].has_errored <==> (
                states[k].results@.len() > 0 && states[k].results@.last() is Err)) && forall|i: int|
                0 <= i < states[k].results@.len() - 1 ==> (#[trigger] states[k].results@[i]) is Ok by {
            if k < n {
                assert(before[k] == states[k]);
            }
        }
    }
}

impl<'a> CssStyleValueExpector<'a> {
    /// The groups are well formed, the tracker is, and the results hold only values until an
    /// error, which is then the last result.
    pub open spec fn wf(&self) -> bool {
        &&& self.next_group <= self.groups@.len()
        &&& forall|i: int| 0 <= i < self.groups@.len() ==> (#[trigger] self.groups@[i]).wf()
        &&& self.css_expector.wf()
        &&& if self.has_errored {
            self.results@.len() > 0 && self.results@.last() is Err && forall|i: int|
                0 <= i < self.results@.len() - 1 ==> (#[trigger] self.results@[i]) is Ok
        } else {
            forall|i: int| 0 <= i < self.results@.len() ==> (#[trigger] self.results@[i]) is Ok
        }
    }

    /// The tracker has no token left.
    pub open spec fn tracker_done(&self) -> bool {
        self.css_expector.index() >= self.css_expector.tokens().len()
    }

    /// Where the reading stands: the tokens being read, the index of the next one, and the next
    /// group not yet entered.
    pub open spec fn place(&self) -> (Seq<CssToken<'a>>, int, int) {
        (self.css_expector.tokens(), self.css_expector.index(), self.next_group as int)
    }

    /// Reads the declaration groups `declaration_groups_token`, starting with the first value of
    /// the first group.
    pub fn new(declaration_groups_token: &'a CssToken<'a>) -> (r: CssResult<'a, Self>)
        requires
            declaration_groups_token.wf(),
        ensures
            declaration_groups_token.rule != CssRule::DECLARATION_GROUPS ==> (r matches Err(
                CssExpectError::FailedExpectation(found, e),
            ) && found == declaration_groups_token.rule && e == CssRule::DECLARATION_GROUPS),
            declaration_groups_token.rule == CssRule::DECLARATION_GROUPS ==> {
                let c = declaration_groups_token.children_seq();
                &&& r is Ok <==> (c.len() > 0 && deep_tokens(c[0]) is Some)
                &&& r is Err ==> r matches Err(
                    CssExpectError::MalformedToken(CssRule::DECLARATION_GROUPS),
                )
            },
            r matches Ok(e) ==> {
                &&& e.wf()
                &&& e.groups@ == declaration_groups_token.children_seq()
                &&& e.next_group == 1
                &&& e.css_expector.tokens() == deep_tokens(e.groups@[0])->0
                &&& e.css_expector.index() == 0
                &&& e.location == e.groups@[0].start
                &&& !e.has_errored
                &&& e.results@.len() == 0
            },
    {
        let rule = declaration_groups_token.get_rule();
        if rule != CssRule::DECLARATION_GROUPS {
            return Err(CssExpectError::FailedExpectation(rule, CssRule::DECLARATION_GROUPS));
        }
        proof {
            lemma_children_wf(*declaration_groups_token);
        }
        let groups = match declaration_groups_token.get_children() {
            Some(groups) => groups,
            None => {
                return Err(CssExpectError::MalformedToken(CssRule::DECLARATION_GROUPS));
            },
        };
        if groups.len() == 0 {
            return Err(CssExpectError::MalformedToken(CssRule::DECLARATION_GROUPS));
        }
        let css_expector = match deep_tracker(&groups[0]) {
            Some(tracker) => tracker,
            None => {
                return Err(CssExpectError::MalformedToken(CssRule::DECLARATION_GROUPS));
            },
        };
        Ok(
            CssStyleValueExpector {
                groups,
                next_group: 1,
                css_expector,
                location: groups[0].start,
                has_errored: false,
                results: Vec::new(),
            },
        )
    }

    /// Where `expect` would read: the tracker, or the first value of the next group when the
    /// tracker has no token left.
    pub open spec fn value_tokens(&self) -> Seq<CssToken<'a>> {
        if self.tracker_done() {
            deep_tokens(self.groups@[self.next_group as int])->0
        } else {
            self.css_expector.tokens()
        }
    }

    /// Where `optional` would read: the tracker, or the tokens of the next group's first value
    /// when the tracker has no token left.
    pub open spec fn optional_tokens(&self) -> Seq<CssToken<'a>> {
        if self.tracker_done() {
            shallow_tokens(self.groups@[self.next_group as int])->0
        } else {
            self.css_expector.tokens()
        }
    }

    /// The position in `value_tokens` (or `optional_tokens`) of the token to read.
    pub open spec fn value_index(&self) -> int {
        if self.tracker_done() {
            0
        } else {
            self.css_expector.index()
        }
    }

    /// `expect` has tokens to read from.
    pub open spec fn can_expect(&self) -> bool {
        !self.tracker_done() || (self.next_group < self.groups@.len() && deep_tokens(
            self.groups@[self.next_group as int],
        ) is Some)
    }

    /// `optional` has tokens to read from.
    pub open spec fn can_optional(&self) -> bool {
        !self.tracker_done() || (self.next_group < self.groups@.len() && shallow_tokens(
            self.groups@[self.next_group as int],
        ) is Some)
    }

    /// Reads a value of type `T` that must be there: from the tracker, or, when it has no token
    /// left, from the first value of the next group. Nothing happens after an error.
    pub fn expect<T: IntoStyleAttribute>(&mut self)
        requires
            old(self).wf(),
        ensures
            final(self).wf(),
            value_step(*old(self), *final(self)),
            final(self).groups == old(self).groups,
            old(self).has_errored ==> *final(self) == *old(self),
            !old(self).has_errored ==> final(self).results@.len() == old(self).results@.len() + 1
                && final(self).results@.drop_last() == old(self).results@,
            !old(self).has_errored && !old(self).can_expect() ==> {
                &&& final(self).has_errored
                &&& final(self).css_expector == old(self).css_expector
                &&& final(self).next_group == old(self).next_group
                &&& old(self).next_group == old(self).groups@.len() ==> (final(self).results@.last() matches Err(
                    CssExpectError::TooFewTokens(s),
                ) && s@ == "DECLARATION_VALUES"@)
                &&& old(self).next_group < old(self).groups@.len() ==> final(self).results@.last() == Err::<
                    CssStyleAttribute,
                    CssExpectError<'a>,
                >(CssExpectError::MalformedToken(CssRule::DECLARATION_GROUP))
            },
            !old(self).has_errored && old(self).can_expect() ==> {
                let o = old(self);
                &&& final(self).css_expector.tokens() == o.value_tokens()
                &&& final(self).next_group == if o.tracker_done() {
                    o.next_group + 1
                } else {
                    o.next_group as int
                }
                &&& final(self).location == if o.tracker_done() {
                    o.groups@[o.next_group as int].start
                } else {
                    o.location
                }
            },
            ({
                let o = old(self);
                let flags = T::spec_type_token().bits;
                let toks = o.value_tokens();
                let idx = o.value_index();
                !o.has_errored && o.can_expect() && idx < toks.len() && value_readable(
                    flags,
                    toks[idx],
                ) ==> {
                    &&& !final(self).has_errored
                    &&& final(self).css_expector.index() == idx + 1
                    &&& exists|v: prop_validation::CssAttributeValue<T>|
                        value_of::<T>(flags, toks[idx], v) && final(self).results@.last()
                            == Ok::<_, CssExpectError<'a>>(T::spec_attribute(v))
                    &&& final(self).results@.last() matches Ok(a) && T::spec_is_attribute(a)
                }
            }),
            ({
                let o = old(self);
                let flags = T::spec_type_token().bits;
                let toks = o.value_tokens();
                let idx = o.value_index();
                !o.has_errored && o.can_expect() && !(idx < toks.len() && value_readable(
                    flags,
                    toks[idx],
                )) ==> {
                    &&& final(self).has_errored
                    &&& final(self).results@.last() matches Err(
                        CssExpectError::InvalidAttributeValue(loc, _),
                    )
                    &&& loc == final(self).location
                    &&& final(self).css_expector.index() == index_after_failure(toks, idx)
                    &&& final(self).results@.last() matches Err(
                        CssExpectError::InvalidAttributeValue(_, message),
                    ) && message@ == prop_validation::failure_message(
                        T::spec_css_type_name(),
                        toks,
                        index_after_failure(toks, idx),
                    )
                }
            }),
    {
        if self.has_errored {
            return;
        }
        if self.css_expector.len() == 0 {
            if !self.enter_group_for_value() {
                return;
            }
        }
        let ghost before = self.css_expector;
        match parse::<T>(&mut self.css_expector) {
            Ok(value) => {
                let ghost v = value;
                let ghost results_before = self.results@;
                let attribute = T::into_attribute(value);
                self.results.push(Ok(attribute));
                assert(self.results@.drop_last() =~= results_before);
                assert(value_of::<T>(T::spec_type_token().bits, before.next(), v)
                    && self.results@.last() == Ok::<_, CssExpectError<'a>>(T::spec_attribute(v)));
            },
            Err(message) => {
                let ghost results_before = self.results@;
                self.has_errored = true;
                self.results.push(Err(CssExpectError::InvalidAttributeValue(self.location, message)));
                assert(self.results@.drop_last() =~= results_before);
            },
        }
    }

    /// Reads a value of type `T` if one is there: from the tracker, or, when it has no token left,
    /// from the tokens of the next group's first value. A value that cannot be read is skipped
    /// over without an error; nothing happens after an error.
    pub fn optional<T: IntoStyleAttribute>(&mut self)
        requires
            old(self).wf(),
        ensures
            final(self).wf(),
            value_step(*old(self), *final(self)),
            final(self).groups == old(self).groups,
            final(self).has_errored == old(self).has_errored,
            old(self).has_errored ==> *final(self) == *old(self),
            !old(self).has_errored && !old(self).can_optional() ==> final(self).results
                == old(self).results && final(self).css_expector == old(self).css_expector,
            !old(self).has_errored ==> final(self).next_group == if old(self).tracker_done()
                && old(self).next_group < old(self).groups@.len() {
                old(self).next_group + 1
            } else {
                old(self).next_group as int
            },
            final(self).location == old(self).location,
            !old(self).has_errored && old(self).can_optional() ==> final(self).css_expector.tokens()
                == old(self).optional_tokens(),
            ({
                let o = old(self);
                let flags = T::spec_type_token().bits;
                let toks = o.optional_tokens();
                let idx = o.value_index();
                !o.has_errored && o.can_optional() && idx < toks.len() && value_readable(
                    flags,
                    toks[idx],
                ) ==> {
                    &&& final(self).css_expector.index() == idx + 1
                    &&& final(self).results@.len() == o.results@.len() + 1
                    &&& final(self).results@.drop_last() == o.results@
                    &&& exists|v: prop_validation::CssAttributeValue<T>|
                        value_of::<T>(flags, toks[idx], v) && final(self).results@.last()
                            == Ok::<_, CssExpectError<'a>>(T::spec_attribute(v))
                    &&& final(self).results@.last() matches Ok(a) && T::spec_is_attribute(a)
                }
            }),
            ({
                let o = old(self);
                let flags = T::spec_type_token().bits;
                let toks = o.optional_tokens();
                let idx = o.value_index();
                !o.has_errored && o.can_optional() && !(idx < toks.len() && value_readable(
                    flags,
                    toks[idx],
                )) ==> final(self).results == o.results && final(self).css_expector.index()
                    == index_after_failure(toks, idx)
            }),
    {
        if self.has_errored {
            return;
        }
        if self.css_expector.len() == 0 {
            if self.next_group >= self.groups.len() {
                return;
            }
            let group = &self.groups[self.next_group];
            self.next_group = self.next_group + 1;
            match shallow_tracker(group) {
                Some(tracker) => {
                    self.css_expector = tracker;
                },
                None => {
                    return;
                },
            }
        }
        let ghost before = self.css_expector;
        match parse::<T>(&mut self.css_expector) {
            Ok(value) => {
                let ghost v = value;
                let ghost results_before = self.results@;
                let attribute = T::into_attribute(value);
                self.results.push(Ok(attribute));
                assert(self.results@.drop_last() =~= results_before);
                assert(value_of::<T>(T::spec_type_token().bits, before.next(), v)
                    && self.results@.last() == Ok::<_, CssExpectError<'a>>(T::spec_attribute(v)));
            },
            Err(_) => {},
        }
    }

    /// The values read, in order, or the error that stopped the reading. Leaves no result behind.
    pub fn resolve(&mut self) -> (r: CssResult<'a, Vec<CssStyleAttribute>>)
        requires
            old(self).wf(),
        ensures
            old(self).has_errored ==> (r matches Err(e) && old(self).results@.last() == Err::<
                CssStyleAttribute,
                CssExpectError<'a>,
            >(e)),
            !old(self).has_errored ==> (r matches Ok(values) && values@.len()
                == old(self).results@.len() && forall|i: int|
                0 <= i < values@.len() ==> old(self).results@[i] == Ok::<
                    CssStyleAttribute,
                    CssExpectError<'a>,
                >(#[trigger] values@[i])),
            final(self).results@.len() == 0,
            final(self).has_errored == old(self).has_errored,
            final(self).css_expector == old(self).css_expector,
            final(self).groups == old(self).groups,
            final(self).next_group == old(self).next_group,
            final(self).location == old(self).location,
    {
        let mut results: Vec<Result<CssStyleAttribute, CssExpectError<'a>>> = Vec::new();
        std::mem::swap(&mut results, &mut self.results);
        if self.has_errored {
            match results.pop() {
                Some(Err(error)) => Err(error),
                _ => Err(CssExpectError::TooFewTokens("DECLARATION_VALUES".to_owned())),
            }
        } else {
            let ghost all = results@;
            let mut values: Vec<CssStyleAttribute> = Vec::new();
            while results.len() > 0
                invariant
                    values@.len() + results@.len() == all.len(),
                    results@ == all.skip(values@.len() as int),
                    forall|i: int| 0 <= i < all.len() ==> (#[trigger] all[i]) is Ok,
                    forall|i: int|
                        0 <= i < values@.len() ==> all[i] == Ok::<
                            CssStyleAttribute,
                            CssExpectError<'a>,
                        >(#[trigger] values@[i]),
                decreases results@.len(),
            {
                let ghost k = values@.len() as int;
                let first = results.remove(0);
                assert(first == all[k]);
                match first {
                    Ok(value) => {
                        values.push(value);
                    },
                    Err(_) => {},
                }
                assert(results@ =~= all.skip(values@.len() as int));
            }
            Ok(values)
        }
    }

    /// Enters the next group, as `expect` reads it; reports an error when none is left or it
    /// does not have the shape of a value.
    fn enter_group_for_value(&mut self) -> (r: bool)
        requires
            old(self).wf(),
            !old(self).has_errored,
        ensures
            final(self).wf(),
            final(self).groups == old(self).groups,
            r == (old(self).next_group < old(self).groups@.len() && deep_tokens(
                old(self).groups@[old(self).next_group as int],
            ) is Some),
            r ==> {
                &&& final(self).next_group == old(self).next_group + 1
                &&& final(self).css_expector.tokens() == deep_tokens(
                    old(self).groups@[old(self).next_group as int],
                )->0
                &&& final(self).css_expector.index() == 0
                &&& final(self).location == old(self).groups@[old(self).next_group as int].start
                &&& !final(self).has_errored
                &&& final(self).results == old(self).results
            },
            !r ==> {
                &&& final(self).has_errored
                &&& final(self).css_expector == old(self).css_expector
                &&& final(self).next_group == old(self).next_group
                &&& final(self).results@.len() == old(self).results@.len() + 1
                &&& final(self).results@.drop_last() == old(self).results@
                &&& old(self).next_group == old(self).groups@.len() ==> (final(self).results@.last() matches Err(
                    CssExpectError::TooFewTokens(s),
                ) && s@ == "DECLARATION_VALUES"@)
                &&& old(self).next_group < old(self).groups@.len() ==> final(self).results@
                    == old(self).results@.push(
                    Err(CssExpectError::MalformedToken(CssRule::DECLARATION_GROUP)),
                )
            },
    {
        if self.next_group >= self.groups.len() {
            self.has_errored = true;
            self.results.push(Err(CssExpectError::TooFewTokens("DECLARATION_VALUES".to_owned())));
            return false;
        }
        let group = &self.groups[self.next_group];
        match deep_tracker(group) {
            Some(tracker) => {
                self.css_expector = tracker;
                self.location = group.start;
                self.next_group = self.next_group + 1;
                true
            },
            None => {
                self.has_errored = true;
                self.results.push(Err(CssExpectError::MalformedToken(CssRule::DECLARATION_GROUP)));
                false
            },
        }
    }
}


impl AtRule {
    /// The at-rule printed as CSS: its name after `@`, and a note that its contents are not kept.
    pub fn to_css_string(&self) -> (r: String)
        ensures
            r@ == "@"@ + self.name@ + " \"at-rules aren't (yet) implemented\";\n"@,
    {
        let mut r = "@".to_owned();
        r.append(self.name.as_str());
        r.append(" \"at-rules aren't (yet) implemented\";\n");
        r
    }
}

/// The first `n` style rules printed as CSS: each selector, then its declarations in braces.
pub open spec fn style_rules_css(rules: Seq<(SelectorNode, CssStyleProperties)>, n: int) -> Seq<char>
    decreases n,
{
    if n <= 0 || n > rules.len() {
        Seq::empty()
    } else {
        style_rules_css(rules, n - 1) + node_css(rules[n - 1].0) + " {\n"@ + declarations_css(
            rules[n - 1].1 .0@,
            rules[n - 1].1 .0@.len() as int,
        ) + "}\n\n"@
    }
}

impl Stylesheet {
    /// The style rules printed as CSS, in order.
    pub fn to_css_string(&self) -> (r: String)
        ensures
            r@ == style_rules_css(self.style_rules@, self.style_rules@.len() as int),
    {
        let mut r = String::new();
        let mut i: usize = 0;
        while i < self.style_rules.len()
            invariant
                i <= self.style_rules@.len(),
                r@ == style_rules_css(self.style_rules@, i as int),
            decreases self.style_rules@.len() - i,
        {
            let ghost before = r@;
            let (selector, properties) = &self.style_rules[i];
            r.append(selector.to_css_string().as_str());
            r.append(" {\n");
            r.append(properties.to_css_string().as_str());
            r.append("}\n\n");
            proof {
                assert(r@ =~= style_rules_css(self.style_rules@, i as int + 1));
            }
            i += 1;
        }
        r
    }
}

} // verus!
