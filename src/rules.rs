//! The rule engine: whether the step from a previous to a current value
//! satisfies a rule, and which rule of a list is the first to do so.
use vstd::prelude::*;

use crate::config::{rules_wf, RuleConfig};
use crate::number::{decimal_of, Decimal};
use crate::text::chars_of;

verus! {

pub open spec fn opt_view(o: Option<&str>) -> Option<Seq<char>> {
    match o {
        Some(s) => Some(s@),
        None => None,
    }
}

/// Whether `cur` parses as a number that `pred` accepts.
pub open spec fn number_satisfies(cur: Seq<char>, pred: spec_fn(Decimal) -> bool) -> bool {
    decimal_of(cur) matches Some(c) && pred(c)
}

/// Whether both values are present, parse as numbers, and `pred` accepts them.
pub open spec fn numbers_satisfy(
    prev: Option<Seq<char>>,
    cur: Seq<char>,
    pred: spec_fn(Decimal, Decimal) -> bool,
) -> bool {
    prev matches Some(p) && decimal_of(p) matches Some(pn) && decimal_of(cur) matches Some(cn)
        && pred(pn, cn)
}

/// Whether the step from `prev` (absent on a first observation) to `cur`
/// satisfies `rule`.
pub open spec fn rule_matches(rule: RuleConfig, prev: Option<Seq<char>>, cur: Seq<char>) -> bool {
    match rule {
        RuleConfig::OnChange => prev matches Some(p) && p != cur,
        RuleConfig::OnChangeFrom { from } => prev matches Some(p) && p == from@ && p != cur,
        RuleConfig::OnChangeTo { to } => prev matches Some(p) && p != cur && cur == to@,
        RuleConfig::OnChangeFromTo { from, to } => prev matches Some(p) && p == from@ && cur
            == to@,
        RuleConfig::LessThan { threshold } => number_satisfies(cur, |c: Decimal| c.lt(threshold)),
        RuleConfig::LessThanOrEqualTo { threshold } => number_satisfies(
            cur,
            |c: Decimal| c.lt(threshold) || c.same_value(threshold),
        ),
        RuleConfig::EqualTo { threshold } => number_satisfies(
            cur,
            |c: Decimal| c.same_value(threshold),
        ),
        RuleConfig::MoreThan { threshold } => number_satisfies(cur, |c: Decimal| threshold.lt(c)),
        RuleConfig::MoreThanOrEqualTo { threshold } => number_satisfies(
            cur,
            |c: Decimal| threshold.lt(c) || c.same_value(threshold),
        ),
        RuleConfig::OnDecrease => numbers_satisfy(prev, cur, |p: Decimal, c: Decimal| c.lt(p)),
        RuleConfig::OnIncrease => numbers_satisfy(prev, cur, |p: Decimal, c: Decimal| p.lt(c)),
    }
}

/// The position of the first rule of `rules` that the step satisfies.
pub open spec fn first_match(rules: Seq<RuleConfig>, prev: Option<Seq<char>>, cur: Seq<char>) -> Option<
    int,
>
    decreases rules.len(),
{
    if rules.len() == 0 {
        None
    } else if rule_matches(rules[0], prev, cur) {
        Some(0)
    } else {
        match first_match(rules.drop_first(), prev, cur) {
            Some(i) => Some(i + 1),
            None => None,
        }
    }
}

/// Whether two texts are equal, character for character.
pub fn same_text(a: &str, b: &str) -> (r: bool)
    ensures
        r == (a@ == b@),
{
    let x = chars_of(a);
    let y = chars_of(b);
    if x.len() != y.len() {
        return false;
    }
    let mut i: usize = 0;
    while i < x.len()
        invariant
            x@ == a@,
            y@ == b@,
            x@.len() == y@.len(),
            i <= x@.len(),
            forall|j: int| 0 <= j < i ==> x@[j] == y@[j],
        decreases x@.len() - i,
    {
        if x[i] != y[i] {
            return false;
        }
        i = i + 1;
    }
    assert(x@ =~= y@);
    true
}

/// Both values read as numbers: the current one, which must parse, and the
/// previous one, if it is present and parses.
fn as_decimals(old_value: Option<&str>, new_value: &str) -> (r: Option<(Option<Decimal>, Decimal)>)
    ensures
        match decimal_of(new_value@) {
            Some(c) => r == Some(
                (
                    match opt_view(old_value) {
                        Some(p) => decimal_of(p),
                        None => None,
                    },
                    c,
                ),
            ),
            None => r is None,
        },
        r matches Some((p, c)) ==> c.wf() && (p matches Some(pn) ==> pn.wf()),
{
    let new_value = match Decimal::parse(new_value) {
        Some(d) => d,
        None => {
            return None;
        },
    };
    let last_value = match old_value {
        Some(s) => Decimal::parse(s),
        None => None,
    };
    Some((last_value, new_value))
}

/// Whether the step from `last_value` to `new_value` satisfies `rule`.
pub fn check_rule(rule: &RuleConfig, last_value: Option<&str>, new_value: &str) -> (r: bool)
    requires
        rule.wf(),
    ensures
        r == rule_matches(*rule, opt_view(last_value), new_value@),
{
    match rule {
        RuleConfig::OnChange => match last_value {
            Some(p) => !same_text(p, new_value),
            None => false,
        },
        RuleConfig::OnChangeFrom { from } => match last_value {
            Some(p) => !same_text(p, new_value) && same_text(p, from.as_str()),
            None => false,
        },
        RuleConfig::OnChangeTo { to } => match last_value {
            Some(p) => !same_text(p, new_value) && same_text(new_value, to.as_str()),
            None => false,
        },
        RuleConfig::OnChangeFromTo { from, to } => match last_value {
            Some(p) => same_text(p, from.as_str()) && same_text(new_value, to.as_str()),
            None => false,
        },
        RuleConfig::LessThan { threshold } => match as_decimals(last_value, new_value) {
            Some((_, c)) => c.less_than(threshold),
            None => false,
        },
        RuleConfig::LessThanOrEqualTo { threshold } => match as_decimals(last_value, new_value) {
            Some((_, c)) => c.less_than(threshold) || c.equals(threshold),
            None => false,
        },
        RuleConfig::EqualTo { threshold } => match as_decimals(last_value, new_value) {
            Some((_, c)) => c.equals(threshold),
            None => false,
        },
        RuleConfig::MoreThan { threshold } => match as_decimals(last_value, new_value) {
            Some((_, c)) => threshold.less_than(&c),
            None => false,
        },
        RuleConfig::MoreThanOrEqualTo { threshold } => match as_decimals(last_value, new_value) {
            Some((_, c)) => threshold.less_than(&c) || c.equals(threshold),
            None => false,
        },
        RuleConfig::OnDecrease => match as_decimals(last_value, new_value) {
            Some((Some(p), c)) => c.less_than(&p),
            _ => false,
        },
        RuleConfig::OnIncrease => match as_decimals(last_value, new_value) {
            Some((Some(p), c)) => p.less_than(&c),
            _ => false,
        },
    }
}

/// The position of the first rule, in list order, that the step from
/// `previous` to `current` satisfies; `None` when no rule does.
pub fn evaluate(rules: &Vec<RuleConfig>, previous: Option<&str>, current: &str) -> (r: Option<
    usize,
>)
    requires
        rules_wf(rules@),
    ensures
        r matches Some(i) ==> first_match(rules@, opt_view(previous), current@) == Some(i as int),
        r is None ==> first_match(rules@, opt_view(previous), current@) is None,
{
    let ghost prev = opt_view(previous);
    assert(rules@.subrange(0, rules@.len() as int) =~= rules@);
    let mut i: usize = 0;
    while i < rules.len()
        invariant
            prev == opt_view(previous),
            rules_wf(rules@),
            i <= rules@.len(),
            first_match(rules@, prev, current@) == (match first_match(
                rules@.subrange(i as int, rules@.len() as int),
                prev,
                current@,
            ) {
                Some(j) => Some(j + i),
                None => None,
            }),
        decreases rules@.len() - i,
    {
        let ghost rest = rules@.subrange(i as int, rules@.len() as int);
        assert(rest[0] == rules@[i as int]);
        assert(rest.drop_first() =~= rules@.subrange(i + 1, rules@.len() as int));
        assert(first_match(rest, prev, current@) == if rule_matches(rest[0], prev, current@) {
            Some(0int)
        } else {
            match first_match(rest.drop_first(), prev, current@) {
                Some(j) => Some(j + 1),
                None => None,
            }
        });
        if check_rule(&rules[i], previous, current) {
            return Some(i);
        }
        i = i + 1;
    }
    None
}

} // verus!
