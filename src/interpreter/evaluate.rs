//! Evaluates an expression against one record of field values.
use vstd::hash_map::StringHashMap;
use vstd::prelude::*;

use crate::literal::{glob_match, int_within, less_text, parse_int, same_text, text_less};
use crate::{strings_view, Expression, Node, Tree};

verus! {

/// How a field's values are tested for equality with a literal.
#[derive(Debug, Clone, Copy, PartialEq, Eq)]
pub enum Equality {
    /// The texts are the same.
    Exact,
    /// The texts are the same once both are lowercased.
    IgnoreCase,
    /// Both texts are 64-bit integers, and equal.
    Integer,
}

/// How a field's values are ordered against a literal.
#[derive(Debug, Clone, Copy, PartialEq, Eq)]
pub enum Order {
    /// Lexicographic order of the texts.
    Text,
    /// Both texts are 64-bit integers, compared as numbers; a text that is
    /// not one compares as neither greater nor less.
    Integer,
}

/// The built-in tests of one field. Equality and order are chosen per
/// operator; the operators that take a pattern, a list or nothing can be
/// switched off (`false`: the comparison never holds).
#[derive(Debug, Clone, Copy, PartialEq, Eq)]
pub struct EvaluateRule {
    pub is_equal: Equality,
    pub is_equal_ci: Equality,
    pub is_greater_than: Order,
    pub is_less_than: Order,
    pub is_match_wildcard: bool,
    pub is_match_regex: bool,
    pub is_in: bool,
    pub is_none: bool,
}

/// The rules of each field, by field name.
pub type EvaluateRules = StringHashMap<EvaluateRule>;

/// One record: the value of each field, by field name.
pub type EvaluatePairs = StringHashMap<String>;

/// The tests of one field, one for each comparison operator; a type of
/// rules other than `EvaluateRule` can stand in the rule table. Each test
/// says, in its spec function, what it returns for a value and a literal.
pub trait FieldRule: Sized {
    spec fn holds_equal(&self, value: Seq<char>, target: Seq<char>) -> bool;

    spec fn holds_equal_ci(&self, value: Seq<char>, target: Seq<char>) -> bool;

    spec fn holds_greater(&self, value: Seq<char>, target: Seq<char>) -> bool;

    spec fn holds_less(&self, value: Seq<char>, target: Seq<char>) -> bool;

    spec fn holds_wildcard(&self, value: Seq<char>, pattern: Seq<char>) -> bool;

    spec fn holds_regex(&self, value: Seq<char>, pattern: Seq<char>) -> bool;

    spec fn holds_in(&self, value: Seq<char>, targets: Seq<Seq<char>>) -> bool;

    spec fn holds_none(&self, value: Seq<char>) -> bool;

    fn equal(&self, value: &str, target: &str) -> (r: bool)
        ensures
            r == self.holds_equal(value@, target@),
    ;

    fn equal_ci(&self, value: &str, target: &str) -> (r: bool)
        ensures
            r == self.holds_equal_ci(value@, target@),
    ;

    fn greater(&self, value: &str, target: &str) -> (r: bool)
        ensures
            r == self.holds_greater(value@, target@),
    ;

    fn less(&self, value: &str, target: &str) -> (r: bool)
        ensures
            r == self.holds_less(value@, target@),
    ;

    fn wildcard(&self, value: &str, pattern: &str) -> (r: bool)
        ensures
            r == self.holds_wildcard(value@, pattern@),
    ;

    fn regex(&self, value: &str, pattern: &str) -> (r: bool)
        ensures
            r == self.holds_regex(value@, pattern@),
    ;

    fn within(&self, value: &str, targets: &Vec<String>) -> (r: bool)
        ensures
            r == self.holds_in(value@, strings_view(targets@)),
    ;

    fn none(&self, value: &str) -> (r: bool)
        ensures
            r == self.holds_none(value@),
    ;
}

/// The rule of a field that has no other: exact equality, lowercased
/// equality, text order, and every other operator on.
pub open spec fn default_rule() -> EvaluateRule {
    EvaluateRule {
        is_equal: Equality::Exact,
        is_equal_ci: Equality::IgnoreCase,
        is_greater_than: Order::Text,
        is_less_than: Order::Text,
        is_match_wildcard: true,
        is_match_regex: true,
        is_in: true,
        is_none: true,
    }
}

impl Default for EvaluateRule {
    fn default() -> (r: Self)
        ensures
            r == default_rule(),
    {
        EvaluateRule {
            is_equal: Equality::Exact,
            is_equal_ci: Equality::IgnoreCase,
            is_greater_than: Order::Text,
            is_less_than: Order::Text,
            is_match_wildcard: true,
            is_match_regex: true,
            is_in: true,
            is_none: true,
        }
    }
}

/// The lowercase form of a text, as `str::to_lowercase` gives it.
pub uninterp spec fn lower_of(s: Seq<char>) -> Seq<char>;

/// Whether a regular expression compiles and matches somewhere in a text.
pub uninterp spec fn regex_accepts(pattern: Seq<char>, text: Seq<char>) -> bool;

/// Relies on str::to_lowercase: the lowercase form depends on the
/// characters alone.
#[verifier::external_body]
fn lowercase(s: &str) -> (r: String)
    ensures
        r@ == lower_of(s@),
{
    s.to_lowercase()
}

/// Relies on regex::Regex::new and Regex::is_match: a pattern that does not
/// compile matches nothing.
#[verifier::external_body]
fn regex_matches(pattern: &str, text: &str) -> (r: bool)
    ensures
        r == regex_accepts(pattern@, text@),
{
    match regex::Regex::new(pattern) {
        Ok(re) => re.is_match(text),
        Err(_) => false,
    }
}

/// Relies on wildmatch::WildMatch::new and matches: `?` matches one
/// character, `*` any run of characters, and the pattern must match the
/// whole text.
#[verifier::external_body]
fn wildcard_matches(pattern: &str, text: &str) -> (r: bool)
    ensures
        r == glob_match(pattern@, text@),
{
    wildmatch::WildMatch::new(pattern).matches(text)
}

/// The value of a 64-bit integer text.
pub open spec fn i64_of(s: Seq<char>) -> Option<int> {
    int_within(s, true, i64::MIN as int, i64::MAX as int)
}

pub open spec fn equality_holds(rule: Equality, v: Seq<char>, t: Seq<char>) -> bool {
    match rule {
        Equality::Exact => v == t,
        Equality::IgnoreCase => lower_of(v) == lower_of(t),
        Equality::Integer => i64_of(v) is Some && i64_of(t) is Some && i64_of(v) == i64_of(t),
    }
}

/// Whether `v` comes after `t` under an order rule.
pub open spec fn after(rule: Order, v: Seq<char>, t: Seq<char>) -> bool {
    match rule {
        Order::Text => text_less(t, v),
        Order::Integer => i64_of(v) is Some && i64_of(t) is Some && i64_of(t)->Some_0
            < i64_of(v)->Some_0,
    }
}

/// Whether a leaf comparison holds of a field's value under its rule.
pub open spec fn leaf_holds<R: FieldRule>(rule: R, t: Tree, v: Seq<char>) -> bool {
    match t {
        Tree::Equal(_, x) => rule.holds_equal(v, x),
        Tree::EqualCI(_, x) => rule.holds_equal_ci(v, x),
        Tree::Greater(_, x) => rule.holds_greater(v, x),
        Tree::Less(_, x) => rule.holds_less(v, x),
        Tree::Wildcard(_, x) => rule.holds_wildcard(v, x),
        Tree::Regex(_, x) => rule.holds_regex(v, x),
        Tree::Any(_, xs) => rule.holds_in(v, xs),
        Tree::Null(_) => rule.holds_none(v),
        _ => false,
    }
}

impl FieldRule for EvaluateRule {
    open spec fn holds_equal(&self, value: Seq<char>, target: Seq<char>) -> bool {
        equality_holds(self.is_equal, value, target)
    }

    open spec fn holds_equal_ci(&self, value: Seq<char>, target: Seq<char>) -> bool {
        equality_holds(self.is_equal_ci, value, target)
    }

    open spec fn holds_greater(&self, value: Seq<char>, target: Seq<char>) -> bool {
        after(self.is_greater_than, value, target)
    }

    open spec fn holds_less(&self, value: Seq<char>, target: Seq<char>) -> bool {
        after(self.is_less_than, target, value)
    }

    open spec fn holds_wildcard(&self, value: Seq<char>, pattern: Seq<char>) -> bool {
        self.is_match_wildcard && glob_match(pattern, value)
    }

    open spec fn holds_regex(&self, value: Seq<char>, pattern: Seq<char>) -> bool {
        self.is_match_regex && regex_accepts(pattern, value)
    }

    open spec fn holds_in(&self, value: Seq<char>, targets: Seq<Seq<char>>) -> bool {
        self.is_in && targets.contains(value)
    }

    open spec fn holds_none(&self, value: Seq<char>) -> bool {
        self.is_none && crate::literal::is_null_word(value)
    }

    fn equal(&self, value: &str, target: &str) -> (r: bool) {
        equal_by(self.is_equal, value, target)
    }

    fn equal_ci(&self, value: &str, target: &str) -> (r: bool) {
        equal_by(self.is_equal_ci, value, target)
    }

    fn greater(&self, value: &str, target: &str) -> (r: bool) {
        after_by(self.is_greater_than, value, target)
    }

    fn less(&self, value: &str, target: &str) -> (r: bool) {
        after_by(self.is_less_than, target, value)
    }

    fn wildcard(&self, value: &str, pattern: &str) -> (r: bool) {
        self.is_match_wildcard && wildcard_matches(pattern, value)
    }

    fn regex(&self, value: &str, pattern: &str) -> (r: bool) {
        self.is_match_regex && regex_matches(pattern, value)
    }

    fn within(&self, value: &str, targets: &Vec<String>) -> (r: bool) {
        self.is_in && contains_text(targets, value)
    }

    fn none(&self, value: &str) -> (r: bool) {
        self.is_none && crate::literal::null_word(value)
    }
}

/// The field that a leaf compares.
pub open spec fn leaf_key(t: Tree) -> Seq<char> {
    match t {
        Tree::Equal(k, _) => k,
        Tree::EqualCI(k, _) => k,
        Tree::Greater(k, _) => k,
        Tree::Less(k, _) => k,
        Tree::Wildcard(k, _) => k,
        Tree::Regex(k, _) => k,
        Tree::Any(k, _) => k,
        Tree::Null(k) => k,
        _ => Seq::empty(),
    }
}

/// The truth of an expression for a record. A comparison on a field that
/// has no rule, or no value in the record, is false.
pub open spec fn eval<R: FieldRule>(t: Tree, rules: Map<Seq<char>, R>, pairs: Map<
    Seq<char>,
    String,
>) -> bool
    decreases t,
{
    match t {
        Tree::And(l, r) => eval(*l, rules, pairs) && eval(*r, rules, pairs),
        Tree::Or(l, r) => eval(*l, rules, pairs) || eval(*r, rules, pairs),
        Tree::Not(e) => !eval(*e, rules, pairs),
        _ => {
            let k = leaf_key(t);
            rules.contains_key(k) && pairs.contains_key(k) && leaf_holds(rules[k], t, pairs[k]@)
        },
    }
}

fn equal_by(rule: Equality, v: &str, t: &str) -> (r: bool)
    ensures
        r == equality_holds(rule, v@, t@),
{
    match rule {
        Equality::Exact => same_text(v, t),
        Equality::IgnoreCase => lowercase(v) == lowercase(t),
        Equality::Integer => {
            let a = parse_int(v, true, i64::MIN as i128, i64::MAX as i128);
            let b = parse_int(t, true, i64::MIN as i128, i64::MAX as i128);
            match (a, b) {
                (Some(x), Some(y)) => x == y,
                _ => false,
            }
        },
    }
}

fn after_by(rule: Order, v: &str, t: &str) -> (r: bool)
    ensures
        r == after(rule, v@, t@),
{
    match rule {
        Order::Text => less_text(t, v),
        Order::Integer => {
            let a = parse_int(v, true, i64::MIN as i128, i64::MAX as i128);
            let b = parse_int(t, true, i64::MIN as i128, i64::MAX as i128);
            match (a, b) {
                (Some(x), Some(y)) => y < x,
                _ => false,
            }
        },
    }
}

fn contains_text(xs: &Vec<String>, v: &str) -> (r: bool)
    ensures
        r == strings_view(xs@).contains(v@),
{
    let mut i: usize = 0;
    while i < xs.len()
        invariant
            i <= xs.len(),
            forall|j: int| 0 <= j < i ==> xs@[j]@ != v@,
        decreases xs.len() - i,
    {
        if same_text(xs[i].as_str(), v) {
            assert(strings_view(xs@)[i as int] == v@);
            return true;
        }
        i += 1;
    }
    assert forall|j: int| 0 <= j < strings_view(xs@).len() implies strings_view(xs@)[j] != v@ by {
        assert(xs@[j]@ != v@);
    }
    false
}

/// Evaluates an expression for a record. Never fails: a comparison on a
/// field without a rule or without a value is false.
pub fn interpret_expression<R: FieldRule>(
    expression: &Expression,
    rules: &StringHashMap<R>,
    pairs: &EvaluatePairs,
) -> (r: bool)
    ensures
        r == eval(expression@, rules@, pairs@),
    decreases expression,
{
    match &expression.node {
        Node::And(left, right) => {
            let a = interpret_expression(left, rules, pairs);
            let b = interpret_expression(right, rules, pairs);
            a && b
        },
        Node::Or(left, right) => {
            let a = interpret_expression(left, rules, pairs);
            let b = interpret_expression(right, rules, pairs);
            a || b
        },
        Node::Not(inner) => !interpret_expression(inner, rules, pairs),
        Node::Equal(key, _) | Node::EqualCI(key, _) | Node::Greater(key, _) | Node::Less(key, _)
        | Node::Wildcard(key, _) | Node::Regex(key, _) | Node::Any(key, _) | Node::Null(key) => {
            let rule = match rules.get(key.as_str()) {
                Some(rule) => rule,
                None => return false,
            };
            let value = match pairs.get(key.as_str()) {
                Some(value) => value.as_str(),
                None => return false,
            };
            match &expression.node {
                Node::Equal(_, target) => rule.equal(value, target.as_str()),
                Node::EqualCI(_, target) => rule.equal_ci(value, target.as_str()),
                Node::Greater(_, target) => rule.greater(value, target.as_str()),
                Node::Less(_, target) => rule.less(value, target.as_str()),
                Node::Wildcard(_, target) => rule.wildcard(value, target.as_str()),
                Node::Regex(_, target) => rule.regex(value, target.as_str()),
                Node::Any(_, targets) => rule.within(value, targets),
                _ => rule.none(value),
            }
        },
    }
}

/// Evaluates an expression for a record.
pub fn interpret<R: FieldRule>(
    expression: &Expression,
    rules: &StringHashMap<R>,
    pairs: &EvaluatePairs,
) -> (r: bool)
    ensures
        r == eval(expression@, rules@, pairs@),
{
    interpret_expression(expression, rules, pairs)
}

} // verus!
