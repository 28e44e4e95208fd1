//! General search strings: a fully parenthesised filter language, its parser,
//! and compilers from the parsed tree to an in-process predicate, SQL
//! fragments and GraphQL-style filter objects.
pub mod ast;
pub mod interpreter;
pub mod lexer;
pub mod literal;
pub mod parser;
pub mod values;

use vstd::prelude::*;

use parser::atom::{skip_blanks, ws_end};
use parser::relation::relation_at;

verus! {

/// One node of a parsed search expression.
#[derive(Debug, PartialEq, Eq)]
pub enum Node {
    And(Box<Expression>, Box<Expression>),
    Or(Box<Expression>, Box<Expression>),
    Not(Box<Expression>),
    Equal(String, String),
    EqualCI(String, String),
    Greater(String, String),
    Less(String, String),
    Wildcard(String, String),
    Regex(String, String),
    Any(String, Vec<String>),
    Null(String),
}

/// A parsed search expression: a tree whose leaves are comparisons between
/// a field name and raw, untyped literals.
#[derive(Debug, PartialEq, Eq)]
pub struct Expression {
    pub node: Node,
}

/// The mathematical value of an expression: the same tree, with sequences
/// of characters in place of strings.
pub enum Tree {
    And(Box<Tree>, Box<Tree>),
    Or(Box<Tree>, Box<Tree>),
    Not(Box<Tree>),
    Equal(Seq<char>, Seq<char>),
    EqualCI(Seq<char>, Seq<char>),
    Greater(Seq<char>, Seq<char>),
    Less(Seq<char>, Seq<char>),
    Wildcard(Seq<char>, Seq<char>),
    Regex(Seq<char>, Seq<char>),
    Any(Seq<char>, Seq<Seq<char>>),
    Null(Seq<char>),
}

/// The characters of each string of a list.
pub open spec fn strings_view(v: Seq<String>) -> Seq<Seq<char>> {
    v.map_values(|x: String| x@)
}

pub open spec fn node_tree(n: Node) -> Tree
    decreases n,
{
    match n {
        Node::And(l, r) => Tree::And(Box::new(node_tree(l.node)), Box::new(node_tree(r.node))),
        Node::Or(l, r) => Tree::Or(Box::new(node_tree(l.node)), Box::new(node_tree(r.node))),
        Node::Not(e) => Tree::Not(Box::new(node_tree(e.node))),
        Node::Equal(k, v) => Tree::Equal(k@, v@),
        Node::EqualCI(k, v) => Tree::EqualCI(k@, v@),
        Node::Greater(k, v) => Tree::Greater(k@, v@),
        Node::Less(k, v) => Tree::Less(k@, v@),
        Node::Wildcard(k, v) => Tree::Wildcard(k@, v@),
        Node::Regex(k, v) => Tree::Regex(k@, v@),
        Node::Any(k, vs) => Tree::Any(k@, strings_view(vs@)),
        Node::Null(k) => Tree::Null(k@),
    }
}

impl View for Expression {
    type V = Tree;

    open spec fn view(&self) -> Tree {
        node_tree(self.node)
    }
}

/// How deep groups may nest in a search string.
pub const MAX_DEPTH: usize = 200;

/// The message of every parse failure.
pub open spec fn parse_failure() -> Seq<char> {
    "cannot parse the search string"@
}

/// What parsing a text gives: the tree of its relation, where the text is
/// one relation (nested at most `MAX_DEPTH` deep) followed by nothing but
/// blanks.
pub open spec fn parse_spec(s: Seq<char>) -> Option<Tree> {
    match relation_at(s, 0, MAX_DEPTH as nat) {
        Some((t, e)) => if ws_end(s, e) == s.len() {
            Some(t)
        } else {
            None
        },
        None => None,
    }
}

/// Parsing is a function of the text: two parses of one text give the
/// same tree, or both fail with the same message.
pub proof fn lemma_parse_deterministic(
    s: &str,
    a: Result<Expression, String>,
    b: Result<Expression, String>,
)
    requires
        try_from_str_ensures(s, a),
        try_from_str_ensures(s, b),
    ensures
        a is Ok <==> b is Ok,
        a is Ok ==> a->Ok_0@ == b->Ok_0@,
        a is Err ==> a->Err_0@ == b->Err_0@,
{
}

/// Every relation is a group: it opens with `(` and closes with `)`, so a
/// text that does not start with a parenthesis does not parse.
pub proof fn lemma_relations_are_grouped(s: Seq<char>, i: int, depth: nat)
    ensures
        relation_at(s, i, depth) matches Some((t, e)) ==> s[i] == '(' && 0 < e <= s.len() && s[e - 1]
            == ')',
        parse_spec(s) is Some ==> s.len() > 0 && s[0] == '(',
{
}

/// What `try_from_str` promises of its result.
pub open spec fn try_from_str_ensures(s: &str, r: Result<Expression, String>) -> bool {
    match parse_spec(s@) {
        Some(t) => r is Ok && r->Ok_0@ == t,
        None => r is Err && r->Err_0@ == parse_failure(),
    }
}

/// The characters of a string, one by one.
pub fn chars_of(s: &str) -> (r: Vec<char>)
    ensures
        r@ == s@,
{
    let n = s.unicode_len();
    let mut out: Vec<char> = Vec::new();
    let mut i: usize = 0;
    while i < n
        invariant
            n == s@.len(),
            i <= n,
            out@ == s@.subrange(0, i as int),
        decreases n - i,
    {
        out.push(s.get_char(i));
        i += 1;
        assert(out@ =~= s@.subrange(0, i as int));
    }
    assert(out@ =~= s@);
    out
}

impl Expression {
    /// Parses a search string: one fully parenthesised relation, with
    /// nothing but blanks after it. Groups nesting deeper than `MAX_DEPTH`
    /// make it fail like any other text that does not parse.
    pub fn try_from_str(s: &str) -> (r: Result<Self, String>)
        ensures
            try_from_str_ensures(s, r),
    {
        let cs = chars_of(s);
        let failure = String::from_str("cannot parse the search string");
        match parser::relation::relation(&cs, 0, MAX_DEPTH) {
            Some((e, end)) => if skip_blanks(&cs, end) == cs.len() {
                Ok(e)
            } else {
                Err(failure)
            },
            None => Err(failure),
        }
    }
}

} // verus!
