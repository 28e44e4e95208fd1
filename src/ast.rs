//! The tree that the token parser builds: statements of relations, each
//! node with the span of source text it was read from.
use vstd::prelude::*;

use crate::parser::copy_strings;
use crate::{strings_view, Node, Tree};

verus! {

/// The operator symbols of the language.
#[derive(Debug, Clone, Copy, PartialEq, Eq)]
pub enum Symbol {
    GroupStart,
    GroupEnd,
    And,
    Or,
    Not,
    Equal,
    EqualCI,
    Greater,
    Less,
    Wildcard,
    Regex,
    In,
    IsNone,
}

/// One node of a parsed statement.
#[derive(Debug, PartialEq, Eq)]
pub enum Expr {
    And(Box<Expression>, Box<Expression>),
    Or(Box<Expression>, Box<Expression>),
    Not(Box<Expression>),
    Equal(String, String),
    EqualCI(String, String),
    Greater(String, String),
    Less(String, String),
    Wildcard(String, String),
    Regex(String, String),
    In(String, Vec<String>),
    IsNone(String),
}

/// A half-open range of byte offsets in the source text.
#[derive(Debug, Default, Clone, Copy, PartialEq, Eq)]
pub struct Span {
    pub lo: usize,
    pub hi: usize,
}

/// A node with the span of the tokens it was read from.
#[derive(Debug, PartialEq, Eq)]
pub struct Expression {
    pub span: Span,
    pub node: Expr,
}

/// The statements of a source text, in order.
#[derive(Debug, PartialEq, Eq)]
pub struct Search {
    pub stmts: Vec<Expression>,
}

/// The value of a statement: its tree, with the span of every node.
pub enum Spanned {
    And(Box<Spanned>, Box<Spanned>, Span),
    Or(Box<Spanned>, Box<Spanned>, Span),
    Not(Box<Spanned>, Span),
    Leaf(Tree, Span),
}

pub open spec fn expr_spanned(e: Expression) -> Spanned
    decreases e,
{
    match e.node {
        Expr::And(l, r) => Spanned::And(Box::new(expr_spanned(*l)), Box::new(expr_spanned(*r)), e.span),
        Expr::Or(l, r) => Spanned::Or(Box::new(expr_spanned(*l)), Box::new(expr_spanned(*r)), e.span),
        Expr::Not(x) => Spanned::Not(Box::new(expr_spanned(*x)), e.span),
        Expr::Equal(k, v) => Spanned::Leaf(Tree::Equal(k@, v@), e.span),
        Expr::EqualCI(k, v) => Spanned::Leaf(Tree::EqualCI(k@, v@), e.span),
        Expr::Greater(k, v) => Spanned::Leaf(Tree::Greater(k@, v@), e.span),
        Expr::Less(k, v) => Spanned::Leaf(Tree::Less(k@, v@), e.span),
        Expr::Wildcard(k, v) => Spanned::Leaf(Tree::Wildcard(k@, v@), e.span),
        Expr::Regex(k, v) => Spanned::Leaf(Tree::Regex(k@, v@), e.span),
        Expr::In(k, vs) => Spanned::Leaf(Tree::Any(k@, strings_view(vs@)), e.span),
        Expr::IsNone(k) => Spanned::Leaf(Tree::Null(k@), e.span),
    }
}

impl View for Expression {
    type V = Spanned;

    open spec fn view(&self) -> Spanned {
        expr_spanned(*self)
    }
}

/// The tree of a statement, without its spans.
pub open spec fn spanned_tree(s: Spanned) -> Tree
    decreases s,
{
    match s {
        Spanned::And(l, r, _) => Tree::And(Box::new(spanned_tree(*l)), Box::new(spanned_tree(*r))),
        Spanned::Or(l, r, _) => Tree::Or(Box::new(spanned_tree(*l)), Box::new(spanned_tree(*r))),
        Spanned::Not(e, _) => Tree::Not(Box::new(spanned_tree(*e))),
        Spanned::Leaf(t, _) => t,
    }
}

impl Expression {
    /// The same statement as a search expression, without spans.
    pub fn to_expression(&self) -> (r: crate::Expression)
        ensures
            r@ == spanned_tree(self@),
        decreases self,
    {
        let node = match &self.node {
            Expr::And(l, r) => Node::And(Box::new(l.to_expression()), Box::new(r.to_expression())),
            Expr::Or(l, r) => Node::Or(Box::new(l.to_expression()), Box::new(r.to_expression())),
            Expr::Not(e) => Node::Not(Box::new(e.to_expression())),
            Expr::Equal(k, v) => Node::Equal(k.clone(), v.clone()),
            Expr::EqualCI(k, v) => Node::EqualCI(k.clone(), v.clone()),
            Expr::Greater(k, v) => Node::Greater(k.clone(), v.clone()),
            Expr::Less(k, v) => Node::Less(k.clone(), v.clone()),
            Expr::Wildcard(k, v) => Node::Wildcard(k.clone(), v.clone()),
            Expr::Regex(k, v) => Node::Regex(k.clone(), v.clone()),
            Expr::In(k, vs) => Node::Any(k.clone(), copy_strings(vs)),
            Expr::IsNone(k) => Node::Null(k.clone()),
        };
        crate::Expression { node }
    }
}

} // verus!
