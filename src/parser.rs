//! The grammar of search strings: the character-level parser of quoted
//! texts (in the submodules), and the token-level parser of statements
//! read by the lexer.
pub mod atom;
pub mod comparison;
pub mod relation;

use vstd::prelude::*;

use crate::ast::{Expr, Expression, Search, Span, Spanned};
use crate::lexer::{Lexeme, Token};
use crate::Tree;

verus! {

/// Where parsing stopped: the index of the offending token and its span,
/// or the number of tokens and no span where the input ended too soon.
#[derive(Debug, Clone, Copy, PartialEq, Eq)]
pub struct ParseError {
    pub index: usize,
    pub span: Option<Span>,
}

/// The value of a token list.
pub open spec fn tokens_view(ts: Seq<(Token, Span)>) -> Seq<(Lexeme, Span)> {
    ts.map_values(|p: (Token, Span)| (p.0@, p.1))
}

pub open spec fn is_compare_op(l: Lexeme) -> bool {
    l is Equal || l is EqualCI || l is Greater || l is Less || l is Wildcard || l is Regex
}

/// The comparison that an operator token makes of two strings.
pub open spec fn compare_tree(l: Lexeme, k: Seq<char>, v: Seq<char>) -> Tree {
    match l {
        Lexeme::Equal => Tree::Equal(k, v),
        Lexeme::EqualCI => Tree::EqualCI(k, v),
        Lexeme::Greater => Tree::Greater(k, v),
        Lexeme::Less => Tree::Less(k, v),
        Lexeme::Wildcard => Tree::Wildcard(k, v),
        _ => Tree::Regex(k, v),
    }
}

/// A comparison at token `i`: a string, then `-`; or `?` and an array;
/// or another operator and a string. Its span runs from the first token
/// to the last.
pub open spec fn comparison_tok(ts: Seq<(Lexeme, Span)>, i: int) -> Result<(Spanned, int), int> {
    if !(0 <= i < ts.len()) || !(ts[i].0 is Str) {
        Err(i)
    } else if !(i + 1 < ts.len()) {
        Err(i + 1)
    } else if ts[i + 1].0 is IsNone {
        Ok(
            (
                Spanned::Leaf(Tree::Null(ts[i].0->Str_0), Span { lo: ts[i].1.lo, hi: ts[i + 1].1.hi }),
                i + 2,
            ),
        )
    } else if ts[i + 1].0 is In {
        if !(i + 2 < ts.len()) || !(ts[i + 2].0 is Array) {
            Err(i + 2)
        } else {
            Ok(
                (
                    Spanned::Leaf(
                        Tree::Any(ts[i].0->Str_0, ts[i + 2].0->Array_0),
                        Span { lo: ts[i].1.lo, hi: ts[i + 2].1.hi },
                    ),
                    i + 3,
                ),
            )
        }
    } else if !is_compare_op(ts[i + 1].0) {
        Err(i + 1)
    } else if !(i + 2 < ts.len()) || !(ts[i + 2].0 is Str) {
        Err(i + 2)
    } else {
        Ok(
            (
                Spanned::Leaf(
                    compare_tree(ts[i + 1].0, ts[i].0->Str_0, ts[i + 2].0->Str_0),
                    Span { lo: ts[i].1.lo, hi: ts[i + 2].1.hi },
                ),
                i + 3,
            ),
        )
    }
}

/// An operand at token `i`: a relation where it opens a group, else a
/// comparison.
pub open spec fn operand_tok(ts: Seq<(Lexeme, Span)>, i: int) -> Result<(Spanned, int), int>
    decreases ts.len() - i, 1int,
{
    if 0 <= i < ts.len() && ts[i].0 is GroupStart {
        relation_tok(ts, i)
    } else {
        comparison_tok(ts, i)
    }
}

/// A relation at token `i`, always in a group: a comparison (which keeps
/// its own span); `!` and an operand; or an operand, `&` or `|`, and an
/// operand. The span of the last two runs over the whole group. The error
/// is the first token that cannot continue the relation.
pub open spec fn relation_tok(ts: Seq<(Lexeme, Span)>, i: int) -> Result<(Spanned, int), int>
    decreases ts.len() - i, 0int,
{
    if !(0 <= i < ts.len()) || !(ts[i].0 is GroupStart) {
        Err(i)
    } else if i + 1 < ts.len() && ts[i + 1].0 is Not {
        match operand_tok(ts, i + 2) {
            Err(e) => Err(e),
            Ok((a, m)) => if 0 <= m < ts.len() && ts[m].0 is GroupEnd {
                Ok((Spanned::Not(Box::new(a), Span { lo: ts[i].1.lo, hi: ts[m].1.hi }), m + 1))
            } else {
                Err(m)
            },
        }
    } else {
        match operand_tok(ts, i + 1) {
            Err(e) => Err(e),
            Ok((a, m)) => if !(i < m < ts.len()) {
                Err(m)
            } else if ts[m].0 is GroupEnd {
                if ts[i + 1].0 is Str {
                    Ok((a, m + 1))
                } else {
                    Err(m)
                }
            } else if ts[m].0 is And || ts[m].0 is Or {
                match operand_tok(ts, m + 1) {
                    Err(e) => Err(e),
                    Ok((b, n)) => if 0 <= n < ts.len() && ts[n].0 is GroupEnd {
                        let span = Span { lo: ts[i].1.lo, hi: ts[n].1.hi };
                        if ts[m].0 is And {
                            Ok((Spanned::And(Box::new(a), Box::new(b), span), n + 1))
                        } else {
                            Ok((Spanned::Or(Box::new(a), Box::new(b), span), n + 1))
                        }
                    } else {
                        Err(n)
                    },
                }
            } else {
                Err(m)
            },
        }
    }
}

/// The statements from token `i` to the end: relations, one after another.
pub open spec fn search_tok(ts: Seq<(Lexeme, Span)>, i: int) -> Result<Seq<Spanned>, int>
    decreases ts.len() - i,
{
    if i < 0 || i >= ts.len() {
        Ok(Seq::empty())
    } else {
        match relation_tok(ts, i) {
            Err(e) => Err(e),
            Ok((e, m)) => if i < m {
                match search_tok(ts, m) {
                    Ok(rest) => Ok(seq![e] + rest),
                    Err(x) => Err(x),
                }
            } else {
                Err(i)
            },
        }
    }
}

/// Every statement is a group: it opens with `(` and closes with `)`, so
/// tokens that do not start with a parenthesis are rejected at the first.
pub proof fn lemma_statements_are_grouped(ts: Seq<(Lexeme, Span)>, i: int)
    ensures
        relation_tok(ts, i) matches Ok((t, e)) ==> ts[i].0 is GroupStart && 0 < e <= ts.len()
            && ts[e - 1].0 is GroupEnd,
        ts.len() > 0 && !(ts[0].0 is GroupStart) ==> search_tok(ts, 0) == Err::<Seq<Spanned>, int>(
            0,
        ),
{
}

pub(crate) fn copy_strings(xs: &Vec<String>) -> (r: Vec<String>)
    ensures
        crate::strings_view(r@) == crate::strings_view(xs@),
{
    let mut out: Vec<String> = Vec::new();
    let mut i: usize = 0;
    while i < xs.len()
        invariant
            i <= xs.len(),
            out@.len() == i,
            forall|j: int| 0 <= j < i ==> (#[trigger] out@[j])@ == xs@[j]@,
        decreases xs.len() - i,
    {
        out.push(xs[i].clone());
        i += 1;
    }
    assert(crate::strings_view(out@) =~= crate::strings_view(xs@));
    out
}

fn comparison_at(ts: &Vec<(Token, Span)>, i: usize) -> (r: Result<(Expression, usize), usize>)
    ensures
        match comparison_tok(tokens_view(ts@), i as int) {
            Ok((t, e)) => r is Ok && r->Ok_0.0@ == t && r->Ok_0.1 as int == e,
            Err(e) => r is Err && r->Err_0 as int == e,
        },
        r is Ok ==> i < r->Ok_0.1 <= ts.len(),
        r is Err ==> i <= r->Err_0,
{
    let ghost v = tokens_view(ts@);
    if i >= ts.len() {
        return Err(i);
    }
    assert(v[i as int] == (ts@[i as int].0@, ts@[i as int].1));
    let key = match &ts[i].0 {
        Token::Str(k) => k.clone(),
        _ => return Err(i),
    };
    if i + 1 >= ts.len() {
        return Err(i + 1);
    }
    assert(v[i + 1] == (ts@[i + 1].0@, ts@[i + 1].1));
    let op = &ts[i + 1].0;
    if let Token::IsNone = op {
        let span = Span { lo: ts[i].1.lo, hi: ts[i + 1].1.hi };
        return Ok((Expression { span, node: Expr::IsNone(key) }, i + 2));
    }
    if let Token::In = op {
        if i + 2 >= ts.len() {
            return Err(i + 2);
        }
        assert(v[i + 2] == (ts@[i + 2].0@, ts@[i + 2].1));
        return match &ts[i + 2].0 {
            Token::Array(items) => {
                let span = Span { lo: ts[i].1.lo, hi: ts[i + 2].1.hi };
                Ok((Expression { span, node: Expr::In(key, copy_strings(items)) }, i + 3))
            },
            _ => Err(i + 2),
        };
    }
    let is_op = match op {
        Token::Equal | Token::EqualCI | Token::Greater | Token::Less | Token::Wildcard
        | Token::Regex => true,
        _ => false,
    };
    if !is_op {
        return Err(i + 1);
    }
    if i + 2 >= ts.len() {
        return Err(i + 2);
    }
    assert(v[i + 2] == (ts@[i + 2].0@, ts@[i + 2].1));
    let value = match &ts[i + 2].0 {
        Token::Str(x) => x.clone(),
        _ => return Err(i + 2),
    };
    let node = match op {
        Token::Equal => Expr::Equal(key, value),
        Token::EqualCI => Expr::EqualCI(key, value),
        Token::Greater => Expr::Greater(key, value),
        Token::Less => Expr::Less(key, value),
        Token::Wildcard => Expr::Wildcard(key, value),
        _ => Expr::Regex(key, value),
    };
    let span = Span { lo: ts[i].1.lo, hi: ts[i + 2].1.hi };
    Ok((Expression { span, node }, i + 3))
}

fn operand_at(ts: &Vec<(Token, Span)>, i: usize) -> (r: Result<(Expression, usize), usize>)
    ensures
        match operand_tok(tokens_view(ts@), i as int) {
            Ok((t, e)) => r is Ok && r->Ok_0.0@ == t && r->Ok_0.1 as int == e,
            Err(e) => r is Err && r->Err_0 as int == e,
        },
        r is Ok ==> i < r->Ok_0.1 <= ts.len(),
        r is Err ==> i <= r->Err_0,
    decreases ts.len() - i, 1int,
{
    let ghost v = tokens_view(ts@);
    if i < ts.len() {
        assert(v[i as int] == (ts@[i as int].0@, ts@[i as int].1));
        if let Token::GroupStart = &ts[i].0 {
            return relation_at(ts, i);
        }
    }
    comparison_at(ts, i)
}

fn relation_at(ts: &Vec<(Token, Span)>, i: usize) -> (r: Result<(Expression, usize), usize>)
    ensures
        match relation_tok(tokens_view(ts@), i as int) {
            Ok((t, e)) => r is Ok && r->Ok_0.0@ == t && r->Ok_0.1 as int == e,
            Err(e) => r is Err && r->Err_0 as int == e,
        },
        r is Ok ==> i < r->Ok_0.1 <= ts.len(),
        r is Err ==> i <= r->Err_0,
    decreases ts.len() - i, 0int,
{
    let ghost v = tokens_view(ts@);
    if i >= ts.len() {
        return Err(i);
    }
    assert(v[i as int] == (ts@[i as int].0@, ts@[i as int].1));
    match &ts[i].0 {
        Token::GroupStart => {},
        _ => return Err(i),
    }
    let negated = i + 1 < ts.len() && match &ts[i + 1].0 {
        Token::Not => true,
        _ => false,
    };
    if i + 1 < ts.len() {
        assert(v[i + 1] == (ts@[i + 1].0@, ts@[i + 1].1));
    }
    if negated {
        let (a, m) = match operand_at(ts, i + 2) {
            Ok(p) => p,
            Err(e) => return Err(e),
        };
        if m < ts.len() {
            assert(v[m as int] == (ts@[m as int].0@, ts@[m as int].1));
            if let Token::GroupEnd = &ts[m].0 {
                let span = Span { lo: ts[i].1.lo, hi: ts[m].1.hi };
                return Ok((Expression { span, node: Expr::Not(Box::new(a)) }, m + 1));
            }
        }
        return Err(m);
    }
    let (a, m) = match operand_at(ts, i + 1) {
        Ok(p) => p,
        Err(e) => return Err(e),
    };
    if m >= ts.len() {
        return Err(m);
    }
    assert(v[m as int] == (ts@[m as int].0@, ts@[m as int].1));
    let conj = match &ts[m].0 {
        Token::GroupEnd => {
            return match &ts[i + 1].0 {
                Token::Str(_) => Ok((a, m + 1)),
                _ => Err(m),
            };
        },
        Token::And => true,
        Token::Or => false,
        _ => return Err(m),
    };
    let (b, n) = match operand_at(ts, m + 1) {
        Ok(p) => p,
        Err(e) => return Err(e),
    };
    if n >= ts.len() {
        return Err(n);
    }
    assert(v[n as int] == (ts@[n as int].0@, ts@[n as int].1));
    match &ts[n].0 {
        Token::GroupEnd => {},
        _ => return Err(n),
    }
    let span = Span { lo: ts[i].1.lo, hi: ts[n].1.hi };
    let node = if conj {
        Expr::And(Box::new(a), Box::new(b))
    } else {
        Expr::Or(Box::new(a), Box::new(b))
    };
    Ok((Expression { span, node }, n + 1))
}

/// The value of a search: its statements.
pub open spec fn search_view(s: Search) -> Seq<Spanned> {
    s.stmts@.map_values(|e: Expression| e@)
}

/// Parses the tokens of a source text into its statements. Each level of
/// parentheses takes one level of recursion, so the nesting depth is
/// bounded by the stack.
pub fn parse(tokens: &Vec<(Token, Span)>) -> (r: Result<Search, ParseError>)
    ensures
        match search_tok(tokens_view(tokens@), 0) {
            Ok(es) => r is Ok && search_view(r->Ok_0) == es,
            Err(k) => r is Err && r->Err_0.index as int == k && r->Err_0.span == if k
                < tokens@.len() {
                Some(tokens@[k].1)
            } else {
                None::<Span>
            },
        },
{
    let ghost v = tokens_view(tokens@);
    let mut stmts: Vec<Expression> = Vec::new();
    let mut i: usize = 0;
    assert(stmts@.map_values(|e: Expression| e@) =~= Seq::<Spanned>::empty());
    while i < tokens.len()
        invariant
            i <= tokens.len(),
            v == tokens_view(tokens@),
            search_tok(v, 0) == match search_tok(v, i as int) {
                Ok(rest) => Ok(stmts@.map_values(|e: Expression| e@) + rest),
                Err(x) => Err::<Seq<Spanned>, int>(x),
            },
        decreases tokens.len() - i,
    {
        match relation_at(tokens, i) {
            Ok((e, m)) => {
                let ghost before = stmts@.map_values(|e: Expression| e@);
                let ghost ev = e@;
                stmts.push(e);
                proof {
                    assert(stmts@.map_values(|e: Expression| e@) =~= before.push(ev));
                    match search_tok(v, m as int) {
                        Ok(rest) => {
                            assert(before + (seq![ev] + rest) =~= before.push(ev) + rest);
                        },
                        Err(_) => {},
                    }
                }
                i = m;
            },
            Err(k) => {
                let span = if k < tokens.len() {
                    Some(tokens[k].1)
                } else {
                    None
                };
                return Err(ParseError { index: k, span });
            },
        }
    }
    assert(stmts@.map_values(|e: Expression| e@) + Seq::<Spanned>::empty() =~= stmts@.map_values(
        |e: Expression| e@,
    ));
    Ok(Search { stmts })
}

} // verus!
