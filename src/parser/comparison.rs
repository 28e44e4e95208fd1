//! Comparisons: a quoted field name, an operator and its operand.
use vstd::prelude::*;

use super::atom::{array, array_at, skip_blanks, text, text_at, ws_end};
use crate::{strings_view, Expression, Node, Tree};

verus! {

/// The operators whose operand is one quoted text.
pub open spec fn is_binary_op(c: char) -> bool {
    c == '=' || c == '~' || c == '>' || c == '<' || c == '*' || c == '$'
}

/// The leaf that a binary operator makes of a field and a literal.
pub open spec fn binary_leaf(c: char, k: Seq<char>, v: Seq<char>) -> Tree {
    if c == '=' {
        Tree::Equal(k, v)
    } else if c == '~' {
        Tree::EqualCI(k, v)
    } else if c == '>' {
        Tree::Greater(k, v)
    } else if c == '<' {
        Tree::Less(k, v)
    } else if c == '*' {
        Tree::Wildcard(k, v)
    } else {
        Tree::Regex(k, v)
    }
}

/// A comparison that starts at `i`: a quoted field, blanks, an operator;
/// then, but for `-`, blanks and the operand (an array after `?`, a quoted
/// text after the others).
pub open spec fn comparison_at(s: Seq<char>, i: int) -> Option<(Tree, int)> {
    match text_at(s, i) {
        Some((k, m)) => {
            let o = ws_end(s, m);
            if 0 <= o < s.len() {
                let c = s[o];
                if c == '-' {
                    Some((Tree::Null(k), o + 1))
                } else if c == '?' {
                    match array_at(s, ws_end(s, o + 1)) {
                        Some((vs, e)) => Some((Tree::Any(k, vs), e)),
                        None => None,
                    }
                } else if is_binary_op(c) {
                    match text_at(s, ws_end(s, o + 1)) {
                        Some((v, e)) => Some((binary_leaf(c, k, v), e)),
                        None => None,
                    }
                } else {
                    None
                }
            } else {
                None
            }
        },
        None => None,
    }
}

/// Reads a comparison at `i`.
pub fn comparison(s: &Vec<char>, i: usize) -> (r: Option<(Expression, usize)>)
    requires
        i <= s.len(),
    ensures
        match comparison_at(s@, i as int) {
            Some((t, e)) => r is Some && r->Some_0.0@ == t && r->Some_0.1 as int == e,
            None => r is None,
        },
        r is Some ==> i < r->Some_0.1 <= s.len(),
{
    let (k, m) = match text(s, i) {
        Some(p) => p,
        None => return None,
    };
    let o = skip_blanks(s, m);
    if o >= s.len() {
        return None;
    }
    let c = s[o];
    if c == '-' {
        return Some((Expression { node: Node::Null(k.0) }, o + 1));
    }
    let l = skip_blanks(s, o + 1);
    if c == '?' {
        return match array(s, l) {
            Some((vs, e)) => Some((Expression { node: Node::Any(k.0, vs.0) }, e)),
            None => None,
        };
    }
    let (v, e) = match text(s, l) {
        Some(p) => p,
        None => return None,
    };
    let node = if c == '=' {
        Node::Equal(k.0, v.0)
    } else if c == '~' {
        Node::EqualCI(k.0, v.0)
    } else if c == '>' {
        Node::Greater(k.0, v.0)
    } else if c == '<' {
        Node::Less(k.0, v.0)
    } else if c == '*' {
        Node::Wildcard(k.0, v.0)
    } else if c == '$' {
        Node::Regex(k.0, v.0)
    } else {
        return None;
    };
    Some((Expression { node }, e))
}

} // verus!
