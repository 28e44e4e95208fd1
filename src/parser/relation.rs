//! Relations: comparisons and their conjunctions, disjunctions and
//! negations, each wrapped in its own parentheses.
use vstd::prelude::*;

use super::atom::{skip_blanks, ws_end};
use super::comparison::{comparison, comparison_at};
use crate::{Expression, Node, Tree};

verus! {

/// An operand of a relation at `i`: a relation if it opens a parenthesis,
/// else a comparison.
pub open spec fn operand_at(s: Seq<char>, i: int, depth: nat) -> Option<(Tree, int)>
    decreases s.len() - i, 1int,
{
    if 0 <= i < s.len() && s[i] == '(' {
        relation_at(s, i, depth)
    } else {
        comparison_at(s, i)
    }
}

/// Whether an operand is a comparison rather than a relation.
pub open spec fn opens_group(s: Seq<char>, i: int) -> bool {
    0 <= i < s.len() && s[i] == '('
}

/// A relation at `i`, always in parentheses (blanks allowed inside them):
/// a comparison; `!` and one operand; or an operand, `&` or `|`, and an
/// operand. There is no precedence: each `&`, `|` and `!` has its own
/// parentheses. Groups nest at most `depth` deep.
pub open spec fn relation_at(s: Seq<char>, i: int, depth: nat) -> Option<(Tree, int)>
    decreases s.len() - i, 0int,
{
    if depth > 0 && 0 <= i < s.len() && s[i] == '(' {
        let j = ws_end(s, i + 1);
        if !(i < j <= s.len()) {
            None
        } else if j < s.len() && s[j] == '!' {
            let k = ws_end(s, j + 1);
            if !(i < k <= s.len()) {
                None
            } else {
                match operand_at(s, k, (depth - 1) as nat) {
                    Some((a, m)) => {
                        let e = ws_end(s, m);
                        if 0 <= e < s.len() && s[e] == ')' {
                            Some((Tree::Not(Box::new(a)), e + 1))
                        } else {
                            None
                        }
                    },
                    None => None,
                }
            }
        } else {
            match operand_at(s, j, (depth - 1) as nat) {
                Some((a, m)) => {
                    let k = ws_end(s, m);
                    if !(0 <= k < s.len()) {
                        None
                    } else if s[k] == ')' && !opens_group(s, j) {
                        Some((a, k + 1))
                    } else if (s[k] == '&' || s[k] == '|') && i < ws_end(s, k + 1) <= s.len() {
                        let l = ws_end(s, k + 1);
                        match operand_at(s, l, (depth - 1) as nat) {
                            Some((b, n)) => {
                                let e = ws_end(s, n);
                                if 0 <= e < s.len() && s[e] == ')' {
                                    if s[k] == '&' {
                                        Some((Tree::And(Box::new(a), Box::new(b)), e + 1))
                                    } else {
                                        Some((Tree::Or(Box::new(a), Box::new(b)), e + 1))
                                    }
                                } else {
                                    None
                                }
                            },
                            None => None,
                        }
                    } else {
                        None
                    }
                },
                None => None,
            }
        }
    } else {
        None
    }
}

/// Reads an operand at `i`.
pub fn operand(s: &Vec<char>, i: usize, depth: usize) -> (r: Option<(Expression, usize)>)
    requires
        i <= s.len(),
    ensures
        match operand_at(s@, i as int, depth as nat) {
            Some((t, e)) => r is Some && r->Some_0.0@ == t && r->Some_0.1 as int == e,
            None => r is None,
        },
        r is Some ==> i < r->Some_0.1 <= s.len(),
    decreases s.len() - i, 1int,
{
    if i < s.len() && s[i] == '(' {
        relation(s, i, depth)
    } else {
        comparison(s, i)
    }
}

/// Reads a relation at `i`; gives its expression and the position after
/// its closing parenthesis.
pub fn relation(s: &Vec<char>, i: usize, depth: usize) -> (r: Option<(Expression, usize)>)
    requires
        i <= s.len(),
    ensures
        match relation_at(s@, i as int, depth as nat) {
            Some((t, e)) => r is Some && r->Some_0.0@ == t && r->Some_0.1 as int == e,
            None => r is None,
        },
        r is Some ==> i < r->Some_0.1 <= s.len(),
    decreases s.len() - i, 0int,
{
    if depth == 0 || i >= s.len() || s[i] != '(' {
        return None;
    }
    let j = skip_blanks(s, i + 1);
    if j < s.len() && s[j] == '!' {
        let k = skip_blanks(s, j + 1);
        let (a, m) = match operand(s, k, depth - 1) {
            Some(p) => p,
            None => return None,
        };
        let e = skip_blanks(s, m);
        if e < s.len() && s[e] == ')' {
            return Some((Expression { node: Node::Not(Box::new(a)) }, e + 1));
        }
        return None;
    }
    let (a, m) = match operand(s, j, depth - 1) {
        Some(p) => p,
        None => return None,
    };
    let k = skip_blanks(s, m);
    if k >= s.len() {
        return None;
    }
    if s[k] == ')' {
        if j < s.len() && s[j] == '(' {
            return None;
        }
        return Some((a, k + 1));
    }
    if s[k] != '&' && s[k] != '|' {
        return None;
    }
    let l = skip_blanks(s, k + 1);
    let (b, n) = match operand(s, l, depth - 1) {
        Some(p) => p,
        None => return None,
    };
    let e = skip_blanks(s, n);
    if e >= s.len() || s[e] != ')' {
        return None;
    }
    let node = if s[k] == '&' {
        Node::And(Box::new(a), Box::new(b))
    } else {
        Node::Or(Box::new(a), Box::new(b))
    };
    Some((Expression { node }, e + 1))
}

} // verus!
