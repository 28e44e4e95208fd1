//! Compiles an expression into a GraphQL-style filter object.
use vstd::hash_map::StringHashMap;
use vstd::prelude::*;

use crate::literal::{
    float_text, int_show, int_within, is_float_text, join, join_texts, like_pattern, parse_int,
    same_text, show_int, to_like,
};
use crate::{Expression, Node, Tree};

verus! {

/// The kind of value that a field holds.
#[derive(Debug, Clone, Copy, PartialEq, Eq)]
pub enum HasuraType {
    Boolean,
    Integer,
    Float,
    StringLike,
}

/// The kind of each field, by field name.
pub type HasuraTypes = StringHashMap<HasuraType>;

/// Why an expression could not be compiled.
#[derive(Debug, Clone, PartialEq, Eq)]
pub enum Error {
    /// A literal is not a value of its field's kind.
    TypeCoercion { field: String, kind: HasuraType },
    /// A field has no kind.
    UnknownField(String),
}

/// The value of an error: which field, and for a coercion which kind.
pub enum Fault {
    TypeCoercion(Seq<char>, HasuraType),
    UnknownField(Seq<char>),
}

impl View for Error {
    type V = Fault;

    open spec fn view(&self) -> Fault {
        match self {
            Error::TypeCoercion { field, kind } => Fault::TypeCoercion(field@, *kind),
            Error::UnknownField(field) => Fault::UnknownField(field@),
        }
    }
}

/// The value of a compile result.
pub open spec fn result_view(r: Result<String, Error>) -> Result<Seq<char>, Fault> {
    match r {
        Ok(s) => Ok(s@),
        Err(e) => Err(e@),
    }
}

/// How a literal is written for a field of a kind, if it is a value of
/// that kind: a boolean as itself, an integer (64 bits) in its decimal
/// form, a number as written, a string in double quotes.
pub open spec fn hasura_literal(kind: HasuraType, s: Seq<char>) -> Option<Seq<char>> {
    match kind {
        HasuraType::Boolean => if s == "true"@ || s == "false"@ {
            Some(s)
        } else {
            None
        },
        HasuraType::Integer => match int_within(s, true, i64::MIN as int, i64::MAX as int) {
            Some(v) => Some(int_show(v)),
            None => None,
        },
        HasuraType::Float => if is_float_text(s) {
            Some(s)
        } else {
            None
        },
        HasuraType::StringLike => Some("\""@ + s + "\""@),
    }
}

impl HasuraType {
    /// Writes a literal as a value of this kind; `None` where it is none.
    pub fn to_hasura_string(&self, s: &str) -> (r: Option<String>)
        ensures
            match hasura_literal(*self, s@) {
                Some(l) => r is Some && r->Some_0@ == l,
                None => r is None,
            },
    {
        match self {
            HasuraType::Boolean => {
                if same_text(s, "true") || same_text(s, "false") {
                    Some(String::from_str(s))
                } else {
                    None
                }
            },
            HasuraType::Integer => match parse_int(s, true, i64::MIN as i128, i64::MAX as i128) {
                Some(v) => Some(show_int(v)),
                None => None,
            },
            HasuraType::Float => {
                if float_text(s) {
                    Some(String::from_str(s))
                } else {
                    None
                }
            },
            HasuraType::StringLike => {
                let mut out = String::from_str("\"");
                out.append(s);
                out.append("\"");
                Some(out)
            },
        }
    }
}

/// The literal of a field, or why there is none.
pub open spec fn field_literal(types: Map<Seq<char>, HasuraType>, k: Seq<char>, x: Seq<char>) -> Result<
    Seq<char>,
    Fault,
> {
    if !types.contains_key(k) {
        Err(Fault::UnknownField(k))
    } else {
        match hasura_literal(types[k], x) {
            Some(l) => Ok(l),
            None => Err(Fault::TypeCoercion(k, types[k])),
        }
    }
}

/// The literals of a list, in order, or the first reason one has none.
pub open spec fn field_literals(
    types: Map<Seq<char>, HasuraType>,
    k: Seq<char>,
    xs: Seq<Seq<char>>,
) -> Result<Seq<Seq<char>>, Fault>
    decreases xs.len(),
{
    if xs.len() == 0 {
        Ok(Seq::empty())
    } else {
        match field_literals(types, k, xs.drop_last()) {
            Ok(ls) => match field_literal(types, k, xs.last()) {
                Ok(l) => Ok(ls.push(l)),
                Err(e) => Err(e),
            },
            Err(e) => Err(e),
        }
    }
}

/// `{field:{op:value}}`.
pub open spec fn leaf_text(k: Seq<char>, op: Seq<char>, v: Seq<char>) -> Seq<char> {
    "{"@ + k + ":{"@ + op + ":"@ + v + "}}"@
}

pub open spec fn leaf_clause(
    types: Map<Seq<char>, HasuraType>,
    k: Seq<char>,
    op: Seq<char>,
    x: Seq<char>,
) -> Result<Seq<char>, Fault> {
    match field_literal(types, k, x) {
        Ok(l) => Ok(leaf_text(k, op, l)),
        Err(e) => Err(e),
    }
}

/// The filter object of an expression: `{_and:[l,r]}`, `{_or:[l,r]}`,
/// `{_not:e}`, and for a comparison `{field:{op:value}}` with `_eq`,
/// `_ilike` (also for wildcards, as a `LIKE` pattern), `_gt`, `_lt`,
/// `_regex`, `_in:[...]` and `_is_null:true`. The first field without a
/// kind, or literal that is no value of its field's kind, in the order of
/// the text, is the error.
pub open spec fn hasura_clause(t: Tree, types: Map<Seq<char>, HasuraType>) -> Result<
    Seq<char>,
    Fault,
>
    decreases t,
{
    match t {
        Tree::And(l, r) => match hasura_clause(*l, types) {
            Ok(a) => match hasura_clause(*r, types) {
                Ok(b) => Ok("{_and:["@ + a + ","@ + b + "]}"@),
                Err(e) => Err(e),
            },
            Err(e) => Err(e),
        },
        Tree::Or(l, r) => match hasura_clause(*l, types) {
            Ok(a) => match hasura_clause(*r, types) {
                Ok(b) => Ok("{_or:["@ + a + ","@ + b + "]}"@),
                Err(e) => Err(e),
            },
            Err(e) => Err(e),
        },
        Tree::Not(e) => match hasura_clause(*e, types) {
            Ok(a) => Ok("{_not:"@ + a + "}"@),
            Err(e) => Err(e),
        },
        Tree::Equal(k, x) => leaf_clause(types, k, "_eq"@, x),
        Tree::EqualCI(k, x) => leaf_clause(types, k, "_ilike"@, x),
        Tree::Greater(k, x) => leaf_clause(types, k, "_gt"@, x),
        Tree::Less(k, x) => leaf_clause(types, k, "_lt"@, x),
        Tree::Wildcard(k, x) => leaf_clause(types, k, "_ilike"@, like_pattern(x)),
        Tree::Regex(k, x) => leaf_clause(types, k, "_regex"@, x),
        Tree::Any(k, xs) => if !types.contains_key(k) {
            Err(Fault::UnknownField(k))
        } else {
            match field_literals(types, k, xs) {
                Ok(ls) => Ok(leaf_text(k, "_in"@, "["@ + join(ls, ","@) + "]"@)),
                Err(e) => Err(e),
            }
        },
        Tree::Null(k) => if types.contains_key(k) {
            Ok(leaf_text(k, "_is_null"@, "true"@))
        } else {
            Err(Fault::UnknownField(k))
        },
    }
}

/// Grouping, not precedence, decides the output: `(a & (b | c))` and
/// `((a & b) | c)` compile to different filter objects, whatever `a`, `b`
/// and `c` are.
pub proof fn lemma_grouping_decides_output(
    a: Tree,
    b: Tree,
    c: Tree,
    types: Map<Seq<char>, HasuraType>,
)
    requires
        hasura_clause(Tree::And(Box::new(a), Box::new(Tree::Or(Box::new(b), Box::new(c)))), types) is Ok,
        hasura_clause(Tree::Or(Box::new(Tree::And(Box::new(a), Box::new(b))), Box::new(c)), types) is Ok,
    ensures
        hasura_clause(Tree::And(Box::new(a), Box::new(Tree::Or(Box::new(b), Box::new(c)))), types)
            != hasura_clause(
            Tree::Or(Box::new(Tree::And(Box::new(a), Box::new(b))), Box::new(c)),
            types,
        ),
{
    let x = hasura_clause(
        Tree::And(Box::new(a), Box::new(Tree::Or(Box::new(b), Box::new(c)))),
        types,
    )->Ok_0;
    let y = hasura_clause(
        Tree::Or(Box::new(Tree::And(Box::new(a), Box::new(b))), Box::new(c)),
        types,
    )->Ok_0;
    reveal_strlit("{_and:[");
    reveal_strlit("{_or:[");
    assert(x[2] == 'a');
    assert(y[2] == 'o');
}

proof fn lemma_literals_fail(
    types: Map<Seq<char>, HasuraType>,
    k: Seq<char>,
    xs: Seq<Seq<char>>,
    n: int,
    e: Fault,
)
    requires
        0 <= n <= xs.len(),
        field_literals(types, k, xs.subrange(0, n)) == Err::<Seq<Seq<char>>, Fault>(e),
    ensures
        field_literals(types, k, xs) == Err::<Seq<Seq<char>>, Fault>(e),
    decreases xs.len() - n,
{
    if n == xs.len() {
        assert(xs.subrange(0, n) =~= xs);
    } else {
        assert(xs.subrange(0, n + 1).drop_last() =~= xs.subrange(0, n));
        lemma_literals_fail(types, k, xs, n + 1, e);
    }
}

fn literal_of(types: &HasuraTypes, key: &String, x: &str) -> (r: Result<String, Error>)
    ensures
        result_view(r) == field_literal(types@, key@, x@),
{
    match types.get(key.as_str()) {
        None => Err(Error::UnknownField(key.clone())),
        Some(kind) => match kind.to_hasura_string(x) {
            Some(l) => Ok(l),
            None => Err(Error::TypeCoercion { field: key.clone(), kind: *kind }),
        },
    }
}

fn write_leaf(key: &String, op: &str, v: &str) -> (r: String)
    ensures
        r@ == leaf_text(key@, op@, v@),
{
    let mut out = String::from_str("{");
    out.append(key.as_str());
    out.append(":{");
    out.append(op);
    out.append(":");
    out.append(v);
    out.append("}}");
    assert(out@ =~= leaf_text(key@, op@, v@));
    out
}

fn leaf(types: &HasuraTypes, key: &String, op: &str, x: &str) -> (r: Result<String, Error>)
    ensures
        result_view(r) == leaf_clause(types@, key@, op@, x@),
{
    match literal_of(types, key, x) {
        Ok(l) => Ok(write_leaf(key, op, l.as_str())),
        Err(e) => Err(e),
    }
}

fn wrap2(open: &str, a: &str, sep: &str, b: &str, close: &str) -> (r: String)
    ensures
        r@ == open@ + a@ + sep@ + b@ + close@,
{
    let mut out = String::from_str(open);
    out.append(a);
    out.append(sep);
    out.append(b);
    out.append(close);
    out
}

/// Compiles an expression into a filter object.
pub fn interpret_expression(expression: &Expression, types: &HasuraTypes) -> (r: Result<
    String,
    Error,
>)
    ensures
        result_view(r) == hasura_clause(expression@, types@),
    decreases expression,
{
    match &expression.node {
        Node::And(left, right) => {
            let a = interpret_expression(left, types)?;
            let b = interpret_expression(right, types)?;
            Ok(wrap2("{_and:[", a.as_str(), ",", b.as_str(), "]}"))
        },
        Node::Or(left, right) => {
            let a = interpret_expression(left, types)?;
            let b = interpret_expression(right, types)?;
            Ok(wrap2("{_or:[", a.as_str(), ",", b.as_str(), "]}"))
        },
        Node::Not(inner) => {
            let a = interpret_expression(inner, types)?;
            let mut out = String::from_str("{_not:");
            out.append(a.as_str());
            out.append("}");
            Ok(out)
        },
        Node::Equal(key, target) => leaf(types, key, "_eq", target.as_str()),
        Node::EqualCI(key, target) => leaf(types, key, "_ilike", target.as_str()),
        Node::Greater(key, target) => leaf(types, key, "_gt", target.as_str()),
        Node::Less(key, target) => leaf(types, key, "_lt", target.as_str()),
        Node::Wildcard(key, target) => {
            let pattern = to_like(target.as_str());
            leaf(types, key, "_ilike", pattern.as_str())
        },
        Node::Regex(key, target) => leaf(types, key, "_regex", target.as_str()),
        Node::Any(key, targets) => {
            if !types.contains_key(key.as_str()) {
                return Err(Error::UnknownField(key.clone()));
            }
            let ghost xs = crate::strings_view(targets@);
            let mut values: Vec<String> = Vec::new();
            let mut i: usize = 0;
            assert(xs.subrange(0, 0) =~= Seq::<Seq<char>>::empty());
            assert(crate::strings_view(values@) =~= Seq::<Seq<char>>::empty());
            while i < targets.len()
                invariant
                    i <= targets.len(),
                    values.len() == i,
                    expression@ == Tree::Any(key@, xs),
                    xs == crate::strings_view(targets@),
                    field_literals(types@, key@, xs.subrange(0, i as int)) == Ok::<
                        Seq<Seq<char>>,
                        Fault,
                    >(crate::strings_view(values@)),
                decreases targets.len() - i,
            {
                let l = literal_of(types, key, targets[i].as_str());
                proof {
                    assert(xs.subrange(0, i + 1).drop_last() =~= xs.subrange(0, i as int));
                    assert(xs.subrange(0, i + 1).last() == targets@[i as int]@);
                }
                match l {
                    Ok(l) => {
                        let ghost before = crate::strings_view(values@);
                        values.push(l);
                        assert(crate::strings_view(values@) =~= before.push(values@[i as int]@));
                    },
                    Err(e) => {
                        proof {
                            lemma_literals_fail(types@, key@, xs, i + 1, e@);
                        }
                        return Err(e);
                    },
                }
                i += 1;
            }
            assert(xs.subrange(0, i as int) =~= xs);
            let joined = join_texts(&values, ",");
            let list = wrap2("[", joined.as_str(), "", "", "]");
            assert(list@ =~= "["@ + joined@ + "]"@) by {
                reveal_strlit("");
            }
            Ok(write_leaf(key, "_in", list.as_str()))
        },
        Node::Null(key) => {
            if types.contains_key(key.as_str()) {
                Ok(write_leaf(key, "_is_null", "true"))
            } else {
                Err(Error::UnknownField(key.clone()))
            }
        },
    }
}

/// Compiles an expression into a filter object.
pub fn interpret(expression: &Expression, types: &HasuraTypes) -> (r: Result<String, Error>)
    ensures
        result_view(r) == hasura_clause(expression@, types@),
{
    interpret_expression(expression, types)
}

} // verus!
