//! What the SQL dialects share: the text of a `WHERE` clause with a
//! placeholder for each bound value, and the values to bind, still as raw
//! literals of their fields, in the order of the placeholders.
use vstd::hash_map::StringHashMap;
use vstd::prelude::*;

use crate::literal::{like_pattern, to_like};
use crate::values::Cause;
use crate::{strings_view, Expression, Node, Tree};

verus! {

/// A field's physical name, by logical field name.
pub type Renames = StringHashMap<String>;

/// One value to bind, or (with no literal) one field that must be known
/// although nothing is bound for it.
#[derive(Debug, Clone, PartialEq, Eq)]
pub struct BindRequest {
    pub field: String,
    pub literal: Option<String>,
}

/// The value of a request: its field and literal.
pub open spec fn request_view(q: BindRequest) -> (Seq<char>, Option<Seq<char>>) {
    (
        q.field@,
        match q.literal {
            Some(l) => Some(l@),
            None => None,
        },
    )
}

pub open spec fn requests_view(qs: Seq<BindRequest>) -> Seq<(Seq<char>, Option<Seq<char>>)> {
    qs.map_values(|q: BindRequest| request_view(q))
}

/// The name under which a field is written: its rename if it has one.
pub open spec fn column(renames: Map<Seq<char>, String>, k: Seq<char>) -> Seq<char> {
    if renames.contains_key(k) {
        renames[k]@
    } else {
        k
    }
}

/// `n` placeholders separated by `, `.
pub open spec fn marks(n: nat, mark: Seq<char>) -> Seq<char>
    decreases n,
{
    if n == 0 {
        Seq::empty()
    } else if n == 1 {
        mark
    } else {
        marks((n - 1) as nat, mark) + ", "@ + mark
    }
}

/// The clause of an expression: `(L AND R)`, `(L OR R)`, `(NOT E)`, and
/// for a comparison its column, operator and placeholder. `ci` is the
/// operator of case-insensitive and wildcard matches, `re` that of regular
/// expressions (`=` where the dialect has none). An empty list is `FALSE`.
pub open spec fn sql_template(
    t: Tree,
    renames: Map<Seq<char>, String>,
    mark: Seq<char>,
    ci: Seq<char>,
    re: Seq<char>,
) -> Seq<char>
    decreases t,
{
    match t {
        Tree::And(l, r) => "("@ + sql_template(*l, renames, mark, ci, re) + " AND "@ + sql_template(
            *r,
            renames,
            mark,
            ci,
            re,
        ) + ")"@,
        Tree::Or(l, r) => "("@ + sql_template(*l, renames, mark, ci, re) + " OR "@ + sql_template(
            *r,
            renames,
            mark,
            ci,
            re,
        ) + ")"@,
        Tree::Not(e) => "(NOT "@ + sql_template(*e, renames, mark, ci, re) + ")"@,
        Tree::Equal(k, _) => column(renames, k) + " = "@ + mark,
        Tree::EqualCI(k, _) => column(renames, k) + " "@ + ci + " "@ + mark,
        Tree::Greater(k, _) => column(renames, k) + " > "@ + mark,
        Tree::Less(k, _) => column(renames, k) + " < "@ + mark,
        Tree::Wildcard(k, _) => column(renames, k) + " "@ + ci + " "@ + mark,
        Tree::Regex(k, _) => column(renames, k) + " "@ + re + " "@ + mark,
        Tree::Any(k, xs) => if xs.len() == 0 {
            "FALSE"@
        } else {
            column(renames, k) + " IN ("@ + marks(xs.len(), mark) + ")"@
        },
        Tree::Null(k) => column(renames, k) + " IS NULL"@,
    }
}

/// The requests of an expression, in the order of its text: one value for
/// each comparison with one operand (a wildcard's in `LIKE` form), one for
/// each item of a list, and a bare field check for a null test.
pub open spec fn sql_requests(t: Tree) -> Seq<(Seq<char>, Option<Seq<char>>)>
    decreases t,
{
    match t {
        Tree::And(l, r) => sql_requests(*l) + sql_requests(*r),
        Tree::Or(l, r) => sql_requests(*l) + sql_requests(*r),
        Tree::Not(e) => sql_requests(*e),
        Tree::Equal(k, x) => seq![(k, Some(x))],
        Tree::EqualCI(k, x) => seq![(k, Some(x))],
        Tree::Greater(k, x) => seq![(k, Some(x))],
        Tree::Less(k, x) => seq![(k, Some(x))],
        Tree::Wildcard(k, x) => seq![(k, Some(like_pattern(x)))],
        Tree::Regex(k, x) => seq![(k, Some(x))],
        Tree::Any(k, xs) => xs.map_values(|x: Seq<char>| (k, Some(x))),
        Tree::Null(k) => seq![(k, None::<Seq<char>>)],
    }
}

/// An empty list compiles to `FALSE` and binds nothing, whatever the
/// dialect, the renames and the field.
pub proof fn lemma_empty_in_is_false(
    k: Seq<char>,
    renames: Map<Seq<char>, String>,
    mark: Seq<char>,
    ci: Seq<char>,
    re: Seq<char>,
)
    ensures
        sql_template(Tree::Any(k, Seq::empty()), renames, mark, ci, re) == "FALSE"@,
        sql_requests(Tree::Any(k, Seq::empty())).len() == 0,
{
}

/// Grouping, not precedence, decides the clause: `(a & (b | c))` and
/// `((a & b) | c)` give different clauses, whatever `a`, `b` and `c` are.
pub proof fn lemma_grouping_decides_clause(
    a: Tree,
    b: Tree,
    c: Tree,
    renames: Map<Seq<char>, String>,
    mark: Seq<char>,
    ci: Seq<char>,
    re: Seq<char>,
)
    ensures
        sql_template(
            Tree::And(Box::new(a), Box::new(Tree::Or(Box::new(b), Box::new(c)))),
            renames,
            mark,
            ci,
            re,
        ) != sql_template(
            Tree::Or(Box::new(Tree::And(Box::new(a), Box::new(b))), Box::new(c)),
            renames,
            mark,
            ci,
            re,
        ),
{
    let x = sql_template(
        Tree::And(Box::new(a), Box::new(Tree::Or(Box::new(b), Box::new(c)))),
        renames,
        mark,
        ci,
        re,
    );
    let y = sql_template(
        Tree::Or(Box::new(Tree::And(Box::new(a), Box::new(b))), Box::new(c)),
        renames,
        mark,
        ci,
        re,
    );
    let ta = sql_template(a, renames, mark, ci, re);
    let tb = sql_template(b, renames, mark, ci, re);
    let tc = sql_template(c, renames, mark, ci, re);
    let n = ta.len() as int;
    reveal_strlit("(");
    reveal_strlit(" AND ");
    reveal_strlit(" OR ");
    reveal_strlit(")");
    let r = "("@ + tb + " OR "@ + tc + ")"@;
    let p = "("@ + ta + " AND "@;
    assert(p.len() == n + 6);
    assert(sql_template(Tree::Or(Box::new(b), Box::new(c)), renames, mark, ci, re) == r);
    assert(x =~= p + r + ")"@);
    assert(r[0] == '(');
    assert((p + r)[n + 6] == r[0]);
    assert(x[n + 6] == '(');
    let l = "("@ + ta + " AND "@ + tb + ")"@;
    assert(sql_template(Tree::And(Box::new(a), Box::new(b)), renames, mark, ci, re) == l);
    assert(y =~= "("@ + l + " OR "@ + tc + ")"@);
    assert(p[n + 5] == ' ');
    assert(l[n + 5] == ' ');
    assert(("("@ + l)[n + 6] == ' ');
    assert(y[n + 6] == ' ');
}

fn column_of(renames: &Renames, key: &String) -> (r: String)
    ensures
        r@ == column(renames@, key@),
{
    match renames.get(key.as_str()) {
        Some(name) => name.clone(),
        None => key.clone(),
    }
}

fn cat3(a: &str, b: &str, c: &str) -> (r: String)
    ensures
        r@ == a@ + b@ + c@,
{
    let mut out = String::from_str(a);
    out.append(b);
    out.append(c);
    out
}

fn cat5(a: &str, b: &str, c: &str, d: &str, e: &str) -> (r: String)
    ensures
        r@ == a@ + b@ + c@ + d@ + e@,
{
    let mut out = String::from_str(a);
    out.append(b);
    out.append(c);
    out.append(d);
    out.append(e);
    out
}

fn write_marks(n: usize, mark: &str) -> (r: String)
    ensures
        r@ == marks(n as nat, mark@),
{
    let mut out = String::new();
    let mut i: usize = 0;
    while i < n
        invariant
            i <= n,
            out@ == marks(i as nat, mark@),
        decreases n - i,
    {
        if i > 0 {
            out.append(", ");
        }
        out.append(mark);
        i += 1;
        assert(out@ =~= marks(i as nat, mark@));
    }
    out
}

fn request(field: &String, literal: Option<String>) -> (r: BindRequest)
    ensures
        r.field@ == field@,
        r.literal == literal,
{
    BindRequest { field: field.clone(), literal }
}

/// The clause of an expression, with `mark` for each placeholder and `ci`
/// for case-insensitive and wildcard matches, and the requests of its
/// placeholders in order.
pub fn template(
    expression: &Expression,
    renames: &Renames,
    mark: &str,
    ci: &str,
    re: &str,
) -> (r: (
    String,
    Vec<BindRequest>,
))
    ensures
        r.0@ == sql_template(expression@, renames@, mark@, ci@, re@),
        requests_view(r.1@) == sql_requests(expression@),
    decreases expression,
{
    match &expression.node {
        Node::And(left, right) => {
            let (a, mut qa) = template(left, renames, mark, ci, re);
            let (b, mut qb) = template(right, renames, mark, ci, re);
            let ghost va = requests_view(qa@);
            let ghost vb = requests_view(qb@);
            qa.append(&mut qb);
            assert(requests_view(qa@) =~= va + vb);
            (cat5("(", a.as_str(), " AND ", b.as_str(), ")"), qa)
        },
        Node::Or(left, right) => {
            let (a, mut qa) = template(left, renames, mark, ci, re);
            let (b, mut qb) = template(right, renames, mark, ci, re);
            let ghost va = requests_view(qa@);
            let ghost vb = requests_view(qb@);
            qa.append(&mut qb);
            assert(requests_view(qa@) =~= va + vb);
            (cat5("(", a.as_str(), " OR ", b.as_str(), ")"), qa)
        },
        Node::Not(inner) => {
            let (a, qa) = template(inner, renames, mark, ci, re);
            (cat3("(NOT ", a.as_str(), ")"), qa)
        },
        Node::Equal(key, target) | Node::Greater(key, target) | Node::Less(key, target)
        | Node::Regex(key, target) | Node::EqualCI(key, target) => {
            let col = column_of(renames, key);
            let clause = match &expression.node {
                Node::Equal(_, _) => cat3(col.as_str(), " = ", mark),
                Node::Regex(_, _) => cat5(col.as_str(), " ", re, " ", mark),
                Node::Greater(_, _) => cat3(col.as_str(), " > ", mark),
                Node::Less(_, _) => cat3(col.as_str(), " < ", mark),
                _ => cat5(col.as_str(), " ", ci, " ", mark),
            };
            let qs = vec![request(key, Some(target.clone()))];
            assert(requests_view(qs@) =~= sql_requests(expression@));
            (clause, qs)
        },
        Node::Wildcard(key, target) => {
            let col = column_of(renames, key);
            let qs = vec![request(key, Some(to_like(target.as_str())))];
            assert(requests_view(qs@) =~= sql_requests(expression@));
            (cat5(col.as_str(), " ", ci, " ", mark), qs)
        },
        Node::Any(key, targets) => {
            let clause = if targets.len() == 0 {
                String::from_str("FALSE")
            } else {
                let col = column_of(renames, key);
                let ms = write_marks(targets.len(), mark);
                cat5(col.as_str(), " IN (", ms.as_str(), ")", "")
            };
            proof {
                reveal_strlit("");
                assert(clause@ =~= sql_template(expression@, renames@, mark@, ci@, re@));
            }
            let ghost xs = strings_view(targets@);
            let mut qs: Vec<BindRequest> = Vec::new();
            let mut i: usize = 0;
            while i < targets.len()
                invariant
                    i <= targets.len(),
                    xs == strings_view(targets@),
                    requests_view(qs@) =~= xs.subrange(0, i as int).map_values(
                        |x: Seq<char>| (key@, Some(x)),
                    ),
                decreases targets.len() - i,
            {
                let ghost before = requests_view(qs@);
                let q = request(key, Some(targets[i].clone()));
                assert(request_view(q) == (key@, Some(xs[i as int])));
                qs.push(q);
                assert(requests_view(qs@) =~= before.push((key@, Some(xs[i as int]))));
                assert(xs.subrange(0, i + 1) =~= xs.subrange(0, i as int).push(xs[i as int]));
                i += 1;
            }
            assert(xs.subrange(0, i as int) =~= xs);
            (clause, qs)
        },
        Node::Null(key) => {
            let col = column_of(renames, key);
            let qs = vec![request(key, None)];
            assert(requests_view(qs@) =~= sql_requests(expression@));
            let clause = cat3(col.as_str(), " IS NULL", "");
            proof {
                reveal_strlit("");
                assert(clause@ =~= sql_template(expression@, renames@, mark@, ci@, re@));
            }
            (clause, qs)
        },
    }
}

/// Why an expression could not be compiled.
#[derive(Debug, Clone, PartialEq, Eq)]
pub enum Error {
    /// A literal is not a value of its field's declared kind.
    TypeCoercion { field: String, kind: String, cause: Cause },
    /// A field has no declared kind.
    UnknownField(String),
}

/// The value of an error: the field, and for a coercion the kind's name.
pub enum Fault {
    TypeCoercion(Seq<char>, Seq<char>),
    UnknownField(Seq<char>),
}

impl View for Error {
    type V = Fault;

    open spec fn view(&self) -> Fault {
        match self {
            Error::TypeCoercion { field, kind, .. } => Fault::TypeCoercion(field@, kind@),
            Error::UnknownField(field) => Fault::UnknownField(field@),
        }
    }
}

/// A dialect's typed values. A value of the registry stands for its kind;
/// a literal of a field is coerced into the field's kind.
pub trait Scalar: Sized {
    /// Whether a literal is a value of this kind.
    spec fn accepts(&self, s: Seq<char>) -> bool;

    /// Whether `v` is the value of a literal in this kind.
    spec fn holds(&self, s: Seq<char>, v: Self) -> bool;

    /// The name of this kind.
    spec fn kind_name(&self) -> Seq<char>;

    /// Coerces a literal into this kind.
    fn coerce(&self, s: &str) -> (r: Result<Self, Cause>)
        ensures
            match r {
                Ok(v) => self.accepts(s@) && self.holds(s@, v),
                Err(_) => !self.accepts(s@),
            },
    ;

    /// The name of this kind.
    fn kind(&self) -> (r: String)
        ensures
            r@ == self.kind_name(),
    ;
}

/// The kind under which a field's literals are read: its declared kind,
/// else the fallback kind if one is given.
pub open spec fn kind_for<T>(types: Map<Seq<char>, T>, k: Seq<char>, fallback: Option<T>) -> Option<
    T,
> {
    if types.contains_key(k) {
        Some(types[k])
    } else {
        fallback
    }
}

/// What is wrong with one request, if anything.
pub open spec fn request_fault<T: Scalar>(
    q: (Seq<char>, Option<Seq<char>>),
    types: Map<Seq<char>, T>,
    fallback: Option<T>,
) -> Option<Fault> {
    match kind_for(types, q.0, fallback) {
        None => Some(Fault::UnknownField(q.0)),
        Some(kind) => match q.1 {
            Some(x) => if kind.accepts(x) {
                None
            } else {
                Some(Fault::TypeCoercion(q.0, kind.kind_name()))
            },
            None => None,
        },
    }
}

/// The first request, in order, with something wrong, and what.
pub open spec fn first_fault<T: Scalar>(
    qs: Seq<(Seq<char>, Option<Seq<char>>)>,
    types: Map<Seq<char>, T>,
    fallback: Option<T>,
) -> Option<Fault>
    decreases qs.len(),
{
    if qs.len() == 0 {
        None
    } else {
        match request_fault(qs[0], types, fallback) {
            Some(f) => Some(f),
            None => first_fault(qs.drop_first(), types, fallback),
        }
    }
}

/// Whether `vs` are the values of the requests that carry a literal, in
/// order, each coerced into its field's kind.
pub open spec fn binds_match<T: Scalar>(
    qs: Seq<(Seq<char>, Option<Seq<char>>)>,
    types: Map<Seq<char>, T>,
    fallback: Option<T>,
    vs: Seq<T>,
) -> bool
    decreases qs.len(),
{
    if qs.len() == 0 {
        vs.len() == 0
    } else {
        let q = qs.last();
        match q.1 {
            None => binds_match(qs.drop_last(), types, fallback, vs),
            Some(x) => vs.len() > 0 && kind_for(types, q.0, fallback)->Some_0.holds(x, vs.last())
                && binds_match(qs.drop_last(), types, fallback, vs.drop_last()),
        }
    }
}

/// What compiling an expression gives: the first field without a kind or
/// literal that is no value of its field's kind, in the order of the
/// text, is the error; else the clause and the values to bind. With a
/// fallback kind, a field without a declared kind is read in it.
pub open spec fn compiled<T: Scalar>(
    t: Tree,
    renames: Map<Seq<char>, String>,
    types: Map<Seq<char>, T>,
    fallback: Option<T>,
    mark: Seq<char>,
    ci: Seq<char>,
    re: Seq<char>,
    r: Result<(String, Vec<T>), Error>,
) -> bool {
    match first_fault(sql_requests(t), types, fallback) {
        Some(f) => r is Err && r->Err_0@ == f,
        None => r is Ok && r->Ok_0.0@ == sql_template(t, renames, mark, ci, re) && binds_match(
            sql_requests(t),
            types,
            fallback,
            r->Ok_0.1@,
        ),
    }
}

/// Compiles an expression: its clause, and its literals coerced into the
/// kinds of their fields.
pub fn compile<T: Scalar>(
    expression: &Expression,
    renames: &Renames,
    types: &StringHashMap<T>,
    fallback: Option<&T>,
    mark: &str,
    ci: &str,
    re: &str,
) -> (r: Result<(String, Vec<T>), Error>)
    ensures
        compiled(
            expression@,
            renames@,
            types@,
            match fallback {
                Some(f) => Some(*f),
                None => None::<T>,
            },
            mark@,
            ci@,
            re@,
            r,
        ),
{
    let (clause, reqs) = template(expression, renames, mark, ci, re);
    let ghost qs = sql_requests(expression@);
    let ghost fb = match fallback {
        Some(f) => Some(*f),
        None => None::<T>,
    };
    let n = reqs.len();
    let mut binds: Vec<T> = Vec::new();
    let mut i: usize = 0;
    assert(qs.subrange(0, 0) =~= Seq::<(Seq<char>, Option<Seq<char>>)>::empty());
    assert(qs.subrange(0, n as int) =~= qs);
    while i < n
        invariant
            n == reqs.len(),
            i <= n,
            qs == sql_requests(expression@),
            clause@ == sql_template(expression@, renames@, mark@, ci@, re@),
            requests_view(reqs@) == qs,
            fb == match fallback {
                Some(f) => Some(*f),
                None => None::<T>,
            },
            first_fault(qs, types@, fb) == first_fault(qs.subrange(i as int, n as int), types@, fb),
            binds_match(qs.subrange(0, i as int), types@, fb, binds@),
        decreases n - i,
    {
        let q = &reqs[i];
        let ghost qv = qs[i as int];
        assert(qv == request_view(reqs@[i as int]));
        assert(qs.subrange(i as int, n as int).drop_first() =~= qs.subrange(i + 1, n as int));
        assert(qs.subrange(0, i + 1).drop_last() =~= qs.subrange(0, i as int));
        assert(qs.subrange(0, i + 1).last() == qv);
        assert(qs.subrange(i as int, n as int)[0] == qv);
        let declared = types.get(q.field.as_str());
        let found = match declared {
            Some(kind) => Some(kind),
            None => fallback,
        };
        match found {
            None => {
                return Err(Error::UnknownField(q.field.clone()));
            },
            Some(kind) => {
                match &q.literal {
                    None => {},
                    Some(l) => {
                        match kind.coerce(l.as_str()) {
                            Ok(v) => {
                                let ghost before = binds@;
                                binds.push(v);
                                assert(binds@.drop_last() =~= before);
                            },
                            Err(c) => {
                                return Err(
                                    Error::TypeCoercion {
                                        field: q.field.clone(),
                                        kind: kind.kind(),
                                        cause: c,
                                    },
                                );
                            },
                        }
                    },
                }
            },
        }
        i += 1;
    }
    Ok((clause, binds))
}

} // verus!
