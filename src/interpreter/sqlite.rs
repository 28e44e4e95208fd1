//! Compiles an expression into a SQLite `WHERE` clause and its bound values.

use vstd::hash_map::StringHashMap;
use vstd::prelude::*;
use vstd::utf8::encode_utf8;

use crate::literal::{
    float_text,
    int_within,
    is_float_text,
    is_null_word,
    null_word,
    parse_int,
    same_text,
};
use crate::values::{Cause, Timestamp, instant_parts, read_utc_date_time, utc_instant};
use crate::Expression;
use crate::ast::{spanned_tree, Search};

use super::sql::{Renames, Scalar, compile, compiled, first_fault, sql_requests};
pub use super::sql::Error;

verus! {

/// A SQLite value, or (with no value) a kind of value or SQL `NULL`.
#[derive(Debug, Clone, PartialEq)]
pub enum SqliteType {
    BigInt(Option<i64>),
    /// The UTF-8 bytes of the literal.
    Blob(Option<Vec<u8>>),
    Boolean(Option<bool>),
    /// An instant, in UTC.
    DateTime(Option<Timestamp>),
    Integer(Option<i32>),
    /// A floating-point number, as written.
    Real(Option<String>),
    Text(Option<String>),
}

/// The kind of a value, with no value.
pub open spec fn sqlite_absent(kind: SqliteType) -> SqliteType {
    match kind {
        SqliteType::BigInt(_) => SqliteType::BigInt(None),
        SqliteType::Blob(_) => SqliteType::Blob(None),
        SqliteType::Boolean(_) => SqliteType::Boolean(None),
        SqliteType::DateTime(_) => SqliteType::DateTime(None),
        SqliteType::Integer(_) => SqliteType::Integer(None),
        SqliteType::Real(_) => SqliteType::Real(None),
        SqliteType::Text(_) => SqliteType::Text(None),
    }
}

/// Whether a literal is a value of a kind: a null word is one of every
/// kind.
pub open spec fn sqlite_accepts(kind: SqliteType, s: Seq<char>) -> bool {
    is_null_word(s) || match kind {
        SqliteType::BigInt(_) => int_within(s, true, i64::MIN as int, i64::MAX as int) is Some,
        SqliteType::Blob(_) => true,
        SqliteType::Boolean(_) => s == "true"@ || s == "false"@,
        SqliteType::DateTime(_) => utc_instant(s) is Some,
        SqliteType::Integer(_) => int_within(s, true, i32::MIN as int, i32::MAX as int) is Some,
        SqliteType::Real(_) => is_float_text(s),
        SqliteType::Text(_) => true,
    }
}

/// Whether `v` is the value of a literal in a kind: a null word gives
/// the kind with no value.
pub open spec fn sqlite_holds(kind: SqliteType, s: Seq<char>, v: SqliteType) -> bool {
    if is_null_word(s) {
        v == sqlite_absent(kind)
    } else {
        match kind {
            SqliteType::BigInt(_) => v == SqliteType::BigInt(Some(int_within(s, true, i64::MIN as int, i64::MAX as int)->Some_0 as i64)),
            SqliteType::Blob(_) => v is Blob && v->Blob_0 is Some && v->Blob_0->Some_0@ == encode_utf8(s),
            SqliteType::Boolean(_) => v == SqliteType::Boolean(Some(s == "true"@)),
            SqliteType::DateTime(_) => v is DateTime && v->DateTime_0 is Some && utc_instant(s) == Some(instant_parts(v->DateTime_0->Some_0)),
            SqliteType::Integer(_) => v == SqliteType::Integer(Some(int_within(s, true, i32::MIN as int, i32::MAX as int)->Some_0 as i32)),
            SqliteType::Real(_) => v is Real && v->Real_0 is Some && v->Real_0->Some_0@ == s,
            SqliteType::Text(_) => v is Text && v->Text_0 is Some && v->Text_0->Some_0@ == s,
        }
    }
}

/// Why a literal is no value of a kind.
pub open spec fn sqlite_cause(kind: SqliteType) -> Cause {
    match kind {
        SqliteType::BigInt(_) => Cause::Int,
        SqliteType::Blob(_) => Cause::Int,
        SqliteType::Boolean(_) => Cause::Bool,
        SqliteType::DateTime(_) => Cause::Chrono,
        SqliteType::Integer(_) => Cause::Int,
        SqliteType::Real(_) => Cause::Float,
        SqliteType::Text(_) => Cause::Int,
    }
}

/// The name of a kind.
pub open spec fn sqlite_kind_name(kind: SqliteType) -> Seq<char> {
    match kind {
        SqliteType::BigInt(_) => "BigInt"@,
        SqliteType::Blob(_) => "Blob"@,
        SqliteType::Boolean(_) => "Boolean"@,
        SqliteType::DateTime(_) => "DateTime"@,
        SqliteType::Integer(_) => "Integer"@,
        SqliteType::Real(_) => "Real"@,
        SqliteType::Text(_) => "Text"@,
    }
}

impl SqliteType {
    /// This kind with no value.
    pub fn absent(&self) -> (r: SqliteType)
        ensures
            r == sqlite_absent(*self),
    {
        match self {
            SqliteType::BigInt(_) => SqliteType::BigInt(None),
            SqliteType::Blob(_) => SqliteType::Blob(None),
            SqliteType::Boolean(_) => SqliteType::Boolean(None),
            SqliteType::DateTime(_) => SqliteType::DateTime(None),
            SqliteType::Integer(_) => SqliteType::Integer(None),
            SqliteType::Real(_) => SqliteType::Real(None),
            SqliteType::Text(_) => SqliteType::Text(None),
        }
    }

    /// The name of this kind.
    pub fn name(&self) -> (r: String)
        ensures
            r@ == sqlite_kind_name(*self),
    {
        match self {
            SqliteType::BigInt(_) => String::from_str("BigInt"),
            SqliteType::Blob(_) => String::from_str("Blob"),
            SqliteType::Boolean(_) => String::from_str("Boolean"),
            SqliteType::DateTime(_) => String::from_str("DateTime"),
            SqliteType::Integer(_) => String::from_str("Integer"),
            SqliteType::Real(_) => String::from_str("Real"),
            SqliteType::Text(_) => String::from_str("Text"),
        }
    }

    /// Coerces a literal into this kind; a null word gives the kind with no
    /// value.
    pub fn replace_and_return(&self, s: &str) -> (r: Result<SqliteType, Cause>)
        ensures
            match r {
                Ok(v) => sqlite_accepts(*self, s@) && sqlite_holds(*self, s@, v),
                Err(c) => !sqlite_accepts(*self, s@) && c == sqlite_cause(*self),
            },
    {
        if null_word(s) {
            return Ok(self.absent());
        }
        match self {
            SqliteType::BigInt(_) => match parse_int(s, true, i64::MIN as i128, i64::MAX as i128) {
                Some(n) => Ok(SqliteType::BigInt(Some(n as i64))),
                None => Err(Cause::Int),
            },
            SqliteType::Blob(_) => Ok(SqliteType::Blob(Some(s.as_bytes_vec()))),
            SqliteType::Boolean(_) => if same_text(s, "true") {
                Ok(SqliteType::Boolean(Some(true)))
            } else if same_text(s, "false") {
                Ok(SqliteType::Boolean(Some(false)))
            } else {
                Err(Cause::Bool)
            },
            SqliteType::DateTime(_) => match read_utc_date_time(s) {
                Some(x) => Ok(SqliteType::DateTime(Some(x))),
                None => Err(Cause::Chrono),
            },
            SqliteType::Integer(_) => match parse_int(s, true, i32::MIN as i128, i32::MAX as i128) {
                Some(n) => Ok(SqliteType::Integer(Some(n as i32))),
                None => Err(Cause::Int),
            },
            SqliteType::Real(_) => if float_text(s) {
                Ok(SqliteType::Real(Some(String::from_str(s))))
            } else {
                Err(Cause::Float)
            },
            SqliteType::Text(_) => Ok(SqliteType::Text(Some(String::from_str(s)))),
        }
    }
}

impl Scalar for SqliteType {
    open spec fn accepts(&self, s: Seq<char>) -> bool {
        sqlite_accepts(*self, s)
    }

    open spec fn holds(&self, s: Seq<char>, v: Self) -> bool {
        sqlite_holds(*self, s, v)
    }

    open spec fn kind_name(&self) -> Seq<char> {
        sqlite_kind_name(*self)
    }

    fn coerce(&self, s: &str) -> (r: Result<Self, Cause>) {
        self.replace_and_return(s)
    }

    fn kind(&self) -> (r: String) {
        self.name()
    }
}

/// A field's physical name, by logical field name.
pub type SqliteRenames = Renames;

/// The kind of each field, by logical field name.
pub type SqliteTypes = StringHashMap<SqliteType>;

/// Compiles an expression into a SQLite clause with `?` placeholders, and
/// the values to bind to them in order.
pub fn interpret_expression(
    expression: &Expression,
    renames: &SqliteRenames,
    types: &SqliteTypes,
) -> (r: Result<(String, Vec<SqliteType>), Error>)
    ensures
        compiled(expression@, renames@, types@, None, "?"@, "LIKE"@, "="@, r),
{
    compile(expression, renames, types, None, "?", "LIKE", "=")
}

/// Compiles an expression into a SQLite clause and its values.
pub fn interpret(expression: &Expression, renames: &SqliteRenames, types: &SqliteTypes) -> (r:
    Result<(String, Vec<SqliteType>), Error>)
    ensures
        compiled(expression@, renames@, types@, None, "?"@, "LIKE"@, "="@, r),
{
    interpret_expression(expression, renames, types)
}

/// Compiles an expression as `interpret` does, but reads a field that has
/// no declared kind as a string instead of failing.
pub fn interpret_permissive(
    expression: &Expression,
    renames: &SqliteRenames,
    types: &SqliteTypes,
) -> (r: Result<(String, Vec<SqliteType>), Error>)
    ensures
        compiled(expression@, renames@, types@, Some(SqliteType::Text(None)), "?"@, "LIKE"@, "="@, r),
{
    let fallback = SqliteType::Text(None);
    compile(expression, renames, types, Some(&fallback), "?", "LIKE", "=")
}

/// What compiling the statements of a search gives: the fault of the first
/// statement that has one.
pub open spec fn first_failing(ts: Seq<crate::Tree>, types: Map<Seq<char>, SqliteType>) -> Option<
    super::sql::Fault,
>
    decreases ts.len(),
{
    if ts.len() == 0 {
        None
    } else {
        match first_fault(sql_requests(ts[0]), types, None) {
            Some(f) => Some(f),
            None => first_failing(ts.drop_first(), types),
        }
    }
}

/// The trees of the statements of a search.
pub open spec fn statement_trees(s: Search) -> Seq<crate::Tree> {
    s.stmts@.map_values(|e: crate::ast::Expression| spanned_tree(e@))
}

/// Compiles each statement of a search, in order, into a SQLite clause and
/// its values; the first statement that fails gives the error.
pub fn interpret_search(search: &Search, renames: &SqliteRenames, types: &SqliteTypes) -> (r: Result<
    Vec<(String, Vec<SqliteType>)>,
    Error,
>)
    ensures
        match first_failing(statement_trees(*search), types@) {
            Some(f) => r is Err && r->Err_0@ == f,
            None => r is Ok && r->Ok_0@.len() == search.stmts@.len() && forall|i: int|
                0 <= i < search.stmts@.len() ==> compiled(
                    statement_trees(*search)[i],
                    renames@,
                    types@,
                    None,
                    "?"@,
                    "LIKE"@,
                    "="@,
                    Ok(#[trigger] r->Ok_0@[i]),
                ),
        },
{
    let ghost ts = statement_trees(*search);
    let n = search.stmts.len();
    let mut out: Vec<(String, Vec<SqliteType>)> = Vec::new();
    let mut i: usize = 0;
    assert(ts.subrange(0, n as int) =~= ts);
    while i < n
        invariant
            n == search.stmts@.len(),
            ts == statement_trees(*search),
            i <= n,
            out@.len() == i,
            first_failing(ts, types@) == first_failing(ts.subrange(i as int, n as int), types@),
            forall|j: int|
                0 <= j < i ==> compiled(
                    ts[j],
                    renames@,
                    types@,
                    None,
                    "?"@,
                    "LIKE"@,
                    "="@,
                    Ok(#[trigger] out@[j]),
                ),
        decreases n - i,
    {
        let e = search.stmts[i].to_expression();
        assert(ts.subrange(i as int, n as int).drop_first() =~= ts.subrange(i + 1, n as int));
        assert(ts.subrange(i as int, n as int)[0] == ts[i as int]);
        match interpret_expression(&e, renames, types) {
            Ok(p) => {
                out.push(p);
            },
            Err(x) => {
                return Err(x);
            },
        }
        i += 1;
    }
    Ok(out)
}

} // verus!
