//! Compiles an expression into a PostgreSQL `WHERE` clause with numbered
//! placeholders, and its bound values.

use vstd::hash_map::StringHashMap;
use vstd::prelude::*;
use vstd::utf8::encode_utf8;

use crate::literal::{
    float_text,
    int_show,
    int_within,
    is_float_text,
    is_null_word,
    null_word,
    parse_int,
    same_text,
    show_int,
};
use crate::values::{
    Cause,
    Date,
    DateTime,
    Decimal,
    IpNet,
    Time,
    Timestamp,
    date_parts,
    date_time_parts,
    decimal_of,
    decimal_parts,
    instant_parts,
    ip_network_of,
    ip_parts,
    json_text_of,
    naive_date_of,
    naive_date_time_of,
    naive_time_of,
    read_decimal,
    read_ip_network,
    read_json,
    read_naive_date,
    read_naive_date_time,
    read_naive_time,
    read_utc_date_time,
    read_uuid,
    time_parts,
    utc_instant,
    uuid_of,
};
use crate::Expression;

use super::sql::{
    Renames,
    Scalar,
    binds_match,
    compile,
    compiled,
    first_fault,
    sql_requests,
    sql_template,
};
pub use super::sql::Error;

verus! {

/// A PostgreSQL value, or (with no value) a kind of value or SQL `NULL`.
#[derive(Debug, Clone, PartialEq)]
pub enum PostgresType {
    BigInt(Option<i64>),
    Bool(Option<bool>),
    /// The UTF-8 bytes of the literal.
    Bytea(Option<Vec<u8>>),
    Char(Option<i8>),
    Date(Option<Date>),
    /// A double-precision number, as written.
    Double(Option<String>),
    INet(Option<IpNet>),
    Int(Option<i32>),
    /// The compact text of a JSON value.
    Json(Option<String>),
    Numeric(Option<Decimal>),
    /// A single-precision number, as written.
    Real(Option<String>),
    SmallInt(Option<i16>),
    StringLike(Option<String>),
    Time(Option<Time>),
    TimeStamp(Option<DateTime>),
    /// An instant, in UTC.
    TimeStampTz(Option<Timestamp>),
    Uuid(Option<u128>),
    /// The 64 bits of an unsigned integer, most significant first.
    VarBit(Option<u64>),
}

/// The kind of a value, with no value.
pub open spec fn postgres_absent(kind: PostgresType) -> PostgresType {
    match kind {
        PostgresType::BigInt(_) => PostgresType::BigInt(None),
        PostgresType::Bool(_) => PostgresType::Bool(None),
        PostgresType::Bytea(_) => PostgresType::Bytea(None),
        PostgresType::Char(_) => PostgresType::Char(None),
        PostgresType::Date(_) => PostgresType::Date(None),
        PostgresType::Double(_) => PostgresType::Double(None),
        PostgresType::INet(_) => PostgresType::INet(None),
        PostgresType::Int(_) => PostgresType::Int(None),
        PostgresType::Json(_) => PostgresType::Json(None),
        PostgresType::Numeric(_) => PostgresType::Numeric(None),
        PostgresType::Real(_) => PostgresType::Real(None),
        PostgresType::SmallInt(_) => PostgresType::SmallInt(None),
        PostgresType::StringLike(_) => PostgresType::StringLike(None),
        PostgresType::Time(_) => PostgresType::Time(None),
        PostgresType::TimeStamp(_) => PostgresType::TimeStamp(None),
        PostgresType::TimeStampTz(_) => PostgresType::TimeStampTz(None),
        PostgresType::Uuid(_) => PostgresType::Uuid(None),
        PostgresType::VarBit(_) => PostgresType::VarBit(None),
    }
}

/// Whether a literal is a value of a kind: a null word is one of every
/// kind.
pub open spec fn postgres_accepts(kind: PostgresType, s: Seq<char>) -> bool {
    is_null_word(s) || match kind {
        PostgresType::BigInt(_) => int_within(s, true, i64::MIN as int, i64::MAX as int) is Some,
        PostgresType::Bool(_) => s == "true"@ || s == "false"@,
        PostgresType::Bytea(_) => true,
        PostgresType::Char(_) => int_within(s, true, i8::MIN as int, i8::MAX as int) is Some,
        PostgresType::Date(_) => naive_date_of(s) is Some,
        PostgresType::Double(_) => is_float_text(s),
        PostgresType::INet(_) => ip_network_of(s) is Some,
        PostgresType::Int(_) => int_within(s, true, i32::MIN as int, i32::MAX as int) is Some,
        PostgresType::Json(_) => json_text_of(s) is Some,
        PostgresType::Numeric(_) => decimal_of(s) is Some,
        PostgresType::Real(_) => is_float_text(s),
        PostgresType::SmallInt(_) => int_within(s, true, i16::MIN as int, i16::MAX as int) is Some,
        PostgresType::StringLike(_) => true,
        PostgresType::Time(_) => naive_time_of(s) is Some,
        PostgresType::TimeStamp(_) => naive_date_time_of(s) is Some,
        PostgresType::TimeStampTz(_) => utc_instant(s) is Some,
        PostgresType::Uuid(_) => uuid_of(s) is Some,
        PostgresType::VarBit(_) => int_within(s, false, 0, u64::MAX as int) is Some,
    }
}

/// Whether `v` is the value of a literal in a kind: a null word gives
/// the kind with no value.
pub open spec fn postgres_holds(kind: PostgresType, s: Seq<char>, v: PostgresType) -> bool {
    if is_null_word(s) {
        v == postgres_absent(kind)
    } else {
        match kind {
            PostgresType::BigInt(_) => v == PostgresType::BigInt(Some(int_within(s, true, i64::MIN as int, i64::MAX as int)->Some_0 as i64)),
            PostgresType::Bool(_) => v == PostgresType::Bool(Some(s == "true"@)),
            PostgresType::Bytea(_) => v is Bytea && v->Bytea_0 is Some && v->Bytea_0->Some_0@ == encode_utf8(s),
            PostgresType::Char(_) => v == PostgresType::Char(Some(int_within(s, true, i8::MIN as int, i8::MAX as int)->Some_0 as i8)),
            PostgresType::Date(_) => v is Date && v->Date_0 is Some && naive_date_of(s) == Some(date_parts(v->Date_0->Some_0)),
            PostgresType::Double(_) => v is Double && v->Double_0 is Some && v->Double_0->Some_0@ == s,
            PostgresType::INet(_) => v is INet && v->INet_0 is Some && ip_network_of(s) == Some(ip_parts(v->INet_0->Some_0)),
            PostgresType::Int(_) => v == PostgresType::Int(Some(int_within(s, true, i32::MIN as int, i32::MAX as int)->Some_0 as i32)),
            PostgresType::Json(_) => v is Json && v->Json_0 is Some && json_text_of(s) == Some(v->Json_0->Some_0@),
            PostgresType::Numeric(_) => v is Numeric && v->Numeric_0 is Some && decimal_of(s) == Some(decimal_parts(v->Numeric_0->Some_0)),
            PostgresType::Real(_) => v is Real && v->Real_0 is Some && v->Real_0->Some_0@ == s,
            PostgresType::SmallInt(_) => v == PostgresType::SmallInt(Some(int_within(s, true, i16::MIN as int, i16::MAX as int)->Some_0 as i16)),
            PostgresType::StringLike(_) => v is StringLike && v->StringLike_0 is Some && v->StringLike_0->Some_0@ == s,
            PostgresType::Time(_) => v is Time && v->Time_0 is Some && naive_time_of(s) == Some(time_parts(v->Time_0->Some_0)),
            PostgresType::TimeStamp(_) => v is TimeStamp && v->TimeStamp_0 is Some && naive_date_time_of(s) == Some(date_time_parts(v->TimeStamp_0->Some_0)),
            PostgresType::TimeStampTz(_) => v is TimeStampTz && v->TimeStampTz_0 is Some && utc_instant(s) == Some(instant_parts(v->TimeStampTz_0->Some_0)),
            PostgresType::Uuid(_) => v is Uuid && v->Uuid_0 is Some && uuid_of(s) == Some(v->Uuid_0->Some_0 as int),
            PostgresType::VarBit(_) => v == PostgresType::VarBit(Some(int_within(s, false, 0, u64::MAX as int)->Some_0 as u64)),
        }
    }
}

/// Why a literal is no value of a kind.
pub open spec fn postgres_cause(kind: PostgresType) -> Cause {
    match kind {
        PostgresType::BigInt(_) => Cause::Int,
        PostgresType::Bool(_) => Cause::Bool,
        PostgresType::Bytea(_) => Cause::Int,
        PostgresType::Char(_) => Cause::Int,
        PostgresType::Date(_) => Cause::Chrono,
        PostgresType::Double(_) => Cause::Float,
        PostgresType::INet(_) => Cause::IpNetwork,
        PostgresType::Int(_) => Cause::Int,
        PostgresType::Json(_) => Cause::Json,
        PostgresType::Numeric(_) => Cause::Decimal,
        PostgresType::Real(_) => Cause::Float,
        PostgresType::SmallInt(_) => Cause::Int,
        PostgresType::StringLike(_) => Cause::Int,
        PostgresType::Time(_) => Cause::Chrono,
        PostgresType::TimeStamp(_) => Cause::Chrono,
        PostgresType::TimeStampTz(_) => Cause::Chrono,
        PostgresType::Uuid(_) => Cause::Uuid,
        PostgresType::VarBit(_) => Cause::Int,
    }
}

/// The name of a kind.
pub open spec fn postgres_kind_name(kind: PostgresType) -> Seq<char> {
    match kind {
        PostgresType::BigInt(_) => "BigInt"@,
        PostgresType::Bool(_) => "Bool"@,
        PostgresType::Bytea(_) => "Bytea"@,
        PostgresType::Char(_) => "Char"@,
        PostgresType::Date(_) => "Date"@,
        PostgresType::Double(_) => "Double"@,
        PostgresType::INet(_) => "INet"@,
        PostgresType::Int(_) => "Int"@,
        PostgresType::Json(_) => "Json"@,
        PostgresType::Numeric(_) => "Numeric"@,
        PostgresType::Real(_) => "Real"@,
        PostgresType::SmallInt(_) => "SmallInt"@,
        PostgresType::StringLike(_) => "StringLike"@,
        PostgresType::Time(_) => "Time"@,
        PostgresType::TimeStamp(_) => "TimeStamp"@,
        PostgresType::TimeStampTz(_) => "TimeStampTz"@,
        PostgresType::Uuid(_) => "Uuid"@,
        PostgresType::VarBit(_) => "VarBit"@,
    }
}

impl PostgresType {
    /// This kind with no value.
    pub fn absent(&self) -> (r: PostgresType)
        ensures
            r == postgres_absent(*self),
    {
        match self {
            PostgresType::BigInt(_) => PostgresType::BigInt(None),
            PostgresType::Bool(_) => PostgresType::Bool(None),
            PostgresType::Bytea(_) => PostgresType::Bytea(None),
            PostgresType::Char(_) => PostgresType::Char(None),
            PostgresType::Date(_) => PostgresType::Date(None),
            PostgresType::Double(_) => PostgresType::Double(None),
            PostgresType::INet(_) => PostgresType::INet(None),
            PostgresType::Int(_) => PostgresType::Int(None),
            PostgresType::Json(_) => PostgresType::Json(None),
            PostgresType::Numeric(_) => PostgresType::Numeric(None),
            PostgresType::Real(_) => PostgresType::Real(None),
            PostgresType::SmallInt(_) => PostgresType::SmallInt(None),
            PostgresType::StringLike(_) => PostgresType::StringLike(None),
            PostgresType::Time(_) => PostgresType::Time(None),
            PostgresType::TimeStamp(_) => PostgresType::TimeStamp(None),
            PostgresType::TimeStampTz(_) => PostgresType::TimeStampTz(None),
            PostgresType::Uuid(_) => PostgresType::Uuid(None),
            PostgresType::VarBit(_) => PostgresType::VarBit(None),
        }
    }

    /// The name of this kind.
    pub fn name(&self) -> (r: String)
        ensures
            r@ == postgres_kind_name(*self),
    {
        match self {
            PostgresType::BigInt(_) => String::from_str("BigInt"),
            PostgresType::Bool(_) => String::from_str("Bool"),
            PostgresType::Bytea(_) => String::from_str("Bytea"),
            PostgresType::Char(_) => String::from_str("Char"),
            PostgresType::Date(_) => String::from_str("Date"),
            PostgresType::Double(_) => String::from_str("Double"),
            PostgresType::INet(_) => String::from_str("INet"),
            PostgresType::Int(_) => String::from_str("Int"),
            PostgresType::Json(_) => String::from_str("Json"),
            PostgresType::Numeric(_) => String::from_str("Numeric"),
            PostgresType::Real(_) => String::from_str("Real"),
            PostgresType::SmallInt(_) => String::from_str("SmallInt"),
            PostgresType::StringLike(_) => String::from_str("StringLike"),
            PostgresType::Time(_) => String::from_str("Time"),
            PostgresType::TimeStamp(_) => String::from_str("TimeStamp"),
            PostgresType::TimeStampTz(_) => String::from_str("TimeStampTz"),
            PostgresType::Uuid(_) => String::from_str("Uuid"),
            PostgresType::VarBit(_) => String::from_str("VarBit"),
        }
    }

    /// Coerces a literal into this kind; a null word gives the kind with no
    /// value.
    pub fn replace_and_return(&self, s: &str) -> (r: Result<PostgresType, Cause>)
        ensures
            match r {
                Ok(v) => postgres_accepts(*self, s@) && postgres_holds(*self, s@, v),
                Err(c) => !postgres_accepts(*self, s@) && c == postgres_cause(*self),
            },
    {
        if null_word(s) {
            return Ok(self.absent());
        }
        match self {
            PostgresType::BigInt(_) => match parse_int(s, true, i64::MIN as i128, i64::MAX as i128) {
                Some(n) => Ok(PostgresType::BigInt(Some(n as i64))),
                None => Err(Cause::Int),
            },
            PostgresType::Bool(_) => if same_text(s, "true") {
                Ok(PostgresType::Bool(Some(true)))
            } else if same_text(s, "false") {
                Ok(PostgresType::Bool(Some(false)))
            } else {
                Err(Cause::Bool)
            },
            PostgresType::Bytea(_) => Ok(PostgresType::Bytea(Some(s.as_bytes_vec()))),
            PostgresType::Char(_) => match parse_int(s, true, i8::MIN as i128, i8::MAX as i128) {
                Some(n) => Ok(PostgresType::Char(Some(n as i8))),
                None => Err(Cause::Int),
            },
            PostgresType::Date(_) => match read_naive_date(s) {
                Some(x) => Ok(PostgresType::Date(Some(x))),
                None => Err(Cause::Chrono),
            },
            PostgresType::Double(_) => if float_text(s) {
                Ok(PostgresType::Double(Some(String::from_str(s))))
            } else {
                Err(Cause::Float)
            },
            PostgresType::INet(_) => match read_ip_network(s) {
                Some(x) => Ok(PostgresType::INet(Some(x))),
                None => Err(Cause::IpNetwork),
            },
            PostgresType::Int(_) => match parse_int(s, true, i32::MIN as i128, i32::MAX as i128) {
                Some(n) => Ok(PostgresType::Int(Some(n as i32))),
                None => Err(Cause::Int),
            },
            PostgresType::Json(_) => match read_json(s) {
                Some(x) => Ok(PostgresType::Json(Some(x))),
                None => Err(Cause::Json),
            },
            PostgresType::Numeric(_) => match read_decimal(s) {
                Some(x) => Ok(PostgresType::Numeric(Some(x))),
                None => Err(Cause::Decimal),
            },
            PostgresType::Real(_) => if float_text(s) {
                Ok(PostgresType::Real(Some(String::from_str(s))))
            } else {
                Err(Cause::Float)
            },
            PostgresType::SmallInt(_) => match parse_int(s, true, i16::MIN as i128, i16::MAX as i128) {
                Some(n) => Ok(PostgresType::SmallInt(Some(n as i16))),
                None => Err(Cause::Int),
            },
            PostgresType::StringLike(_) => Ok(PostgresType::StringLike(Some(String::from_str(s)))),
            PostgresType::Time(_) => match read_naive_time(s) {
                Some(x) => Ok(PostgresType::Time(Some(x))),
                None => Err(Cause::Chrono),
            },
            PostgresType::TimeStamp(_) => match read_naive_date_time(s) {
                Some(x) => Ok(PostgresType::TimeStamp(Some(x))),
                None => Err(Cause::Chrono),
            },
            PostgresType::TimeStampTz(_) => match read_utc_date_time(s) {
                Some(x) => Ok(PostgresType::TimeStampTz(Some(x))),
                None => Err(Cause::Chrono),
            },
            PostgresType::Uuid(_) => match read_uuid(s) {
                Some(x) => Ok(PostgresType::Uuid(Some(x))),
                None => Err(Cause::Uuid),
            },
            PostgresType::VarBit(_) => match parse_int(s, false, 0, u64::MAX as i128) {
                Some(n) => Ok(PostgresType::VarBit(Some(n as u64))),
                None => Err(Cause::Int),
            },
        }
    }
}

impl Scalar for PostgresType {
    open spec fn accepts(&self, s: Seq<char>) -> bool {
        postgres_accepts(*self, s)
    }

    open spec fn holds(&self, s: Seq<char>, v: Self) -> bool {
        postgres_holds(*self, s, v)
    }

    open spec fn kind_name(&self) -> Seq<char> {
        postgres_kind_name(*self)
    }

    fn coerce(&self, s: &str) -> (r: Result<Self, Cause>) {
        self.replace_and_return(s)
    }

    fn kind(&self) -> (r: String) {
        self.name()
    }
}

/// A field's physical name, by logical field name.
pub type PostgresRenames = Renames;

/// The kind of each field, by logical field name.
pub type PostgresTypes = StringHashMap<PostgresType>;

/// A template with each `??` replaced, from left to right, by `$` and a
/// number counted from `index`.
pub open spec fn numbered(s: Seq<char>, index: int) -> Seq<char>
    decreases s.len(),
{
    if s.len() == 0 {
        Seq::empty()
    } else if s.len() >= 2 && s[0] == '?' && s[1] == '?' {
        "$"@ + int_show(index) + numbered(s.subrange(2, s.len() as int), index + 1)
    } else {
        seq![s[0]] + numbered(s.drop_first(), index)
    }
}

/// The number of `??` in a template, counted from left to right without
/// overlaps.
pub open spec fn mark_count(s: Seq<char>) -> int
    decreases s.len(),
{
    if s.len() == 0 {
        0
    } else if s.len() >= 2 && s[0] == '?' && s[1] == '?' {
        1 + mark_count(s.subrange(2, s.len() as int))
    } else {
        mark_count(s.drop_first())
    }
}

/// Numbers the placeholders of a template from `index` on; gives the
/// numbered template and the number after the last one used.
pub fn number_placeholders(template: &str, index: usize) -> (r: (String, i128))
    ensures
        r.0@ == numbered(template@, index as int),
        r.1 == index + mark_count(template@),
{
    let cs = crate::chars_of(template);
    let n = cs.len();
    let mut out = String::new();
    let mut i: usize = 0;
    let mut counter: i128 = index as i128;
    assert(cs@.subrange(0, n as int) =~= template@);
    assert(out@ + numbered(template@, index as int) =~= numbered(template@, index as int));
    while i < n
        invariant
            n == cs.len(),
            cs@ == template@,
            i <= n,
            index as int <= counter <= index as int + i,
            counter + mark_count(cs@.subrange(i as int, n as int)) == index + mark_count(template@),
            numbered(template@, index as int) == out@ + numbered(
                cs@.subrange(i as int, n as int),
                counter as int,
            ),
        decreases n - i,
    {
        let ghost rest = cs@.subrange(i as int, n as int);
        if i + 1 < n && cs[i] == '?' && cs[i + 1] == '?' {
            let ghost before = out@;
            out.append("$");
            let number = show_int(counter);
            out.append(number.as_str());
            assert(rest.subrange(2, rest.len() as int) =~= cs@.subrange(i + 2, n as int));
            assert(numbered(rest, counter as int) == "$"@ + int_show(counter as int) + numbered(
                cs@.subrange(i + 2, n as int),
                counter + 1,
            ));
            assert(before + ("$"@ + int_show(counter as int) + numbered(
                cs@.subrange(i + 2, n as int),
                counter + 1,
            )) =~= out@ + numbered(cs@.subrange(i + 2, n as int), counter + 1));
            counter = counter + 1;
            i += 2;
        } else {
            let ghost before = out@;
            crate::parser::atom::push_char(&mut out, cs[i]);
            assert(rest.drop_first() =~= cs@.subrange(i + 1, n as int));
            assert(before + (seq![rest[0]] + numbered(rest.drop_first(), counter as int))
                =~= out@ + numbered(cs@.subrange(i + 1, n as int), counter as int));
            i += 1;
        }
    }
    assert(cs@.subrange(i as int, n as int) =~= Seq::<char>::empty());
    assert(out@ + Seq::<char>::empty() =~= out@);
    (out, counter)
}

/// Compiles an expression into a PostgreSQL clause with `??` for each
/// placeholder, and the values to bind to them in order.
pub fn interpret_expression(
    expression: &Expression,
    renames: &PostgresRenames,
    types: &PostgresTypes,
) -> (r: Result<(String, Vec<PostgresType>), Error>)
    ensures
        compiled(expression@, renames@, types@, None, "??"@, "ILIKE"@, "~"@, r),
{
    compile(expression, renames, types, None, "??", "ILIKE", "~")
}

/// Compiles an expression into a PostgreSQL clause whose placeholders are
/// `$index`, `$index+1`, ... from left to right, and the values to bind to
/// them in order. A caller that joins several clauses into one statement
/// starts each at the number after the last of the one before.
pub fn interpret(
    expression: &Expression,
    renames: &PostgresRenames,
    types: &PostgresTypes,
    index: usize,
) -> (r: Result<(String, Vec<PostgresType>), Error>)
    ensures
        numbered_result(expression@, renames@, types@, None, index as int, r),
{
    let (template, params) = interpret_expression(expression, renames, types)?;
    Ok((number_placeholders(template.as_str(), index).0, params))
}

/// The number after `count` numbers from `start`, at most `usize::MAX`.
pub open spec fn advanced(start: int, count: int) -> usize {
    if start + count <= usize::MAX {
        (start + count) as usize
    } else {
        usize::MAX
    }
}

/// Compiles an expression as `interpret` does, numbering from `*next`, and
/// moves `*next` past the last number used (to `usize::MAX` at most), so
/// that the clauses of one statement can be compiled one after another.
/// On an error `*next` is unchanged.
pub fn interpret_from(
    expression: &Expression,
    renames: &PostgresRenames,
    types: &PostgresTypes,
    next: &mut usize,
) -> (r: Result<(String, Vec<PostgresType>), Error>)
    ensures
        numbered_result(expression@, renames@, types@, None, *old(next) as int, r),
        r is Ok ==> *final(next) == advanced(
            *old(next) as int,
            mark_count(sql_template(expression@, renames@, "??"@, "ILIKE"@, "~"@)),
        ),
        r is Err ==> *final(next) == *old(next),
{
    let (template, params) = match interpret_expression(expression, renames, types) {
        Ok(p) => p,
        Err(e) => return Err(e),
    };
    assert(template@ == sql_template(expression@, renames@, "??"@, "ILIKE"@, "~"@));
    let start = *next;
    let (clause, after) = number_placeholders(template.as_str(), start);
    assert(after == start + mark_count(sql_template(expression@, renames@, "??"@, "ILIKE"@, "~"@)));
    let moved: usize = if after <= usize::MAX as i128 {
        after as usize
    } else {
        usize::MAX
    };
    *next = moved;
    assert(moved == advanced(start as int, mark_count(sql_template(expression@, renames@, "??"@, "ILIKE"@, "~"@))));
    Ok((clause, params))
}

/// What `interpret` gives, with `fallback` as the kind of fields without
/// a declared kind where one is given.
pub open spec fn numbered_result(
    t: crate::Tree,
    renames: Map<Seq<char>, String>,
    types: Map<Seq<char>, PostgresType>,
    fallback: Option<PostgresType>,
    index: int,
    r: Result<(String, Vec<PostgresType>), Error>,
) -> bool {
    match first_fault(sql_requests(t), types, fallback) {
        Some(f) => r is Err && r->Err_0@ == f,
        None => r is Ok && r->Ok_0.0@ == numbered(sql_template(t, renames, "??"@, "ILIKE"@, "~"@), index)
            && binds_match(sql_requests(t), types, fallback, r->Ok_0.1@),
    }
}

/// Compiles an expression as `interpret` does, but reads a field that has
/// no declared kind as a string instead of failing.
pub fn interpret_permissive(
    expression: &Expression,
    renames: &PostgresRenames,
    types: &PostgresTypes,
    index: usize,
) -> (r: Result<(String, Vec<PostgresType>), Error>)
    ensures
        numbered_result(
            expression@,
            renames@,
            types@,
            Some(PostgresType::StringLike(None)),
            index as int,
            r,
        ),
{
    let fallback = PostgresType::StringLike(None);
    let (template, params) = compile(expression, renames, types, Some(&fallback), "??", "ILIKE", "~")?;
    Ok((number_placeholders(template.as_str(), index).0, params))
}

} // verus!
