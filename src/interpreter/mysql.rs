//! Compiles an expression into a MySQL `WHERE` clause and its bound values.

use vstd::hash_map::StringHashMap;
use vstd::prelude::*;
use vstd::utf8::encode_utf8;

use crate::literal::{
    float_text,
    int_within,
    is_float_text,
    is_null_word,
    null_word,
    parse_int,
    same_text,
};
use crate::values::{
    Cause,
    Date,
    DateTime,
    Decimal,
    Time,
    Timestamp,
    ZonedTimestamp,
    date_parts,
    date_time_parts,
    decimal_of,
    decimal_parts,
    instant_parts,
    json_text_of,
    naive_date_of,
    naive_date_time_of,
    naive_time_of,
    read_decimal,
    read_json,
    read_local_date_time,
    read_naive_date,
    read_naive_date_time,
    read_naive_time,
    read_utc_date_time,
    time_parts,
    utc_instant,
    zoned_instant_parts,
};
use crate::Expression;

use super::sql::{Renames, Scalar, compile, compiled};
pub use super::sql::Error;

verus! {

/// A MySQL value, or (with no value) a kind of value or SQL `NULL`.
#[derive(Debug, Clone, PartialEq)]
pub enum MysqlType {
    BigInt(Option<i64>),
    BigUnsigned(Option<u64>),
    /// The UTF-8 bytes of the literal.
    Binary(Option<Vec<u8>>),
    Bool(Option<bool>),
    Date(Option<Date>),
    DateTime(Option<DateTime>),
    Decimal(Option<Decimal>),
    /// A double-precision number, as written.
    Double(Option<String>),
    /// A single-precision number, as written.
    Float(Option<String>),
    Int(Option<i32>),
    /// The compact text of a JSON value.
    Json(Option<String>),
    SmallInt(Option<i16>),
    SmallUnsigned(Option<u16>),
    StringLike(Option<String>),
    Time(Option<Time>),
    /// An instant, in UTC.
    TimeStamp(Option<Timestamp>),
    /// An instant, in the local zone.
    TimeTamp(Option<ZonedTimestamp>),
    TinyInt(Option<i8>),
    TinyUnsigned(Option<u8>),
    Unsigned(Option<u32>),
}

/// The kind of a value, with no value.
pub open spec fn mysql_absent(kind: MysqlType) -> MysqlType {
    match kind {
        MysqlType::BigInt(_) => MysqlType::BigInt(None),
        MysqlType::BigUnsigned(_) => MysqlType::BigUnsigned(None),
        MysqlType::Binary(_) => MysqlType::Binary(None),
        MysqlType::Bool(_) => MysqlType::Bool(None),
        MysqlType::Date(_) => MysqlType::Date(None),
        MysqlType::DateTime(_) => MysqlType::DateTime(None),
        MysqlType::Decimal(_) => MysqlType::Decimal(None),
        MysqlType::Double(_) => MysqlType::Double(None),
        MysqlType::Float(_) => MysqlType::Float(None),
        MysqlType::Int(_) => MysqlType::Int(None),
        MysqlType::Json(_) => MysqlType::Json(None),
        MysqlType::SmallInt(_) => MysqlType::SmallInt(None),
        MysqlType::SmallUnsigned(_) => MysqlType::SmallUnsigned(None),
        MysqlType::StringLike(_) => MysqlType::StringLike(None),
        MysqlType::Time(_) => MysqlType::Time(None),
        MysqlType::TimeStamp(_) => MysqlType::TimeStamp(None),
        MysqlType::TimeTamp(_) => MysqlType::TimeTamp(None),
        MysqlType::TinyInt(_) => MysqlType::TinyInt(None),
        MysqlType::TinyUnsigned(_) => MysqlType::TinyUnsigned(None),
        MysqlType::Unsigned(_) => MysqlType::Unsigned(None),
    }
}

/// Whether a literal is a value of a kind: a null word is one of every
/// kind.
pub open spec fn mysql_accepts(kind: MysqlType, s: Seq<char>) -> bool {
    is_null_word(s) || match kind {
        MysqlType::BigInt(_) => int_within(s, true, i64::MIN as int, i64::MAX as int) is Some,
        MysqlType::BigUnsigned(_) => int_within(s, false, 0, u64::MAX as int) is Some,
        MysqlType::Binary(_) => true,
        MysqlType::Bool(_) => s == "true"@ || s == "false"@,
        MysqlType::Date(_) => naive_date_of(s) is Some,
        MysqlType::DateTime(_) => naive_date_time_of(s) is Some,
        MysqlType::Decimal(_) => decimal_of(s) is Some,
        MysqlType::Double(_) => is_float_text(s),
        MysqlType::Float(_) => is_float_text(s),
        MysqlType::Int(_) => int_within(s, true, i32::MIN as int, i32::MAX as int) is Some,
        MysqlType::Json(_) => json_text_of(s) is Some,
        MysqlType::SmallInt(_) => int_within(s, true, i16::MIN as int, i16::MAX as int) is Some,
        MysqlType::SmallUnsigned(_) => int_within(s, false, 0, u16::MAX as int) is Some,
        MysqlType::StringLike(_) => true,
        MysqlType::Time(_) => naive_time_of(s) is Some,
        MysqlType::TimeStamp(_) => utc_instant(s) is Some,
        MysqlType::TimeTamp(_) => utc_instant(s) is Some,
        MysqlType::TinyInt(_) => int_within(s, true, i8::MIN as int, i8::MAX as int) is Some,
        MysqlType::TinyUnsigned(_) => int_within(s, false, 0, u8::MAX as int) is Some,
        MysqlType::Unsigned(_) => int_within(s, false, 0, u32::MAX as int) is Some,
    }
}

/// Whether `v` is the value of a literal in a kind: a null word gives
/// the kind with no value.
pub open spec fn mysql_holds(kind: MysqlType, s: Seq<char>, v: MysqlType) -> bool {
    if is_null_word(s) {
        v == mysql_absent(kind)
    } else {
        match kind {
            MysqlType::BigInt(_) => v == MysqlType::BigInt(Some(int_within(s, true, i64::MIN as int, i64::MAX as int)->Some_0 as i64)),
            MysqlType::BigUnsigned(_) => v == MysqlType::BigUnsigned(Some(int_within(s, false, 0, u64::MAX as int)->Some_0 as u64)),
            MysqlType::Binary(_) => v is Binary && v->Binary_0 is Some && v->Binary_0->Some_0@ == encode_utf8(s),
            MysqlType::Bool(_) => v == MysqlType::Bool(Some(s == "true"@)),
            MysqlType::Date(_) => v is Date && v->Date_0 is Some && naive_date_of(s) == Some(date_parts(v->Date_0->Some_0)),
            MysqlType::DateTime(_) => v is DateTime && v->DateTime_0 is Some && naive_date_time_of(s) == Some(date_time_parts(v->DateTime_0->Some_0)),
            MysqlType::Decimal(_) => v is Decimal && v->Decimal_0 is Some && decimal_of(s) == Some(decimal_parts(v->Decimal_0->Some_0)),
            MysqlType::Double(_) => v is Double && v->Double_0 is Some && v->Double_0->Some_0@ == s,
            MysqlType::Float(_) => v is Float && v->Float_0 is Some && v->Float_0->Some_0@ == s,
            MysqlType::Int(_) => v == MysqlType::Int(Some(int_within(s, true, i32::MIN as int, i32::MAX as int)->Some_0 as i32)),
            MysqlType::Json(_) => v is Json && v->Json_0 is Some && json_text_of(s) == Some(v->Json_0->Some_0@),
            MysqlType::SmallInt(_) => v == MysqlType::SmallInt(Some(int_within(s, true, i16::MIN as int, i16::MAX as int)->Some_0 as i16)),
            MysqlType::SmallUnsigned(_) => v == MysqlType::SmallUnsigned(Some(int_within(s, false, 0, u16::MAX as int)->Some_0 as u16)),
            MysqlType::StringLike(_) => v is StringLike && v->StringLike_0 is Some && v->StringLike_0->Some_0@ == s,
            MysqlType::Time(_) => v is Time && v->Time_0 is Some && naive_time_of(s) == Some(time_parts(v->Time_0->Some_0)),
            MysqlType::TimeStamp(_) => v is TimeStamp && v->TimeStamp_0 is Some && utc_instant(s) == Some(instant_parts(v->TimeStamp_0->Some_0)),
            MysqlType::TimeTamp(_) => v is TimeTamp && v->TimeTamp_0 is Some && utc_instant(s) == Some(zoned_instant_parts(v->TimeTamp_0->Some_0)),
            MysqlType::TinyInt(_) => v == MysqlType::TinyInt(Some(int_within(s, true, i8::MIN as int, i8::MAX as int)->Some_0 as i8)),
            MysqlType::TinyUnsigned(_) => v == MysqlType::TinyUnsigned(Some(int_within(s, false, 0, u8::MAX as int)->Some_0 as u8)),
            MysqlType::Unsigned(_) => v == MysqlType::Unsigned(Some(int_within(s, false, 0, u32::MAX as int)->Some_0 as u32)),
        }
    }
}

/// Why a literal is no value of a kind.
pub open spec fn mysql_cause(kind: MysqlType) -> Cause {
    match kind {
        MysqlType::BigInt(_) => Cause::Int,
        MysqlType::BigUnsigned(_) => Cause::Int,
        MysqlType::Binary(_) => Cause::Int,
        MysqlType::Bool(_) => Cause::Bool,
        MysqlType::Date(_) => Cause::Chrono,
        MysqlType::DateTime(_) => Cause::Chrono,
        MysqlType::Decimal(_) => Cause::Decimal,
        MysqlType::Double(_) => Cause::Float,
        MysqlType::Float(_) => Cause::Float,
        MysqlType::Int(_) => Cause::Int,
        MysqlType::Json(_) => Cause::Json,
        MysqlType::SmallInt(_) => Cause::Int,
        MysqlType::SmallUnsigned(_) => Cause::Int,
        MysqlType::StringLike(_) => Cause::Int,
        MysqlType::Time(_) => Cause::Chrono,
        MysqlType::TimeStamp(_) => Cause::Chrono,
        MysqlType::TimeTamp(_) => Cause::Chrono,
        MysqlType::TinyInt(_) => Cause::Int,
        MysqlType::TinyUnsigned(_) => Cause::Int,
        MysqlType::Unsigned(_) => Cause::Int,
    }
}

/// The name of a kind.
pub open spec fn mysql_kind_name(kind: MysqlType) -> Seq<char> {
    match kind {
        MysqlType::BigInt(_) => "BigInt"@,
        MysqlType::BigUnsigned(_) => "BigUnsigned"@,
        MysqlType::Binary(_) => "Binary"@,
        MysqlType::Bool(_) => "Bool"@,
        MysqlType::Date(_) => "Date"@,
        MysqlType::DateTime(_) => "DateTime"@,
        MysqlType::Decimal(_) => "Decimal"@,
        MysqlType::Double(_) => "Double"@,
        MysqlType::Float(_) => "Float"@,
        MysqlType::Int(_) => "Int"@,
        MysqlType::Json(_) => "Json"@,
        MysqlType::SmallInt(_) => "SmallInt"@,
        MysqlType::SmallUnsigned(_) => "SmallUnsigned"@,
        MysqlType::StringLike(_) => "StringLike"@,
        MysqlType::Time(_) => "Time"@,
        MysqlType::TimeStamp(_) => "TimeStamp"@,
        MysqlType::TimeTamp(_) => "TimeTamp"@,
        MysqlType::TinyInt(_) => "TinyInt"@,
        MysqlType::TinyUnsigned(_) => "TinyUnsigned"@,
        MysqlType::Unsigned(_) => "Unsigned"@,
    }
}

impl MysqlType {
    /// This kind with no value.
    pub fn absent(&self) -> (r: MysqlType)
        ensures
            r == mysql_absent(*self),
    {
        match self {
            MysqlType::BigInt(_) => MysqlType::BigInt(None),
            MysqlType::BigUnsigned(_) => MysqlType::BigUnsigned(None),
            MysqlType::Binary(_) => MysqlType::Binary(None),
            MysqlType::Bool(_) => MysqlType::Bool(None),
            MysqlType::Date(_) => MysqlType::Date(None),
            MysqlType::DateTime(_) => MysqlType::DateTime(None),
            MysqlType::Decimal(_) => MysqlType::Decimal(None),
            MysqlType::Double(_) => MysqlType::Double(None),
            MysqlType::Float(_) => MysqlType::Float(None),
            MysqlType::Int(_) => MysqlType::Int(None),
            MysqlType::Json(_) => MysqlType::Json(None),
            MysqlType::SmallInt(_) => MysqlType::SmallInt(None),
            MysqlType::SmallUnsigned(_) => MysqlType::SmallUnsigned(None),
            MysqlType::StringLike(_) => MysqlType::StringLike(None),
            MysqlType::Time(_) => MysqlType::Time(None),
            MysqlType::TimeStamp(_) => MysqlType::TimeStamp(None),
            MysqlType::TimeTamp(_) => MysqlType::TimeTamp(None),
            MysqlType::TinyInt(_) => MysqlType::TinyInt(None),
            MysqlType::TinyUnsigned(_) => MysqlType::TinyUnsigned(None),
            MysqlType::Unsigned(_) => MysqlType::Unsigned(None),
        }
    }

    /// The name of this kind.
    pub fn name(&self) -> (r: String)
        ensures
            r@ == mysql_kind_name(*self),
    {
        match self {
            MysqlType::BigInt(_) => String::from_str("BigInt"),
            MysqlType::BigUnsigned(_) => String::from_str("BigUnsigned"),
            MysqlType::Binary(_) => String::from_str("Binary"),
            MysqlType::Bool(_) => String::from_str("Bool"),
            MysqlType::Date(_) => String::from_str("Date"),
            MysqlType::DateTime(_) => String::from_str("DateTime"),
            MysqlType::Decimal(_) => String::from_str("Decimal"),
            MysqlType::Double(_) => String::from_str("Double"),
            MysqlType::Float(_) => String::from_str("Float"),
            MysqlType::Int(_) => String::from_str("Int"),
            MysqlType::Json(_) => String::from_str("Json"),
            MysqlType::SmallInt(_) => String::from_str("SmallInt"),
            MysqlType::SmallUnsigned(_) => String::from_str("SmallUnsigned"),
            MysqlType::StringLike(_) => String::from_str("StringLike"),
            MysqlType::Time(_) => String::from_str("Time"),
            MysqlType::TimeStamp(_) => String::from_str("TimeStamp"),
            MysqlType::TimeTamp(_) => String::from_str("TimeTamp"),
            MysqlType::TinyInt(_) => String::from_str("TinyInt"),
            MysqlType::TinyUnsigned(_) => String::from_str("TinyUnsigned"),
            MysqlType::Unsigned(_) => String::from_str("Unsigned"),
        }
    }

    /// Coerces a literal into this kind; a null word gives the kind with no
    /// value.
    pub fn replace_and_return(&self, s: &str) -> (r: Result<MysqlType, Cause>)
        ensures
            match r {
                Ok(v) => mysql_accepts(*self, s@) && mysql_holds(*self, s@, v),
                Err(c) => !mysql_accepts(*self, s@) && c == mysql_cause(*self),
            },
    {
        if null_word(s) {
            return Ok(self.absent());
        }
        match self {
            MysqlType::BigInt(_) => match parse_int(s, true, i64::MIN as i128, i64::MAX as i128) {
                Some(n) => Ok(MysqlType::BigInt(Some(n as i64))),
                None => Err(Cause::Int),
            },
            MysqlType::BigUnsigned(_) => match parse_int(s, false, 0, u64::MAX as i128) {
                Some(n) => Ok(MysqlType::BigUnsigned(Some(n as u64))),
                None => Err(Cause::Int),
            },
            MysqlType::Binary(_) => Ok(MysqlType::Binary(Some(s.as_bytes_vec()))),
            MysqlType::Bool(_) => if same_text(s, "true") {
                Ok(MysqlType::Bool(Some(true)))
            } else if same_text(s, "false") {
                Ok(MysqlType::Bool(Some(false)))
            } else {
                Err(Cause::Bool)
            },
            MysqlType::Date(_) => match read_naive_date(s) {
                Some(x) => Ok(MysqlType::Date(Some(x))),
                None => Err(Cause::Chrono),
            },
            MysqlType::DateTime(_) => match read_naive_date_time(s) {
                Some(x) => Ok(MysqlType::DateTime(Some(x))),
                None => Err(Cause::Chrono),
            },
            MysqlType::Decimal(_) => match read_decimal(s) {
                Some(x) => Ok(MysqlType::Decimal(Some(x))),
                None => Err(Cause::Decimal),
            },
            MysqlType::Double(_) => if float_text(s) {
                Ok(MysqlType::Double(Some(String::from_str(s))))
            } else {
                Err(Cause::Float)
            },
            MysqlType::Float(_) => if float_text(s) {
                Ok(MysqlType::Float(Some(String::from_str(s))))
            } else {
                Err(Cause::Float)
            },
            MysqlType::Int(_) => match parse_int(s, true, i32::MIN as i128, i32::MAX as i128) {
                Some(n) => Ok(MysqlType::Int(Some(n as i32))),
                None => Err(Cause::Int),
            },
            MysqlType::Json(_) => match read_json(s) {
                Some(x) => Ok(MysqlType::Json(Some(x))),
                None => Err(Cause::Json),
            },
            MysqlType::SmallInt(_) => match parse_int(s, true, i16::MIN as i128, i16::MAX as i128) {
                Some(n) => Ok(MysqlType::SmallInt(Some(n as i16))),
                None => Err(Cause::Int),
            },
            MysqlType::SmallUnsigned(_) => match parse_int(s, false, 0, u16::MAX as i128) {
                Some(n) => Ok(MysqlType::SmallUnsigned(Some(n as u16))),
                None => Err(Cause::Int),
            },
            MysqlType::StringLike(_) => Ok(MysqlType::StringLike(Some(String::from_str(s)))),
            MysqlType::Time(_) => match read_naive_time(s) {
                Some(x) => Ok(MysqlType::Time(Some(x))),
                None => Err(Cause::Chrono),
            },
            MysqlType::TimeStamp(_) => match read_utc_date_time(s) {
                Some(x) => Ok(MysqlType::TimeStamp(Some(x))),
                None => Err(Cause::Chrono),
            },
            MysqlType::TimeTamp(_) => match read_local_date_time(s) {
                Some(x) => Ok(MysqlType::TimeTamp(Some(x))),
                None => Err(Cause::Chrono),
            },
            MysqlType::TinyInt(_) => match parse_int(s, true, i8::MIN as i128, i8::MAX as i128) {
                Some(n) => Ok(MysqlType::TinyInt(Some(n as i8))),
                None => Err(Cause::Int),
            },
            MysqlType::TinyUnsigned(_) => match parse_int(s, false, 0, u8::MAX as i128) {
                Some(n) => Ok(MysqlType::TinyUnsigned(Some(n as u8))),
                None => Err(Cause::Int),
            },
            MysqlType::Unsigned(_) => match parse_int(s, false, 0, u32::MAX as i128) {
                Some(n) => Ok(MysqlType::Unsigned(Some(n as u32))),
                None => Err(Cause::Int),
            },
        }
    }
}

impl Scalar for MysqlType {
    open spec fn accepts(&self, s: Seq<char>) -> bool {
        mysql_accepts(*self, s)
    }

    open spec fn holds(&self, s: Seq<char>, v: Self) -> bool {
        mysql_holds(*self, s, v)
    }

    open spec fn kind_name(&self) -> Seq<char> {
        mysql_kind_name(*self)
    }

    fn coerce(&self, s: &str) -> (r: Result<Self, Cause>) {
        self.replace_and_return(s)
    }

    fn kind(&self) -> (r: String) {
        self.name()
    }
}

/// A field's physical name, by logical field name.
pub type MysqlRenames = Renames;

/// The kind of each field, by logical field name.
pub type MysqlTypes = StringHashMap<MysqlType>;

/// Compiles an expression into a MySQL clause with `?` placeholders, and
/// the values to bind to them in order.
pub fn interpret_expression(
    expression: &Expression,
    renames: &MysqlRenames,
    types: &MysqlTypes,
) -> (r: Result<(String, Vec<MysqlType>), Error>)
    ensures
        compiled(expression@, renames@, types@, None, "?"@, "LIKE"@, "REGEXP"@, r),
{
    compile(expression, renames, types, None, "?", "LIKE", "REGEXP")
}

/// Compiles an expression into a MySQL clause and its values.
pub fn interpret(expression: &Expression, renames: &MysqlRenames, types: &MysqlTypes) -> (r:
    Result<(String, Vec<MysqlType>), Error>)
    ensures
        compiled(expression@, renames@, types@, None, "?"@, "LIKE"@, "REGEXP"@, r),
{
    interpret_expression(expression, renames, types)
}

/// Compiles an expression as `interpret` does, but reads a field that has
/// no declared kind as a string instead of failing.
pub fn interpret_permissive(
    expression: &Expression,
    renames: &MysqlRenames,
    types: &MysqlTypes,
) -> (r: Result<(String, Vec<MysqlType>), Error>)
    ensures
        compiled(expression@, renames@, types@, Some(MysqlType::StringLike(None)), "?"@, "LIKE"@, "REGEXP"@, r),
{
    let fallback = MysqlType::StringLike(None);
    compile(expression, renames, types, Some(&fallback), "?", "LIKE", "REGEXP")
}

} // verus!
