//! Values of outside crates that bound SQL values carry, and the readers
//! that make them from literal text.
use chrono::{Datelike, Timelike};
use vstd::prelude::*;

verus! {

/// An instant, as seconds and nanoseconds since the Unix epoch (UTC).
#[derive(Debug, Clone, Copy, PartialEq, Eq)]
pub struct Timestamp {
    pub seconds: i64,
    pub nanos: u32,
}

/// An instant together with the offset from UTC, in seconds, of the zone
/// it was read in.
#[derive(Debug, Clone, Copy, PartialEq, Eq)]
pub struct ZonedTimestamp {
    pub seconds: i64,
    pub nanos: u32,
    pub offset: i32,
}

/// A calendar date.
#[derive(Debug, Clone, Copy, PartialEq, Eq)]
pub struct Date {
    pub year: i32,
    pub month: u32,
    pub day: u32,
}

/// A time of day.
#[derive(Debug, Clone, Copy, PartialEq, Eq)]
pub struct Time {
    pub hour: u32,
    pub minute: u32,
    pub second: u32,
    pub nano: u32,
}

/// A date and a time of day, with no zone.
#[derive(Debug, Clone, Copy, PartialEq, Eq)]
pub struct DateTime {
    pub date: Date,
    pub time: Time,
}

/// A decimal number: `mantissa` divided by ten to the power `scale`.
#[derive(Debug, Clone, Copy, PartialEq, Eq)]
pub struct Decimal {
    pub mantissa: i128,
    pub scale: u32,
}

/// An IP network: an address and the length of its prefix.
#[derive(Debug, Clone, Copy, PartialEq, Eq)]
pub enum IpNet {
    V4(u32, u8),
    V6(u128, u8),
}

pub open spec fn date_parts(d: Date) -> (int, int, int) {
    (d.year as int, d.month as int, d.day as int)
}

pub open spec fn time_parts(t: Time) -> (int, int, int, int) {
    (t.hour as int, t.minute as int, t.second as int, t.nano as int)
}

pub open spec fn date_time_parts(d: DateTime) -> ((int, int, int), (int, int, int, int)) {
    (date_parts(d.date), time_parts(d.time))
}

pub open spec fn decimal_parts(d: Decimal) -> (int, int) {
    (d.mantissa as int, d.scale as int)
}

/// An IP network as (whether it is IPv6, address, prefix length).
pub open spec fn ip_parts(n: IpNet) -> (bool, int, int) {
    match n {
        IpNet::V4(addr, prefix) => (false, addr as int, prefix as int),
        IpNet::V6(addr, prefix) => (true, addr as int, prefix as int),
    }
}

pub open spec fn instant_parts(t: Timestamp) -> (int, int) {
    (t.seconds as int, t.nanos as int)
}

pub open spec fn zoned_instant_parts(t: ZonedTimestamp) -> (int, int) {
    (t.seconds as int, t.nanos as int)
}

/// Why a literal is not a value of a kind.
#[derive(Debug, Clone, Copy, PartialEq, Eq)]
pub enum Cause {
    /// Not an integer of the kind's range.
    Int,
    /// Not a floating-point number.
    Float,
    /// Neither `true` nor `false`.
    Bool,
    /// Not a date or time that chrono reads.
    Chrono,
    /// Not a decimal number that rust_decimal reads.
    Decimal,
    /// Not a JSON value.
    Json,
    /// Not an IP network.
    IpNetwork,
    /// Not a UUID.
    Uuid,
}

/// The date (year, month, day) that chrono reads in a text, if any.
pub uninterp spec fn naive_date_of(s: Seq<char>) -> Option<(int, int, int)>;

/// The date and time that chrono reads in a text, if any.
pub uninterp spec fn naive_date_time_of(s: Seq<char>) -> Option<((int, int, int), (int, int, int, int))>;

/// The time of day (hour, minute, second, nanosecond) that chrono reads in
/// a text, if any.
pub uninterp spec fn naive_time_of(s: Seq<char>) -> Option<(int, int, int, int)>;

/// The instant (seconds and nanoseconds since the Unix epoch) of a date
/// and time with an offset, as chrono reads it, if it does.
pub uninterp spec fn utc_instant(s: Seq<char>) -> Option<(int, int)>;

/// The decimal (mantissa, scale) that rust_decimal reads in a text, if any.
pub uninterp spec fn decimal_of(s: Seq<char>) -> Option<(int, int)>;

/// The compact text of the JSON value that serde_json reads in a text, if
/// any.
pub uninterp spec fn json_text_of(s: Seq<char>) -> Option<Seq<char>>;

/// The network that ipnetwork reads in a text, if any.
pub uninterp spec fn ip_network_of(s: Seq<char>) -> Option<(bool, int, int)>;

/// The 128 bits of the UUID that uuid reads in a text, if any.
pub uninterp spec fn uuid_of(s: Seq<char>) -> Option<int>;

/// Relies on chrono's `FromStr` for `NaiveDate` and its `Datelike`
/// accessors: the date depends on the text alone.
#[verifier::external_body]
pub(crate) fn read_naive_date(s: &str) -> (r: Option<Date>)
    ensures
        match r {
            Some(d) => naive_date_of(s@) == Some(date_parts(d)),
            None => naive_date_of(s@) is None,
        },
{
    match s.parse::<chrono::NaiveDate>() {
        Ok(d) => Some(Date { year: Datelike::year(&d), month: Datelike::month(&d), day: Datelike::day(&d) }),
        Err(_) => None,
    }
}

/// Relies on chrono's `FromStr` for `NaiveDateTime` and its `Datelike` and
/// `Timelike` accessors: the value depends on the text alone.
#[verifier::external_body]
pub(crate) fn read_naive_date_time(s: &str) -> (r: Option<DateTime>)
    ensures
        match r {
            Some(d) => naive_date_time_of(s@) == Some(date_time_parts(d)),
            None => naive_date_time_of(s@) is None,
        },
{
    match s.parse::<chrono::NaiveDateTime>() {
        Ok(d) => Some(DateTime {
            date: Date { year: Datelike::year(&d), month: Datelike::month(&d), day: Datelike::day(&d) },
            time: Time { hour: Timelike::hour(&d), minute: Timelike::minute(&d), second: Timelike::second(&d), nano: Timelike::nanosecond(&d) },
        }),
        Err(_) => None,
    }
}

/// Relies on chrono's `FromStr` for `NaiveTime` and its `Timelike`
/// accessors: the time depends on the text alone.
#[verifier::external_body]
pub(crate) fn read_naive_time(s: &str) -> (r: Option<Time>)
    ensures
        match r {
            Some(t) => naive_time_of(s@) == Some(time_parts(t)),
            None => naive_time_of(s@) is None,
        },
{
    match s.parse::<chrono::NaiveTime>() {
        Ok(t) => Some(Time { hour: Timelike::hour(&t), minute: Timelike::minute(&t), second: Timelike::second(&t), nano: Timelike::nanosecond(&t) }),
        Err(_) => None,
    }
}

/// Relies on chrono's `FromStr` for `DateTime<Utc>`, `timestamp` and
/// `timestamp_subsec_nanos`: the instant depends on the text alone.
#[verifier::external_body]
pub(crate) fn read_utc_date_time(s: &str) -> (r: Option<Timestamp>)
    ensures
        match r {
            Some(t) => utc_instant(s@) == Some(instant_parts(t)),
            None => utc_instant(s@) is None,
        },
{
    match s.parse::<chrono::DateTime<chrono::Utc>>() {
        Ok(d) => Some(Timestamp { seconds: d.timestamp(), nanos: d.timestamp_subsec_nanos() }),
        Err(_) => None,
    }
}

/// Relies on chrono's `FromStr` for `DateTime<Local>`: like the one for
/// `DateTime<Utc>` it reads the text as a `DateTime<FixedOffset>` and only
/// changes the zone, which keeps the instant. The offset depends on the
/// machine's zone and is left open.
#[verifier::external_body]
pub(crate) fn read_local_date_time(s: &str) -> (r: Option<ZonedTimestamp>)
    ensures
        match r {
            Some(t) => utc_instant(s@) == Some(zoned_instant_parts(t)),
            None => utc_instant(s@) is None,
        },
{
    match s.parse::<chrono::DateTime<chrono::Local>>() {
        Ok(d) => Some(ZonedTimestamp {
            seconds: d.timestamp(),
            nanos: d.timestamp_subsec_nanos(),
            offset: chrono::Offset::fix(d.offset()).local_minus_utc(),
        }),
        Err(_) => None,
    }
}

/// Relies on rust_decimal's `FromStr` for `Decimal`, `mantissa` and
/// `scale`: the value depends on the text alone.
#[verifier::external_body]
pub(crate) fn read_decimal(s: &str) -> (r: Option<Decimal>)
    ensures
        match r {
            Some(d) => decimal_of(s@) == Some(decimal_parts(d)),
            None => decimal_of(s@) is None,
        },
{
    match s.parse::<rust_decimal::Decimal>() {
        Ok(d) => Some(Decimal { mantissa: d.mantissa(), scale: d.scale() }),
        Err(_) => None,
    }
}

/// Relies on serde_json's `FromStr` and `Display` for `Value`: the compact
/// text of the value read depends on the text alone (objects keep their
/// keys sorted).
#[verifier::external_body]
pub(crate) fn read_json(s: &str) -> (r: Option<String>)
    ensures
        match r {
            Some(t) => json_text_of(s@) == Some(t@),
            None => json_text_of(s@) is None,
        },
{
    match s.parse::<serde_json::Value>() {
        Ok(v) => Some(v.to_string()),
        Err(_) => None,
    }
}

/// Relies on ipnetwork's `FromStr` for `IpNetwork`, `ip` and `prefix`: the
/// network depends on the text alone.
#[verifier::external_body]
pub(crate) fn read_ip_network(s: &str) -> (r: Option<IpNet>)
    ensures
        match r {
            Some(n) => ip_network_of(s@) == Some(ip_parts(n)),
            None => ip_network_of(s@) is None,
        },
{
    match s.parse::<ipnetwork::IpNetwork>() {
        Ok(ipnetwork::IpNetwork::V4(n)) => Some(IpNet::V4(u32::from(n.ip()), n.prefix())),
        Ok(ipnetwork::IpNetwork::V6(n)) => Some(IpNet::V6(u128::from(n.ip()), n.prefix())),
        Err(_) => None,
    }
}

/// Relies on uuid's `FromStr` for `Uuid` and `as_u128`: the UUID depends
/// on the text alone.
#[verifier::external_body]
pub(crate) fn read_uuid(s: &str) -> (r: Option<u128>)
    ensures
        match r {
            Some(u) => uuid_of(s@) == Some(u as int),
            None => uuid_of(s@) is None,
        },
{
    match s.parse::<uuid::Uuid>() {
        Ok(u) => Some(u.as_u128()),
        Err(_) => None,
    }
}

} // verus!
