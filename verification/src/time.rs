//! Instants and the household's history timezone, read and written through
//! `chrono` and `chrono-tz`.

use ::chrono::Datelike;
use vstd::prelude::*;

use crate::calendar::{ordinal_of, valid_ymd, CalendarDate};
use crate::error::{is_validation_of, AppError};

verus! {

/// Milliseconds since the Unix epoch of an RFC 3339 text, as
/// `chrono::DateTime::parse_from_rfc3339` reads it, or `None` when it is
/// rejected.
pub uninterp spec fn rfc3339_millis(text: Seq<char>) -> Option<i64>;

/// The RFC 3339 text, in UTC with millisecond precision, that `chrono`
/// prints for an instant (empty for an instant `chrono` cannot represent).
pub uninterp spec fn rfc3339_text(millis: i64) -> Seq<char>;

/// The first millisecond of the year 0000 in UTC.
pub const FIRST_FOUR_DIGIT_MILLIS: i64 = -62_167_219_200_000;
/// The last millisecond of the year 9999 in UTC.
pub const LAST_FOUR_DIGIT_MILLIS: i64 = 253_402_300_799_999;

/// An instant whose UTC year has four digits (0000 to 9999).
pub open spec fn in_four_digit_years(millis: i64) -> bool {
    FIRST_FOUR_DIGIT_MILLIS <= millis <= LAST_FOUR_DIGIT_MILLIS
}

/// Whether `chrono-tz` knows the IANA zone name.
pub uninterp spec fn zone_exists(name: Seq<char>) -> bool;

/// The civil (year, month, day) of an instant in an IANA zone, per `chrono-tz`
/// ((0, 0, 0) for an instant `chrono` cannot represent).
pub uninterp spec fn zone_local_ymd(name: Seq<char>, millis: i64) -> (i32, i32, i32);

/// The reading of an optional instant text: `Some(None)` when absent,
/// `Some(Some(t))` when it parses, `None` when it does not.
pub open spec fn optional_instant(text: Option<String>) -> Option<Option<Timestamp>> {
    match text {
        None => Some(None),
        Some(t) => match rfc3339_millis(t@) {
            Some(ms) => Some(Some(Timestamp { unix_millis: ms })),
            None => None,
        },
    }
}

/// An instant, to the millisecond.
#[derive(Debug, Clone, Copy, PartialEq, Eq, PartialOrd, Ord, Hash, Structural)]
pub struct Timestamp {
    pub unix_millis: i64,
}

/// `chrono::DateTime::parse_from_rfc3339(text)` as milliseconds since the epoch.
#[verifier::external_body]
fn parse_rfc3339_millis(text: &str) -> (millis: Option<i64>)
    ensures
        millis == rfc3339_millis(text@),
{
    ::chrono::DateTime::parse_from_rfc3339(text).ok().map(|value| value.timestamp_millis())
}

/// `chrono::Utc::now()` as milliseconds since the epoch; nothing is stated of
/// the clock's value.
#[verifier::external_body]
fn current_millis() -> (millis: i64) {
    ::chrono::Utc::now().timestamp_millis()
}

/// `chrono` prints the instant as RFC 3339 in UTC with milliseconds and a `Z`;
/// an instant outside `chrono`'s range prints as the empty text. For years
/// 0000 to 9999 the year is written with four digits, which
/// `DateTime::parse_from_rfc3339` reads back to the same millisecond.
#[verifier::external_body]
fn format_rfc3339_millis(millis: i64) -> (text: String)
    ensures
        text@ == rfc3339_text(millis),
        in_four_digit_years(millis) ==> rfc3339_millis(text@) == Some(millis),
{
    match ::chrono::DateTime::from_timestamp_millis(millis) {
        Some(value) => value.to_rfc3339_opts(::chrono::SecondsFormat::Millis, true),
        None => String::new(),
    }
}

/// `name.parse::<chrono_tz::Tz>().is_ok()`.
#[verifier::external_body]
fn zone_is_known(name: &str) -> (known: bool)
    ensures
        known == zone_exists(name@),
{
    name.parse::<::chrono_tz::Tz>().is_ok()
}

/// The local calendar date of an instant in a zone, by `chrono-tz`.
/// `DateTime::date_naive` panics when the local time leaves `chrono`'s
/// range; for instants of the years 0000 to 9999 in UTC, no zone offset
/// reaches its bounds, which `requires` asks.
#[verifier::external_body]
fn local_ymd(name: &str, millis: i64) -> (ymd: (i32, i32, i32))
    requires
        zone_exists(name@),
        in_four_digit_years(millis),
    ensures
        ymd == zone_local_ymd(name@, millis),
{
    let zone: ::chrono_tz::Tz = name.parse().unwrap_or(::chrono_tz::UTC);
    match ::chrono::DateTime::from_timestamp_millis(millis) {
        Some(value) => {
            let date = value.with_timezone(&zone).date_naive();
            (date.year(), date.month() as i32, date.day() as i32)
        },
        None => (0, 0, 0),
    }
}

impl Timestamp {
    /// Parses an RFC 3339 instant.
    pub fn parse(text: &str) -> (result: Result<Timestamp, AppError>)
        ensures
            match result {
                Ok(t) => rfc3339_millis(text@) == Some(t.unix_millis),
                Err(e) => rfc3339_millis(text@) is None && is_validation_of(e, "timestamp"@),
            },
    {
        match parse_rfc3339_millis(text) {
            Some(unix_millis) => Ok(Timestamp { unix_millis }),
            None => Err(AppError::validation("timestamp", "The timestamp must be an RFC 3339 instant.")),
        }
    }

    /// Parses an optional RFC 3339 instant; absent stays absent.
    pub fn parse_optional(text: &Option<String>) -> (result: Result<Option<Timestamp>, AppError>)
        ensures
            match result {
                Ok(t) => optional_instant(*text) == Some(t),
                Err(e) => optional_instant(*text) is None && is_validation_of(e, "timestamp"@),
            },
    {
        match text {
            Some(value) => match Timestamp::parse(value.as_str()) {
                Ok(t) => Ok(Some(t)),
                Err(e) => Err(e),
            },
            None => Ok(None),
        }
    }

    /// The current instant.
    pub fn now() -> (now: Timestamp) {
        Timestamp { unix_millis: current_millis() }
    }

    /// RFC 3339 text in UTC with milliseconds.
    pub fn to_rfc3339(&self) -> (text: String)
        ensures
            text@ == rfc3339_text(self.unix_millis),
            in_four_digit_years(self.unix_millis) ==> rfc3339_millis(text@) == Some(self.unix_millis),
    {
        format_rfc3339_millis(self.unix_millis)
    }

    /// Not later than `other`.
    pub fn not_after(&self, other: &Timestamp) -> (r: bool)
        ensures
            r == (self.unix_millis <= other.unix_millis),
    {
        self.unix_millis <= other.unix_millis
    }
}

/// The IANA zone in which the household's calendar days are counted.
#[derive(Debug)]
pub struct HistoryTimezone {
    name: String,
}

impl HistoryTimezone {
    #[verifier::type_invariant]
    spec fn known(self) -> bool {
        zone_exists(self.name@)
    }

    /// The zone's name.
    pub closed spec fn zone_name(&self) -> Seq<char> {
        self.name@
    }

    /// A zone that `chrono-tz` knows.
    pub fn parse(name: &str) -> (result: Result<HistoryTimezone, AppError>)
        ensures
            match result {
                Ok(zone) => zone_exists(name@) && zone.zone_name() == name@,
                Err(e) => !zone_exists(name@) && is_validation_of(e, "timezone"@),
            },
    {
        if zone_is_known(name) {
            Ok(HistoryTimezone { name: String::from_str(name) })
        } else {
            Err(AppError::validation("timezone", "The timezone is not a known IANA zone."))
        }
    }

    /// The calendar date of an instant in this zone; an internal error when
    /// the instant's UTC year has not four digits or the date lies outside
    /// the representable years.
    pub fn local_date(&self, instant: &Timestamp) -> (date: Result<CalendarDate, AppError>)
        ensures
            ({
                let ymd = zone_local_ymd(self.zone_name(), instant.unix_millis);
                match date {
                    Ok(d) => in_four_digit_years(instant.unix_millis) && valid_ymd(ymd.0 as int, ymd.1 as int, ymd.2 as int)
                        && d.ordinal() == ordinal_of(ymd.0 as int, ymd.1 as int, ymd.2 as int),
                    Err(e) => !(in_four_digit_years(instant.unix_millis) && valid_ymd(ymd.0 as int, ymd.1 as int, ymd.2 as int))
                        && e is Internal,
                }
            }),
    {
        proof {
            use_type_invariant(self);
        }
        if instant.unix_millis < FIRST_FOUR_DIGIT_MILLIS || instant.unix_millis > LAST_FOUR_DIGIT_MILLIS {
            return Err(AppError::Internal);
        }
        let (year, month, day) = local_ymd(self.name.as_str(), instant.unix_millis);
        match CalendarDate::from_ymd(year, month, day) {
            Some(date) => Ok(date),
            None => Err(AppError::Internal),
        }
    }
}

} // verus!
