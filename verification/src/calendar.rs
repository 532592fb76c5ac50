//! Proleptic Gregorian calendar dates between 0001-01-01 and 9999-12-31.
//!
//! A date is held as its day number counted from 0001-01-01, so that order,
//! successor and day arithmetic are plain integer facts; the civil
//! year-month-day form is computed when a date is read or written.

use vstd::prelude::*;

use crate::error::{is_validation_of, AppError};
use crate::text::{char_digit_value, char_is_digit, digit_char, digit_to_char, digit_value, is_digit, push_char};

verus! {

pub open spec fn is_leap(y: int) -> bool {
    y % 4 == 0 && (y % 100 != 0 || y % 400 == 0)
}

pub open spec fn days_in_month(y: int, m: int) -> int {
    if m == 2 {
        if is_leap(y) { 29 } else { 28 }
    } else if m == 4 || m == 6 || m == 9 || m == 11 {
        30
    } else {
        31
    }
}

pub open spec fn days_before_month(y: int, m: int) -> int {
    let base: int = if m <= 1 { 0 }
        else if m == 2 { 31 }
        else if m == 3 { 59 }
        else if m == 4 { 90 }
        else if m == 5 { 120 }
        else if m == 6 { 151 }
        else if m == 7 { 181 }
        else if m == 8 { 212 }
        else if m == 9 { 243 }
        else if m == 10 { 273 }
        else if m == 11 { 304 }
        else { 334 };
    if m > 2 && is_leap(y) { base + 1 } else { base }
}

pub open spec fn days_before_year(y: int) -> int {
    let p = y - 1;
    365 * p + p / 4 - p / 100 + p / 400
}

/// Day number of a civil date, counted from 0001-01-01 (day 0).
pub open spec fn ordinal_of(y: int, m: int, d: int) -> int {
    days_before_year(y) + days_before_month(y, m) + d - 1
}

pub open spec fn valid_ymd(y: int, m: int, d: int) -> bool {
    1 <= y <= 9999 && 1 <= m <= 12 && 1 <= d <= days_in_month(y, m)
}

/// Day number of 9999-12-31.
pub open spec fn max_ordinal() -> int {
    3652058
}

/// The civil date of a day number.
pub open spec fn civil(o: int) -> (int, int, int) {
    choose|t: (int, int, int)| valid_ymd(t.0, t.1, t.2) && ordinal_of(t.0, t.1, t.2) == o
}

/// `YYYY-MM-DD` with zero padding.
pub open spec fn ymd_text(y: int, m: int, d: int) -> Seq<char> {
    seq![
        digit_char(y / 1000), digit_char((y / 100) % 10), digit_char((y / 10) % 10), digit_char(y % 10),
        '-', digit_char(m / 10), digit_char(m % 10),
        '-', digit_char(d / 10), digit_char(d % 10),
    ]
}

/// The civil date a `YYYY-MM-DD` text names, when it names a valid one.
pub open spec fn parse_ymd_spec(s: Seq<char>) -> Option<(int, int, int)> {
    if s.len() == 10 && is_digit(s[0]) && is_digit(s[1]) && is_digit(s[2]) && is_digit(s[3])
        && s[4] == '-' && is_digit(s[5]) && is_digit(s[6]) && s[7] == '-' && is_digit(s[8])
        && is_digit(s[9]) {
        let y = 1000 * digit_value(s[0]) + 100 * digit_value(s[1]) + 10 * digit_value(s[2])
            + digit_value(s[3]);
        let m = 10 * digit_value(s[5]) + digit_value(s[6]);
        let d = 10 * digit_value(s[8]) + digit_value(s[9]);
        if valid_ymd(y, m, d) { Some((y, m, d)) } else { None }
    } else {
        None
    }
}

/// The day number a `YYYY-MM-DD` text names, when it names a valid date.
pub open spec fn date_ordinal(s: Seq<char>) -> Option<int> {
    match parse_ymd_spec(s) {
        Some(t) => Some(ordinal_of(t.0, t.1, t.2)),
        None => None,
    }
}

pub proof fn lemma_year_step(y: int)
    requires
        1 <= y,
    ensures
        days_before_year(y + 1) == days_before_year(y) + if is_leap(y) { 366int } else { 365int },
{
}

proof fn lemma_date_within_year(y: int, m: int, d: int)
    requires
        valid_ymd(y, m, d),
    ensures
        days_before_year(y) <= ordinal_of(y, m, d) < days_before_year(y + 1),
{
    lemma_year_step(y);
}

proof fn lemma_year_monotone(a: int, b: int)
    requires
        1 <= a < b,
    ensures
        days_before_year(a + 1) <= days_before_year(b),
    decreases b - a,
{
    if a + 1 < b {
        lemma_year_monotone(a, b - 1);
        lemma_year_step(b - 1);
    }
}

proof fn lemma_month_order(y: int, m1: int, m2: int)
    requires
        1 <= m1 < m2 <= 12,
    ensures
        days_before_month(y, m1) + days_in_month(y, m1) <= days_before_month(y, m2),
{
}

/// Distinct valid civil dates have distinct day numbers.
pub proof fn lemma_ymd_unique(y1: int, m1: int, d1: int, y2: int, m2: int, d2: int)
    requires
        valid_ymd(y1, m1, d1),
        valid_ymd(y2, m2, d2),
        ordinal_of(y1, m1, d1) == ordinal_of(y2, m2, d2),
    ensures
        y1 == y2 && m1 == m2 && d1 == d2,
{
    lemma_date_within_year(y1, m1, d1);
    lemma_date_within_year(y2, m2, d2);
    if y1 < y2 {
        lemma_year_monotone(y1, y2);
    } else if y2 < y1 {
        lemma_year_monotone(y2, y1);
    }
    if m1 < m2 {
        lemma_month_order(y1, m1, m2);
    } else if m2 < m1 {
        lemma_month_order(y1, m2, m1);
    }
}

/// The civil date of the day number of a valid date is that date.
pub proof fn lemma_civil_of_ordinal(y: int, m: int, d: int)
    requires
        valid_ymd(y, m, d),
    ensures
        civil(ordinal_of(y, m, d)) == (y, m, d),
{
    let o = ordinal_of(y, m, d);
    assert(valid_ymd((y, m, d).0, (y, m, d).1, (y, m, d).2) && ordinal_of((y, m, d).0, (y, m, d).1, (y, m, d).2) == o);
    let t = civil(o);
    lemma_ymd_unique(t.0, t.1, t.2, y, m, d);
}

proof fn lemma_digit_round_trip(n: int)
    requires
        0 <= n <= 9,
    ensures
        is_digit(digit_char(n)),
        digit_value(digit_char(n)) == n,
{
}

/// Reading back the text of a valid date gives that date.
pub proof fn law_text_round_trip(y: int, m: int, d: int)
    requires
        valid_ymd(y, m, d),
    ensures
        parse_ymd_spec(ymd_text(y, m, d)) == Some((y, m, d)),
{
    lemma_split_four(y);
    lemma_split_two(m);
    lemma_split_two(d);
    lemma_digit_round_trip(y / 1000);
    lemma_digit_round_trip((y / 100) % 10);
    lemma_digit_round_trip((y / 10) % 10);
    lemma_digit_round_trip(y % 10);
    lemma_digit_round_trip(m / 10);
    lemma_digit_round_trip(m % 10);
    lemma_digit_round_trip(d / 10);
    lemma_digit_round_trip(d % 10);
}

proof fn lemma_split_four(y: int) by (nonlinear_arith)
    requires
        0 <= y <= 9999,
    ensures
        0 <= y / 1000 <= 9,
        0 <= (y / 100) % 10 <= 9,
        0 <= (y / 10) % 10 <= 9,
        0 <= y % 10 <= 9,
        1000 * (y / 1000) + 100 * ((y / 100) % 10) + 10 * ((y / 10) % 10) + y % 10 == y,
{
}

proof fn lemma_split_two(m: int) by (nonlinear_arith)
    requires
        0 <= m <= 99,
    ensures
        0 <= m / 10 <= 9,
        0 <= m % 10 <= 9,
        10 * (m / 10) + m % 10 == m,
{
}

/// A calendar date.
#[derive(Debug, Clone, Copy, PartialEq, Eq, PartialOrd, Ord, Hash, Structural)]
pub struct CalendarDate {
    day_number: i32,
}

impl CalendarDate {
    #[verifier::type_invariant]
    spec fn in_range(self) -> bool {
        0 <= self.day_number <= max_ordinal()
    }

    /// Day number counted from 0001-01-01.
    pub closed spec fn ordinal(self) -> int {
        if self.day_number < 0 {
            0
        } else if self.day_number > max_ordinal() {
            max_ordinal()
        } else {
            self.day_number as int
        }
    }

    /// Every date lies between the first and the last representable day.
    pub broadcast proof fn lemma_ordinal_bounds(date: CalendarDate)
        ensures
            0 <= #[trigger] date.ordinal() <= max_ordinal(),
    {
    }

    /// The earliest representable date.
    pub fn first_day() -> (date: CalendarDate)
        ensures
            date.ordinal() == 0,
    {
        CalendarDate { day_number: 0 }
    }

    /// The latest representable date.
    pub fn last_day() -> (date: CalendarDate)
        ensures
            date.ordinal() == max_ordinal(),
    {
        CalendarDate { day_number: 3652058 }
    }

    /// Builds a date from its civil parts, when they name a valid date.
    pub fn from_ymd(year: i32, month: i32, day: i32) -> (date: Option<CalendarDate>)
        ensures
            date is Some <==> valid_ymd(year as int, month as int, day as int),
            date matches Some(d) ==> d.ordinal() == ordinal_of(year as int, month as int, day as int),
    {
        if year < 1 || year > 9999 || month < 1 || month > 12 || day < 1 || day > month_length(year, month) {
            return None;
        }
        let number = days_before_year_exec(year) + days_before_month_exec(year, month) + day - 1;
        proof {
            lemma_date_within_year(year as int, month as int, day as int);
            lemma_year_monotone(year as int, 10000);
        }
        Some(CalendarDate { day_number: number })
    }

    /// Parses a `YYYY-MM-DD` date.
    pub fn parse(text: &str) -> (result: Result<CalendarDate, AppError>)
        ensures
            match result {
                Ok(date) => parse_ymd_spec(text@) matches Some(t) && date.ordinal() == ordinal_of(t.0, t.1, t.2),
                Err(e) => parse_ymd_spec(text@) is None && is_validation_of(e, "date"@),
            },
    {
        let length = text.unicode_len();
        if length != 10 {
            return Err(invalid_date());
        }
        let c0 = text.get_char(0);
        let c1 = text.get_char(1);
        let c2 = text.get_char(2);
        let c3 = text.get_char(3);
        let c4 = text.get_char(4);
        let c5 = text.get_char(5);
        let c6 = text.get_char(6);
        let c7 = text.get_char(7);
        let c8 = text.get_char(8);
        let c9 = text.get_char(9);
        if !(char_is_digit(c0) && char_is_digit(c1) && char_is_digit(c2) && char_is_digit(c3)
            && c4 == '-' && char_is_digit(c5) && char_is_digit(c6) && c7 == '-'
            && char_is_digit(c8) && char_is_digit(c9)) {
            return Err(invalid_date());
        }
        let year = (1000 * char_digit_value(c0) + 100 * char_digit_value(c1) + 10 * char_digit_value(c2)
            + char_digit_value(c3)) as i32;
        let month = (10 * char_digit_value(c5) + char_digit_value(c6)) as i32;
        let day = (10 * char_digit_value(c8) + char_digit_value(c9)) as i32;
        match CalendarDate::from_ymd(year, month, day) {
            Some(date) => Ok(date),
            None => Err(invalid_date()),
        }
    }

    /// The `YYYY-MM-DD` text of this date.
    pub fn to_ymd(&self) -> (text: String)
        ensures
            text@ == ymd_text(civil(self.ordinal()).0, civil(self.ordinal()).1, civil(self.ordinal()).2),
            valid_ymd(civil(self.ordinal()).0, civil(self.ordinal()).1, civil(self.ordinal()).2),
            ordinal_of(civil(self.ordinal()).0, civil(self.ordinal()).1, civil(self.ordinal()).2) == self.ordinal(),
    {
        proof {
            use_type_invariant(self);
        }
        let (year, month, day) = self.civil_parts();
        let mut text = String::new();
        push_char(&mut text, digit_to_char((year / 1000) as u32));
        push_char(&mut text, digit_to_char(((year / 100) % 10) as u32));
        push_char(&mut text, digit_to_char(((year / 10) % 10) as u32));
        push_char(&mut text, digit_to_char((year % 10) as u32));
        push_char(&mut text, '-');
        push_char(&mut text, digit_to_char((month / 10) as u32));
        push_char(&mut text, digit_to_char((month % 10) as u32));
        push_char(&mut text, '-');
        push_char(&mut text, digit_to_char((day / 10) as u32));
        push_char(&mut text, digit_to_char((day % 10) as u32));
        proof {
            lemma_civil_of_ordinal(year as int, month as int, day as int);
            assert(text@ =~= ymd_text(year as int, month as int, day as int));
        }
        text
    }

    /// The civil year, month and day of this date.
    pub fn civil_parts(&self) -> (parts: (i32, i32, i32))
        ensures
            valid_ymd(parts.0 as int, parts.1 as int, parts.2 as int),
            ordinal_of(parts.0 as int, parts.1 as int, parts.2 as int) == self.ordinal(),
            civil(self.ordinal()) == (parts.0 as int, parts.1 as int, parts.2 as int),
    {
        proof {
            use_type_invariant(self);
        }
        let number = self.day_number;
        let mut year: i32 = number / 366 + 1;
        proof {
            lemma_year_monotone(year as int, 10000);
        }
        while days_before_year_exec(year + 1) <= number
            invariant
                1 <= year <= 9999,
                0 <= number <= max_ordinal(),
                days_before_year(year as int) <= number,
            decreases 9999 - year,
        {
            proof {
                if year == 9999 {
                    assert(days_before_year(10000) == max_ordinal() + 1);
                }
            }
            year = year + 1;
        }
        let offset = number - days_before_year_exec(year);
        proof {
            lemma_year_step(year as int);
        }
        let mut month: i32 = 1;
        while month < 12 && days_before_month_exec(year, month + 1) <= offset
            invariant
                1 <= year <= 9999,
                1 <= month <= 12,
                days_before_month(year as int, month as int) <= offset,
                offset < if is_leap(year as int) { 366int } else { 365int },
            decreases 12 - month,
        {
            month = month + 1;
        }
        let day = offset - days_before_month_exec(year, month) + 1;
        proof {
            assert(valid_ymd(year as int, month as int, day as int));
            lemma_civil_of_ordinal(year as int, month as int, day as int);
        }
        (year, month, day)
    }

    /// The following day, unless this is the last representable day.
    pub fn succ(&self) -> (next: Option<CalendarDate>)
        ensures
            next is Some <==> self.ordinal() < max_ordinal(),
            next matches Some(n) ==> n.ordinal() == self.ordinal() + 1,
    {
        proof {
            use_type_invariant(self);
        }
        if self.day_number < 3652058 {
            Some(CalendarDate { day_number: self.day_number + 1 })
        } else {
            None
        }
    }

    /// The preceding day, unless this is the first representable day.
    pub fn pred(&self) -> (previous: Option<CalendarDate>)
        ensures
            previous is Some <==> self.ordinal() > 0,
            previous matches Some(p) ==> p.ordinal() == self.ordinal() - 1,
    {
        proof {
            use_type_invariant(self);
        }
        if self.day_number > 0 {
            Some(CalendarDate { day_number: self.day_number - 1 })
        } else {
            None
        }
    }

    /// The date a signed number of days away, when it is representable.
    pub fn checked_add_days(&self, days: i64) -> (moved: Option<CalendarDate>)
        ensures
            moved is Some <==> 0 <= self.ordinal() + days <= max_ordinal(),
            moved matches Some(m) ==> m.ordinal() == self.ordinal() + days,
    {
        proof {
            use_type_invariant(self);
        }
        if days > 3652058 || days < -3652058 {
            return None;
        }
        let target = self.day_number as i64 + days;
        if target < 0 || target > 3652058 {
            None
        } else {
            Some(CalendarDate { day_number: target as i32 })
        }
    }

    /// The signed number of days from this date to `other`.
    pub fn days_until(&self, other: &CalendarDate) -> (days: i64)
        ensures
            days == other.ordinal() - self.ordinal(),
    {
        proof {
            use_type_invariant(self);
            use_type_invariant(other);
        }
        other.day_number as i64 - self.day_number as i64
    }

    /// Strictly earlier than `other`.
    pub fn is_before(&self, other: &CalendarDate) -> (r: bool)
        ensures
            r == (self.ordinal() < other.ordinal()),
    {
        proof {
            use_type_invariant(self);
            use_type_invariant(other);
        }
        self.day_number < other.day_number
    }

    /// The same day as `other`.
    pub fn same_day(&self, other: &CalendarDate) -> (r: bool)
        ensures
            r == (self.ordinal() == other.ordinal()),
            r == (*self == *other),
    {
        proof {
            use_type_invariant(self);
            use_type_invariant(other);
        }
        self.day_number == other.day_number
    }

    /// The later of two dates.
    pub fn later(a: CalendarDate, b: CalendarDate) -> (r: CalendarDate)
        ensures
            r.ordinal() == if a.ordinal() < b.ordinal() { b.ordinal() } else { a.ordinal() },
    {
        proof {
            use_type_invariant(&a);
            use_type_invariant(&b);
        }
        if a.day_number < b.day_number { b } else { a }
    }

    /// The earlier of two dates.
    pub fn earlier(a: CalendarDate, b: CalendarDate) -> (r: CalendarDate)
        ensures
            r.ordinal() == if a.ordinal() < b.ordinal() { a.ordinal() } else { b.ordinal() },
    {
        proof {
            use_type_invariant(&a);
            use_type_invariant(&b);
        }
        if a.day_number < b.day_number { a } else { b }
    }
}

/// Formatting then parsing a date gives the date back; parsing then
/// formatting gives the text back.
pub proof fn law_parse_then_format(s: Seq<char>)
    requires
        parse_ymd_spec(s) is Some,
    ensures
        ({
            let t = parse_ymd_spec(s)->Some_0;
            civil(ordinal_of(t.0, t.1, t.2)) == t && ymd_text(t.0, t.1, t.2) == s
        }),
{
    let t = parse_ymd_spec(s)->Some_0;
    lemma_civil_of_ordinal(t.0, t.1, t.2);
    let (a, b, c, d) = (digit_value(s[0]), digit_value(s[1]), digit_value(s[2]), digit_value(s[3]));
    lemma_four_digits(a, b, c, d);
    lemma_two_digits(digit_value(s[5]), digit_value(s[6]));
    lemma_two_digits(digit_value(s[8]), digit_value(s[9]));
    lemma_digit_inverse(s[0]);
    lemma_digit_inverse(s[1]);
    lemma_digit_inverse(s[2]);
    lemma_digit_inverse(s[3]);
    lemma_digit_inverse(s[5]);
    lemma_digit_inverse(s[6]);
    lemma_digit_inverse(s[8]);
    lemma_digit_inverse(s[9]);
    assert(ymd_text(t.0, t.1, t.2) =~= s);
}

proof fn lemma_four_digits(a: int, b: int, c: int, d: int) by (nonlinear_arith)
    requires
        0 <= a <= 9, 0 <= b <= 9, 0 <= c <= 9, 0 <= d <= 9,
    ensures
        ({
            let y = 1000 * a + 100 * b + 10 * c + d;
            y / 1000 == a && (y / 100) % 10 == b && (y / 10) % 10 == c && y % 10 == d
        }),
{
}

proof fn lemma_two_digits(a: int, b: int) by (nonlinear_arith)
    requires
        0 <= a <= 9, 0 <= b <= 9,
    ensures
        (10 * a + b) / 10 == a && (10 * a + b) % 10 == b,
{
}

proof fn lemma_digit_inverse(c: char)
    requires
        is_digit(c),
    ensures
        digit_char(digit_value(c)) == c,
{
}

fn invalid_date() -> (error: AppError)
    ensures
        is_validation_of(error, "date"@),
{
    AppError::validation("date", "The date must be a valid YYYY-MM-DD calendar date.")
}

fn is_leap_exec(year: i32) -> (r: bool)
    ensures
        r == is_leap(year as int),
{
    year % 4 == 0 && (year % 100 != 0 || year % 400 == 0)
}

fn month_length(year: i32, month: i32) -> (days: i32)
    requires
        1 <= month <= 12,
    ensures
        days == days_in_month(year as int, month as int),
{
    if month == 2 {
        if is_leap_exec(year) { 29 } else { 28 }
    } else if month == 4 || month == 6 || month == 9 || month == 11 {
        30
    } else {
        31
    }
}

fn days_before_year_exec(year: i32) -> (days: i32)
    requires
        1 <= year <= 10000,
    ensures
        days == days_before_year(year as int),
        0 <= days <= max_ordinal() + 1,
{
    let p = year - 1;
    365 * p + p / 4 - p / 100 + p / 400
}

fn days_before_month_exec(year: i32, month: i32) -> (days: i32)
    requires
        1 <= month <= 12,
    ensures
        days == days_before_month(year as int, month as int),
        0 <= days <= 335,
{
    let base: i32 = if month <= 1 { 0 }
        else if month == 2 { 31 }
        else if month == 3 { 59 }
        else if month == 4 { 90 }
        else if month == 5 { 120 }
        else if month == 6 { 151 }
        else if month == 7 { 181 }
        else if month == 8 { 212 }
        else if month == 9 { 243 }
        else if month == 10 { 273 }
        else if month == 11 { 304 }
        else { 334 };
    if month > 2 && is_leap_exec(year) { base + 1 } else { base }
}

} // verus!
