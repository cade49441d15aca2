//! Calendar days and instants.
//!
//! A [`Date`] is a day of the proleptic Gregorian calendar, held as its day number
//! (1 is January 1 of year 1). Ordering, distance and stepping are integer arithmetic on
//! that number; only the conversion between day numbers and year/month/day is left to
//! `chrono`.

use vstd::prelude::*;
use crate::text::{push_zero_padded, zero_padded, push_signed_decimal, signed_decimal};

verus! {

/// Day number of the first representable day, January 1 of year -262143.
pub const MIN_DAY_NUMBER: i32 = -95_746_129;

/// Day number of the last representable day, December 31 of year 262142.
pub const MAX_DAY_NUMBER: i32 = 95_745_399;

/// The first representable year.
pub const MIN_YEAR: i32 = -262_143;

/// The last representable year.
pub const MAX_YEAR: i32 = 262_142;

/// Day number of January 1, 1970.
pub const EPOCH_DAY_NUMBER: i32 = 719_163;

/// Seconds in a day.
pub const SECONDS_PER_DAY: u32 = 86_400;

/// The day number of a calendar date as `chrono` computes it, `None` where `chrono`
/// has no such date.
pub uninterp spec fn civil_day_number(year: int, month: int, day: int) -> Option<int>;

/// The year, month and day of a day number as `chrono` computes them.
pub uninterp spec fn day_number_civil(days: int) -> (int, int, int);

/// Whether `days` is the day number of a representable day.
pub open spec fn day_in_range(days: int) -> bool {
    MIN_DAY_NUMBER <= days <= MAX_DAY_NUMBER
}

/// `chrono::NaiveDate::from_ymd_opt`, then `Datelike::num_days_from_ce` on the date found.
///
/// Trusted: the result is `chrono`'s day number of the date, it lies between the day
/// numbers of `NaiveDate::MIN` and `NaiveDate::MAX`, and the first 28 days of every
/// month of every representable year exist.
#[verifier::external_body]
fn chrono_day_number(year: i32, month: u32, day: u32) -> (r: Option<i32>)
    ensures
        r.is_some() == civil_day_number(year as int, month as int, day as int).is_some(),
        r matches Some(n) ==> civil_day_number(year as int, month as int, day as int) == Some(
            n as int,
        ) && day_in_range(n as int),
        MIN_YEAR <= year <= MAX_YEAR && 1 <= month <= 12 && 1 <= day <= 28 ==> r.is_some(),
{
    match chrono::NaiveDate::from_ymd_opt(year, month, day) {
        Some(date) => Some(chrono::Datelike::num_days_from_ce(&date)),
        None => None,
    }
}

/// `chrono::NaiveDate::from_num_days_from_ce_opt`, then `Datelike::year`, `month` and `day`.
///
/// Trusted: every day number in range has a date, whose year is representable, whose
/// month is 1 to 12 and whose day is 1 to 31, and whose day number is `days` again.
#[verifier::external_body]
fn chrono_civil(days: i32) -> (r: Option<(i32, u32, u32)>)
    ensures
        day_in_range(days as int) ==> r.is_some(),
        r matches Some(c) ==> {
            &&& (c.0 as int, c.1 as int, c.2 as int) == day_number_civil(days as int)
            &&& MIN_YEAR <= c.0 <= MAX_YEAR
            &&& 1 <= c.1 <= 12
            &&& 1 <= c.2 <= 31
            &&& civil_day_number(c.0 as int, c.1 as int, c.2 as int) == Some(days as int)
        },
{
    match chrono::NaiveDate::from_num_days_from_ce_opt(days) {
        Some(date) => Some(
            (
                chrono::Datelike::year(&date),
                chrono::Datelike::month(&date),
                chrono::Datelike::day(&date),
            ),
        ),
        None => None,
    }
}

/// `chrono::Utc::now`, then `DateTime::date_naive` and `Datelike::num_days_from_ce`.
///
/// Trusted: the day number of a `NaiveDate` is in range. Which day it is depends on the
/// clock, so nothing else is claimed. `chrono` panics when the clock is set before 1970.
#[verifier::external_body]
fn chrono_today() -> (r: i32)
    ensures
        day_in_range(r as int),
{
    chrono::Datelike::num_days_from_ce(&chrono::Utc::now().date_naive())
}

/// A calendar day.
#[derive(Clone, Copy, Debug, PartialEq, Eq, PartialOrd, Ord, Hash)]
pub struct Date {
    days: i32,
}

impl View for Date {
    type V = int;

    /// The day number.
    closed spec fn view(&self) -> int {
        self.days as int
    }
}

impl DeepView for Date {
    type V = int;

    /// The day number.
    open spec fn deep_view(&self) -> int {
        self@
    }
}

impl Date {
    #[verifier::type_invariant]
    spec fn in_range(self) -> bool {
        day_in_range(self.days as int)
    }

    /// The day whose day number is `day`, for a day number in range.
    pub closed spec fn at(day: int) -> Date {
        Date { days: day as i32 }
    }

    /// `Date::at` gives the day with that day number.
    pub proof fn lemma_at(day: int)
        requires
            day_in_range(day),
        ensures
            Date::at(day)@ == day,
    {
    }

    /// A day is the day with its own day number.
    pub proof fn lemma_at_self(d: Date)
        ensures
            Date::at(d@) == d,
    {
    }

    /// Two days with the same day number are the same day.
    pub proof fn lemma_same_day(a: Date, b: Date)
        requires
            a@ == b@,
        ensures
            a == b,
    {
    }

    /// The day with the given day number, if it is representable.
    pub fn from_day_number(days: i32) -> (r: Option<Date>)
        ensures
            r.is_some() == day_in_range(days as int),
            r matches Some(d) ==> d@ == days,
    {
        if MIN_DAY_NUMBER <= days && days <= MAX_DAY_NUMBER {
            Some(Date { days })
        } else {
            None
        }
    }

    /// The day with the given year, month and day of month, if there is one.
    pub fn from_ymd_opt(year: i32, month: u32, day: u32) -> (r: Option<Date>)
        ensures
            match r {
                Some(d) => civil_day_number(year as int, month as int, day as int) == Some(d@)
                    && day_in_range(d@),
                None => civil_day_number(year as int, month as int, day as int).is_none(),
            },
            MIN_YEAR <= year <= MAX_YEAR && 1 <= month <= 12 && 1 <= day <= 28 ==> r.is_some(),
    {
        match chrono_day_number(year, month, day) {
            Some(days) => Some(Date { days }),
            None => None,
        }
    }

    /// January 1, 1970.
    pub fn epoch() -> (r: Date)
        ensures
            r@ == EPOCH_DAY_NUMBER,
    {
        Date { days: EPOCH_DAY_NUMBER }
    }

    /// The current day in UTC.
    pub fn today() -> (r: Date)
        ensures
            day_in_range(r@),
    {
        Date { days: chrono_today() }
    }

    /// The day number: 1 for January 1 of year 1, and one more for each day after it.
    pub fn day_number(&self) -> (r: i32)
        ensures
            r == self@,
            day_in_range(r as int),
    {
        proof {
            use_type_invariant(self);
        }
        self.days
    }

    /// The following day, `None` after the last representable day.
    pub fn succ_opt(&self) -> (r: Option<Date>)
        ensures
            r.is_some() == (self@ < MAX_DAY_NUMBER),
            r matches Some(d) ==> d@ == self@ + 1 && d == Date::at(self@ + 1),
    {
        proof {
            use_type_invariant(self);
        }
        if self.days < MAX_DAY_NUMBER {
            Some(Date { days: self.days + 1 })
        } else {
            None
        }
    }

    /// The day `n` days later (earlier for negative `n`), if it is representable.
    pub fn checked_add_days(&self, n: i64) -> (r: Option<Date>)
        ensures
            r.is_some() == day_in_range(self@ + n),
            r matches Some(d) ==> d@ == self@ + n && d == Date::at(self@ + n),
    {
        proof {
            use_type_invariant(self);
        }
        if n < -200_000_000 || n > 200_000_000 {
            return None;
        }
        let target: i64 = self.days as i64 + n;
        if MIN_DAY_NUMBER as i64 <= target && target <= MAX_DAY_NUMBER as i64 {
            Some(Date { days: target as i32 })
        } else {
            None
        }
    }

    /// The number of days from `earlier` to `self`, negative if `self` comes first.
    pub fn days_since(&self, earlier: Date) -> (r: i64)
        ensures
            r == self@ - earlier@,
    {
        proof {
            use_type_invariant(self);
            use_type_invariant(&earlier);
        }
        self.days as i64 - earlier.days as i64
    }

    /// Whether `self` is `other` or an earlier day.
    pub fn le(&self, other: &Date) -> (r: bool)
        ensures
            r == (self@ <= other@),
    {
        self.days <= other.days
    }

    /// Whether `self` is an earlier day than `other`.
    pub fn lt(&self, other: &Date) -> (r: bool)
        ensures
            r == (self@ < other@),
    {
        self.days < other.days
    }

    /// Whether `self` and `other` are the same day.
    pub fn same_day(&self, other: &Date) -> (r: bool)
        ensures
            r == (self@ == other@),
    {
        self.days == other.days
    }

    /// Year, month (1 to 12) and day of month (1 to 31).
    pub fn ymd(&self) -> (r: (i32, u32, u32))
        ensures
            (r.0 as int, r.1 as int, r.2 as int) == day_number_civil(self@),
            MIN_YEAR <= r.0 <= MAX_YEAR,
            1 <= r.1 <= 12,
            1 <= r.2 <= 31,
            civil_day_number(r.0 as int, r.1 as int, r.2 as int) == Some(self@),
    {
        proof {
            use_type_invariant(self);
        }
        match chrono_civil(self.days) {
            Some(civil) => civil,
            None => unreached(),
        }
    }

    /// The date as `YYYY-MM-DD`.
    pub fn to_string(&self) -> (r: String)
        ensures
            r@ == iso_date(day_number_civil(self@)),
    {
        let (y, m, d) = self.ymd();
        let mut out = String::new();
        push_year(&mut out, y);
        out.push('-');
        push_zero_padded(&mut out, m as u64, 2);
        out.push('-');
        push_zero_padded(&mut out, d as u64, 2);
        out
    }

    /// The date as `YYYYMMDD`.
    pub fn to_compact_string(&self) -> (r: String)
        ensures
            r@ == compact_date(day_number_civil(self@)),
    {
        let (y, m, d) = self.ymd();
        let mut out = String::new();
        push_year(&mut out, y);
        push_zero_padded(&mut out, m as u64, 2);
        push_zero_padded(&mut out, d as u64, 2);
        out
    }
}

/// A year as text: four digits from 0 to 9999, and the signed numeral otherwise.
pub open spec fn year_text(year: int) -> Seq<char> {
    if 0 <= year <= 9999 {
        zero_padded(year as nat, 4)
    } else {
        signed_decimal(year)
    }
}

/// `YYYY-MM-DD` for a year, month and day.
pub open spec fn iso_date(ymd: (int, int, int)) -> Seq<char> {
    year_text(ymd.0) + seq!['-'] + zero_padded(ymd.1 as nat, 2) + seq!['-'] + zero_padded(
        ymd.2 as nat,
        2,
    )
}

/// `YYYYMMDD` for a year, month and day.
pub open spec fn compact_date(ymd: (int, int, int)) -> Seq<char> {
    year_text(ymd.0) + zero_padded(ymd.1 as nat, 2) + zero_padded(ymd.2 as nat, 2)
}

/// Appends a year as [`year_text`] writes it.
pub fn push_year(out: &mut String, year: i32)
    ensures
        final(out)@ == old(out)@ + year_text(year as int),
{
    if 0 <= year && year <= 9999 {
        push_zero_padded(out, year as u64, 4);
    } else {
        push_signed_decimal(out, year as i64);
    }
}

/// An instant in UTC: a day, the second of that day, and the nanosecond of that second.
#[derive(Clone, Copy, Debug, PartialEq, Eq, PartialOrd, Ord, Hash)]
pub struct Timestamp {
    date: Date,
    secs: u32,
    nanos: u32,
}

/// Nanoseconds from the start of day 0 to the instant on day `day`, `secs` seconds and
/// `nanos` nanoseconds in.
pub open spec fn instant(day: int, secs: int, nanos: int) -> int {
    (day * 86_400 + secs) * 1_000_000_000 + nanos
}

impl View for Timestamp {
    type V = int;

    /// The instant, in nanoseconds since the start of day 0.
    closed spec fn view(&self) -> int {
        instant(self.date@, self.secs as int, self.nanos as int)
    }
}

impl DeepView for Timestamp {
    type V = int;

    /// The instant, in nanoseconds since the start of day 0.
    open spec fn deep_view(&self) -> int {
        self@
    }
}

impl Timestamp {
    #[verifier::type_invariant]
    spec fn well_formed(self) -> bool {
        self.secs < SECONDS_PER_DAY && self.nanos < 1_000_000_000
    }

    /// The day of the instant.
    pub closed spec fn day(self) -> int {
        self.date@
    }

    /// The second of the day, 0 to 86399.
    pub closed spec fn second_of_day(self) -> int {
        self.secs as int
    }

    /// The nanosecond of the second, 0 to 999999999.
    pub closed spec fn nanosecond(self) -> int {
        self.nanos as int
    }

    /// The instant on day `day`, `secs` seconds and `nanos` nanoseconds in, for a day
    /// number in range, `secs` under 86400 and `nanos` under 1000000000.
    pub closed spec fn at(day: int, secs: int, nanos: int) -> Timestamp {
        Timestamp { date: Date::at(day), secs: secs as u32, nanos: nanos as u32 }
    }

    /// `Timestamp::at` gives the instant with those three parts.
    pub proof fn lemma_at(day: int, secs: int, nanos: int)
        requires
            day_in_range(day),
            0 <= secs < SECONDS_PER_DAY,
            0 <= nanos < 1_000_000_000,
        ensures
            Timestamp::at(day, secs, nanos).day() == day,
            Timestamp::at(day, secs, nanos).second_of_day() == secs,
            Timestamp::at(day, secs, nanos).nanosecond() == nanos,
    {
    }

    /// Two instants with the same day, second and nanosecond are the same instant.
    pub proof fn lemma_same_instant(a: Timestamp, b: Timestamp)
        requires
            a.day() == b.day(),
            a.second_of_day() == b.second_of_day(),
            a.nanosecond() == b.nanosecond(),
        ensures
            a == b,
    {
        Date::lemma_same_day(a.date, b.date);
    }

    /// The view is the instant that the three parts name.
    pub proof fn lemma_view(self)
        ensures
            self@ == instant(self.day(), self.second_of_day(), self.nanosecond()),
    {
    }

    /// The instant `secs` seconds and `nanos` nanoseconds into `date`, if both are in range.
    pub fn new(date: Date, secs: u32, nanos: u32) -> (r: Option<Timestamp>)
        ensures
            r.is_some() == (secs < SECONDS_PER_DAY && nanos < 1_000_000_000),
            r matches Some(t) ==> t.day() == date@ && t.second_of_day() == secs
                && t.nanosecond() == nanos,
    {
        if secs < SECONDS_PER_DAY && nanos < 1_000_000_000 {
            Some(Timestamp { date, secs, nanos })
        } else {
            None
        }
    }

    /// The instant `micros` microseconds after the start of January 1, 1970, if its day
    /// is representable.
    pub fn from_unix_micros(micros: i64) -> (r: Option<Timestamp>)
        ensures
            r.is_some() == day_in_range(EPOCH_DAY_NUMBER + micros / 86_400_000_000),
            r matches Some(t) ==> {
                &&& t.day() == EPOCH_DAY_NUMBER + micros / 86_400_000_000
                &&& t.second_of_day() == (micros % 86_400_000_000) / 1_000_000
                &&& t.nanosecond() == (micros % 1_000_000) * 1000
            },
    {
        let day_micros: i64 = 86_400_000_000;
        let mut days: i64 = micros / day_micros;
        let mut rest: i64 = micros % day_micros;
        if rest < 0 {
            days = days - 1;
            rest = rest + day_micros;
        }
        assert(days == micros as int / 86_400_000_000 && rest == micros as int % 86_400_000_000)
            by {
            vstd::arithmetic::div_mod::lemma_fundamental_div_mod_converse(
                micros as int,
                86_400_000_000,
                days as int,
                rest as int,
            );
        }
        let secs: i64 = rest / 1_000_000;
        let sub: i64 = rest % 1_000_000;
        assert(sub == micros as int % 1_000_000) by {
            vstd::arithmetic::div_mod::lemma_fundamental_div_mod_converse(
                micros as int,
                1_000_000,
                days * 86_400 + secs,
                sub as int,
            );
        }
        match Date::from_day_number((EPOCH_DAY_NUMBER as i64 + days) as i32) {
            Some(date) => Some(Timestamp { date, secs: secs as u32, nanos: (sub * 1000) as u32 }),
            None => None,
        }
    }

    /// The day of the instant.
    pub fn date(&self) -> (r: Date)
        ensures
            r@ == self.day(),
    {
        self.date
    }

    /// The second of the day.
    pub fn seconds_from_midnight(&self) -> (r: u32)
        ensures
            r == self.second_of_day(),
            r < SECONDS_PER_DAY,
    {
        proof {
            use_type_invariant(self);
        }
        self.secs
    }

    /// The hour of the day, 0 to 23.
    pub fn hour(&self) -> (r: u32)
        ensures
            r == self.second_of_day() / 3600,
            r < 24,
    {
        proof {
            use_type_invariant(self);
        }
        self.secs / 3600
    }

    /// Whether `self` is a later instant than `other`.
    pub fn is_after(&self, other: &Timestamp) -> (r: bool)
        ensures
            r == (self@ > other@),
    {
        proof {
            use_type_invariant(self);
            use_type_invariant(other);
        }
        if self.date.day_number() != other.date.day_number() {
            self.date.day_number() > other.date.day_number()
        } else if self.secs != other.secs {
            self.secs > other.secs
        } else {
            self.nanos > other.nanos
        }
    }

    /// Whether `self` is `other` or a later instant.
    pub fn is_at_or_after(&self, other: &Timestamp) -> (r: bool)
        ensures
            r == (self@ >= other@),
    {
        !other.is_after(self)
    }

    /// The instant `hours` hours later (earlier for negative `hours`), if its day is
    /// representable.
    pub fn checked_add_hours(&self, hours: i64) -> (r: Option<Timestamp>)
        ensures
            r.is_some() == day_in_range(self.day() + (self.second_of_day() / 3600 + hours) / 24),
            r matches Some(t) ==> {
                &&& t.day() == self.day() + (self.second_of_day() / 3600 + hours) / 24
                &&& t.second_of_day() == ((self.second_of_day() / 3600 + hours) % 24) * 3600
                    + self.second_of_day() % 3600
                &&& t.nanosecond() == self.nanosecond()
                &&& t == Timestamp::at(t.day(), t.second_of_day(), t.nanosecond())
                &&& t@ == self@ + hours * 3_600_000_000_000
            },
    {
        proof {
            use_type_invariant(self);
            use_type_invariant(&self.date);
        }
        if hours < -10_000_000_000 || hours > 10_000_000_000 {
            return None;
        }
        let total: i64 = (self.secs / 3600) as i64 + hours;
        let mut days: i64 = total / 24;
        let mut hour: i64 = total % 24;
        if hour < 0 {
            days = days - 1;
            hour = hour + 24;
        }
        assert(days == total as int / 24 && hour == total as int % 24) by {
            vstd::arithmetic::div_mod::lemma_fundamental_div_mod_converse(
                total as int,
                24,
                days as int,
                hour as int,
            );
        }
        match self.date.checked_add_days(days) {
            Some(date) => Some(
                Timestamp {
                    date,
                    secs: (hour as u32) * 3600 + self.secs % 3600,
                    nanos: self.nanos,
                },
            ),
            None => None,
        }
    }

    /// The instant as `YYYY-MM-DD HH:MM:SS`.
    pub fn to_string(&self) -> (r: String)
        ensures
            r@ == iso_date(day_number_civil(self.day())) + seq![' '] + clock_text(
                self.second_of_day(),
            ),
    {
        proof {
            use_type_invariant(self);
        }
        let mut out = self.date.to_string();
        out.push(' ');
        push_zero_padded(&mut out, (self.secs / 3600) as u64, 2);
        out.push(':');
        push_zero_padded(&mut out, ((self.secs % 3600) / 60) as u64, 2);
        out.push(':');
        push_zero_padded(&mut out, (self.secs % 60) as u64, 2);
        out
    }
}

/// `HH:MM:SS` for a second of the day.
pub open spec fn clock_text(secs: int) -> Seq<char> {
    zero_padded((secs / 3600) as nat, 2) + seq![':'] + zero_padded(((secs % 3600) / 60) as nat, 2)
        + seq![':'] + zero_padded((secs % 60) as nat, 2)
}

} // verus!
