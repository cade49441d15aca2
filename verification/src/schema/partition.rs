//! How a destination table is partitioned, and the keys that address its partitions.

use vstd::prelude::*;
use crate::calendar::{
    civil_day_number, compact_date, day_number_civil, iso_date, push_year, year_text, Date,
    Timestamp, EPOCH_DAY_NUMBER, MAX_YEAR, MIN_YEAR, day_in_range,
};
use crate::text::{
    clone_opt_string, push_signed_decimal, push_zero_padded, signed_decimal, zero_padded,
};

verus! {

/// The unit that a table is partitioned by.
#[derive(Clone, Copy, Debug, PartialEq, Eq, Hash)]
pub enum PartitionType {
    Hour,
    Day,
    Month,
    Year,
    Range,
    IngestionTime,
}

/// How a destination table is partitioned: by which column, in which unit,
/// and for integer ranges between which bounds.
#[derive(Debug, PartialEq, Eq)]
pub struct PartitionConfig {
    pub field: Option<String>,
    pub partition_type: PartitionType,
    pub start: Option<i64>,
    pub end: Option<i64>,
    pub interval: Option<i64>,
}

/// What a [`PartitionConfig`] holds.
pub struct PartitionConfigModel {
    pub field: Option<Seq<char>>,
    pub partition_type: PartitionType,
    pub start: Option<i64>,
    pub end: Option<i64>,
    pub interval: Option<i64>,
}

impl DeepView for PartitionConfig {
    type V = PartitionConfigModel;

    open spec fn deep_view(&self) -> PartitionConfigModel {
        PartitionConfigModel {
            field: self.field.deep_view(),
            partition_type: self.partition_type,
            start: self.start,
            end: self.end,
            interval: self.interval,
        }
    }
}

impl PartitionConfigModel {
    /// Partitioning by the time column `field` in the unit `partition_type`.
    pub open spec fn by_time(field: Seq<char>, partition_type: PartitionType) -> Self {
        PartitionConfigModel {
            field: Some(field),
            partition_type,
            start: None,
            end: None,
            interval: None,
        }
    }
}

impl Clone for PartitionConfig {
    fn clone(&self) -> (r: Self)
        ensures
            r.deep_view() == self.deep_view(),
    {
        PartitionConfig {
            field: clone_opt_string(&self.field),
            partition_type: self.partition_type,
            start: self.start,
            end: self.end,
            interval: self.interval,
        }
    }
}

impl PartitionConfig {
    fn by_time(field: &str, partition_type: PartitionType) -> (r: PartitionConfig)
        ensures
            r.deep_view() == PartitionConfigModel::by_time(field@, partition_type),
    {
        PartitionConfig {
            field: Some(String::from_str(field)),
            partition_type,
            start: None,
            end: None,
            interval: None,
        }
    }

    /// Hourly partitions on the column `field`.
    pub fn hour(field: &str) -> (r: PartitionConfig)
        ensures
            r.deep_view() == PartitionConfigModel::by_time(field@, PartitionType::Hour),
    {
        Self::by_time(field, PartitionType::Hour)
    }

    /// Daily partitions on the column `field`.
    pub fn day(field: &str) -> (r: PartitionConfig)
        ensures
            r.deep_view() == PartitionConfigModel::by_time(field@, PartitionType::Day),
    {
        Self::by_time(field, PartitionType::Day)
    }

    /// Monthly partitions on the column `field`.
    pub fn month(field: &str) -> (r: PartitionConfig)
        ensures
            r.deep_view() == PartitionConfigModel::by_time(field@, PartitionType::Month),
    {
        Self::by_time(field, PartitionType::Month)
    }

    /// Yearly partitions on the column `field`.
    pub fn year(field: &str) -> (r: PartitionConfig)
        ensures
            r.deep_view() == PartitionConfigModel::by_time(field@, PartitionType::Year),
    {
        Self::by_time(field, PartitionType::Year)
    }

    /// Integer-range partitions on the column `field`, from `start` up to `end` in steps
    /// of `interval`.
    pub fn range(field: &str, start: i64, end: i64, interval: i64) -> (r: PartitionConfig)
        ensures
            r.deep_view() == (PartitionConfigModel {
                field: Some(field@),
                partition_type: PartitionType::Range,
                start: Some(start),
                end: Some(end),
                interval: Some(interval),
            }),
    {
        PartitionConfig {
            field: Some(String::from_str(field)),
            partition_type: PartitionType::Range,
            start: Some(start),
            end: Some(end),
            interval: Some(interval),
        }
    }

    /// Daily partitions by the time of ingestion: there is no partition column.
    pub fn ingestion_time() -> (r: PartitionConfig)
        ensures
            r.deep_view() == (PartitionConfigModel {
                field: None,
                partition_type: PartitionType::IngestionTime,
                start: None,
                end: None,
                interval: None,
            }),
    {
        PartitionConfig {
            field: None,
            partition_type: PartitionType::IngestionTime,
            start: None,
            end: None,
            interval: None,
        }
    }

    /// The partition column, if the table has one.
    pub fn field_name(&self) -> (r: Option<&str>)
        ensures
            r.is_some() == self.field.is_some(),
            r matches Some(name) ==> Some(name@) == self.deep_view().field,
    {
        match &self.field {
            Some(name) => Some(name.as_str()),
            None => None,
        }
    }
}

/// The address of one partition of a destination table.
#[derive(Clone, Copy, Debug, PartialEq, Eq, PartialOrd, Ord, Hash)]
pub enum PartitionKey {
    /// The hour that holds the instant.
    Hour(Timestamp),
    /// A day.
    Day(Date),
    /// A month of a year; months count from 1.
    Month { year: i32, month: u32 },
    /// A year.
    Year(i32),
    /// A bucket of an integer-range partitioned table.
    Range(i64),
}

/// The year and month `stride` months after month `month` of year `year`, if that
/// year is representable.
pub open spec fn month_step(year: int, month: int, stride: int) -> Option<(int, int)> {
    let total = year * 12 + (month - 1) + stride;
    if MIN_YEAR <= total / 12 <= MAX_YEAR {
        Some((total / 12, total % 12 + 1))
    } else {
        None
    }
}

impl PartitionKey {
    /// The day by which the version in effect is looked up: the key's own day, the first
    /// day of its month or year, and January 1, 1970 for a key that names no day.
    pub open spec fn day(self) -> int {
        match self {
            PartitionKey::Hour(t) => t.day(),
            PartitionKey::Day(d) => d@,
            PartitionKey::Month { year, month } => match civil_day_number(
                year as int,
                month as int,
                1,
            ) {
                Some(n) => n,
                None => EPOCH_DAY_NUMBER as int,
            },
            PartitionKey::Year(year) => match civil_day_number(year as int, 1, 1) {
                Some(n) => n,
                None => EPOCH_DAY_NUMBER as int,
            },
            PartitionKey::Range(_) => EPOCH_DAY_NUMBER as int,
        }
    }

    /// The key's value as it is written inside an SQL string literal.
    pub open spec fn value_text(self) -> Seq<char> {
        match self {
            PartitionKey::Hour(t) => iso_date(day_number_civil(t.day())) + seq![' ']
                + zero_padded((t.second_of_day() / 3600) as nat, 2) + ":00:00"@,
            PartitionKey::Day(d) => iso_date(day_number_civil(d@)),
            PartitionKey::Month { year, month } => year_text(year as int) + seq!['-']
                + zero_padded(month as nat, 2) + "-01"@,
            PartitionKey::Year(year) => year_text(year as int) + "-01-01"@,
            PartitionKey::Range(n) => signed_decimal(n as int),
        }
    }

    /// The key as an SQL expression: a `TIMESTAMP` for an hour, a `DATE` for a day,
    /// month or year, and the bare number for a range bucket.
    pub open spec fn literal_text(self) -> Seq<char> {
        match self {
            PartitionKey::Hour(_) => "TIMESTAMP('"@ + self.value_text() + "')"@,
            PartitionKey::Range(_) => self.value_text(),
            _ => "DATE('"@ + self.value_text() + "')"@,
        }
    }

    /// The suffix that addresses the partition in a table name: `$` and the compact key.
    pub open spec fn decorator_text(self) -> Seq<char> {
        seq!['$'] + match self {
            PartitionKey::Hour(t) => compact_date(day_number_civil(t.day())) + zero_padded(
                (t.second_of_day() / 3600) as nat,
                2,
            ),
            PartitionKey::Day(d) => compact_date(day_number_civil(d@)),
            PartitionKey::Month { year, month } => year_text(year as int) + zero_padded(
                month as nat,
                2,
            ),
            PartitionKey::Year(year) => year_text(year as int),
            PartitionKey::Range(n) => signed_decimal(n as int),
        }
    }

    /// The key `stride` units after this one: hours, days, months, years or buckets.
    /// `None` where that key is not representable.
    pub open spec fn step(self, stride: int) -> Option<PartitionKey> {
        match self {
            PartitionKey::Hour(t) => {
                let hours = t.second_of_day() / 3600 + stride;
                if day_in_range(t.day() + hours / 24) {
                    Some(
                        PartitionKey::Hour(
                            Timestamp::at(
                                t.day() + hours / 24,
                                (hours % 24) * 3600 + t.second_of_day() % 3600,
                                t.nanosecond(),
                            ),
                        ),
                    )
                } else {
                    None
                }
            },
            PartitionKey::Day(d) => if day_in_range(d@ + stride) {
                Some(PartitionKey::Day(Date::at(d@ + stride)))
            } else {
                None
            },
            PartitionKey::Month { year, month } => match month_step(
                year as int,
                month as int,
                stride,
            ) {
                Some((y, m)) => Some(PartitionKey::Month { year: y as i32, month: m as u32 }),
                None => None,
            },
            PartitionKey::Year(year) => if MIN_YEAR <= year + stride <= MAX_YEAR {
                Some(PartitionKey::Year((year + stride) as i32))
            } else {
                None
            },
            PartitionKey::Range(n) => if i64::MIN <= n + stride <= i64::MAX {
                Some(PartitionKey::Range((n + stride) as i64))
            } else {
                None
            },
        }
    }

    /// Whether `self` comes before `other` or is the same key. Keys of one kind are in
    /// the order of what they address; keys of different kinds are in the order
    /// hour, day, month, year, range.
    pub open spec fn precedes_or_is(self, other: PartitionKey) -> bool {
        match (self, other) {
            (PartitionKey::Hour(a), PartitionKey::Hour(b)) => a@ <= b@,
            (PartitionKey::Day(a), PartitionKey::Day(b)) => a@ <= b@,
            (
                PartitionKey::Month { year: ya, month: ma },
                PartitionKey::Month { year: yb, month: mb },
            ) => ya < yb || (ya == yb && ma <= mb),
            (PartitionKey::Year(a), PartitionKey::Year(b)) => a <= b,
            (PartitionKey::Range(a), PartitionKey::Range(b)) => a <= b,
            _ => self.rank() < other.rank(),
        }
    }

    /// The place of the key's kind in the order of kinds.
    pub open spec fn rank(self) -> int {
        match self {
            PartitionKey::Hour(_) => 0,
            PartitionKey::Day(_) => 1,
            PartitionKey::Month { .. } => 2,
            PartitionKey::Year(_) => 3,
            PartitionKey::Range(_) => 4,
        }
    }

    /// Where the key stands among the keys of its kind, as a pair that is compared
    /// first by its first part: the instant, the day number, year and month, the
    /// year, or the bucket.
    pub open spec fn position(self) -> (int, int) {
        match self {
            PartitionKey::Hour(t) => (t@, 0),
            PartitionKey::Day(d) => (d@, 0),
            PartitionKey::Month { year, month } => (year as int, month as int),
            PartitionKey::Year(year) => (year as int, 0),
            PartitionKey::Range(n) => (n as int, 0),
        }
    }

    /// Whether the two keys are of the same kind.
    pub open spec fn same_kind(self, other: PartitionKey) -> bool {
        self.rank() == other.rank()
    }

    /// The day by which the version in effect is looked up.
    pub fn to_naive_date(&self) -> (r: Date)
        ensures
            r@ == self.day(),
    {
        match self {
            PartitionKey::Hour(t) => t.date(),
            PartitionKey::Day(d) => *d,
            PartitionKey::Month { year, month } => match Date::from_ymd_opt(*year, *month, 1) {
                Some(d) => d,
                None => Date::epoch(),
            },
            PartitionKey::Year(year) => match Date::from_ymd_opt(*year, 1, 1) {
                Some(d) => d,
                None => Date::epoch(),
            },
            PartitionKey::Range(_) => Date::epoch(),
        }
    }

    fn push_value(&self, out: &mut String)
        ensures
            final(out)@ == old(out)@ + self.value_text(),
    {
        match self {
            PartitionKey::Hour(t) => {
                let date = t.date().to_string();
                out.append(date.as_str());
                out.push(' ');
                push_zero_padded(out, t.hour() as u64, 2);
                out.append(":00:00");
            },
            PartitionKey::Day(d) => {
                let date = d.to_string();
                out.append(date.as_str());
            },
            PartitionKey::Month { year, month } => {
                push_year(out, *year);
                out.push('-');
                push_zero_padded(out, *month as u64, 2);
                out.append("-01");
            },
            PartitionKey::Year(year) => {
                push_year(out, *year);
                out.append("-01-01");
            },
            PartitionKey::Range(n) => {
                push_signed_decimal(out, *n);
            },
        }
    }

    /// The key's value as it is written inside an SQL string literal, such as `2024-03-01`.
    pub fn sql_value(&self) -> (r: String)
        ensures
            r@ == self.value_text(),
    {
        let mut out = String::new();
        self.push_value(&mut out);
        out
    }

    /// The key as an SQL expression, such as `DATE('2024-03-01')`.
    pub fn sql_literal(&self) -> (r: String)
        ensures
            r@ == self.literal_text(),
    {
        match self {
            PartitionKey::Hour(_) => {
                let mut out = String::from_str("TIMESTAMP('");
                self.push_value(&mut out);
                out.append("')");
                out
            },
            PartitionKey::Range(_) => self.sql_value(),
            _ => {
                let mut out = String::from_str("DATE('");
                self.push_value(&mut out);
                out.append("')");
                out
            },
        }
    }

    /// The suffix that addresses the partition in a table name, such as `$20240301`.
    pub fn decorator(&self) -> (r: String)
        ensures
            r@ == self.decorator_text(),
    {
        let mut out = String::new();
        out.push('$');
        match self {
            PartitionKey::Hour(t) => {
                let date = t.date().to_compact_string();
                out.append(date.as_str());
                push_zero_padded(&mut out, t.hour() as u64, 2);
            },
            PartitionKey::Day(d) => {
                let date = d.to_compact_string();
                out.append(date.as_str());
            },
            PartitionKey::Month { year, month } => {
                push_year(&mut out, *year);
                push_zero_padded(&mut out, *month as u64, 2);
            },
            PartitionKey::Year(year) => {
                push_year(&mut out, *year);
            },
            PartitionKey::Range(n) => {
                push_signed_decimal(&mut out, *n);
            },
        }
        out
    }

    /// The key `stride` units after this one, `None` where it is not representable.
    pub fn checked_next_by(&self, stride: i64) -> (r: Option<PartitionKey>)
        ensures
            r == self.step(stride as int),
            r matches Some(next) ==> next.same_kind(*self) && (stride >= 1 ==> self.position().0
                < next.position().0 || (self.position().0 == next.position().0
                && self.position().1 < next.position().1)),
    {
        match self {
            PartitionKey::Hour(t) => match t.checked_add_hours(stride) {
                Some(u) => Some(PartitionKey::Hour(u)),
                None => None,
            },
            PartitionKey::Day(d) => match d.checked_add_days(stride) {
                Some(e) => Some(PartitionKey::Day(e)),
                None => None,
            },
            PartitionKey::Month { year, month } => {
                if stride < -100_000_000_000 || stride > 100_000_000_000 {
                    return None;
                }
                let total: i64 = (*year as i64) * 12 + (*month as i64 - 1) + stride;
                let mut y: i64 = total / 12;
                let mut m: i64 = total % 12;
                if m < 0 {
                    y = y - 1;
                    m = m + 12;
                }
                assert(y == total as int / 12 && m == total as int % 12) by {
                    vstd::arithmetic::div_mod::lemma_fundamental_div_mod_converse(
                        total as int,
                        12,
                        y as int,
                        m as int,
                    );
                }
                if MIN_YEAR as i64 <= y && y <= MAX_YEAR as i64 {
                    Some(PartitionKey::Month { year: y as i32, month: (m + 1) as u32 })
                } else {
                    None
                }
            },
            PartitionKey::Year(year) => {
                if stride < -10_000_000_000 || stride > 10_000_000_000 {
                    return None;
                }
                let y: i64 = *year as i64 + stride;
                if MIN_YEAR as i64 <= y && y <= MAX_YEAR as i64 {
                    Some(PartitionKey::Year(y as i32))
                } else {
                    None
                }
            },
            PartitionKey::Range(n) => {
                if (stride >= 0 && *n <= i64::MAX - stride) || (stride < 0 && *n >= i64::MIN
                    - stride) {
                    Some(PartitionKey::Range(*n + stride))
                } else {
                    None
                }
            },
        }
    }

    /// The key `stride` units after this one.
    pub fn next_by(&self, stride: i64) -> (r: PartitionKey)
        requires
            self.step(stride as int).is_some(),
        ensures
            Some(r) == self.step(stride as int),
    {
        match self.checked_next_by(stride) {
            Some(key) => key,
            None => unreached(),
        }
    }

    /// The following key of the same kind.
    pub fn next(&self) -> (r: PartitionKey)
        requires
            self.step(1).is_some(),
        ensures
            Some(r) == self.step(1),
    {
        self.next_by(1)
    }

    /// Whether `self` comes before `other` or is the same key.
    pub fn le(&self, other: &PartitionKey) -> (r: bool)
        ensures
            r == self.precedes_or_is(*other),
    {
        match (self, other) {
            (PartitionKey::Hour(a), PartitionKey::Hour(b)) => b.is_at_or_after(a),
            (PartitionKey::Day(a), PartitionKey::Day(b)) => a.le(b),
            (
                PartitionKey::Month { year: ya, month: ma },
                PartitionKey::Month { year: yb, month: mb },
            ) => *ya < *yb || (*ya == *yb && *ma <= *mb),
            (PartitionKey::Year(a), PartitionKey::Year(b)) => *a <= *b,
            (PartitionKey::Range(a), PartitionKey::Range(b)) => *a <= *b,
            _ => self.kind_rank() < other.kind_rank(),
        }
    }

    fn kind_rank(&self) -> (r: u8)
        ensures
            r == self.rank(),
    {
        match self {
            PartitionKey::Hour(_) => 0,
            PartitionKey::Day(_) => 1,
            PartitionKey::Month { .. } => 2,
            PartitionKey::Year(_) => 3,
            PartitionKey::Range(_) => 4,
        }
    }
}

} // verus!
