//! The proleptic Gregorian calendar, counted from 1970-01-01T00:00:00Z.

use crate::util::text::{padded, show_padded};
use vstd::prelude::*;

verus! {

pub const DAY_SECS: u64 = 86400;

/// Whether `year` has a 29th of February.
pub open spec fn leap(year: int) -> bool {
    (year % 4 == 0 && year % 100 != 0) || year % 400 == 0
}

/// The days of `year`.
pub open spec fn year_days(year: int) -> int {
    if leap(year) {
        366
    } else {
        365
    }
}

/// The days of the month with number `month` (1 to 12) of `year`.
pub open spec fn month_days(year: int, month: int) -> int {
    if month == 2 {
        if leap(year) {
            29
        } else {
            28
        }
    } else if month == 4 || month == 6 || month == 9 || month == 11 {
        30
    } else {
        31
    }
}

/// The days from 1970-01-01 up to the first day of `year`; none before 1970.
pub open spec fn days_before_year(year: int) -> int
    decreases year - 1970,
{
    if year <= 1970 {
        0
    } else {
        days_before_year(year - 1) + year_days(year - 1)
    }
}

/// The days of `year` up to the first day of `month`.
pub open spec fn days_before_month(year: int, month: int) -> int
    decreases month,
{
    if month <= 1 {
        0
    } else {
        days_before_month(year, month - 1) + month_days(year, month - 1)
    }
}

/// A date and a time of day.
#[derive(Clone, Copy, Debug, PartialEq, Eq, Structural)]
pub struct Civil {
    pub year: u64,
    pub month: u64,
    pub day: u64,
    pub hour: u64,
    pub minute: u64,
    pub second: u64,
}

impl Civil {
    /// The date stands in the calendar, in 1970 or later, and the time on the clock.
    pub open spec fn valid(self) -> bool {
        &&& 1970 <= self.year
        &&& 1 <= self.month <= 12
        &&& 1 <= self.day <= month_days(self.year as int, self.month as int)
        &&& self.hour < 24
        &&& self.minute < 60
        &&& self.second < 60
    }

    /// The days from 1970-01-01 to the date.
    pub open spec fn days(self) -> int {
        days_before_year(self.year as int) + days_before_month(
            self.year as int,
            self.month as int,
        ) + self.day - 1
    }

    /// The seconds from 1970-01-01T00:00:00Z to the date and time.
    pub open spec fn epoch(self) -> int {
        self.days() * 86400 + self.hour * 3600 + self.minute * 60 + self.second
    }

    /// `YYYY-MM-DDTHH:MM:SSZ`.
    pub open spec fn iso(self) -> Seq<char> {
        padded(self.year as nat, 4) + "-"@ + padded(self.month as nat, 2) + "-"@ + padded(
            self.day as nat,
            2,
        ) + "T"@ + padded(self.hour as nat, 2) + ":"@ + padded(self.minute as nat, 2) + ":"@
            + padded(self.second as nat, 2) + "Z"@
    }

    /// `YYYY-MM-DDTHH:MM:SSZ`.
    pub fn to_iso(&self) -> (r: String)
        ensures
            r@ == self.iso(),
    {
        let mut r = show_padded(self.year, 4);
        r.append("-");
        r.append(show_padded(self.month, 2).as_str());
        r.append("-");
        r.append(show_padded(self.day, 2).as_str());
        r.append("T");
        r.append(show_padded(self.hour, 2).as_str());
        r.append(":");
        r.append(show_padded(self.minute, 2).as_str());
        r.append(":");
        r.append(show_padded(self.second, 2).as_str());
        r.append("Z");
        r
    }
}

/// Whether `year` has a 29th of February.
pub fn is_leap(year: u64) -> (r: bool)
    ensures
        r == leap(year as int),
{
    (year % 4 == 0 && year % 100 != 0) || year % 400 == 0
}

/// The days of the month with number `month` (1 to 12) of `year`.
pub fn days_in_month(year: u64, month: u64) -> (r: u64)
    ensures
        r == month_days(year as int, month as int),
{
    if month == 2 {
        if is_leap(year) {
            29
        } else {
            28
        }
    } else if month == 4 || month == 6 || month == 9 || month == 11 {
        30
    } else {
        31
    }
}

/// The twelve months fill the year.
pub proof fn lemma_months_fill_year(year: int)
    ensures
        days_before_month(year, 13) == year_days(year),
{
    reveal_with_fuel(days_before_month, 14);
}

/// A later month begins no earlier.
pub proof fn lemma_months_grow(year: int, a: int, b: int)
    requires
        1 <= a < b,
    ensures
        days_before_month(year, a) + month_days(year, a) <= days_before_month(year, b),
    decreases b,
{
    if a < b - 1 {
        lemma_months_grow(year, a, b - 1);
    }
}

/// A later year begins at least one whole year later.
pub proof fn lemma_years_grow(a: int, b: int)
    requires
        1970 <= a < b,
    ensures
        days_before_year(a) + year_days(a) <= days_before_year(b),
    decreases b - a,
{
    if a < b - 1 {
        lemma_years_grow(a, b - 1);
    }
}

/// A year has at least 365 days.
pub proof fn lemma_years_at_least(year: int)
    requires
        1970 <= year,
    ensures
        (year - 1970) * 365 <= days_before_year(year) <= (year - 1970) * 366,
    decreases year - 1970,
{
    if year > 1970 {
        lemma_years_at_least(year - 1);
    }
}

/// The seconds since the epoch tell date and time apart: no two valid dates
/// and times share them.
pub proof fn law_one_civil_time(a: Civil, b: Civil)
    requires
        a.valid(),
        b.valid(),
        a.epoch() == b.epoch(),
    ensures
        a == b,
{
    lemma_split_day(a);
    lemma_split_day(b);
    assert(a.days() == b.days());
    lemma_day_in_year(a);
    lemma_day_in_year(b);
    if a.year < b.year {
        lemma_years_grow(a.year as int, b.year as int);
    } else if b.year < a.year {
        lemma_years_grow(b.year as int, a.year as int);
    }
    if a.month < b.month {
        lemma_months_grow(a.year as int, a.month as int, b.month as int);
    } else if b.month < a.month {
        lemma_months_grow(a.year as int, b.month as int, a.month as int);
    }
}

/// The day number and the time of day can be read off the seconds.
pub proof fn lemma_split_day(c: Civil)
    requires
        c.valid(),
    ensures
        c.epoch() / 86400 == c.days(),
        c.epoch() % 86400 == c.hour * 3600 + c.minute * 60 + c.second,
        c.days() >= 0,
{
    lemma_years_at_least(c.year as int);
    if c.month > 1 {
        lemma_months_grow(c.year as int, 1, c.month as int);
    }
    let t = c.hour * 3600 + c.minute * 60 + c.second;
    assert(0 <= t < 86400);
    let d = c.days();
    assert((d * 86400 + t) / 86400 == d && (d * 86400 + t) % 86400 == t) by (nonlinear_arith)
        requires
            0 <= t < 86400,
            d >= 0,
    ;
}

/// A valid date lies within its year.
pub proof fn lemma_day_in_year(c: Civil)
    requires
        c.valid(),
    ensures
        days_before_year(c.year as int) <= c.days() < days_before_year(c.year as int) + year_days(
            c.year as int,
        ),
{
    lemma_months_fill_year(c.year as int);
    lemma_months_grow(c.year as int, c.month as int, 13);
    if c.month > 1 {
        lemma_months_grow(c.year as int, 1, c.month as int);
    }
}

/// The date and time `secs` seconds after the epoch.
pub open spec fn civil(secs: nat) -> Civil {
    choose|c: Civil| c.valid() && c.epoch() == secs
}

/// Every day lies in some year.
proof fn lemma_year_of(days: int) -> (y: int)
    requires
        0 <= days,
    ensures
        1970 <= y <= 1970 + days,
        days_before_year(y) <= days < days_before_year(y) + year_days(y),
    decreases days,
{
    if days == 0 {
        1970
    } else {
        let y = lemma_year_of(days - 1);
        if days < days_before_year(y) + year_days(y) {
            y
        } else {
            y + 1
        }
    }
}

/// Every day of a year lies in some month.
proof fn lemma_month_of(year: int, days: int, m: int) -> (r: int)
    requires
        1 <= m <= 12,
        days_before_month(year, m) <= days < year_days(year),
    ensures
        m <= r <= 12,
        days_before_month(year, r) <= days < days_before_month(year, r) + month_days(year, r),
    decreases 13 - m,
{
    if days < days_before_month(year, m) + month_days(year, m) {
        m
    } else {
        if m == 12 {
            lemma_months_fill_year(year);
            12
        } else {
            lemma_month_of(year, days, m + 1)
        }
    }
}

/// Every number of seconds is that of some date and time.
pub proof fn lemma_civil(secs: u64)
    ensures
        civil(secs as nat).valid(),
        civil(secs as nat).epoch() == secs,
{
    let days = secs as int / 86400;
    let rest = secs as int % 86400;
    let y = lemma_year_of(days);
    let in_year = days - days_before_year(y);
    let m = lemma_month_of(y, in_year, 1);
    let c = Civil {
        year: y as u64,
        month: m as u64,
        day: (in_year - days_before_month(y, m) + 1) as u64,
        hour: (rest / 3600) as u64,
        minute: (rest % 3600 / 60) as u64,
        second: (rest % 60) as u64,
    };
    assert(rest % 3600 % 60 == rest % 60);
    assert(c.valid());
    assert(c.epoch() == secs);
}

/// The date and time `secs` seconds after 1970-01-01T00:00:00Z.
pub fn civil_of(secs: u64) -> (c: Civil)
    ensures
        c.valid(),
        c.epoch() == secs,
        c == civil(secs as nat),
{
    let mut remaining: u64 = secs;
    let mut year: u64 = 1970;
    let mut len: u64 = DAY_SECS * 365;
    while remaining >= len
        invariant
            1970 <= year,
            len == year_days(year as int) * 86400,
            days_before_year(year as int) * 86400 + remaining == secs,
            (year - 1970) * 31536000 + remaining <= secs,
        decreases remaining,
    {
        remaining -= len;
        year += 1;
        len = if is_leap(year) {
            DAY_SECS * 366
        } else {
            DAY_SECS * 365
        };
    }
    let mut month: u64 = 1;
    let mut month_secs: u64 = days_in_month(year, 1) * DAY_SECS;
    while month < 13 && remaining >= month_secs
        invariant
            1970 <= year,
            1 <= month <= 13,
            month_secs == month_days(year as int, month as int) * 86400,
            (days_before_year(year as int) + days_before_month(year as int, month as int)) * 86400
                + remaining == secs,
            days_before_month(year as int, month as int) * 86400 + remaining < year_days(
                year as int,
            ) * 86400,
        decreases 13 - month,
    {
        remaining -= month_secs;
        month += 1;
        month_secs = days_in_month(year, month) * DAY_SECS;
    }
    proof {
        lemma_months_fill_year(year as int);
    }
    let c = Civil {
        year,
        month,
        day: remaining / 86400 + 1,
        hour: remaining % 86400 / 3600,
        minute: remaining % 3600 / 60,
        second: remaining % 60,
    };
    proof {
        assert(remaining % 86400 % 3600 == remaining % 3600);
        assert(remaining % 3600 % 60 == remaining % 60);
        assert(c.epoch() == secs);
        law_one_civil_time(c, civil(secs as nat));
    }
    c
}

} // verus!
