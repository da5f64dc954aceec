//! Calendar dates in the proleptic Gregorian calendar, and a day count that
//! orders them.

use chrono::Datelike;
use chrono::NaiveDate;
use vstd::prelude::*;

verus! {

/// Smallest year that chrono's `NaiveDate` represents.
pub const MIN_YEAR: i32 = -262143;

/// Largest year that chrono's `NaiveDate` represents.
pub const MAX_YEAR: i32 = 262142;

/// A calendar date as plain values.
#[derive(Clone, Copy, Debug, PartialEq, Eq, Structural)]
pub struct Date {
    pub year: i32,
    pub month: u32,
    pub day: u32,
}

pub open spec fn is_leap_year(y: int) -> bool {
    (y % 4 == 0 && y % 100 != 0) || y % 400 == 0
}

pub open spec fn days_in_year(y: int) -> int {
    if is_leap_year(y) {
        366
    } else {
        365
    }
}

pub open spec fn days_in_month(y: int, m: int) -> int {
    if m == 2 {
        if is_leap_year(y) {
            29
        } else {
            28
        }
    } else if m == 4 || m == 6 || m == 9 || m == 11 {
        30
    } else {
        31
    }
}

/// Whether (y, m, d) names a day of the Gregorian calendar.
pub open spec fn is_calendar_date(y: int, m: int, d: int) -> bool {
    1 <= m <= 12 && 1 <= d <= days_in_month(y, m)
}

/// Whether chrono can represent a date of year `y`.
pub open spec fn in_chrono_range(y: int) -> bool {
    MIN_YEAR <= y <= MAX_YEAR
}

/// Days of year `y` before the first day of month `m`.
pub open spec fn days_before_month(y: int, m: int) -> int
    decreases m,
{
    if m <= 1 {
        0
    } else {
        days_before_month(y, m - 1) + days_in_month(y, m - 1)
    }
}

/// Days from 1 January of year 0 to 1 January of year `y` (negative before year 0).
pub open spec fn days_before_year(y: int) -> int
    decreases (if y < 0 { -y } else { y }),
{
    if y > 0 {
        days_before_year(y - 1) + days_in_year(y - 1)
    } else if y < 0 {
        days_before_year(y + 1) - days_in_year(y)
    } else {
        0
    }
}

impl Date {
    /// The date is a calendar date that chrono can represent.
    pub open spec fn wf(self) -> bool {
        in_chrono_range(self.year as int) && is_calendar_date(
            self.year as int,
            self.month as int,
            self.day as int,
        )
    }

    /// Days since 1 January of year 0.
    pub open spec fn day_number(self) -> int {
        days_before_year(self.year as int) + days_before_month(self.year as int, self.month as int)
            + self.day - 1
    }

    /// `self` is the same day as `other` or comes before it.
    pub open spec fn on_or_before(self, other: Date) -> bool {
        self.year < other.year || (self.year == other.year && (self.month < other.month || (
        self.month == other.month && self.day <= other.day)))
    }
}

/// Relies on chrono's `NaiveDate::from_ymd_opt`: a date exactly when the
/// values name a Gregorian calendar day in `NaiveDate`'s year range.
#[verifier::external_body]
pub(crate) fn calendar_date(year: i32, month: u32, day: u32) -> (r: Option<Date>)
    ensures
        r == (if in_chrono_range(year as int) && is_calendar_date(
            year as int,
            month as int,
            day as int,
        ) {
            Some(Date { year, month, day })
        } else {
            None
        }),
{
    match NaiveDate::from_ymd_opt(year, month, day) {
        Some(d) => Some(Date { year: d.year(), month: d.month(), day: d.day() }),
        None => None,
    }
}

/// Relies on chrono's `Local::now`, `DateTime::naive_local` and
/// `NaiveDateTime::date`: today's date on the local clock, which is a date
/// that `NaiveDate` represents.
#[verifier::external_body]
pub(crate) fn local_today() -> (r: Date)
    ensures
        r.wf(),
{
    let d = chrono::Local::now().naive_local().date();
    Date { year: d.year(), month: d.month(), day: d.day() }
}

/// Relies on chrono's `NaiveDate::signed_duration_since` and
/// `TimeDelta::num_days`: the signed count of whole days from `earlier` to
/// `later`.
#[verifier::external_body]
pub(crate) fn days_between(later: Date, earlier: Date) -> (r: i64)
    requires
        later.wf(),
        earlier.wf(),
    ensures
        r == later.day_number() - earlier.day_number(),
{
    let l = NaiveDate::from_ymd_opt(later.year, later.month, later.day).expect("a valid date");
    let e = NaiveDate::from_ymd_opt(earlier.year, earlier.month, earlier.day).expect("a valid date");
    l.signed_duration_since(e).num_days()
}

/// Each year adds its own length to the day count.
pub proof fn lemma_days_before_year_step(y: int)
    ensures
        days_before_year(y + 1) == days_before_year(y) + days_in_year(y),
{
    if y < 0 {
        assert(days_before_year(y) == days_before_year(y + 1) - days_in_year(y));
    }
}

proof fn lemma_days_before_year_bounds(y: int)
    ensures
        y >= 0 ==> 365 * y <= days_before_year(y) <= 366 * y,
        y < 0 ==> 366 * y <= days_before_year(y) <= 365 * y,
    decreases (if y < 0 { -y } else { y }),
{
    if y > 0 {
        lemma_days_before_year_bounds(y - 1);
    } else if y < 0 {
        lemma_days_before_year_bounds(y + 1);
    }
}

proof fn lemma_days_before_year_monotone(y1: int, y2: int)
    requires
        y1 < y2,
    ensures
        days_before_year(y1) + days_in_year(y1) <= days_before_year(y2),
    decreases y2 - y1,
{
    lemma_days_before_year_step(y1);
    if y1 + 1 < y2 {
        lemma_days_before_year_monotone(y1 + 1, y2);
    }
}

proof fn lemma_days_before_month_monotone(y: int, m1: int, m2: int)
    requires
        1 <= m1 < m2,
    ensures
        days_before_month(y, m1) + days_in_month(y, m1) <= days_before_month(y, m2),
    decreases m2 - m1,
{
    if m1 + 1 < m2 {
        lemma_days_before_month_monotone(y, m1 + 1, m2);
    }
}

/// A day of the year is one of its `days_in_year` days.
proof fn lemma_day_within_year(y: int, m: int, d: int)
    requires
        is_calendar_date(y, m, d),
    ensures
        0 <= days_before_month(y, m) + d - 1 < days_in_year(y),
{
    reveal_with_fuel(days_before_month, 13);
    lemma_days_before_month_monotone(y, m, 13);
    if m > 1 {
        lemma_days_before_month_monotone(y, 1, m);
    }
}

/// A day number fits comfortably in an `i32`, and so do differences of two.
pub proof fn lemma_day_number_bounds(d: Date)
    requires
        d.wf(),
    ensures
        -96_000_000 <= d.day_number() <= 96_000_000,
{
    lemma_days_before_year_bounds(d.year as int);
    lemma_day_within_year(d.year as int, d.month as int, d.day as int);
}

/// The day count follows the calendar order: a later date never has a
/// smaller day number.
pub proof fn lemma_day_number_monotone(a: Date, b: Date)
    requires
        a.wf(),
        b.wf(),
        a.on_or_before(b),
    ensures
        a.day_number() <= b.day_number(),
{
    let (ya, ma, da) = (a.year as int, a.month as int, a.day as int);
    let (yb, mb, db) = (b.year as int, b.month as int, b.day as int);
    lemma_day_within_year(ya, ma, da);
    lemma_day_within_year(yb, mb, db);
    if ya < yb {
        lemma_days_before_year_monotone(ya, yb);
    } else if ma < mb {
        lemma_days_before_month_monotone(ya, ma, mb);
    }
}

} // verus!
