//! Ages in days, and what remains of an expected lifespan.

use crate::calendar::{days_between, lemma_day_number_bounds, lemma_day_number_monotone, local_today, Date};
use crate::parse::{parse_date, parse_result, DateError};
use vstd::arithmetic::div_mod::{lemma_fundamental_div_mod, lemma_fundamental_div_mod_converse, lemma_mod_pos_bound};
use vstd::prelude::*;

verus! {

/// Years in the assumed lifespan.
pub const EXPECTED_YEARS: i32 = 90;

/// Days counted in each year of the lifespan, leap days ignored.
pub const DAYS_PER_YEAR: i32 = 365;

/// Days in the assumed lifespan.
pub const EXPECTED_DAYS: i32 = EXPECTED_YEARS * DAYS_PER_YEAR;

/// Weeks counted in each year of the lifespan.
pub const WEEKS_PER_YEAR: i32 = 52;

/// Integer division rounding toward zero, as Rust's `/` does.
pub open spec fn div_toward_zero(a: int, b: int) -> int {
    if a >= 0 {
        a / b
    } else {
        -((-a) / b)
    }
}

/// Days from `birthday` to `today`; negative when the birthday is still ahead.
pub open spec fn age_spec(birthday: Date, today: Date) -> int {
    today.day_number() - birthday.day_number()
}

/// Whole years of age, counted as whole weeks divided by 52.
pub open spec fn age_in_years_spec(age_in_days: int) -> int {
    div_toward_zero(div_toward_zero(age_in_days, 7), WEEKS_PER_YEAR as int)
}

/// Whole weeks lived; none before birth.
pub open spec fn lived_weeks_spec(age_in_days: int) -> int {
    if age_in_days < 0 {
        0
    } else {
        age_in_days / 7
    }
}

/// `10000 * age / expected` rounded to the nearest integer, halves upward.
pub open spec fn completion_hundredths_spec(expected_days: int, age_in_days: int) -> int {
    (20000 * age_in_days + expected_days) / (2 * expected_days)
}

/// What `str::trim` leaves of a text: the text without its leading and
/// trailing whitespace, which depends on the text alone.
pub uninterp spec fn trimmed(s: Seq<char>) -> Seq<char>;

/// Relies on `str::trim` to drop surrounding whitespace.
#[verifier::external_body]
fn trim_text(s: &str) -> (r: &str)
    ensures
        r@ == trimmed(s@),
{
    s.trim()
}

/// Days from `birthday` to `today`.
pub fn age_in_days_on(birthday: Date, today: Date) -> (r: i32)
    requires
        birthday.wf(),
        today.wf(),
    ensures
        r == age_spec(birthday, today),
        -200_000_000 <= r <= 200_000_000,
{
    proof {
        lemma_day_number_bounds(birthday);
        lemma_day_number_bounds(today);
    }
    days_between(today, birthday) as i32
}

/// Days from the birthday written in `birthday` (surrounding whitespace
/// ignored) to today's date on the local clock.
pub fn age_in_days(birthday: &str) -> (r: Result<i32, DateError>)
    ensures
        parse_result(trimmed(birthday@)) is Err ==> r == Err::<i32, DateError>(
            parse_result(trimmed(birthday@))->Err_0,
        ),
        parse_result(trimmed(birthday@)) is Ok ==> r is Ok && exists|today: Date|
            today.wf() && r->Ok_0 == age_spec(parse_result(trimmed(birthday@))->Ok_0, today),
        r is Ok ==> -200_000_000 <= r->Ok_0 <= 200_000_000,
{
    let text = trim_text(birthday);
    match parse_date(text) {
        Ok(born) => {
            let today = local_today();
            let age = age_in_days_on(born, today);
            assert(today.wf() && age == age_spec(born, today));
            Ok(age)
        },
        Err(e) => Err(e),
    }
}

/// For a fixed birthday the age never decreases as the current date advances.
pub proof fn lemma_age_monotone(birthday: Date, today: Date, later: Date)
    requires
        birthday.wf(),
        today.wf(),
        later.wf(),
        today.on_or_before(later),
    ensures
        age_spec(birthday, today) <= age_spec(birthday, later),
{
    lemma_day_number_monotone(today, later);
}

fn i64_div_toward_zero(a: i64, b: i64) -> (r: i64)
    requires
        b > 0,
        a > i64::MIN,
    ensures
        r == div_toward_zero(a as int, b as int),
{
    if a >= 0 {
        a / b
    } else {
        -((-a) / b)
    }
}

/// What remains of the expected lifespan, and how much of it is used.
#[derive(Clone, Copy, Debug, PartialEq, Eq, Structural)]
pub struct LifeSummary {
    pub remaining_days: i32,
    pub remaining_years: i32,
    pub remaining_weeks: i32,
    /// Percent of the lifespan lived, in hundredths of a percent.
    pub completion_hundredths: i64,
}

impl LifeSummary {
    /// The summary of a life `age_in_days` into a lifespan of `expected_days`.
    pub open spec fn of(expected_days: int, age_in_days: int) -> LifeSummary {
        let remaining_days = expected_days - age_in_days;
        let remaining_years = div_toward_zero(remaining_days, DAYS_PER_YEAR as int);
        LifeSummary {
            remaining_days: remaining_days as i32,
            remaining_years: remaining_years as i32,
            remaining_weeks: (remaining_years * WEEKS_PER_YEAR) as i32,
            completion_hundredths: completion_hundredths_spec(expected_days, age_in_days) as i64,
        }
    }
}

/// Whole years of age, as whole weeks of age divided by 52.
pub fn age_in_years(age_in_days: i32) -> (r: i32)
    ensures
        r == age_in_years_spec(age_in_days as int),
{
    let weeks = i64_div_toward_zero(age_in_days as i64, 7);
    i64_div_toward_zero(weeks, WEEKS_PER_YEAR as i64) as i32
}

/// Whole weeks lived, for the weeks grid; none before birth.
pub fn lived_weeks(age_in_days: i32) -> (r: usize)
    ensures
        r == lived_weeks_spec(age_in_days as int),
{
    if age_in_days < 0 {
        0
    } else {
        (age_in_days / 7) as usize
    }
}

/// `10000 * age_in_days / expected_days` to the nearest integer, halves
/// upward: the percent of the lifespan lived, with two decimals.
pub fn completion_hundredths(expected_days: i32, age_in_days: i32) -> (r: i64)
    requires
        expected_days > 0,
    ensures
        r == completion_hundredths_spec(expected_days as int, age_in_days as int),
{
    let n: i64 = 20000 * (age_in_days as i64) + expected_days as i64;
    let d: i64 = 2 * (expected_days as i64);
    if n >= 0 {
        n / d
    } else {
        let m: i64 = -n;
        let q: i64 = (m + d - 1) / d;
        proof {
            let x = (m + d - 1) as int;
            lemma_fundamental_div_mod(x, d as int);
            lemma_mod_pos_bound(x, d as int);
            assert(x == q * d + x % (d as int)) by (nonlinear_arith)
                requires
                    x == (d as int) * (x / (d as int)) + x % (d as int),
                    q == x / (d as int),
            ;
            let qi = q as int;
            assert((-qi) * (d as int) == -(qi * (d as int))) by (nonlinear_arith);
            lemma_fundamental_div_mod_converse(n as int, d as int, -qi, qi * (d as int) - m);
        }
        -q
    }
}

/// Remaining days, years and weeks of the lifespan, and the part of it lived.
/// Remaining weeks are counted from remaining whole years, 52 to a year.
pub fn summarize(expected_days: i32, age_in_days: i32) -> (r: LifeSummary)
    requires
        expected_days > 0,
        i32::MIN <= expected_days - age_in_days <= i32::MAX,
    ensures
        r == LifeSummary::of(expected_days as int, age_in_days as int),
        r.remaining_weeks == div_toward_zero(r.remaining_days as int, DAYS_PER_YEAR as int)
            * WEEKS_PER_YEAR,
{
    let remaining_days = expected_days - age_in_days;
    let remaining_years = i64_div_toward_zero(remaining_days as i64, DAYS_PER_YEAR as i64) as i32;
    let remaining_weeks = remaining_years * WEEKS_PER_YEAR;
    LifeSummary {
        remaining_days,
        remaining_years,
        remaining_weeks,
        completion_hundredths: completion_hundredths(expected_days, age_in_days),
    }
}

} // verus!
