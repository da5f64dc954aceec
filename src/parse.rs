//! The strict `DD-MM-YYYY` birthday format.

use crate::calendar::{calendar_date, days_in_month, in_chrono_range, is_calendar_date, Date};
use vstd::prelude::*;
use vstd::string::*;

verus! {

/// Why a text is not a birthday.
#[derive(Clone, Copy, Debug, PartialEq, Eq, Structural)]
pub enum DateError {
    /// The text is not two digits, a dash, two digits, a dash and four digits.
    Malformed,
    /// The text has the right shape, but names no day of the calendar.
    NotACalendarDate,
}

pub open spec fn is_digit(c: char) -> bool {
    '0' <= c && c <= '9'
}

pub open spec fn digit_value(c: char) -> int {
    c as int - '0' as int
}

/// What position `j` of a `DD-MM-YYYY` text holds: a dash or a digit.
pub open spec fn position_ok(s: Seq<char>, j: int) -> bool {
    if j == 2 || j == 5 {
        s[j] == '-'
    } else {
        is_digit(s[j])
    }
}

/// `s` has the shape `DD-MM-YYYY`: ten characters, digits and two dashes.
pub open spec fn dmy_shape(s: Seq<char>) -> bool {
    s.len() == 10 && forall|j: int| 0 <= j < 10 ==> #[trigger] position_ok(s, j)
}

pub open spec fn two_digit_value(s: Seq<char>, i: int) -> int {
    10 * digit_value(s[i]) + digit_value(s[i + 1])
}

pub open spec fn day_field(s: Seq<char>) -> int {
    two_digit_value(s, 0)
}

pub open spec fn month_field(s: Seq<char>) -> int {
    two_digit_value(s, 3)
}

pub open spec fn year_field(s: Seq<char>) -> int {
    100 * two_digit_value(s, 6) + two_digit_value(s, 8)
}

/// `s` is a `DD-MM-YYYY` text that names a calendar day.
pub open spec fn names_date(s: Seq<char>) -> bool {
    dmy_shape(s) && is_calendar_date(year_field(s), month_field(s), day_field(s))
}

/// The date that a `DD-MM-YYYY` text names.
pub open spec fn date_of(s: Seq<char>) -> Date {
    Date { year: year_field(s) as i32, month: month_field(s) as u32, day: day_field(s) as u32 }
}

/// What parsing `s` gives.
pub open spec fn parse_result(s: Seq<char>) -> Result<Date, DateError> {
    if !dmy_shape(s) {
        Err(DateError::Malformed)
    } else if !names_date(s) {
        Err(DateError::NotACalendarDate)
    } else {
        Ok(date_of(s))
    }
}

/// `s` has the shape `YYYY-MM-DD`: the same fields in the other order.
pub open spec fn ymd_shape(s: Seq<char>) -> bool {
    &&& s.len() == 10
    &&& s[4] == '-' && s[7] == '-'
    &&& forall|j: int| 0 <= j < 10 && j != 4 && j != 7 ==> is_digit(#[trigger] s[j])
}

/// Every `DD-MM-YYYY` text that names a calendar day parses, to that very
/// day.
pub proof fn lemma_parse_accepts_calendar_dates(s: Seq<char>)
    requires
        dmy_shape(s),
        is_calendar_date(year_field(s), month_field(s), day_field(s)),
    ensures
        parse_result(s) == Ok::<Date, DateError>(date_of(s)),
        date_of(s).year == year_field(s),
        date_of(s).month == month_field(s),
        date_of(s).day == day_field(s),
{
    assert(position_ok(s, 6) && position_ok(s, 7) && position_ok(s, 8) && position_ok(s, 9));
}

/// A `DD-MM-YYYY` text whose month or day is out of range does not parse.
pub proof fn lemma_parse_rejects_out_of_range(s: Seq<char>)
    requires
        dmy_shape(s),
        !(1 <= month_field(s) <= 12) || !(1 <= day_field(s) <= days_in_month(
            year_field(s),
            month_field(s),
        )),
    ensures
        parse_result(s) == Err::<Date, DateError>(DateError::NotACalendarDate),
{
}

/// A date written `YYYY-MM-DD` does not parse.
pub proof fn lemma_parse_rejects_year_first(s: Seq<char>)
    requires
        ymd_shape(s),
    ensures
        parse_result(s) == Err::<Date, DateError>(DateError::Malformed),
{
    assert(is_digit(s[2]));
    assert(!position_ok(s, 2));
}

fn two_digits(s: &str, i: usize) -> (r: u32)
    requires
        i < 9,
        s@.len() == 10,
        is_digit(s@[i as int]),
        is_digit(s@[i + 1]),
    ensures
        r == two_digit_value(s@, i as int),
        r <= 99,
{
    let hi = s.get_char(i) as u32 - '0' as u32;
    let lo = s.get_char(i + 1) as u32 - '0' as u32;
    10 * hi + lo
}

/// Parses a birthday written strictly as `DD-MM-YYYY`.
pub fn parse_date(input: &str) -> (r: Result<Date, DateError>)
    ensures
        r == parse_result(input@),
        r is Ok ==> r->Ok_0.wf(),
{
    let n = input.unicode_len();
    if n != 10 {
        return Err(DateError::Malformed);
    }
    let mut i: usize = 0;
    while i < 10
        invariant
            input@.len() == 10,
            i <= 10,
            forall|j: int| 0 <= j < i ==> #[trigger] position_ok(input@, j),
        decreases 10 - i,
    {
        let c = input.get_char(i);
        let ok = if i == 2 || i == 5 {
            c == '-'
        } else {
            '0' <= c && c <= '9'
        };
        if !ok {
            assert(!position_ok(input@, i as int));
            return Err(DateError::Malformed);
        }
        i = i + 1;
    }
    assert(position_ok(input@, 0) && position_ok(input@, 1) && position_ok(input@, 3));
    assert(position_ok(input@, 4) && position_ok(input@, 6) && position_ok(input@, 7));
    assert(position_ok(input@, 8) && position_ok(input@, 9));
    let day = two_digits(input, 0);
    let month = two_digits(input, 3);
    let year = 100 * two_digits(input, 6) + two_digits(input, 8);
    assert(in_chrono_range(year as int));
    match calendar_date(year as i32, month, day) {
        Some(d) => Ok(d),
        None => Err(DateError::NotACalendarDate),
    }
}

} // verus!
