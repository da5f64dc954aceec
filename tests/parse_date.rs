use yliw::calendar::Date;
use yliw::parse::{parse_date, DateError};

#[test]
fn test_parse_date_valid() {
    let date_str = "21-12-2021";
    let result = parse_date(date_str);
    assert!(result.is_ok());
    assert_eq!(result.unwrap(), Date { year: 2021, month: 12, day: 21 });
}

#[test]
fn test_parse_date_invalid() {
    let date_str = "21-13-2021";
    let result = parse_date(date_str);
    assert!(result.is_err());
}

#[test]
fn test_parse_date_format() {
    let date_str = "2021-12-21";
    let result = parse_date(date_str);
    assert!(result.is_err());
}

#[test]
fn out_of_range_month_is_not_a_calendar_date() {
    assert_eq!(parse_date("21-13-2021"), Err(DateError::NotACalendarDate));
    assert_eq!(parse_date("21-00-2021"), Err(DateError::NotACalendarDate));
}

#[test]
fn year_first_is_malformed() {
    assert_eq!(parse_date("2021-12-21"), Err(DateError::Malformed));
}

#[test]
fn out_of_range_days_are_rejected() {
    assert_eq!(parse_date("00-01-2000"), Err(DateError::NotACalendarDate));
    assert_eq!(parse_date("32-01-2000"), Err(DateError::NotACalendarDate));
    assert_eq!(parse_date("31-04-2021"), Err(DateError::NotACalendarDate));
}

#[test]
fn leap_days_follow_the_gregorian_rule() {
    assert_eq!(parse_date("29-02-2020"), Ok(Date { year: 2020, month: 2, day: 29 }));
    assert_eq!(parse_date("29-02-2000"), Ok(Date { year: 2000, month: 2, day: 29 }));
    assert_eq!(parse_date("29-02-2021"), Err(DateError::NotACalendarDate));
    assert_eq!(parse_date("29-02-1900"), Err(DateError::NotACalendarDate));
}

#[test]
fn loose_shapes_are_malformed() {
    assert_eq!(parse_date(""), Err(DateError::Malformed));
    assert_eq!(parse_date("1-1-2021"), Err(DateError::Malformed));
    assert_eq!(parse_date("01-01-21"), Err(DateError::Malformed));
    assert_eq!(parse_date("21/12/2021"), Err(DateError::Malformed));
    assert_eq!(parse_date(" 21-12-2021"), Err(DateError::Malformed));
    assert_eq!(parse_date("21-12-2021 "), Err(DateError::Malformed));
    assert_eq!(parse_date("2a-12-2021"), Err(DateError::Malformed));
}

#[test]
fn extreme_four_digit_years_parse() {
    assert_eq!(parse_date("01-01-0000"), Ok(Date { year: 0, month: 1, day: 1 }));
    assert_eq!(parse_date("31-12-9999"), Ok(Date { year: 9999, month: 12, day: 31 }));
}
