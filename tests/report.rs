use yliw::config::UserConfig;
use yliw::parse::DateError;
use yliw::report::{build_report, life_report, LifeError};
use yliw::weeks::{week_grid, GRID_COLUMNS, GRID_ROWS};

#[test]
fn week_grid_marks_lived_weeks_row_major() {
    let grid = week_grid(200);
    assert_eq!(grid.len(), GRID_ROWS);
    assert!(grid.iter().all(|row| row.len() == GRID_COLUMNS));
    assert!(grid[0][0] && grid[0][155]);
    assert!(grid[1][43]);
    assert!(!grid[1][44]);
    assert!(!grid[29][155]);
    assert_eq!(grid.iter().flatten().filter(|c| **c).count(), 200);
}

#[test]
fn week_grid_edges() {
    assert!(week_grid(0).iter().flatten().all(|c| !*c));
    assert!(week_grid(30 * 156).iter().flatten().all(|c| *c));
}

#[test]
fn absent_config_prompts_and_shows_weeks() {
    let c = UserConfig::found_or_absent(None);
    assert!(c.needs_birthday());
    assert!(c.shows_weeks());
    assert_eq!(c.show_weeks, Some(true));
}

#[test]
fn found_config_is_used_as_is() {
    let found = UserConfig { birthday: Some("01-01-1990".to_string()), show_weeks: None };
    let c = UserConfig::found_or_absent(Some(found));
    assert!(!c.needs_birthday());
    assert!(c.shows_weeks());
}

#[test]
fn fill_birthday_only_where_missing() {
    let mut c = UserConfig::absent();
    c.fill_birthday("21-12-2021".to_string());
    assert_eq!(c.birthday.as_deref(), Some("21-12-2021"));
    c.fill_birthday("01-01-2000".to_string());
    assert_eq!(c.birthday.as_deref(), Some("21-12-2021"));
    assert_eq!(c.show_weeks, Some(true));
}

#[test]
fn show_weeks_false_omits_the_grid() {
    let c = UserConfig { birthday: None, show_weeks: Some(false) };
    assert!(!c.shows_weeks());
    let r = build_report(&c, 12053);
    assert!(r.weeks.is_none());
}

#[test]
fn report_holds_age_summary_and_grid() {
    let c = UserConfig::absent();
    let r = build_report(&c, 12053);
    assert_eq!(r.age_in_years, 33);
    assert_eq!(r.summary.remaining_days, 32850 - 12053);
    assert_eq!(r.summary.remaining_years, 56);
    assert_eq!(r.summary.remaining_weeks, 56 * 52);
    let grid = r.weeks.unwrap();
    assert_eq!(grid.iter().flatten().filter(|c| **c).count(), 12053 / 7);
}

#[test]
fn life_report_needs_a_good_birthday() {
    assert_eq!(life_report(&UserConfig::absent()).err(), Some(LifeError::MissingBirthday));
    let bad = UserConfig { birthday: Some("2021-12-21".to_string()), show_weeks: None };
    assert_eq!(life_report(&bad).err(), Some(LifeError::BadBirthday(DateError::Malformed)));
    let good = UserConfig { birthday: Some(" 21-12-2021 ".to_string()), show_weeks: Some(false) };
    let r = life_report(&good).unwrap();
    assert!(r.weeks.is_none());
    assert!(r.summary.remaining_days < 32850);
}
