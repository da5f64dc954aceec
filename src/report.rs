//! Everything shown about a life, computed from the configuration and the
//! age in days.

use crate::calendar::Date;
use crate::config::UserConfig;
use crate::lifespan::{
    age_in_days, age_in_years, age_in_years_spec, age_spec, lived_weeks, lived_weeks_spec,
    summarize, trimmed, LifeSummary, EXPECTED_DAYS,
};
use crate::parse::{parse_result, DateError};
use crate::weeks::{is_week_grid, week_grid};
use vstd::prelude::*;

verus! {

/// Why no report can be made.
#[derive(Clone, Copy, Debug, PartialEq, Eq, Structural)]
pub enum LifeError {
    /// The configuration holds no birthday.
    MissingBirthday,
    /// The birthday is not a `DD-MM-YYYY` calendar date.
    BadBirthday(DateError),
}

/// What is shown about a life.
#[derive(Clone, Debug)]
pub struct LifeReport {
    /// Whole years of age, counted in weeks.
    pub age_in_years: i32,
    /// What remains of the expected lifespan.
    pub summary: LifeSummary,
    /// The weeks grid, or `None` where the configuration hides it.
    pub weeks: Option<Vec<Vec<bool>>>,
}

/// Ages in days that the report's arithmetic can hold.
pub open spec fn age_fits(age_in_days: int) -> bool {
    EXPECTED_DAYS - age_in_days <= i32::MAX
}

/// `r` is the report for a life `age_in_days` old under `config`.
pub open spec fn is_report(r: LifeReport, config: UserConfig, age_in_days: int) -> bool {
    &&& r.age_in_years == age_in_years_spec(age_in_days)
    &&& r.summary == LifeSummary::of(EXPECTED_DAYS as int, age_in_days)
    &&& r.weeks is Some <==> config.shows_weeks_spec()
    &&& r.weeks is Some ==> is_week_grid(r.weeks->Some_0@, lived_weeks_spec(age_in_days))
}

/// The report for a life `age_in_days` old under `config`.
pub fn build_report(config: &UserConfig, age_in_days: i32) -> (r: LifeReport)
    requires
        age_fits(age_in_days as int),
    ensures
        is_report(r, *config, age_in_days as int),
{
    let weeks = if config.shows_weeks() {
        Some(week_grid(lived_weeks(age_in_days)))
    } else {
        None
    };
    LifeReport {
        age_in_years: age_in_years(age_in_days),
        summary: summarize(EXPECTED_DAYS, age_in_days),
        weeks,
    }
}

/// The report for the configured birthday, aged to today's date on the
/// local clock.
pub fn life_report(config: &UserConfig) -> (r: Result<LifeReport, LifeError>)
    ensures
        config.birthday is None ==> r == Err::<LifeReport, LifeError>(LifeError::MissingBirthday),
        config.birthday is Some ==> ({
            let parsed = parse_result(trimmed(config.birthday->Some_0@));
            &&& parsed is Err ==> r == Err::<LifeReport, LifeError>(
                LifeError::BadBirthday(parsed->Err_0),
            )
            &&& parsed is Ok ==> r is Ok && exists|today: Date|
                today.wf() && is_report(r->Ok_0, *config, age_spec(parsed->Ok_0, today))
        }),
{
    match &config.birthday {
        None => Err(LifeError::MissingBirthday),
        Some(birthday) => match age_in_days(birthday.as_str()) {
            Err(e) => Err(LifeError::BadBirthday(e)),
            Ok(age) => Ok(build_report(config, age)),
        },
    }
}

/// A configuration that sets `show_weeks` to false leaves the weeks grid out
/// of the report.
pub proof fn lemma_show_weeks_false_omits_grid(r: LifeReport, config: UserConfig, age_in_days: int)
    requires
        config.show_weeks == Some(false),
        is_report(r, config, age_in_days),
    ensures
        r.weeks is None,
{
}

} // verus!
