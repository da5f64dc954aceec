//! A lifespan visualiser's logic: strict birthday parsing, ages in days
//! against a calendar model, the expected-lifespan summary, the weeks grid
//! and the handling of the user's configuration.

pub mod calendar;
pub mod config;
pub mod lifespan;
pub mod parse;
pub mod report;
pub mod weeks;
