//! The user's configuration: an optional birthday and whether to show the
//! weeks grid.

use vstd::prelude::*;

verus! {

/// What the configuration file holds, each field optional.
#[derive(Clone, Debug)]
pub struct UserConfig {
    /// The birthday as `DD-MM-YYYY`.
    pub birthday: Option<String>,
    /// Whether to show the weeks grid; shown when unset.
    pub show_weeks: Option<bool>,
}

impl UserConfig {
    /// The weeks grid is shown unless the configuration turns it off.
    pub open spec fn shows_weeks_spec(&self) -> bool {
        match self.show_weeks {
            Some(b) => b,
            None => true,
        }
    }

    /// The configuration used when there is no configuration file: no
    /// birthday, and the weeks grid shown.
    pub open spec fn absent_spec() -> UserConfig {
        UserConfig { birthday: None, show_weeks: Some(true) }
    }

    /// The configuration in use, given what the configuration file held.
    pub open spec fn found_or_absent_spec(found: Option<UserConfig>) -> UserConfig {
        match found {
            Some(c) => c,
            None => UserConfig::absent_spec(),
        }
    }

    /// The configuration used when there is no configuration file.
    pub fn absent() -> (r: UserConfig)
        ensures
            r == UserConfig::absent_spec(),
    {
        UserConfig { birthday: None, show_weeks: Some(true) }
    }

    /// The configuration read from the file if there was one, else the
    /// configuration for an absent file.
    pub fn found_or_absent(found: Option<UserConfig>) -> (r: UserConfig)
        ensures
            r == UserConfig::found_or_absent_spec(found),
    {
        match found {
            Some(c) => c,
            None => UserConfig::absent(),
        }
    }

    /// The user has to be asked for a birthday.
    pub fn needs_birthday(&self) -> (r: bool)
        ensures
            r == self.birthday is None,
    {
        self.birthday.is_none()
    }

    /// Keeps the answer to the birthday question, where no birthday was set.
    pub fn fill_birthday(&mut self, answer: String)
        ensures
            old(self).birthday is None ==> final(self).birthday == Some(answer),
            old(self).birthday is Some ==> final(self).birthday == old(self).birthday,
            final(self).show_weeks == old(self).show_weeks,
    {
        if self.birthday.is_none() {
            self.birthday = Some(answer);
        }
    }

    /// Whether the weeks grid is shown.
    pub fn shows_weeks(&self) -> (r: bool)
        ensures
            r == self.shows_weeks_spec(),
    {
        match self.show_weeks {
            Some(b) => b,
            None => true,
        }
    }
}

/// Without a configuration file the user is asked for a birthday and the
/// weeks grid is shown.
pub proof fn lemma_absent_config_prompts_and_shows_weeks()
    ensures
        UserConfig::found_or_absent_spec(None).birthday is None,
        UserConfig::found_or_absent_spec(None).shows_weeks_spec(),
{
}

} // verus!
