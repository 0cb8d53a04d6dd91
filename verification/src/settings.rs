//! The settings window's decisions: the add-game form and when to reload
//! the two files.

use vstd::prelude::*;
use crate::config::{Config, games_after_add, game_views, has_name};
use crate::text::{normalize_game_name, normalized_name, trim, trim_text};

verus! {

/// Seconds between two reloads of the files by the settings window.
pub const REFRESH_INTERVAL_SECONDS: u64 = 5;

/// Whether the window should reload the files, `elapsed_millis` after the
/// last reload.
pub fn is_refresh_due(elapsed_millis: u128) -> (due: bool)
    ensures
        due == (elapsed_millis >= REFRESH_INTERVAL_SECONDS * 1000),
        due == (elapsed_millis >= 5000),
{
    elapsed_millis >= 5000
}

/// The add-game form: the typed process name and the daily limit.
pub struct NewGameForm {
    pub name: String,
    pub limit_hours: u32,
    pub limit_minutes: u32,
}

impl NewGameForm {
    /// An empty form with a limit of two hours.
    pub fn new() -> (form: NewGameForm)
        ensures
            form.name@ == Seq::<char>::empty(),
            form.limit_hours == 2,
            form.limit_minutes == 0,
    {
        NewGameForm { name: String::new(), limit_hours: 2, limit_minutes: 0 }
    }

    /// Whether the typed name, once normalized, is already tracked.
    pub fn is_duplicate(&self, config: &Config) -> (dup: bool)
        ensures
            dup == has_name(config.games@, normalized_name(self.name@)),
    {
        let name = normalize_game_name(self.name.as_str());
        config.has_game(&name)
    }

    /// Whether the Add button is enabled: the normalized name is not empty
    /// and not tracked yet.
    pub fn can_add(&self, config: &Config) -> (ok: bool)
        ensures
            ok == (trim_text(self.name@).len() > 0 && !has_name(
                config.games@,
                normalized_name(self.name@),
            )),
    {
        let name = normalize_game_name(self.name.as_str());
        !name.as_str().is_empty() && !config.has_game(&name)
    }

    /// Whether the window warns that the game is already tracked: the typed
    /// name is not blank and, normalized, is tracked.
    pub fn shows_duplicate_warning(&self, config: &Config) -> (warn: bool)
        ensures
            warn == (has_name(config.games@, normalized_name(self.name@)) && trim_text(
                self.name@,
            ).len() > 0),
    {
        let dup = self.is_duplicate(config);
        let trimmed = trim(self.name.as_str());
        dup && !trimmed.as_str().is_empty()
    }

    /// Adds the game of the form to `config` (see `Config::add_game`) and,
    /// when it was added, empties the typed name.
    pub fn submit(&mut self, config: &mut Config) -> (added: bool)
        ensures
            game_views(final(config).games@) == games_after_add(
                game_views(old(config).games@),
                old(self).name@,
                old(self).limit_hours,
                old(self).limit_minutes,
            ),
            final(config).reminder_interval_mins == old(config).reminder_interval_mins,
            added == (game_views(final(config).games@) != game_views(old(config).games@)),
            added ==> final(self).name@ == Seq::<char>::empty(),
            !added ==> final(self).name@ == old(self).name@,
            final(self).limit_hours == old(self).limit_hours,
            final(self).limit_minutes == old(self).limit_minutes,
    {
        let added = config.add_game(self.name.as_str(), self.limit_hours, self.limit_minutes);
        if added {
            self.name = String::new();
        }
        added
    }
}

} // verus!
