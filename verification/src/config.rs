//! The settings the window edits and the tracker reads: the tracked games
//! with their daily limits, and the reminder interval.

use vstd::prelude::*;
use crate::text::{normalize_game_name, normalized_name, trim_text};
use crate::clock::{limit_from_parts, limit_seconds_of};

verus! {

/// One tracked game: the text its process name must contain, and its daily
/// limit in seconds (0 means no limit).
#[derive(Clone, Debug, PartialEq, Eq)]
pub struct GameConfig {
    pub name: String,
    pub limit_seconds: u64,
}

impl View for GameConfig {
    type V = (Seq<char>, u64);

    open spec fn view(&self) -> (Seq<char>, u64) {
        (self.name@, self.limit_seconds)
    }
}

/// The tracked games and how many minutes pass between reminders once a
/// game is over its limit.
#[derive(Clone, Debug, PartialEq, Eq)]
pub struct Config {
    pub games: Vec<GameConfig>,
    pub reminder_interval_mins: u64,
}

/// The reminder interval a settings file without one gets: one minute.
pub fn default_reminder_interval_mins() -> (mins: u64)
    ensures
        mins == 1,
{
    1
}

impl Default for Config {
    /// No games, and a reminder every minute.
    fn default() -> (res: Config)
        ensures
            res.games@.len() == 0,
            res.reminder_interval_mins == 1,
    {
        Config { games: Vec::new(), reminder_interval_mins: 1 }
    }
}

/// The (name, limit) views of a list of games.
pub open spec fn game_views(games: Seq<GameConfig>) -> Seq<(Seq<char>, u64)> {
    games.map_values(|g: GameConfig| g@)
}

/// Whether some game in the list has this name.
pub open spec fn has_name(games: Seq<GameConfig>, name: Seq<char>) -> bool {
    exists|i: int| 0 <= i < games.len() && #[trigger] games[i].name@ == name
}

/// The limit of the first game of the list with this name, if any.
pub open spec fn config_limit(games: Seq<GameConfig>, name: Seq<char>) -> Option<u64>
    decreases games.len(),
{
    if games.len() == 0 {
        None
    } else if games[0].name@ == name {
        Some(games[0].limit_seconds)
    } else {
        config_limit(games.drop_first(), name)
    }
}

/// The games after adding the name `raw` typed with a limit of `hours` and
/// `minutes`: the normalized name is added at the end unless it is empty or
/// already tracked.
pub open spec fn games_after_add(
    games: Seq<(Seq<char>, u64)>,
    raw: Seq<char>,
    hours: u32,
    minutes: u32,
) -> Seq<(Seq<char>, u64)> {
    let name = normalized_name(raw);
    if name.len() == 0 || (exists|i: int| 0 <= i < games.len() && #[trigger] games[i].0 == name) {
        games
    } else {
        games.push((name, limit_seconds_of(hours as nat, minutes as nat) as u64))
    }
}

impl Config {
    /// Whether a game with this name is tracked.
    pub fn has_game(&self, name: &String) -> (b: bool)
        ensures
            b == has_name(self.games@, name@),
    {
        let n = self.games.len();
        for i in 0..n
            invariant
                n == self.games@.len(),
                forall|j: int| 0 <= j < i ==> #[trigger] self.games@[j].name@ != name@,
        {
            if self.games[i].name == *name {
                return true;
            }
        }
        false
    }

    /// The limit of the first tracked game with this name, if any.
    pub fn limit_of(&self, name: &String) -> (res: Option<u64>)
        ensures
            res == config_limit(self.games@, name@),
    {
        let n = self.games.len();
        assert(self.games@.skip(0) =~= self.games@);
        for i in 0..n
            invariant
                n == self.games@.len(),
                config_limit(self.games@, name@) == config_limit(self.games@.skip(i as int), name@),
        {
            assert(self.games@.skip(i as int)[0] == self.games@[i as int]);
            assert(self.games@.skip(i as int).drop_first() =~= self.games@.skip(i + 1));
            if self.games[i].name == *name {
                return Some(self.games[i].limit_seconds);
            }
        }
        assert(self.games@.skip(n as int).len() == 0);
        None
    }

    /// The names of the tracked games, in order.
    pub fn game_names(&self) -> (res: Vec<String>)
        ensures
            res@.len() == self.games@.len(),
            forall|i: int| 0 <= i < res@.len() ==> #[trigger] res@[i]@ == self.games@[i].name@,
    {
        let n = self.games.len();
        let mut res: Vec<String> = Vec::new();
        for i in 0..n
            invariant
                n == self.games@.len(),
                res@.len() == i,
                forall|j: int| 0 <= j < i ==> #[trigger] res@[j]@ == self.games@[j].name@,
        {
            res.push(self.games[i].name.clone());
        }
        res
    }

    /// Adds the game typed as `raw_name` with a limit of `hours` and
    /// `minutes`. The name is trimmed and lower-cased; nothing is added when
    /// that leaves it empty or when a game of that name is already tracked.
    /// Returns whether the game was added.
    pub fn add_game(&mut self, raw_name: &str, hours: u32, minutes: u32) -> (added: bool)
        ensures
            game_views(final(self).games@) == games_after_add(
                game_views(old(self).games@),
                raw_name@,
                hours,
                minutes,
            ),
            added == (game_views(final(self).games@) != game_views(old(self).games@)),
            added == (trim_text(raw_name@).len() > 0 && !has_name(
                old(self).games@,
                normalized_name(raw_name@),
            )),
            final(self).reminder_interval_mins == old(self).reminder_interval_mins,
    {
        let name = normalize_game_name(raw_name);
        let ghost views = game_views(self.games@);
        let dup = self.has_game(&name);
        assert(dup == (exists|i: int| 0 <= i < views.len() && #[trigger] views[i].0 == name@)) by {
            if dup {
                let i = choose|i: int| 0 <= i < self.games@.len() && #[trigger] self.games@[i].name@ == name@;
                assert(views[i].0 == name@);
            }
        }
        if name.as_str().is_empty() || dup {
            return false;
        }
        let limit = limit_from_parts(hours, minutes);
        self.games.push(GameConfig { name, limit_seconds: limit });
        assert(game_views(self.games@) =~= views.push((name@, limit)));
        assert(game_views(self.games@).len() != views.len());
        true
    }

    /// Sets the limit of the game at `index` to `hours` and `minutes`.
    pub fn set_limit(&mut self, index: usize, hours: u32, minutes: u32)
        requires
            index < old(self).games@.len(),
        ensures
            game_views(final(self).games@) == game_views(old(self).games@).update(
                index as int,
                (
                    old(self).games@[index as int].name@,
                    limit_seconds_of(hours as nat, minutes as nat) as u64,
                ),
            ),
            final(self).games@.len() == old(self).games@.len(),
            final(self).games@[index as int].name@ == old(self).games@[index as int].name@,
            final(self).games@[index as int].limit_seconds == limit_seconds_of(
                hours as nat,
                minutes as nat,
            ),
            forall|j: int|
                0 <= j < old(self).games@.len() && j != index ==> #[trigger] final(self).games@[j]
                    == old(self).games@[j],
            final(self).reminder_interval_mins == old(self).reminder_interval_mins,
    {
        let name = self.games[index].name.clone();
        let limit = limit_from_parts(hours, minutes);
        self.games.set(index, GameConfig { name, limit_seconds: limit });
        assert(game_views(self.games@) =~= game_views(old(self).games@).update(
            index as int,
            (old(self).games@[index as int].name@, limit),
        ));
    }

    /// Stops tracking the game at `index`.
    pub fn remove_game(&mut self, index: usize)
        requires
            index < old(self).games@.len(),
        ensures
            final(self).games@ == old(self).games@.remove(index as int),
            game_views(final(self).games@) == game_views(old(self).games@).remove(index as int),
            final(self).reminder_interval_mins == old(self).reminder_interval_mins,
    {
        self.games.remove(index);
        assert(game_views(self.games@) =~= game_views(old(self).games@).remove(index as int));
    }
}

/// The settings to use given what the settings file held: the parsed
/// settings, or the defaults when there were none to read.
pub fn load_config(saved: Option<Config>) -> (res: Config)
    ensures
        match saved {
            Some(c) => res == c,
            None => res.games@.len() == 0 && res.reminder_interval_mins == 1,
        },
{
    match saved {
        Some(c) => c,
        None => Config::default(),
    }
}

} // verus!
