use game_tracker::config::default_reminder_interval_mins;
use game_tracker::settings::{is_refresh_due, NewGameForm};
use game_tracker::{load_config, Config, GameConfig};

fn game(name: &str, limit: u64) -> GameConfig {
    GameConfig { name: name.to_string(), limit_seconds: limit }
}

#[test]
fn default_config_has_no_games_and_one_minute_reminders() {
    let c = Config::default();
    assert!(c.games.is_empty());
    assert_eq!(c.reminder_interval_mins, 1);
    assert_eq!(default_reminder_interval_mins(), 1);
}

#[test]
fn load_config_keeps_parsed_settings_or_uses_defaults() {
    let parsed = Config { games: vec![game("stellaris", 60)], reminder_interval_mins: 7 };
    assert_eq!(load_config(Some(parsed.clone())), parsed);
    assert_eq!(load_config(None), Config::default());
}

#[test]
fn add_game_normalizes_and_rejects_duplicates_and_blanks() {
    let mut c = Config::default();
    assert!(c.add_game("  EldenRing.EXE ", 2, 0));
    assert_eq!(c.games, vec![game("eldenring.exe", 7200)]);
    assert!(!c.add_game("eldenring.exe", 1, 0));
    assert!(!c.add_game("ELDENRING.exe  ", 1, 0));
    assert!(!c.add_game("   ", 1, 0));
    assert!(!c.add_game("", 1, 0));
    assert!(c.add_game("deadcells", 0, 45));
    assert_eq!(c.games, vec![game("eldenring.exe", 7200), game("deadcells", 2700)]);
    assert_eq!(c.reminder_interval_mins, 1);
}

#[test]
fn set_limit_and_remove_game_touch_one_entry() {
    let mut c = Config {
        games: vec![game("a", 1), game("b", 2), game("c", 3)],
        reminder_interval_mins: 5,
    };
    c.set_limit(1, 1, 30);
    assert_eq!(c.games, vec![game("a", 1), game("b", 5400), game("c", 3)]);
    c.remove_game(0);
    assert_eq!(c.games, vec![game("b", 5400), game("c", 3)]);
    assert_eq!(c.reminder_interval_mins, 5);
}

#[test]
fn lookups_take_the_first_game_of_a_name() {
    let c = Config {
        games: vec![game("chrome", 10), game("deadcells", 20), game("chrome", 30)],
        reminder_interval_mins: 1,
    };
    assert!(c.has_game(&"deadcells".to_string()));
    assert!(!c.has_game(&"stellaris".to_string()));
    assert_eq!(c.limit_of(&"chrome".to_string()), Some(10));
    assert_eq!(c.limit_of(&"deadcells".to_string()), Some(20));
    assert_eq!(c.limit_of(&"none".to_string()), None);
    assert_eq!(c.game_names(), vec!["chrome", "deadcells", "chrome"]);
}

#[test]
fn new_game_form_defaults_to_two_hours() {
    let f = NewGameForm::new();
    assert_eq!(f.name, "");
    assert_eq!(f.limit_hours, 2);
    assert_eq!(f.limit_minutes, 0);
}

#[test]
fn new_game_form_submit_adds_and_clears() {
    let mut c = Config::default();
    let mut f = NewGameForm::new();
    f.name = " Stellaris ".to_string();
    f.limit_minutes = 15;
    assert!(f.can_add(&c));
    assert!(!f.is_duplicate(&c));
    assert!(f.submit(&mut c));
    assert_eq!(f.name, "");
    assert_eq!(c.games, vec![game("stellaris", 8100)]);
    f.name = "STELLARIS".to_string();
    assert!(f.is_duplicate(&c));
    assert!(!f.can_add(&c));
    assert!(f.shows_duplicate_warning(&c));
    assert!(!f.submit(&mut c));
    assert_eq!(f.name, "STELLARIS");
    assert_eq!(c.games.len(), 1);
}

#[test]
fn blank_name_cannot_be_added_and_shows_no_warning() {
    let c = Config::default();
    let mut f = NewGameForm::new();
    f.name = "  ".to_string();
    assert!(!f.can_add(&c));
    assert!(!f.shows_duplicate_warning(&c));
}

#[test]
fn refresh_is_due_after_five_seconds() {
    assert!(!is_refresh_due(0));
    assert!(!is_refresh_due(4999));
    assert!(is_refresh_due(5000));
    assert!(is_refresh_due(60000));
}
