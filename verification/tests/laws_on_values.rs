use game_tracker::clock::{limit_from_parts, limit_hours, limit_minutes};
use game_tracker::ledger::GameTimes;
use game_tracker::text::{is_white_space, trim};
use game_tracker::tracker::{apply_tick, handle_notifications};
use game_tracker::{config_file_path, format_time, save_file_path, Config, GameConfig, TrackerState};

fn strings(v: &[&str]) -> Vec<String> {
    v.iter().map(|s| s.to_string()).collect()
}

#[test]
fn white_space_agrees_with_std_for_every_char() {
    for u in 0u32..0x110000 {
        if let Some(c) = char::from_u32(u) {
            assert_eq!(is_white_space(c), c.is_whitespace(), "U+{:04X}", u);
        }
    }
}

#[test]
fn trim_agrees_with_std_on_mixed_texts() {
    let samples = [
        " a ", "\u{2028}x\u{2029}", "\u{200b}x\u{200b}", "\u{180e}y", "z\u{85}", "\t\r\n",
        "mid dle", "\u{feff}bom", "\u{a0}\u{1680}q\u{202f}\u{205f}",
    ];
    for s in samples {
        assert_eq!(trim(s), s.trim(), "{:?}", s);
    }
}

#[test]
fn time_fields_add_back_up() {
    for t in [0u64, 1, 59, 60, 3599, 3600, 3661, 86399, 123456789] {
        let text = format_time(t);
        let parts: Vec<u64> = text.split(':').map(|p| p.parse().unwrap()).collect();
        assert_eq!(parts.len(), 3);
        assert!(parts[1] < 60 && parts[2] < 60);
        assert_eq!(parts[0] * 3600 + parts[1] * 60 + parts[2], t);
    }
}

#[test]
fn limit_split_round_trips_at_the_edges() {
    for (h, m) in [(0u32, 0u32), (24, 59), (u32::MAX, 59), (1, 0)] {
        let limit = limit_from_parts(h, m);
        assert_eq!(limit_hours(limit), h);
        assert_eq!(limit_minutes(limit), m);
    }
}

#[test]
fn adding_a_name_twice_is_adding_it_once() {
    let mut once = Config::default();
    once.add_game("Chrome", 1, 0);
    let mut twice = Config::default();
    twice.add_game("Chrome", 1, 0);
    twice.add_game(" CHROME ", 3, 30);
    assert_eq!(once, twice);
}

#[test]
fn added_names_stay_unique() {
    let mut c = Config::default();
    for name in ["a", "A", " a", "b", "B ", "c", "a"] {
        c.add_game(name, 0, 1);
    }
    let names: Vec<&str> = c.games.iter().map(|g| g.name.as_str()).collect();
    assert_eq!(names, vec!["a", "b", "c"]);
}

#[test]
fn reset_then_tick_leaves_one_interval() {
    let mut state = TrackerState::new("d".to_string());
    state.times.insert("chrome".to_string(), 4000);
    state.reset_game("chrome".to_string());
    let mut notified = GameTimes::new();
    let cfg = Config { games: vec![], reminder_interval_mins: 1 };
    apply_tick(&mut state, &mut notified, &cfg, strings(&["chrome"]), 5, &"d".to_string());
    assert_eq!(state.times.get("chrome"), Some(5));
}

#[test]
fn reminder_waits_for_the_whole_interval() {
    let mut state = TrackerState::new("d".to_string());
    let mut notified = GameTimes::new();
    let cfg = Config {
        games: vec![GameConfig { name: "chrome".to_string(), limit_seconds: 5 }],
        reminder_interval_mins: 2,
    };
    let mut alerted_at = Vec::new();
    for _ in 0..60 {
        let out = apply_tick(&mut state, &mut notified, &cfg, strings(&["chrome"]), 5, &"d".to_string());
        if !out.alerts.is_empty() {
            alerted_at.push(state.times.time_of("chrome"));
        }
    }
    assert_eq!(alerted_at, vec![5, 125, 245]);
}

#[test]
fn no_alert_below_the_limit() {
    let mut state = TrackerState::new("d".to_string());
    let mut notified = GameTimes::new();
    let cfg = Config {
        games: vec![GameConfig { name: "chrome".to_string(), limit_seconds: 100 }],
        reminder_interval_mins: 0,
    };
    for _ in 0..19 {
        let out = apply_tick(&mut state, &mut notified, &cfg, strings(&["chrome"]), 5, &"d".to_string());
        assert!(out.alerts.is_empty());
    }
    let out = apply_tick(&mut state, &mut notified, &cfg, strings(&["chrome"]), 5, &"d".to_string());
    assert_eq!(out.alerts.len(), 1);
}

#[test]
fn fixed_rule_never_alerts_below_fifteen_seconds() {
    let mut notified = GameTimes::new();
    let g = "x".to_string();
    for t in 0..15 {
        assert!(!handle_notifications(&g, t, &mut notified));
    }
    assert!(notified.is_empty());
}

#[test]
fn the_two_data_files_differ() {
    for dir in ["", "/", "/opt/tracker", "rel/dir/", "C:\\games"] {
        let a = save_file_path(dir);
        let b = config_file_path(dir);
        assert_ne!(a, b);
        assert!(a.ends_with("playtime.json"));
        assert!(b.ends_with("config.json"));
    }
}

#[test]
fn removing_and_relimiting_keep_names_unique() {
    let mut c = Config::default();
    for name in ["a", "b", "c"] {
        c.add_game(name, 0, 1);
    }
    c.set_limit(1, 2, 0);
    c.remove_game(0);
    c.add_game("A", 0, 1);
    let names: Vec<&str> = c.games.iter().map(|g| g.name.as_str()).collect();
    assert_eq!(names, vec!["b", "c", "a"]);
    assert_eq!(c.games[0].limit_seconds, 7200);
}
