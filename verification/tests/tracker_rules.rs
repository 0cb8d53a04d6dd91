use game_tracker::ledger::GameTimes;
use game_tracker::tracker::{
    apply_tick, check_fixed_tick_fits, check_tick_fits, fixed_tick, handle_daily_reset,
    handle_notifications, limit_alert_body, over_limit_alert_body, running_games, tracker_step,
    POLL_INTERVAL_SECONDS,
};
use game_tracker::{Config, GameConfig, TrackerState};

fn strings(v: &[&str]) -> Vec<String> {
    v.iter().map(|s| s.to_string()).collect()
}

fn config(games: &[(&str, u64)], mins: u64) -> Config {
    Config {
        games: games
            .iter()
            .map(|(n, l)| GameConfig { name: n.to_string(), limit_seconds: *l })
            .collect(),
        reminder_interval_mins: mins,
    }
}

fn alert_names(alerts: &[game_tracker::tracker::Alert]) -> Vec<String> {
    alerts.iter().map(|a| a.game_name.clone()).collect()
}

#[test]
fn partial_process_names_match_case_insensitively() {
    let procs = strings(&["EldenRing.exe", "explorer.exe", "chrome.exe", "Google Chrome"]);
    let cands = strings(&["eldenring", "chrome", "stellaris"]);
    let mut running = running_games(&procs, &cands);
    running.sort();
    assert_eq!(running, strings(&["chrome", "eldenring"]));
}

#[test]
fn running_games_lists_each_name_once() {
    let procs = strings(&["chrome.exe", "chrome.exe"]);
    let cands = strings(&["chrome", "chrome"]);
    assert_eq!(running_games(&procs, &cands), strings(&["chrome"]));
    assert!(running_games(&strings(&[]), &cands).is_empty());
    assert!(running_games(&procs, &strings(&[])).is_empty());
}

#[test]
fn uppercase_game_names_never_match_lowercased_processes() {
    let procs = strings(&["CHROME.EXE"]);
    assert!(running_games(&procs, &strings(&["CHROME"])).is_empty());
}

#[test]
fn a_tick_adds_the_poll_interval_to_running_games_only() {
    let mut state = TrackerState::new("2024-05-01".to_string());
    state.times.insert("stellaris".to_string(), 100);
    state.times.insert("idle".to_string(), 7);
    let mut notified = GameTimes::new();
    let cfg = config(&[("stellaris", 0), ("deadcells", 0)], 1);
    let today = "2024-05-01".to_string();
    let out = apply_tick(&mut state, &mut notified, &cfg, strings(&["stellaris", "deadcells"]), 5, &today);
    assert!(out.data_changed);
    assert!(out.alerts.is_empty());
    assert_eq!(state.times.get("stellaris"), Some(105));
    assert_eq!(state.times.get("deadcells"), Some(5));
    assert_eq!(state.times.get("idle"), Some(7));
    let out = apply_tick(&mut state, &mut notified, &cfg, strings(&[]), 5, &today);
    assert!(!out.data_changed);
    assert_eq!(state.times.get("stellaris"), Some(105));
}

#[test]
fn alerts_at_the_limit_then_after_each_reminder_interval() {
    let mut state = TrackerState::new("2024-05-01".to_string());
    let mut notified = GameTimes::new();
    let cfg = config(&[("chrome", 10)], 1);
    let today = "2024-05-01".to_string();
    let running = strings(&["chrome"]);
    let mut alert_times = Vec::new();
    for _ in 0..40 {
        let out = apply_tick(&mut state, &mut notified, &cfg, running.clone(), 5, &today);
        if !out.alerts.is_empty() {
            assert_eq!(out.alerts[0].limit_seconds, 10);
            alert_times.push(state.times.time_of("chrome"));
        }
    }
    assert_eq!(alert_times, vec![10, 70, 130, 190]);
    assert_eq!(notified.get("chrome"), Some(190));
}

#[test]
fn no_alerts_without_a_limit_or_for_untracked_games() {
    let mut state = TrackerState::new("d".to_string());
    state.times.insert("chrome".to_string(), 1000);
    let mut notified = GameTimes::new();
    let cfg = config(&[("chrome", 0)], 1);
    let today = "d".to_string();
    let out = apply_tick(&mut state, &mut notified, &cfg, strings(&["chrome", "other"]), 5, &today);
    assert!(out.alerts.is_empty());
    assert!(notified.is_empty());
    assert_eq!(state.times.get("other"), Some(5));
}

#[test]
fn a_new_day_forgets_earlier_alerts() {
    let mut state = TrackerState::new("2024-05-01".to_string());
    state.times.insert("chrome".to_string(), 100);
    let mut notified = GameTimes::new();
    notified.insert("chrome".to_string(), 100);
    let cfg = config(&[("chrome", 10)], 60);
    let out = apply_tick(&mut state, &mut notified, &cfg, strings(&["chrome"]), 5, &"2024-05-01".to_string());
    assert!(out.alerts.is_empty());
    let out = apply_tick(&mut state, &mut notified, &cfg, strings(&["chrome"]), 5, &"2024-05-02".to_string());
    assert_eq!(alert_names(&out.alerts), strings(&["chrome"]));
    assert_eq!(notified.get("chrome"), Some(110));
    assert_eq!(state.date, "2024-05-01");
}

#[test]
fn after_a_reset_the_reminder_waits_for_the_interval() {
    let mut state = TrackerState::new("d".to_string());
    let mut notified = GameTimes::new();
    notified.insert("chrome".to_string(), 500);
    let cfg = config(&[("chrome", 5)], 1);
    let today = "d".to_string();
    state.reset_game("chrome".to_string());
    let out = apply_tick(&mut state, &mut notified, &cfg, strings(&["chrome"]), 5, &today);
    assert_eq!(state.times.get("chrome"), Some(5));
    assert!(out.alerts.is_empty());
}

#[test]
fn zero_reminder_interval_alerts_every_tick() {
    let mut state = TrackerState::new("d".to_string());
    let mut notified = GameTimes::new();
    let cfg = config(&[("chrome", 5)], 0);
    let today = "d".to_string();
    for _ in 0..3 {
        let out = apply_tick(&mut state, &mut notified, &cfg, strings(&["chrome"]), 5, &today);
        assert_eq!(out.alerts.len(), 1);
    }
}

#[test]
fn overflowing_ticks_are_detected() {
    let mut state = TrackerState::new("d".to_string());
    state.times.insert("chrome".to_string(), u64::MAX - 2);
    let cfg = config(&[("chrome", 0)], 1);
    assert!(!check_tick_fits(&state, &cfg, &strings(&["chrome"]), 5));
    assert!(check_tick_fits(&state, &cfg, &strings(&["chrome"]), 2));
    assert!(check_tick_fits(&state, &cfg, &strings(&["other"]), 5));
    let big = config(&[("chrome", 1)], u64::MAX);
    let fresh = TrackerState::new("d".to_string());
    assert!(!check_tick_fits(&fresh, &big, &strings(&["chrome"]), 5));
    assert!(check_tick_fits(&fresh, &big, &strings(&["other"]), 5));
    let mut notified = GameTimes::new();
    let mut s = fresh.clone();
    assert!(tracker_step(&mut s, &mut notified, &big, &strings(&["chrome.exe"]), 5, &"d".to_string()).is_none());
    assert!(s.times.is_empty());
}

#[test]
fn tracker_step_finds_games_and_alerts() {
    let today = "2024-05-01".to_string();
    let mut state = TrackerState::new(today.clone());
    state.times.insert("stellaris".to_string(), 10);
    let mut notified = GameTimes::new();
    let cfg = config(&[("stellaris", 15), ("chrome", 0)], 1);
    let procs = strings(&["Stellaris.exe", "notepad.exe"]);
    let out = tracker_step(&mut state, &mut notified, &cfg, &procs, POLL_INTERVAL_SECONDS, &today).unwrap();
    assert!(out.data_changed);
    assert_eq!(alert_names(&out.alerts), strings(&["stellaris"]));
    assert_eq!(state.times.get("stellaris"), Some(15));
    assert_eq!(state.times.get("chrome"), None);
    let out = tracker_step(&mut state, &mut notified, &cfg, &strings(&["notepad.exe"]), 5, &today).unwrap();
    assert_eq!(out.running.len(), 0);
    assert!(!out.data_changed);
    assert!(out.alerts.is_empty());
    let out = tracker_step(&mut state, &mut notified, &cfg, &procs, 5, &today).unwrap();
    assert!(out.alerts.is_empty());
    let out = tracker_step(&mut state, &mut notified, &cfg, &procs, 5, &"2024-05-02".to_string()).unwrap();
    assert_eq!(alert_names(&out.alerts), strings(&["stellaris"]));
    assert_eq!(out.running, strings(&["stellaris"]));
}

#[test]
fn fixed_rule_alerts_at_fifteen_then_every_thirty_seconds() {
    let mut notified = GameTimes::new();
    let g = "deadcells".to_string();
    let mut alerts = Vec::new();
    for t in (5..=100).step_by(5) {
        if handle_notifications(&g, t, &mut notified) {
            alerts.push(t);
        }
    }
    assert_eq!(alerts, vec![15, 45, 75]);
    assert_eq!(notified.get("deadcells"), Some(75));
}

#[test]
fn daily_reset_clears_everything_on_a_new_date() {
    let mut state = TrackerState::new("2024-05-01".to_string());
    state.times.insert("x".to_string(), 5);
    let mut notified = GameTimes::new();
    notified.insert("x".to_string(), 5);
    assert!(!handle_daily_reset(&mut state, &mut notified, "2024-05-01".to_string()));
    assert_eq!(state.times.get("x"), Some(5));
    assert_eq!(notified.get("x"), Some(5));
    assert!(handle_daily_reset(&mut state, &mut notified, "2024-05-02".to_string()));
    assert_eq!(state.date, "2024-05-02");
    assert!(state.times.is_empty());
    assert!(notified.is_empty());
}

#[test]
fn fixed_tick_adds_time_and_alerts_on_the_fixed_rule() {
    let mut state = TrackerState::new("d".to_string());
    state.times.insert("idle".to_string(), 3);
    let mut notified = GameTimes::new();
    let running = strings(&["chrome", "stellaris"]);
    let mut alerts = Vec::new();
    for _ in 0..10 {
        assert!(check_fixed_tick_fits(&state, &notified, &running, 5));
        let tick = fixed_tick(&mut state, &mut notified, &running, 5);
        assert!(tick.data_changed);
        assert_eq!(tick.entries.len(), 2);
        assert_eq!(tick.entries[0].game_name, "chrome");
        assert_eq!(tick.entries[1].game_name, "stellaris");
        assert_eq!(tick.entries[0].total_seconds, tick.entries[1].total_seconds);
        if tick.entries[0].alert {
            alerts.push(tick.entries[0].total_seconds);
        }
    }
    assert_eq!(alerts, vec![15, 45]);
    assert_eq!(state.times.get("chrome"), Some(50));
    assert_eq!(state.times.get("idle"), Some(3));
    assert_eq!(notified.get("stellaris"), Some(45));
    let tick = fixed_tick(&mut state, &mut notified, &strings(&[]), 5);
    assert!(!tick.data_changed);
    assert!(tick.entries.is_empty());
}

#[test]
fn fixed_tick_overflows_are_detected() {
    let mut state = TrackerState::new("d".to_string());
    state.times.insert("a".to_string(), u64::MAX - 1);
    let mut notified = GameTimes::new();
    assert!(!check_fixed_tick_fits(&state, &notified, &strings(&["a"]), 5));
    state.times.insert("a".to_string(), 20);
    notified.insert("a".to_string(), 100);
    assert!(!check_fixed_tick_fits(&state, &notified, &strings(&["a"]), 5));
    assert!(check_fixed_tick_fits(&state, &notified, &strings(&["b"]), 5));
}

#[test]
fn alert_texts_name_the_game() {
    assert_eq!(limit_alert_body("chrome"), "You've hit your limit for chrome. Time to wrap up!");
    assert_eq!(over_limit_alert_body("chrome"), "You're over your limit for chrome. Time to wrap up!");
}
