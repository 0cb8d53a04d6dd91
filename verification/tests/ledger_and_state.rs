use game_tracker::ledger::GameTimes;
use game_tracker::{config_file_path, load_state, save_file_path, TrackerState};

fn sorted(mut v: Vec<(String, u64)>) -> Vec<(String, u64)> {
    v.sort();
    v
}

#[test]
fn game_times_insert_get_and_clear() {
    let mut t = GameTimes::new();
    assert!(t.is_empty());
    assert_eq!(t.get("chrome"), None);
    assert_eq!(t.time_of("chrome"), 0);
    t.insert("chrome".to_string(), 10);
    t.insert("deadcells".to_string(), 20);
    t.insert("chrome".to_string(), 30);
    assert_eq!(t.len(), 2);
    assert_eq!(t.get("chrome"), Some(30));
    assert_eq!(t.time_of("deadcells"), 20);
    assert_eq!(
        sorted(t.entries()),
        vec![("chrome".to_string(), 30), ("deadcells".to_string(), 20)]
    );
    let c = t.clone();
    t.clear();
    assert!(t.is_empty());
    assert_eq!(c.get("chrome"), Some(30));
}

#[test]
fn game_times_from_entries_later_pairs_win() {
    let t = GameTimes::from_entries(vec![
        ("a".to_string(), 1),
        ("b".to_string(), 2),
        ("a".to_string(), 3),
    ]);
    assert_eq!(sorted(t.entries()), vec![("a".to_string(), 3), ("b".to_string(), 2)]);
}

#[test]
fn load_state_keeps_today_and_drops_other_days() {
    let mut s = TrackerState::new("2024-05-01".to_string());
    s.times.insert("stellaris".to_string(), 300);
    let kept = load_state(Some(s.clone()), "2024-05-01".to_string());
    assert_eq!(kept.date, "2024-05-01");
    assert_eq!(kept.times.get("stellaris"), Some(300));
    let fresh = load_state(Some(s), "2024-05-02".to_string());
    assert_eq!(fresh.date, "2024-05-02");
    assert!(fresh.times.is_empty());
    let none = load_state(None, "2024-05-03".to_string());
    assert_eq!(none.date, "2024-05-03");
    assert!(none.times.is_empty());
}

#[test]
fn reset_game_and_add_playtime() {
    let mut s = TrackerState::new("2024-05-01".to_string());
    let name = "deadcells".to_string();
    assert_eq!(s.add_playtime(&name, 5), 5);
    assert_eq!(s.add_playtime(&name, 5), 10);
    s.reset_game(name.clone());
    assert_eq!(s.times.get("deadcells"), Some(0));
    assert_eq!(s.add_playtime(&name, 5), 5);
    s.reset_game("never-played".to_string());
    assert_eq!(s.times.get("never-played"), Some(0));
    assert_eq!(s.date, "2024-05-01");
}

#[test]
fn data_files_sit_in_the_given_directory() {
    assert_eq!(save_file_path("/opt/tracker"), "/opt/tracker/playtime.json");
    assert_eq!(config_file_path("/opt/tracker"), "/opt/tracker/config.json");
    assert_eq!(save_file_path("/opt/tracker/"), "/opt/tracker/playtime.json");
    assert_eq!(save_file_path(""), "playtime.json");
}
