use game_tracker::clock::{
    format_time_into, is_over_limit, limit_from_parts, limit_hours, limit_minutes,
};
use game_tracker::format_time;
use game_tracker::text::{contains_text, normalize_game_name, trim};

#[test]
fn format_time_pads_each_field() {
    assert_eq!(format_time(0), "00:00:00");
    assert_eq!(format_time(59), "00:00:59");
    assert_eq!(format_time(3661), "01:01:01");
    assert_eq!(format_time(45296), "12:34:56");
    assert_eq!(format_time(359999), "99:59:59");
}

#[test]
fn format_time_lets_hours_grow_past_two_digits() {
    assert_eq!(format_time(360000), "100:00:00");
    assert_eq!(format_time(u64::MAX), "5124095576030431:00:15");
}

#[test]
fn format_time_into_replaces_the_buffer() {
    let mut buffer = String::from("something long already here");
    format_time_into(125, &mut buffer);
    assert_eq!(buffer, "00:02:05");
    format_time_into(7200, &mut buffer);
    assert_eq!(buffer, "02:00:00");
}

#[test]
fn limit_parts_compose_and_split() {
    assert_eq!(limit_from_parts(2, 30), 9000);
    assert_eq!(limit_from_parts(0, 0), 0);
    assert_eq!(limit_hours(9000), 2);
    assert_eq!(limit_minutes(9000), 30);
    assert_eq!(limit_minutes(9059), 30);
    assert_eq!(limit_from_parts(u32::MAX, u32::MAX), u32::MAX as u64 * 3660);
}

#[test]
fn limit_round_trip_for_every_hour_and_minute_of_the_window() {
    for h in 0..=24u32 {
        for m in 0..60u32 {
            let limit = limit_from_parts(h, m);
            assert_eq!(limit_hours(limit), h);
            assert_eq!(limit_minutes(limit), m);
        }
    }
}

#[test]
fn limit_hours_keeps_low_32_bits() {
    assert_eq!(limit_hours(u64::MAX), (u64::MAX / 3600) as u32);
}

#[test]
fn over_limit_needs_a_nonzero_limit() {
    assert!(!is_over_limit(100, 0));
    assert!(!is_over_limit(99, 100));
    assert!(is_over_limit(100, 100));
    assert!(is_over_limit(101, 100));
}

#[test]
fn contains_text_finds_substrings() {
    assert!(contains_text("eldenring.exe", "eldenring"));
    assert!(contains_text("eldenring.exe", ""));
    assert!(contains_text("abc", "abc"));
    assert!(contains_text("xxabc", "abc"));
    assert!(!contains_text("ab", "abc"));
    assert!(!contains_text("eldenring.exe", "elden ring"));
    assert!(contains_text("grüße.exe", "üß"));
}

#[test]
fn trim_removes_surrounding_white_space_only() {
    assert_eq!(trim("  a b \t\n"), "a b");
    assert_eq!(trim("   "), "");
    assert_eq!(trim(""), "");
    assert_eq!(trim("\u{3000}game\u{a0}"), "game");
    assert_eq!(trim("x"), "x");
}

#[test]
fn normalize_game_name_trims_and_lowercases() {
    assert_eq!(normalize_game_name("  EldenRing.EXE "), "eldenring.exe");
    assert_eq!(normalize_game_name("ÉLDEN"), "élden");
    assert_eq!(normalize_game_name(" \t "), "");
}
