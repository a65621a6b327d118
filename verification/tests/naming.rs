use momentum_app::naming::{
    join_strings, replay_file_name, replay_file_name_now, sanitize, should_record_replay,
    title_category,
};

fn strings(v: &[&str]) -> Vec<String> {
    v.iter().map(|s| s.to_string()).collect()
}

#[test]
fn names_are_made_file_safe() {
    assert_eq!(sanitize("a<b>:c"), "a-b--c");
    assert_eq!(sanitize("  it's \"x\"/y  "), "its -x--y");
    assert_eq!(sanitize("tab\there"), "tab-here");
}

#[test]
fn category_titles() {
    assert_eq!(title_category(&[]), None);
    assert_eq!(title_category(&strings(&["Any%"])), Some("Any%".to_string()));
    assert_eq!(title_category(&strings(&["A", "B", "C"])), Some("B (C)".to_string()));
}

#[test]
fn replay_names() {
    assert_eq!(
        replay_file_name("Game", &strings(&["Any%"]), Some("bob"), "01-02-2025 10h00m00s"),
        "speedrace_Game - Any% - bob - 01-02-2025 10h00m00s.mp4"
    );
    assert_eq!(
        replay_file_name("", &[], None, "s"),
        "speedrace_s.mp4"
    );
    assert_eq!(
        replay_file_name("G:1", &strings(&["x", "y"]), Some("  "), "s"),
        "speedrace_G-1 - x (y) - s.mp4"
    );
}

#[test]
fn stamped_names_carry_a_timestamp() {
    let n = replay_file_name_now("Game", &[], Some("bob"));
    assert!(n.starts_with("speedrace_Game - bob - "));
    assert!(n.ends_with(".mp4"));
    let stamp = &n["speedrace_Game - bob - ".len()..n.len() - 4];
    assert_eq!(stamp.len(), "01-02-2025 10h00m00s".len());
    let b = stamp.as_bytes();
    for i in [0, 1, 3, 4, 6, 7, 8, 9, 11, 12, 14, 15, 17, 18] {
        assert!(b[i].is_ascii_digit(), "{stamp}");
    }
    assert_eq!((b[2], b[5], b[10], b[13], b[16], b[19]), (b'-', b'-', b' ', b'h', b'm', b's'));
}

#[test]
fn joins_and_replay_policy() {
    assert_eq!(join_strings(&strings(&["a", "b", "c"]), ", "), "a, b, c");
    assert_eq!(join_strings(&[], ","), "");
    assert!(should_record_replay(true, false));
    assert!(should_record_replay(false, true));
    assert!(!should_record_replay(false, false));
}
