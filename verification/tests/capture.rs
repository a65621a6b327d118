use momentum_app::capture::{max_read_failures, ReadFailures};
use momentum_app::capture::{
    audio_need, covers_monitor, monitor_device, even, frame_period_ms, is_fullscreen, keep_window,
    largest_window, monitor_info, monitor_size_even, monitor_target_size, new_pipe_name,
    pipe_name, refresh_frame, ring_capacity, ring_plan, should_recreate, window_target_size,
    Rect,
};

fn rect(left: i32, top: i32, right: i32, bottom: i32) -> Rect {
    Rect { left, top, right, bottom }
}

#[test]
fn even_sizes() {
    assert_eq!(even(1081), 1080);
    assert_eq!(even(1920), 1920);
    assert_eq!(even(1), 2);
    assert_eq!(even(-5), 2);
    assert_eq!(even(3), 2);
}

#[test]
fn covering_allows_two_pixels() {
    let m = rect(0, 0, 1920, 1080);
    assert!(covers_monitor(rect(-2, 1, 1922, 1079), m));
    assert!(!covers_monitor(rect(-3, 0, 1920, 1080), m));
    assert!(!covers_monitor(rect(0, 0, 1280, 720), m));
    assert!(is_fullscreen(true, None, None));
    assert!(is_fullscreen(false, Some(m), Some(m)));
    assert!(!is_fullscreen(false, Some(m), None));
}

#[test]
fn target_sizes() {
    assert_eq!(monitor_size_even(Some((2561, 1441))), (2560, 1440));
    assert_eq!(monitor_size_even(None), (1920, 1080));
    assert_eq!(monitor_target_size(Some((1366, 768))), Ok((1366, 768)));
    assert_eq!(monitor_target_size(None), Err("monitor size unavailable".to_string()));
    assert_eq!(window_target_size(true, Some((1920, 1080)), Ok((160, 28))), Ok((1920, 1080)));
    assert_eq!(window_target_size(true, None, Ok((161, 29))), Ok((160, 28)));
    assert_eq!(window_target_size(false, Some((1920, 1080)), Ok((801, 601))), Ok((800, 600)));
    assert_eq!(
        window_target_size(false, None, Err("gone".to_string())),
        Err("gone".to_string())
    );
}

#[test]
fn monitor_entries() {
    let m = monitor_info(1, rect(1920, 0, 3840, 1080), "\\\\.\\DISPLAY2\0\0\0");
    assert_eq!(m.index, 1);
    assert_eq!((m.width, m.height), (1920, 1080));
    assert!(!m.primary);
    assert_eq!(m.device_name, "\\\\.\\DISPLAY2");
    let p = monitor_info(0, rect(0, 0, -5, 10), "X");
    assert!(p.primary);
    assert_eq!((p.width, p.height), (0, 10));
}

#[test]
fn listed_windows() {
    assert!(keep_window("Game", false, 800, 600, 0));
    assert!(!keep_window("   ", false, 800, 600, 0));
    assert!(!keep_window("Tiny", false, 199, 600, 0));
    assert!(keep_window("Tiny but minimised", true, 0, 0, 0));
    assert!(!keep_window("Ghost", false, 800, 600, 1));
}

#[test]
fn the_largest_window_wins_and_ties_keep_the_first() {
    let rs = vec![rect(0, 0, 10, 10), rect(0, 0, 20, 20), rect(5, 5, 25, 25), rect(0, 0, 0, 0)];
    assert_eq!(largest_window(&rs), Some(1));
    assert_eq!(largest_window(&[rect(0, 0, 0, 5)]), None);
    assert_eq!(largest_window(&[]), None);
}

#[test]
fn stale_sessions_are_recreated_after_their_grace() {
    assert!(should_recreate(10_000, 10_000, true, 0));
    assert!(!should_recreate(10_000, 8_000, false, 5_000));
    assert!(should_recreate(10_001, 8_000, false, 3_001));
    assert!(!should_recreate(10_001, 8_000, false, 3_000));
    assert!(!should_recreate(1_000, 5_000, false, 9_000));
}

#[test]
fn frame_periods() {
    assert_eq!(frame_period_ms(60), 16);
    assert_eq!(frame_period_ms(30), 33);
    assert_eq!(frame_period_ms(0), 1000);
    assert_eq!(frame_period_ms(2000), 1);
}

#[test]
fn frames_refresh_only_at_full_size() {
    let mut out = vec![0u8; 4];
    refresh_frame(&mut out, &[1, 2, 3]);
    assert_eq!(out, vec![0, 0, 0, 0]);
    refresh_frame(&mut out, &[1, 2, 3, 4]);
    assert_eq!(out, vec![1, 2, 3, 4]);
}

#[test]
fn pipe_names_have_sixteen_hex_digits() {
    assert_eq!(pipe_name("video", 0xdead_beef), "\\\\.\\pipe\\momentum_video_00000000deadbeef");
    assert_eq!(pipe_name("audio", u64::MAX), "\\\\.\\pipe\\momentum_audio_ffffffffffffffff");
    let a = new_pipe_name("video");
    let prefix = "\\\\.\\pipe\\momentum_video_";
    assert!(a.starts_with(prefix));
    let id = &a[prefix.len()..];
    assert_eq!(id.len(), 16);
    assert!(id.chars().all(|c| c.is_ascii_hexdigit() && !c.is_ascii_uppercase()));
    let b = new_pipe_name("video");
    let c = new_pipe_name("video");
    assert!(a != b || b != c);
}

#[test]
fn audio_pacing() {
    assert_eq!(audio_need(10_000, 3_000, 8), 7_000);
    assert_eq!(audio_need(10_001, 3_000, 8), 7_000);
    assert_eq!(audio_need(1_000, 2_000, 8), 0);
    assert_eq!(ring_capacity(48_000, 2), 19_200);
    assert_eq!(ring_plan(4_000, 500, 19_200), (500, 0));
    assert_eq!(ring_plan(400, 30_000, 19_200), (100, 10_700));
}

#[test]
fn texture_reads_are_reacquired_after_two_seconds_of_failures() {
    assert_eq!(max_read_failures(16), 126);
    assert_eq!(max_read_failures(0), 2001);
    assert_eq!(max_read_failures(5000), 1);
    let mut f = ReadFailures { count: 0, max: 3 };
    assert!(!f.on_read(false));
    assert!(!f.on_read(false));
    assert!(f.on_read(false));
    assert_eq!(f.count, 0);
    assert!(!f.on_read(false));
    assert!(!f.on_read(true));
    assert_eq!(f.count, 0);
    f.count = 2;
    f.reset();
    assert_eq!(f.count, 0);
}

#[test]
fn monitors_are_found_by_output_index() {
    let ms = vec![monitor_info(0, rect(0, 0, 10, 10), "A"), monitor_info(2, rect(0, 0, 10, 10), "B")];
    assert_eq!(monitor_device(&ms, 2), Some("B"));
    assert_eq!(monitor_device(&ms, 1), None);
}
