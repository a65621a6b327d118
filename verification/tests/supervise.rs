use momentum_app::app_state::AppState;
use momentum_app::encoder::Rung;
use momentum_app::progress::ProgressBlock;
use momentum_app::supervise::{
    prelive_timeout_ms, tick_verdict, update_slow_since, Action, FailReason, LiveDetector,
    Outcome, Supervisor, MAX_RESTARTS, NO_ENCODER_DETAIL, push_tail_line, ERR_TAIL_LINES,
};
use momentum_app::types::Encoder;

fn block(frame: Option<u64>) -> ProgressBlock {
    ProgressBlock { frame, out_time_us: None }
}

#[test]
fn hardware_failure_before_going_live_falls_back() {
    let mut s = Supervisor::new();
    let a = s.after_attempt(3, Encoder::Nvenc, Outcome::Died, false, true, AppState::StreamSetup);
    assert_eq!(a, Action::NextRung { poison: Some(Encoder::Nvenc) });
    assert_eq!((s.rung_idx, s.segment), (1, 1));
}

#[test]
fn too_slow_moves_down_without_poisoning() {
    let mut s = Supervisor::new();
    assert_eq!(
        s.after_attempt(3, Encoder::X264, Outcome::TooSlow, true, false, AppState::RaceInProgress),
        Action::NextRung { poison: None }
    );
    assert!(s.ever_live);
    assert_eq!(s.last_emitted, Some(Encoder::X264));
}

#[test]
fn mid_race_deaths_restart_a_bounded_number_of_times() {
    let mut s = Supervisor::new();
    s.ever_live = true;
    for k in 1..=MAX_RESTARTS {
        assert_eq!(
            s.after_attempt(2, Encoder::X264, Outcome::Died, false, false, AppState::RaceInProgress),
            Action::Restart
        );
        assert_eq!(s.attempt, k);
    }
    assert_eq!(
        s.after_attempt(2, Encoder::X264, Outcome::Died, false, false, AppState::RaceInProgress),
        Action::Fail { reason: FailReason::StreamLost, back_to_setup: false }
    );
}

#[test]
fn going_live_resets_the_restart_count() {
    let mut s = Supervisor::new();
    s.ever_live = true;
    s.attempt = 2;
    assert_eq!(
        s.after_attempt(2, Encoder::X264, Outcome::Died, true, false, AppState::RaceInProgress),
        Action::Restart
    );
    assert_eq!(s.attempt, 1);
}

#[test]
fn deaths_outside_the_race_end_the_stream() {
    let mut s = Supervisor::new();
    assert_eq!(
        s.after_attempt(2, Encoder::X264, Outcome::Died, false, false, AppState::WaitingForStart),
        Action::Fail { reason: FailReason::StreamEnded, back_to_setup: true }
    );
    let mut t = Supervisor::new();
    assert_eq!(
        t.after_attempt(2, Encoder::X264, Outcome::Died, false, false, AppState::Finished),
        Action::Fail { reason: FailReason::StreamEnded, back_to_setup: false }
    );
    let mut u = Supervisor::new();
    assert_eq!(
        u.after_attempt(2, Encoder::X264, Outcome::Stopped, false, false, AppState::Idle),
        Action::Stop
    );
    assert_eq!(FailReason::StreamLost.message(), "stream lost");
    assert_eq!(FailReason::NoEncoder.message(), "no encoder could sustain the stream");
}

#[test]
fn rungs_and_announcements() {
    let ladder = [Rung { encoder: Encoder::Amf, framerate: 60, resolution: 1080 }];
    let mut s = Supervisor::new();
    assert_eq!(s.current_rung(&ladder), Some(ladder[0]));
    s.rung_idx = 1;
    assert_eq!(s.current_rung(&ladder), None);
    assert!(s.should_announce(Encoder::Amf, true));
    assert!(!s.should_announce(Encoder::Amf, false));
    s.last_emitted = Some(Encoder::Amf);
    assert!(!s.should_announce(Encoder::Amf, true));
}

#[test]
fn two_increasing_blocks_make_the_stream_live() {
    let mut d = LiveDetector::new();
    assert!(!d.observe(block(Some(10))));
    assert!(d.observe(block(Some(11))));
    assert!(d.went_live);
    assert!(!d.observe(block(Some(12))));
    let mut e = LiveDetector::new();
    assert!(!e.observe(block(Some(5))));
    assert!(!e.observe(block(Some(5))));
    assert!(!e.observe(block(None)));
    assert!(!e.observe(block(Some(6))));
    assert!(e.observe(block(Some(7))));
}

#[test]
fn watchdog_verdicts() {
    assert_eq!(prelive_timeout_ms(Encoder::X264), 20_000);
    assert_eq!(prelive_timeout_ms(Encoder::Nvenc), 8_000);
    assert_eq!(update_slow_since(None, 50_000, 5_000, true), None);
    assert_eq!(update_slow_since(None, 50_000, 11_000, true), Some(50_000));
    assert_eq!(update_slow_since(Some(40_000), 50_000, 11_000, true), Some(40_000));
    assert_eq!(update_slow_since(Some(40_000), 50_000, 11_000, false), None);
    assert_eq!(tick_verdict(60_000, 0, 59_000, Some(54_999), true, 8_000), Some(Outcome::TooSlow));
    assert_eq!(tick_verdict(60_000, 0, 49_999, None, true, 8_000), Some(Outcome::Died));
    assert_eq!(tick_verdict(60_000, 51_999, 0, None, false, 8_000), Some(Outcome::Died));
    assert_eq!(tick_verdict(60_000, 52_000, 0, None, false, 8_000), None);
}

#[test]
fn an_exhausted_ladder_fails_for_want_of_an_encoder() {
    let ladder = [Rung { encoder: Encoder::X264, framerate: 60, resolution: 1080 }];
    let mut s = Supervisor::new();
    assert_eq!(s.next_attempt(&ladder), Ok(ladder[0]));
    s.rung_idx = 1;
    let a = s.next_attempt(&ladder);
    assert_eq!(a, Err(Action::Fail { reason: FailReason::NoEncoder, back_to_setup: false }));
    assert_eq!(FailReason::NoEncoder.message(), "no encoder could sustain the stream");
    assert!(NO_ENCODER_DETAIL.starts_with("no encoder could sustain the stream on this machine"));
    assert_eq!(Supervisor::new().next_attempt(&[]), a);
}

#[test]
fn error_tail_keeps_the_last_lines_in_order() {
    let mut tail: Vec<String> = Vec::new();
    for i in 0..100 {
        push_tail_line(&mut tail, format!("line {i}"), ERR_TAIL_LINES);
    }
    assert_eq!(ERR_TAIL_LINES, 40);
    assert_eq!(tail.len(), 40);
    assert_eq!(tail[0], "line 60");
    assert_eq!(tail[39], "line 99");
    let mut short: Vec<String> = Vec::new();
    push_tail_line(&mut short, "a".to_string(), 3);
    push_tail_line(&mut short, "b".to_string(), 3);
    assert_eq!(short, vec!["a".to_string(), "b".to_string()]);
    let mut none: Vec<String> = vec!["x".to_string()];
    push_tail_line(&mut none, "y".to_string(), 0);
    assert!(none.is_empty());
}
