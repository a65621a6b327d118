use momentum_app::recording::{complete_prefix, RunTracker, SegmentTimes};
use momentum_app::replay::TrimPlan;

fn seg(index: u32, start_ms: i64, end_ms: i64) -> SegmentTimes {
    SegmentTimes { index, start_ms, end_ms }
}

#[test]
fn the_anchor_is_the_earliest_implied_start() {
    let mut t = RunTracker::new(3);
    t.on_fresh(&[seg(0, 0, 2_000), seg(1, 2_000, 4_000)], 10_000);
    assert_eq!(t.anchor_ms, Some(6_000));
    assert_eq!(t.last_end_ms, 4_000);
    t.on_fresh(&[seg(2, 4_000, 6_000)], 12_500);
    assert_eq!(t.anchor_ms, Some(6_000));
    assert_eq!(t.last_end_ms, 6_000);
    t.on_fresh(&[], 99_000);
    assert_eq!(t.last_end_ms, 6_000);
    assert_eq!(t.lines.len(), 3);
}

#[test]
fn waiting_keeps_only_the_last_two_segments() {
    let mut t = RunTracker::new(0);
    t.on_fresh(&[seg(0, 0, 2_000), seg(1, 2_000, 4_000)], 4_000);
    assert!(t.prune(true).is_empty());
    t.on_fresh(&[seg(2, 4_000, 6_000), seg(3, 6_000, 8_000)], 8_000);
    assert!(t.prune(false).is_empty());
    assert_eq!(t.prune(true), vec![0, 1]);
    assert_eq!(t.pruned, 2);
    assert!(t.prune(true).is_empty());
    t.on_fresh(&[seg(4, 8_000, 10_000)], 10_000);
    assert_eq!(t.prune(true), vec![2]);
}

#[test]
fn the_plan_starts_at_the_segment_spanning_the_countdown() {
    let mut t = RunTracker::new(1);
    t.on_fresh(&[seg(0, 0, 2_000), seg(1, 2_000, 4_000), seg(2, 4_000, 6_000)], 10_000);
    assert_eq!(t.anchor_ms, Some(4_000));
    assert_eq!(t.plan(None), None);
    assert_eq!(
        t.plan(Some(7_000)),
        Some(TrimPlan { run: 1, first_index: 1, head_trim_ms: 1_000 })
    );
    assert!(t.planned);
    assert_eq!(t.plan(Some(7_000)), None);
    assert!(t.prune(true).is_empty());
}

#[test]
fn no_plan_before_a_segment_passes_the_countdown() {
    let mut t = RunTracker::new(0);
    t.on_fresh(&[seg(0, 0, 2_000)], 2_000);
    assert_eq!(t.plan(Some(5_000)), None);
    assert!(!t.planned);
    let mut u = RunTracker::new(0);
    u.on_fresh(&[seg(0, 0, 2_000)], 2_000);
    assert_eq!(u.plan(Some(-100)), Some(TrimPlan { run: 0, first_index: 0, head_trim_ms: 0 }));
}

#[test]
fn partial_lines_wait_for_the_next_read() {
    assert_eq!(complete_prefix(b"r0_s00000.mp4,0,2\nr0_s00001.mp4,2"), 18);
    assert_eq!(complete_prefix(b"a\nb\n"), 4);
    assert_eq!(complete_prefix(b"partial"), 0);
    assert_eq!(complete_prefix(b""), 0);
}
