use momentum_app::assemble::{concat_args, filler_args, seconds_text, trim_head_args, video_size};
use momentum_app::types::Encoder;
use momentum_app::replay::{
    anchor_file_name, apply_trim_plan, concat_list, encoder_file_name, filler_file_name,
    filler_gap, is_parts_dir_name, list_name, order_segments, parse_segment_name,
    parts_dir_name, recorded_encoder, segment_name, segment_pattern, should_sweep, FillerGap,
    run_boundaries, RunAnchor, TrimPlan,
};

#[test]
fn replay_file_names() {
    assert_eq!(segment_name(1, 7), "r1_s00007.mp4");
    assert_eq!(segment_name(0, 123_456), "r0_s123456.mp4");
    assert_eq!(segment_pattern(2), "r2_s%05d.mp4");
    assert_eq!(list_name(3), "r3.csv");
    assert_eq!(encoder_file_name(3), "r3.encoder.txt");
    assert_eq!(anchor_file_name(3), "r3.anchor.json");
    assert_eq!(filler_file_name(4), "filler_r4.mp4");
    assert_eq!(parts_dir_name("speedrace_x"), "speedrace_x.parts");
    assert!(is_parts_dir_name("speedrace_x.parts"));
    assert!(!is_parts_dir_name("speedrace_x.mp4"));
}

#[test]
fn segment_names_round_trip() {
    assert_eq!(parse_segment_name("r1_s00007.mp4"), Some((1, 7)));
    assert_eq!(parse_segment_name(&segment_name(12, 3)), Some((12, 3)));
    assert_eq!(parse_segment_name("r1_s7.mp4"), Some((1, 7)));
    assert_eq!(parse_segment_name("r1.csv"), None);
    assert_eq!(parse_segment_name("x1_s7.mp4"), None);
    assert_eq!(parse_segment_name("r_s7.mp4"), None);
}

#[test]
fn segments_are_ordered_by_run_then_index() {
    let names: Vec<String> = ["r1_s00001.mp4", "junk.txt", "r0_s00005.mp4", "r1_s00000.mp4"]
        .iter()
        .map(|s| s.to_string())
        .collect();
    assert_eq!(order_segments(&names), vec![((0, 5), 2), ((1, 0), 3), ((1, 1), 0)]);
}

#[test]
fn trim_plans_locate_their_head() {
    let keys = [(0, 5), (1, 0), (1, 1)];
    let plan = TrimPlan { run: 1, first_index: 0, head_trim_ms: 1_500 };
    assert_eq!(apply_trim_plan(Some(plan), &keys), (1, 1_500));
    assert_eq!(apply_trim_plan(None, &keys), (0, 0));
    let missing = TrimPlan { run: 9, first_index: 0, head_trim_ms: 1_500 };
    assert_eq!(apply_trim_plan(Some(missing), &keys), (0, 0));
}

#[test]
fn gaps_between_runs() {
    let a = RunAnchor { anchor_ms: 0, last_end_ms: 10_000 };
    assert_eq!(filler_gap(a, RunAnchor { anchor_ms: 15_000, last_end_ms: 0 }), FillerGap::Fill(5_000));
    assert_eq!(filler_gap(a, RunAnchor { anchor_ms: 9_000, last_end_ms: 0 }), FillerGap::Nothing);
    assert_eq!(
        filler_gap(a, RunAnchor { anchor_ms: 210_000, last_end_ms: 0 }),
        FillerGap::TooLarge(200_000)
    );
    assert_eq!(filler_gap(a, RunAnchor { anchor_ms: 130_000, last_end_ms: 0 }), FillerGap::Fill(120_000));
}

#[test]
fn concat_lists_use_forward_slashes() {
    let parts = vec!["C:\\r\\a.mp4".to_string(), "b.mp4".to_string()];
    assert_eq!(concat_list(&parts), "file 'C:/r/a.mp4'\nfile 'b.mp4'\n");
    assert_eq!(concat_list(&[]), "");
}

#[test]
fn sweeping_old_replays() {
    assert!(should_sweep(true, None, Some(5), 10));
    assert!(should_sweep(false, Some("mp4"), Some(5), 10));
    assert!(!should_sweep(false, Some("mp4"), Some(10), 10));
    assert!(!should_sweep(false, Some("txt"), Some(5), 10));
    assert!(!should_sweep(true, None, None, 10));
}

#[test]
fn every_segment_name_reads_back() {
    for (run, index) in [(0u32, 0u32), (1, 99_999), (7, 100_000), (u32::MAX, u32::MAX)] {
        assert_eq!(parse_segment_name(&segment_name(run, index)), Some((run, index)));
    }
}

#[test]
fn filler_and_trim_command_lines() {
    assert_eq!(seconds_text(1_500), "1.500");
    assert_eq!(seconds_text(5), "0.005");
    assert_eq!(seconds_text(123_456), "123.456");
    assert_eq!(seconds_text(-250), "-0.250");
    let f = filler_args(1920, 1080, 0, 100, 2_500, Encoder::X264, "out.mp4");
    assert_eq!(f[7], "color=c=black:s=1920x1080:r=1");
    assert_eq!(f[13], "2.500");
    assert_eq!(f.last().unwrap(), "out.mp4");
    let t = trim_head_args("head.mp4", 1_234, Encoder::Nvenc, 60, 6000, "trimmed.mp4");
    assert_eq!(&t[..8], &["-hide_banner", "-loglevel", "error", "-y", "-ss", "1.234", "-i", "head.mp4"]);
    assert!(t.contains(&"h264_nvenc".to_string()));
    assert_eq!(t.last().unwrap(), "trimmed.mp4");
    assert_eq!(concat_args("list.txt", false, 60, 6000, "o.mp4"), vec!["-y", "-f", "concat", "-safe", "0", "-i", "list.txt", "-c", "copy", "o.mp4"]);
    let m = concat_args("list.txt", true, 60, 6000, "o.mp4");
    assert!(m.contains(&"libx264".to_string()));
    assert!(m.contains(&"aac".to_string()));
}

#[test]
fn frame_sizes_from_the_probe_report() {
    let report = "Input #0, mov,mp4, from 'a.mp4':\n  Duration: 00:00:05.00\n  Stream #0:0: Video: h264 (High), yuv420p(progressive), 1920x1080 [SAR 1:1 DAR 16:9], 60 fps\n  Stream #0:1: Audio: aac\n";
    assert_eq!(video_size(report), Some((1920, 1080)));
    assert_eq!(video_size("Stream: Video: h264, 0x1, 8x8, 1280x720\n"), Some((1280, 720)));
    assert_eq!(video_size("Stream: Video: h264, 1280x720,\nVideo: 640x480"), Some((1280, 720)));
    assert_eq!(video_size("no video here\n"), None);
    assert_eq!(video_size("Video: h264 yuv420p\nVideo: 640x480"), None);
    assert_eq!(video_size("Video: 1280x720)"), Some((1280, 720)));
    assert_eq!(video_size("Video: 1280x720p60"), None);
}

#[test]
fn recorded_encoders_default_to_x264() {
    assert_eq!(recorded_encoder(Some("h264_nvenc")), Encoder::Nvenc);
    assert_eq!(recorded_encoder(Some("amf\n")), Encoder::Amf);
    assert_eq!(recorded_encoder(Some("garbage")), Encoder::X264);
    assert_eq!(recorded_encoder(None), Encoder::X264);
}

#[test]
fn fillers_go_where_a_new_run_begins() {
    let keys = [(0, 0), (0, 1), (1, 0), (1, 1), (3, 0)];
    assert_eq!(run_boundaries(&keys), vec![2, 4]);
    assert_eq!(run_boundaries(&[(2, 5)]), Vec::<usize>::new());
    assert_eq!(run_boundaries(&[]), Vec::<usize>::new());
    assert_eq!(run_boundaries(&[(0, 0), (0, 1)]), Vec::<usize>::new());
}
