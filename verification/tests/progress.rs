use momentum_app::progress::{hw_encoder_failed, ProgressParser};

#[test]
fn parses_block_and_ignores_unknown_fields() {
    let mut p = ProgressParser::default();
    assert!(p.feed("frame=42").is_none());
    assert!(p.feed("fps=30.0").is_none());
    assert!(p.feed("bitrate=N/A").is_none());
    assert!(p.feed("total_size=N/A").is_none());
    assert!(p.feed("out_time_us=1000000").is_none());
    assert!(p.feed("speed=0.961x").is_none());
    let block = p.feed("progress=continue").expect("block should complete");
    assert_eq!(block.frame, Some(42));
}

#[test]
fn parser_resets_between_blocks() {
    let mut p = ProgressParser::default();
    p.feed("frame=1");
    p.feed("progress=continue");
    p.feed("fps=60.0");
    let block = p.feed("progress=continue").expect("block should complete");
    assert_eq!(block.frame, None);
}

#[test]
fn hw_encoder_failed_ignores_unrelated_death_causes() {
    let tail = vec![
        "Connection timed out".to_string(),
        "WHIP muxer: udp connect failed".to_string(),
    ];
    assert!(!hw_encoder_failed(&tail));
}

#[test]
fn hw_encoder_failed_recognizes_a_real_hardware_failure() {
    let tail = vec!["[h264_nvenc] No capable devices found".to_string()];
    assert!(hw_encoder_failed(&tail));
}

#[test]
fn block_carries_the_output_time() {
    let mut p = ProgressParser::default();
    assert!(p.feed("frame=7").is_none());
    assert!(p.feed("out_time_us= 2500000 ").is_none());
    let block = p.feed("progress=continue").expect("block should complete");
    assert_eq!(block.frame, Some(7));
    assert_eq!(block.out_time_us, Some(2_500_000));
    assert!(p.feed("out_time_us=N/A").is_none());
    let next = p.feed("progress=end").expect("block should complete");
    assert_eq!(next.out_time_us, None);
    assert_eq!(next.frame, None);
}

#[test]
fn lines_without_a_separator_are_ignored() {
    let mut p = ProgressParser::default();
    assert!(p.feed("frame=3").is_none());
    assert!(p.feed("garbage").is_none());
    assert!(p.feed("progress").is_none());
    let block = p.feed("progress=continue").expect("block should complete");
    assert_eq!(block.frame, Some(3));
}
