use momentum_app::encoder::{
    build_ladder, hw_candidates, probe_args, probe_legs, probe_verdict, synthetic_frame, EncoderCaps,
    Rung,
};
use momentum_app::types::{CaptureSource, Encoder, StreamSettings};

fn settings(framerate: u32, resolution: u32) -> StreamSettings {
    StreamSettings { source: CaptureSource::Monitor { index: 0 }, bitrate_kbps: 6000, framerate, resolution }
}

#[test]
fn probe_results() {
    assert!(probe_verdict(true, 512));
    assert!(!probe_verdict(true, 511));
    assert!(!probe_verdict(false, 10_000));
}

#[test]
fn candidates_follow_the_preference() {
    assert_eq!(hw_candidates(None), vec![Encoder::Nvenc, Encoder::Amf]);
    assert_eq!(hw_candidates(Some(Encoder::Amf)), vec![Encoder::Amf, Encoder::Nvenc]);
    assert_eq!(hw_candidates(Some(Encoder::Nvenc)), vec![Encoder::Nvenc, Encoder::Amf]);
    assert!(hw_candidates(Some(Encoder::X264)).is_empty());
}

#[test]
fn ladders_end_in_software() {
    let l = build_ladder(&[Encoder::Nvenc], &settings(60, 1080));
    assert_eq!(
        l,
        vec![
            Rung { encoder: Encoder::Nvenc, framerate: 60, resolution: 1080 },
            Rung { encoder: Encoder::X264, framerate: 60, resolution: 1080 },
            Rung { encoder: Encoder::X264, framerate: 30, resolution: 1080 },
            Rung { encoder: Encoder::X264, framerate: 30, resolution: 720 },
        ]
    );
    let low = build_ladder(&[], &settings(30, 720));
    assert_eq!(low, vec![Rung { encoder: Encoder::X264, framerate: 30, resolution: 720 }]);
}

#[test]
fn probe_command_lines() {
    let one = probe_args(Encoder::Nvenc, 1, "NUL");
    assert_eq!(one[9], "640x360");
    assert!(one.contains(&"-vf".to_string()));
    assert!(one.contains(&"h264_nvenc".to_string()));
    assert_eq!(one.last().unwrap(), "pipe:1");
    let two = probe_args(Encoder::Amf, 2, "NUL");
    assert!(two.contains(&"[0:v]format=yuv420p,split=2[a][b]".to_string()));
    assert_eq!(two.last().unwrap(), "NUL");
    assert_eq!(two.iter().filter(|a| *a == "h264_amf").count(), 2);
}

#[test]
fn synthetic_frames_have_the_frame_size() {
    assert_eq!(synthetic_frame(640, 360, 1).len(), 640 * 360 * 4);
}

#[test]
fn the_cache_settles_on_an_encoder() {
    let mut c = EncoderCaps::new();
    assert_eq!(c.detected(), None);
    c.record_probe(Encoder::Nvenc, 2, true);
    assert_eq!(c.cached(Encoder::Nvenc, 1), Some(true));
    assert_eq!(c.detected(), Some(Encoder::Nvenc));
    c.poison(Encoder::Nvenc);
    assert_eq!(c.cached(Encoder::Nvenc, 2), Some(false));
    assert_eq!(c.detected(), None);
    c.record_probe(Encoder::Amf, 1, false);
    assert_eq!(c.cached(Encoder::Amf, 2), Some(false));
    assert_eq!(c.detected(), Some(Encoder::X264));
}

#[test]
fn a_replay_doubles_the_probe_outputs() {
    assert_eq!(probe_legs(true), 2);
    assert_eq!(probe_legs(false), 1);
}
