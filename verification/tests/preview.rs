use momentum_app::app_state::AppState;
use momentum_app::preview::{
    encode_jpeg, frame_event, monitor_thumb_result, owns_session, preview_gate,
    reuse_preview_thumb, thumb_args, LineStep, MpjpegHeaders, PreviewEvent,
};
use momentum_app::types::CaptureSource;

#[test]
fn frames_are_sent_as_base64() {
    assert_eq!(encode_jpeg(b"hello"), "aGVsbG8=");
    assert_eq!(encode_jpeg(&[]), "");
    assert_eq!(encode_jpeg(b"Man"), "TWFu");
    assert_eq!(encode_jpeg(b"Ma"), "TWE=");
    assert_eq!(encode_jpeg(b"M"), "TQ==");
    assert_eq!(encode_jpeg(&[0xfb, 0xff]), "+/8=");
    match frame_event(&[1, 2, 3]) {
        PreviewEvent::Frame { frame } => assert_eq!(frame, "AQID"),
        _ => panic!("expected a frame"),
    }
}

#[test]
fn preview_runs_only_during_setup_and_not_beside_the_stream() {
    assert_eq!(preview_gate(AppState::Idle, false, false), Ok(false));
    assert_eq!(preview_gate(AppState::StreamSetup, true, true), Ok(false));
    assert_eq!(
        preview_gate(AppState::StreamSetup, false, true),
        Err("cannot preview while the stream is live".to_string())
    );
    assert_eq!(preview_gate(AppState::StreamSetup, false, false), Ok(true));
}

#[test]
fn only_the_owning_task_clears_the_session() {
    assert!(owns_session(Some(3), 3));
    assert!(!owns_session(Some(4), 3));
    assert!(!owns_session(None, 3));
}

#[test]
fn multipart_headers_announce_the_body() {
    let mut h = MpjpegHeaders::new();
    assert_eq!(h.on_line("--ffmpeg\r\n"), LineStep::Continue);
    assert_eq!(h.on_line("Content-Type: image/jpeg\r\n"), LineStep::Continue);
    assert_eq!(h.on_line("Content-Length: 1234\r\n"), LineStep::Continue);
    assert_eq!(h.content_length, Some(1234));
    assert_eq!(h.on_line("\r\n"), LineStep::Body { len: 1234 });
    assert_eq!(h.content_length, None);
    assert_eq!(h.on_line("\r\n"), LineStep::Continue);
}

#[test]
fn header_names_ignore_case_and_bad_lengths_stop() {
    let mut h = MpjpegHeaders::new();
    assert_eq!(h.on_line("CONTENT-LENGTH:   17  "), LineStep::Continue);
    assert_eq!(h.on_line(""), LineStep::Body { len: 17 });
    assert_eq!(h.on_line("content-length: 0"), LineStep::Continue);
    assert_eq!(h.on_line(" "), LineStep::Stop);
    let mut g = MpjpegHeaders::new();
    g.on_line("Content-Length: 8388609");
    assert_eq!(g.on_line(""), LineStep::Stop);
    let mut k = MpjpegHeaders::new();
    k.on_line("Content-Length: 5");
    k.on_line("Content-Length: abc");
    assert_eq!(k.content_length, None);
    assert_eq!(k.on_line(""), LineStep::Continue);
    let mut m = MpjpegHeaders::new();
    m.on_line("Content-Length: 8388608");
    assert_eq!(m.on_line(""), LineStep::Body { len: 8_388_608 });
}

#[test]
fn thumbnails_reuse_the_preview_of_the_same_monitor() {
    assert!(reuse_preview_thumb(&CaptureSource::Monitor { index: 1 }, 1));
    assert!(!reuse_preview_thumb(&CaptureSource::Monitor { index: 0 }, 1));
    assert!(!reuse_preview_thumb(
        &CaptureSource::Window { hwnd: 1, title: "w".to_string() },
        1
    ));
}

#[test]
fn thumbnail_command_line() {
    let a = thumb_args(2);
    assert_eq!(a.len(), 16);
    assert_eq!(a[6], "ddagrab=output_idx=2:framerate=5");
    assert_eq!(a[10], "hwdownload,format=bgra,scale=320:-2:flags=bilinear,format=yuvj420p");
    assert_eq!(a[15], "pipe:1");
}

#[test]
fn thumbnail_results() {
    assert_eq!(monitor_thumb_result(true, b"hi"), Ok("aGk=".to_string()));
    assert_eq!(
        monitor_thumb_result(true, b""),
        Err("monitor thumbnail capture failed".to_string())
    );
    assert_eq!(
        monitor_thumb_result(false, b"hi"),
        Err("monitor thumbnail capture failed".to_string())
    );
}
