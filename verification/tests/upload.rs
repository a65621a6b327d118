use momentum_app::upload::{
    content_range, failure_status, next_offset, parse_range_last, probe_range,
    resync_delay_secs, unavailable_status, video_id, ChunkStep, ChunkUpload, Reply, UploadPhase,
    CHUNK_SIZE,
};
use momentum_app::ws::UploadUnavailableReason;

fn response(status: u16, text: &str, range: Option<&str>, body: &str) -> Reply {
    Reply::Response {
        status,
        status_text: text.to_string(),
        range: range.map(|r| r.to_string()),
        body: Ok(body.to_string()),
    }
}

#[test]
fn unavailable_reasons_map_to_phases() {
    let q = unavailable_status(UploadUnavailableReason::QuotaExhausted);
    assert_eq!(q.state, UploadPhase::QuotaExhausted);
    assert_eq!(q.message.as_deref(), Some("quota_exhausted"));
    assert_eq!((q.uploaded_bytes, q.total_bytes), (0, 0));
    let e = unavailable_status(UploadUnavailableReason::Error);
    assert_eq!(e.state, UploadPhase::Failed);
    assert_eq!(e.message.as_deref(), Some("error"));
}

#[test]
fn failures_are_abandoned_only_when_cancelled() {
    let (s, clear) = failure_status(true, "x".to_string());
    assert_eq!(s.state, UploadPhase::Abandoned);
    assert!(s.message.is_none());
    assert!(clear);
    let (s, clear) = failure_status(false, "boom".to_string());
    assert_eq!(s.state, UploadPhase::Failed);
    assert_eq!(s.message.as_deref(), Some("boom"));
    assert!(!clear);
}

#[test]
fn content_ranges() {
    assert_eq!(content_range(0, 8_388_607, 10_000_000), "bytes 0-8388607/10000000");
    assert_eq!(probe_range(42), "bytes */42");
}

#[test]
fn range_header_gives_the_last_byte() {
    assert_eq!(parse_range_last("bytes=0-12345"), Some(12345));
    assert_eq!(parse_range_last("12"), Some(12));
    assert_eq!(parse_range_last("bytes=0-"), None);
    assert_eq!(parse_range_last("bytes=0-x"), None);
    assert_eq!(next_offset(Some("bytes=0-99"), 7), 100);
    assert_eq!(next_offset(Some("garbage-"), 7), 7);
    assert_eq!(next_offset(None, 7), 7);
}

#[test]
fn resync_waits_double_up_to_32_seconds() {
    assert_eq!(resync_delay_secs(0), 1);
    assert_eq!(resync_delay_secs(1), 2);
    assert_eq!(resync_delay_secs(4), 16);
    assert_eq!(resync_delay_secs(5), 32);
    assert_eq!(resync_delay_secs(9), 32);
}

#[test]
fn chunks_follow_the_server_progress() {
    let total = CHUNK_SIZE + 100;
    let mut u = ChunkUpload::new(total);
    assert_eq!(u.chunk(), (CHUNK_SIZE, CHUNK_SIZE - 1));
    match u.on_chunk_reply(response(308, "308 Permanent Redirect", Some("bytes=0-8388607"), "")) {
        ChunkStep::Next { uploaded } => assert_eq!(uploaded, CHUNK_SIZE),
        _ => panic!("expected next chunk"),
    }
    assert_eq!(u.chunk(), (100, total - 1));
    match u.on_chunk_reply(response(308, "308", None, "")) {
        ChunkStep::Next { uploaded } => assert_eq!(uploaded, total),
        _ => panic!("expected next chunk"),
    }
}

#[test]
fn final_reply_gives_the_video_id() {
    let mut u = ChunkUpload::new(10);
    match u.on_chunk_reply(response(200, "200 OK", None, r#"{"id":"abc","kind":"video"}"#)) {
        ChunkStep::Finished { video_id } => assert_eq!(video_id, Ok("abc".to_string())),
        _ => panic!("expected finish"),
    }
    match u.on_chunk_reply(response(201, "201 Created", None, "{}")) {
        ChunkStep::Finished { video_id } => {
            assert_eq!(video_id, Err("no video id in final response".to_string()))
        }
        _ => panic!("expected finish"),
    }
}

#[test]
fn video_id_errors() {
    assert_eq!(
        video_id("not json"),
        Err("bad final response: error decoding response body".to_string())
    );
    assert_eq!(video_id(r#"{"id":5}"#), Err("no video id in final response".to_string()));
    assert_eq!(video_id(r#"{"id":"v1"}"#), Ok("v1".to_string()));
}

#[test]
fn gone_sessions_fail_at_once() {
    let mut u = ChunkUpload::new(10);
    match u.on_chunk_reply(response(410, "410 Gone", None, "")) {
        ChunkStep::Fail { message } => assert_eq!(message, "upload session expired (410 Gone)"),
        _ => panic!("expected failure"),
    }
    match u.on_chunk_reply(response(404, "404 Not Found", None, "")) {
        ChunkStep::Fail { message } => {
            assert_eq!(message, "upload session expired (404 Not Found)")
        }
        _ => panic!("expected failure"),
    }
}

#[test]
fn other_errors_retry_five_times() {
    let mut u = ChunkUpload::new(10);
    for k in 1..=5u32 {
        match u.on_chunk_reply(response(500, "500 Internal Server Error", None, "")) {
            ChunkStep::Resync { after_secs } => assert_eq!(after_secs, 1u64 << k),
            _ => panic!("expected resync"),
        }
    }
    match u.on_chunk_reply(response(500, "500 Internal Server Error", None, "")) {
        ChunkStep::Fail { message } => assert_eq!(message, "upload failed (500 Internal Server Error)"),
        _ => panic!("expected failure"),
    }
}

#[test]
fn network_errors_retry_then_fail() {
    let mut u = ChunkUpload { total: 10, offset: 0, retries: 5 };
    match u.on_chunk_reply(Reply::Network { error: "timed out".to_string() }) {
        ChunkStep::Fail { message } => assert_eq!(message, "network error: timed out"),
        _ => panic!("expected failure"),
    }
    let mut v = ChunkUpload::new(10);
    match v.on_chunk_reply(Reply::Network { error: "reset".to_string() }) {
        ChunkStep::Resync { after_secs } => assert_eq!(after_secs, 2),
        _ => panic!("expected resync"),
    }
    assert_eq!(v.retries, 1);
}

#[test]
fn probes_resync_the_offset() {
    let mut u = ChunkUpload { total: 100, offset: 40, retries: 2 };
    assert_eq!(u.on_probe_reply(response(308, "308", Some("bytes=0-59"), "")), None);
    assert_eq!(u.offset, 60);
    assert_eq!(u.on_probe_reply(response(308, "308", None, "")), None);
    assert_eq!(u.offset, 0);
    u.offset = 30;
    assert_eq!(u.on_probe_reply(response(503, "503", None, "")), None);
    assert_eq!(u.offset, 30);
    assert_eq!(u.on_probe_reply(response(200, "200", None, r#"{"id":"done"}"#)), Some("done".to_string()));
    assert_eq!(u.on_probe_reply(response(200, "200", None, "oops")), None);
    assert_eq!(u.on_probe_reply(Reply::Network { error: "e".to_string() }), None);
    assert_eq!(u.retries, 2);
}


#[test]
fn an_unreadable_final_body_reports_the_read_error() {
    let mut u = ChunkUpload::new(10);
    let reply = Reply::Response {
        status: 200,
        status_text: "200 OK".to_string(),
        range: None,
        body: Err("error reading a body from connection".to_string()),
    };
    match u.on_chunk_reply(reply) {
        ChunkStep::Finished { video_id } => assert_eq!(
            video_id,
            Err("bad final response: error reading a body from connection".to_string())
        ),
        _ => panic!("expected the finished step"),
    }
    let probe = Reply::Response {
        status: 200,
        status_text: "200 OK".to_string(),
        range: None,
        body: Err("x".to_string()),
    };
    assert_eq!(u.on_probe_reply(probe), None);
}
