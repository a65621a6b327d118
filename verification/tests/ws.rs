use momentum_app::app_state::AppState;
use momentum_app::ws::{
    auth_message, auth_verdict, retry_once_phase, Attempt, AuthFrame, AuthOutcome, Reconnect,
    ReconnectStep, WsCommand,
};

#[test]
fn stream_ready_serialises_type_then_lobby() {
    let c = WsCommand::StreamReady { lobby_id: "L1".to_string() };
    assert_eq!(c.to_json().unwrap(), r#"{"type":"stream_ready","lobby_id":"L1"}"#);
}

#[test]
fn player_finished_carries_the_time() {
    let c = WsCommand::PlayerFinished { lobby_id: "L1".to_string(), finishing_time_ms: 1234 };
    assert_eq!(
        c.to_json().unwrap(),
        r#"{"type":"player_finished","lobby_id":"L1","finishing_time_ms":1234}"#
    );
}

#[test]
fn stopped_and_forfeited_have_no_time() {
    let s = WsCommand::StreamStopped { lobby_id: "x".to_string() };
    assert_eq!(s.to_json().unwrap(), r#"{"type":"stream_stopped","lobby_id":"x"}"#);
    let f = WsCommand::PlayerForfeited { lobby_id: "x".to_string() };
    assert_eq!(f.to_json().unwrap(), r#"{"type":"player_forfeited","lobby_id":"x"}"#);
}

#[test]
fn lobby_ids_are_json_escaped() {
    let c = WsCommand::StreamReady { lobby_id: "a\"b\\c".to_string() };
    assert_eq!(c.to_json().unwrap(), r#"{"type":"stream_ready","lobby_id":"a\"b\\c"}"#);
}

#[test]
fn disconnect_is_not_sent() {
    assert!(WsCommand::Disconnect.to_json().is_none());
}

#[test]
fn close_codes_give_the_auth_verdict() {
    assert_eq!(auth_verdict(AuthFrame::Text), Some(AuthOutcome::Accepted));
    assert_eq!(auth_verdict(AuthFrame::Close(Some(4001))), Some(AuthOutcome::Invalid));
    assert_eq!(auth_verdict(AuthFrame::Close(Some(4003))), Some(AuthOutcome::Banned));
    assert_eq!(auth_verdict(AuthFrame::Close(Some(1000))), Some(AuthOutcome::Transient));
    assert_eq!(auth_verdict(AuthFrame::Close(None)), Some(AuthOutcome::Transient));
    assert_eq!(auth_verdict(AuthFrame::Ended), Some(AuthOutcome::Transient));
    assert_eq!(auth_verdict(AuthFrame::Other), None);
}

#[test]
fn auth_message_embeds_the_token() {
    assert_eq!(auth_message("tok"), r#"{"type":"auth","token":"tok"}"#);
}

#[test]
fn transient_failures_back_off_then_give_up() {
    let mut r = Reconnect::new(1);
    assert_eq!(r.after(Attempt::Transient, 1, 30, 3), ReconnectStep::Retry { after_secs: 1 });
    assert_eq!(r, Reconnect { backoff_secs: 2, transient_failures: 1 });
    assert_eq!(r.after(Attempt::Transient, 1, 30, 3), ReconnectStep::Retry { after_secs: 2 });
    assert_eq!(r.backoff_secs, 4);
    assert_eq!(
        r.after(Attempt::Transient, 1, 30, 3),
        ReconnectStep::Stop { phase: Some(AppState::ServerUnavailable) }
    );
    assert_eq!(r.transient_failures, 3);
}

#[test]
fn a_served_connection_resets_the_backoff() {
    let mut r = Reconnect { backoff_secs: 16, transient_failures: 2 };
    assert_eq!(r.after(Attempt::Served, 1, 30, 5), ReconnectStep::Retry { after_secs: 1 });
    assert_eq!(r, Reconnect { backoff_secs: 2, transient_failures: 0 });
}

#[test]
fn backoff_is_capped() {
    let mut r = Reconnect { backoff_secs: 20, transient_failures: 0 };
    assert_eq!(r.after(Attempt::Transient, 1, 30, 10), ReconnectStep::Retry { after_secs: 20 });
    assert_eq!(r.backoff_secs, 30);
    assert_eq!(r.after(Attempt::Transient, 1, 30, 10), ReconnectStep::Retry { after_secs: 30 });
    assert_eq!(r.backoff_secs, 30);
}

#[test]
fn token_refresh_and_ban() {
    let mut r = Reconnect { backoff_secs: 8, transient_failures: 1 };
    assert_eq!(r.after(Attempt::Invalid { refreshed: true }, 1, 30, 5), ReconnectStep::RetryNow);
    assert_eq!(r.backoff_secs, 1);
    assert_eq!(
        r.after(Attempt::Invalid { refreshed: false }, 1, 30, 5),
        ReconnectStep::Stop { phase: None }
    );
    assert_eq!(
        r.after(Attempt::Banned, 1, 30, 5),
        ReconnectStep::Stop { phase: Some(AppState::Banned) }
    );
}

#[test]
fn one_off_retry_phases() {
    assert_eq!(retry_once_phase(Attempt::Banned), Some(AppState::Banned));
    assert_eq!(retry_once_phase(Attempt::Transient), Some(AppState::ServerUnavailable));
    assert_eq!(retry_once_phase(Attempt::Served), None);
    assert_eq!(retry_once_phase(Attempt::Invalid { refreshed: true }), None);
}

#[test]
fn control_characters_are_escaped_as_serde_json_does() {
    let c = WsCommand::StreamReady { lobby_id: "t\u{8}\t\n\u{c}\r\u{1}\u{1f}\u{7f}é".to_string() };
    assert_eq!(
        c.to_json().unwrap(),
        "{\"type\":\"stream_ready\",\"lobby_id\":\"t\\b\\t\\n\\f\\r\\u0001\\u001f\u{7f}é\"}"
    );
}
