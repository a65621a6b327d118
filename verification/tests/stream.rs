use momentum_app::app_state::AppState;
use momentum_app::stream::{current_source, should_auto_select, start_gate, stream_settings};
use momentum_app::types::CaptureSource;
use momentum_app::ws::LobbySetup;

fn lobby(whip: &str) -> LobbySetup {
    LobbySetup {
        lobby_id: "L".to_string(),
        game_id: "g".to_string(),
        game_name: "Game".to_string(),
        category_id: "c".to_string(),
        category_name: vec![],
        category_split_id: None,
        split_resource_updated_at: None,
        autosplitter_updated_at: None,
        counter_config_updated_at: None,
        whip_url: whip.to_string(),
        ranked: false,
    }
}

#[test]
fn stream_start_checks_run_in_order() {
    assert_eq!(
        start_gate(AppState::Idle, true, &None),
        Err("stream can only start from StreamSetup".to_string())
    );
    assert_eq!(
        start_gate(AppState::StreamSetup, true, &Some(lobby("w"))),
        Err("stream already running".to_string())
    );
    assert_eq!(start_gate(AppState::StreamSetup, false, &None), Err("no active lobby".to_string()));
    assert_eq!(
        start_gate(AppState::StreamSetup, false, &Some(lobby(""))),
        Err("lobby has no whip_url".to_string())
    );
    assert_eq!(start_gate(AppState::StreamSetup, false, &Some(lobby("https://w"))), Ok(()));
}

#[test]
fn session_source_wins_over_the_saved_monitor() {
    assert_eq!(current_source(None, 2), CaptureSource::Monitor { index: 2 });
    let w = CaptureSource::Window { hwnd: 9, title: "t".to_string() };
    assert_eq!(current_source(Some(w.clone()), 2), w);
    let s = stream_settings(None, 1, 6000, 60, 1080);
    assert_eq!(s.source, CaptureSource::Monitor { index: 1 });
    assert_eq!((s.bitrate_kbps, s.framerate, s.resolution), (6000, 60, 1080));
}

#[test]
fn game_windows_are_selected_once_and_never_while_streaming() {
    let w = Some(CaptureSource::Window { hwnd: 7, title: "g".to_string() });
    assert!(!should_auto_select(true, &None, 7));
    assert!(should_auto_select(false, &None, 7));
    assert!(!should_auto_select(false, &w, 7));
    assert!(should_auto_select(false, &w, 8));
    assert!(should_auto_select(false, &Some(CaptureSource::Monitor { index: 0 }), 7));
}
