use momentum_app::app_state::AppState;
use momentum_app::lobby::{
    holds_short_icon, in_lobby, is_unreadable_split_file, needs_resources, AutosplitProbePayload, AutosplitReport, AutosplitSource, Effect,
    LiveSplitStep, RaceState,
};
use momentum_app::ws::{
    LobbyClosedMsg, LobbySetup, LobbyStartMsg, PlayerResultPayload, ServerMessage,
    UploadReadyMsg, UploadUnavailableMsg, UploadUnavailableReason, WsStatus,
};

fn lobby(id: &str) -> LobbySetup {
    LobbySetup {
        lobby_id: id.to_string(),
        game_id: "g".to_string(),
        game_name: "Game".to_string(),
        category_id: "c".to_string(),
        category_name: vec!["Any%".to_string()],
        category_split_id: Some("split".to_string()),
        split_resource_updated_at: Some("2025-01-01".to_string()),
        autosplitter_updated_at: None,
        counter_config_updated_at: None,
        whip_url: "https://whip".to_string(),
        ranked: true,
    }
}

fn idle() -> RaceState {
    RaceState {
        app_state: AppState::Idle,
        ws_status: WsStatus::Connected,
        user: Some("bob".to_string()),
        lobby: None,
        race_start_at: None,
        clock_offset_ms: 0,
        pending_finish: false,
        autosplit_source: None,
        wasm_attached: false,
        livesplit_connected: false,
        livesplit_splits_match: None,
        last_autosplit_reported: None,
        autosplitter_cancel: false,
        has_wasm: false,
        probe_running: false,
        livesplit_running: false,
        split_run: None,
        current_split_index: 0,
        segment_start_ms: 0,
        has_counter_config: false,
        replay_base: None,
        replay_started_at_ms: None,
        run_active: false,
    }
}

#[test]
fn lobby_setup_enters_stream_setup() {
    let mut s = idle();
    s.autosplitter_cancel = true;
    s.autosplit_source = Some(AutosplitSource::Wasm);
    s.replay_base = Some("old.mp4".to_string());
    let fx = s.handle_message(ServerMessage::LobbySetup(lobby("L1")));
    assert_eq!(
        fx,
        vec![
            Effect::ResetRunBuffers,
            Effect::EmitLobbySetup,
            Effect::EnsurePreview,
            Effect::InitLobbyResources
        ]
    );
    assert_eq!(s.app_state, AppState::StreamSetup);
    assert_eq!(s.lobby.as_ref().unwrap().lobby_id, "L1");
    assert!(!s.autosplitter_cancel);
    assert_eq!(s.autosplit_source, None);
    assert_eq!(s.replay_base, None);
    assert!(in_lobby(s.app_state));
}

#[test]
fn lobby_start_adds_the_handicap() {
    let mut s = idle();
    s.handle_message(ServerMessage::LobbySetup(lobby("L1")));
    let fx = s.handle_message(ServerMessage::LobbyStart(LobbyStartMsg {
        race_start_at: 100_000,
        expires_at: 200_000,
        start_delay_ms: 1_500,
    }));
    assert_eq!(s.race_start_at, Some(101_500));
    assert_eq!(s.app_state, AppState::RaceInProgress);
    assert_eq!(
        fx,
        vec![Effect::EmitLobbyStart { race_start_at: 101_500 }, Effect::StartAutosplitter]
    );
}

#[test]
fn lobby_closed_returns_to_idle_and_forgets_the_race() {
    let mut s = idle();
    s.handle_message(ServerMessage::LobbySetup(lobby("L1")));
    s.handle_message(ServerMessage::LobbyStart(LobbyStartMsg {
        race_start_at: 5,
        expires_at: 6,
        start_delay_ms: 0,
    }));
    s.autosplit_source = Some(AutosplitSource::LiveSplit);
    s.split_run = Some(vec!["One".to_string()]);
    s.current_split_index = 4;
    let fx = s.handle_message(ServerMessage::LobbyClosed(LobbyClosedMsg {
        lobby_id: "L1".to_string(),
        reason: "done".to_string(),
    }));
    assert_eq!(fx, vec![Effect::DropRunBuffers, Effect::ShutdownStream, Effect::EmitLobbyClosed]);
    assert_eq!(s.app_state, AppState::Idle);
    assert!(s.lobby.is_none());
    assert_eq!(s.race_start_at, None);
    assert_eq!(s.autosplit_source, None);
    assert!(s.autosplitter_cancel);
    assert!(s.split_run.is_none());
    assert_eq!(s.current_split_index, 0);
    assert!(!in_lobby(s.app_state));
}

#[test]
fn player_result_finishes_the_race() {
    let mut s = idle();
    s.app_state = AppState::RaceInProgress;
    s.race_start_at = Some(7);
    s.pending_finish = true;
    let fx = s.handle_message(ServerMessage::PlayerResult(PlayerResultPayload {
        user_id: "u".to_string(),
        username: "bob".to_string(),
        player_status: "finished".to_string(),
        finishing_time_ms: Some(1000),
        finish_position: Some(1),
    }));
    assert_eq!(fx, vec![Effect::ShutdownStream, Effect::EmitPlayerResult]);
    assert_eq!(s.app_state, AppState::Finished);
    assert_eq!(s.race_start_at, None);
    assert!(!s.pending_finish);
}

#[test]
fn upload_and_warning_messages_only_ask_for_work() {
    let mut s = idle();
    let fx = s.handle_message(ServerMessage::UploadReady(UploadReadyMsg {
        lobby_id: "L".to_string(),
        upload_ticket: "t".to_string(),
        resumable_url: "u".to_string(),
    }));
    assert_eq!(fx, vec![Effect::StartUpload]);
    let fx = s.handle_message(ServerMessage::UploadUnavailable(UploadUnavailableMsg {
        lobby_id: "L".to_string(),
        reason: UploadUnavailableReason::QuotaExhausted,
    }));
    assert_eq!(
        fx,
        vec![Effect::UploadUnavailable { reason: UploadUnavailableReason::QuotaExhausted }]
    );
    assert_eq!(
        s.handle_message(ServerMessage::EarlyStartWarning { active: true }),
        vec![Effect::ReportAutosplitState]
    );
    assert!(s.handle_message(ServerMessage::EarlyStartWarning { active: false }).is_empty());
    assert!(s.handle_message(ServerMessage::Ping).is_empty());
    assert_eq!(s.app_state, AppState::Idle);
}

#[test]
fn source_is_committed_when_the_clock_starts_and_then_stays() {
    let mut s = idle();
    s.race_start_at = Some(1_000);
    s.clock_offset_ms = 100;
    s.wasm_attached = true;
    s.livesplit_connected = true;
    s.maybe_commit_source(899);
    assert_eq!(s.autosplit_source, None);
    assert!(!s.race_clock_started(899));
    assert!(s.race_clock_started(900));
    s.maybe_commit_source(900);
    assert_eq!(s.autosplit_source, Some(AutosplitSource::Wasm));
    assert!(s.wasm_won());
    s.wasm_attached = false;
    s.maybe_commit_source(5_000);
    assert_eq!(s.autosplit_source, Some(AutosplitSource::Wasm));
}

#[test]
fn livesplit_is_committed_without_wasm() {
    let mut s = idle();
    s.race_start_at = Some(0);
    s.livesplit_connected = true;
    s.maybe_commit_source(10);
    assert_eq!(s.autosplit_source, Some(AutosplitSource::LiveSplit));
    let mut t = idle();
    t.race_start_at = Some(0);
    t.maybe_commit_source(10);
    assert_eq!(t.autosplit_source, None);
}

#[test]
fn reported_status_follows_the_committed_source() {
    let mut s = idle();
    s.livesplit_connected = true;
    s.livesplit_splits_match = Some(false);
    assert_eq!(
        s.autosplit_status(false),
        AutosplitReport { connected: true, splits_valid: false, run_in_progress: false }
    );
    s.autosplit_source = Some(AutosplitSource::Wasm);
    assert_eq!(
        s.autosplit_status(true),
        AutosplitReport { connected: false, splits_valid: true, run_in_progress: true }
    );
    s.autosplit_source = Some(AutosplitSource::LiveSplit);
    assert_eq!(
        s.autosplit_status(false),
        AutosplitReport { connected: true, splits_valid: false, run_in_progress: false }
    );
}

#[test]
fn a_status_is_reported_once_per_change() {
    let mut s = idle();
    let rep = AutosplitReport { connected: true, splits_valid: true, run_in_progress: false };
    assert_eq!(s.report_target(rep), None);
    s.lobby = Some(lobby("L9"));
    assert_eq!(s.report_target(rep), Some("L9"));
    s.record_report(rep);
    assert_eq!(s.report_target(rep), None);
    let other = AutosplitReport { connected: false, ..rep };
    assert_eq!(s.report_target(other), Some("L9"));
}

#[test]
fn probe_badges_mirror_the_state() {
    let mut s = idle();
    s.wasm_attached = true;
    s.livesplit_splits_match = Some(true);
    s.run_active = true;
    assert_eq!(
        s.current_autosplit_probe(),
        AutosplitProbePayload {
            wasm: true,
            livesplit: false,
            splits_match: Some(true),
            run_in_progress: true
        }
    );
}

#[test]
fn probe_and_livesplit_are_claimed_once() {
    let mut s = idle();
    assert!(s.claim_probe());
    assert!(!s.claim_probe());
    assert!(s.claim_livesplit());
    assert!(!s.claim_livesplit());
    s.livesplit_connected = true;
    s.livesplit_ended();
    assert!(!s.livesplit_running && !s.livesplit_connected);
}

#[test]
fn livesplit_supervisor_decisions() {
    let mut s = idle();
    assert_eq!(s.livesplit_step(false, false, 0), LiveSplitStep::Stop);
    s.app_state = AppState::StreamSetup;
    assert_eq!(s.livesplit_step(false, false, 0), LiveSplitStep::Connect);
    assert_eq!(s.livesplit_step(true, false, 0), LiveSplitStep::Stop);
    s.app_state = AppState::RaceInProgress;
    s.race_start_at = Some(50);
    assert_eq!(s.livesplit_step(false, false, 60), LiveSplitStep::GiveUp);
    assert_eq!(s.livesplit_step(false, true, 60), LiveSplitStep::Connect);
    s.autosplit_source = Some(AutosplitSource::Wasm);
    assert_eq!(s.livesplit_step(false, true, 60), LiveSplitStep::Stop);
}

#[test]
fn connecting_becomes_idle_once_connected() {
    let mut s = idle();
    s.app_state = AppState::Connecting;
    assert!(!s.set_ws_status(WsStatus::Connecting));
    assert_eq!(s.app_state, AppState::Connecting);
    assert!(s.set_ws_status(WsStatus::Connected));
    assert_eq!(s.app_state, AppState::Idle);
    assert_eq!(s.ws_status, WsStatus::Connected);
    assert!(!s.set_ws_status(WsStatus::Connected));
}

#[test]
fn logout_and_vanished_lobby() {
    let mut s = idle();
    s.adopt_lobby(lobby("L2"), AppState::WaitingForStart);
    assert_eq!(s.app_state, AppState::WaitingForStart);
    assert!(s.lobby_gone());
    assert_eq!(s.app_state, AppState::Idle);
    assert!(s.lobby.is_none());
    s.log_out();
    assert_eq!(s.app_state, AppState::Unauthenticated);
    assert!(s.user.is_none());
    assert!(!s.lobby_gone());
    assert_eq!(s.app_state, AppState::Unauthenticated);
}

#[test]
fn resources_need_a_split_file_and_its_date() {
    let mut l = lobby("L");
    assert!(needs_resources(&l));
    l.split_resource_updated_at = None;
    assert!(!needs_resources(&l));
    let mut m = lobby("M");
    m.category_split_id = None;
    assert!(!needs_resources(&m));
}

#[test]
fn split_files_load_their_segments() {
    let lss = r#"<?xml version="1.0" encoding="UTF-8"?><Run version="1.7.0"><GameIcon /><GameName>G</GameName><CategoryName>Any%</CategoryName><Offset>00:00:00</Offset><AttemptCount>0</AttemptCount><Segments><Segment><Name>One</Name></Segment><Segment><Name>Two</Name></Segment></Segments></Run>"#;
    let mut s = idle();
    s.current_split_index = 5;
    s.segment_start_ms = 77;
    assert_eq!(s.load_split_file(lss), Some(2));
    assert_eq!(s.split_run, Some(vec!["One".to_string(), "Two".to_string()]));
    assert_eq!((s.current_split_index, s.segment_start_ms), (0, 0));
    let mut t = idle();
    t.current_split_index = 3;
    assert_eq!(t.load_split_file("not a split file"), None);
    assert!(t.split_run.is_none());
    assert_eq!(t.current_split_index, 3);
}

fn run_with_offset(offset: &str) -> String {
    format!(
        r#"<?xml version="1.0" encoding="UTF-8"?><Run version="1.7.0"><GameIcon /><GameName>G</GameName><CategoryName>Any%</CategoryName><Offset>{offset}</Offset><AttemptCount>0</AttemptCount><Segments><Segment><Name>One</Name></Segment></Segments></Run>"#
    )
}

#[test]
fn split_files_with_a_day_count_load() {
    let lss = run_with_offset("1.02:03:04.5000000");
    assert!(!is_unreadable_split_file(lss.as_bytes()));
    let mut s = idle();
    assert_eq!(s.load_split_file(&lss), Some(1));
    let negative = run_with_offset("-3.00:00:01");
    assert!(!is_unreadable_split_file(negative.as_bytes()));
    assert_eq!(idle().load_split_file(&negative), Some(1));
}

#[test]
fn split_files_with_a_day_count_out_of_range_are_refused() {
    for offset in [
        "NaN.0:00",
        "inf.00:00:00",
        "1e400.00:00:00",
        "1234567890.00:00:00",
        "1.1:1:1:1:1:1:1",
        "1.0:12345678901",
    ] {
        let lss = run_with_offset(offset);
        assert!(is_unreadable_split_file(lss.as_bytes()), "{offset}");
        let mut s = idle();
        s.current_split_index = 2;
        assert_eq!(s.load_split_file(&lss), None, "{offset}");
        assert!(s.split_run.is_none());
        assert_eq!(s.current_split_index, 2);
    }
    let cdata = run_with_offset("<![CDATA[NaN.0:00]]>");
    assert!(is_unreadable_split_file(cdata.as_bytes()));
}

#[test]
fn texts_in_other_split_formats_are_refused_without_failing() {
    let mut s = idle();
    assert_eq!(s.load_split_file("Title=Game\nOffset=NaN\nGoal=\n"), None);
    assert!(s.split_run.is_none());
}

#[test]
fn split_files_with_a_short_icon_text_are_refused() {
    let lss = format!("<Run><GameIcon>{}AA==</GameIcon></Run>", "A".repeat(212));
    assert!(holds_short_icon(lss.as_bytes()));
    let mut s = idle();
    s.current_split_index = 4;
    assert_eq!(s.load_split_file(&lss), None);
    assert!(s.split_run.is_none());
    assert_eq!(s.current_split_index, 4);
    let cdata = format!("<Run><GameIcon><![CDATA[{}AAA=]]></GameIcon></Run>", "A".repeat(212));
    assert!(holds_short_icon(cdata.as_bytes()));
    let long = format!("<Run><GameIcon>{}AAAAAA==</GameIcon></Run>", "A".repeat(212));
    assert!(!holds_short_icon(long.as_bytes()));
    let spaced = format!("<Run><GameIcon>\n  {}AA==  \n</GameIcon></Run>", "A".repeat(212));
    assert!(holds_short_icon(spaced.as_bytes()));
    let not_base64 = format!("<Run><GameIcon>{}A!==</GameIcon></Run>", "A".repeat(212));
    assert!(!holds_short_icon(not_base64.as_bytes()));
}
