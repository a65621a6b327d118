//! The client's race bookkeeping: how server messages move it between
//! lobby phases, which autosplitter a race is locked to, and what is
//! reported to the backend about it.
use crate::app_state::AppState;
use crate::text::views;
use crate::ws::{LobbySetup, ServerMessage, UploadUnavailableReason, WsStatus};
use vstd::prelude::*;
use vstd::string::StringSliceAdditionalSpecFns;

verus! {

/// The autosplitter a race is locked to once its clock starts.
#[derive(Debug, Clone, Copy, PartialEq, Eq, Structural)]
pub enum AutosplitSource {
    Wasm,
    LiveSplit,
}

/// Autosplit status as last reported to the backend: connected, splits
/// valid, run in progress.
#[derive(Debug, Clone, Copy, PartialEq, Eq, Structural)]
pub struct AutosplitReport {
    pub connected: bool,
    pub splits_valid: bool,
    pub run_in_progress: bool,
}

/// "autosplit:probe" payload: per-source badges for the UI.
#[derive(Debug, Clone, Copy, PartialEq, Eq, Structural)]
pub struct AutosplitProbePayload {
    pub wasm: bool,
    pub livesplit: bool,
    pub splits_match: Option<bool>,
    /// The run started before the race did (early-start warning).
    pub run_in_progress: bool,
}

/// The part of the client's shared state that lobby and race messages
/// read and change.
pub struct RaceState {
    pub app_state: AppState,
    pub ws_status: WsStatus,
    /// Signed-in user's name.
    pub user: Option<String>,
    pub lobby: Option<LobbySetup>,
    /// Race start on the server clock, handicap included.
    pub race_start_at: Option<i64>,
    /// Server clock minus local clock.
    pub clock_offset_ms: i64,
    pub pending_finish: bool,
    pub autosplit_source: Option<AutosplitSource>,
    pub wasm_attached: bool,
    pub livesplit_connected: bool,
    pub livesplit_splits_match: Option<bool>,
    pub last_autosplit_reported: Option<AutosplitReport>,
    /// Value of the autosplitters' shared cancel flag.
    pub autosplitter_cancel: bool,
    /// An autosplitter module is cached for this game.
    pub has_wasm: bool,
    pub probe_running: bool,
    pub livesplit_running: bool,
    /// Segment names of the loaded split file.
    pub split_run: Option<Vec<String>>,
    pub current_split_index: usize,
    pub segment_start_ms: u64,
    pub has_counter_config: bool,
    pub replay_base: Option<String>,
    pub replay_started_at_ms: Option<u64>,
    /// The player's timer is running.
    pub run_active: bool,
}

/// Side work that a message asks of the client, in order.
#[derive(Debug, Clone, Copy, PartialEq, Eq, Structural)]
pub enum Effect {
    /// Clear counter buffers and pending splits, reset the run start.
    ResetRunBuffers,
    /// Clear counter buffers, pending and early splits.
    DropRunBuffers,
    EmitLobbySetup,
    /// Start the local preview if the phase wants one.
    EnsurePreview,
    /// Load the split file and start the autosplitter probe.
    InitLobbyResources,
    /// Forward the start, with its effective time.
    EmitLobbyStart { race_start_at: i64 },
    StartAutosplitter,
    /// Stop the stream gracefully in the background.
    ShutdownStream,
    EmitLobbyClosed,
    EmitPlayerResult,
    /// Begin uploading the replay.
    StartUpload,
    /// Tell the UI the upload cannot happen.
    UploadUnavailable { reason: UploadUnavailableReason },
    /// Re-send the autosplit status.
    ReportAutosplitState,
}

/// The client is inside a lobby (setting up, waiting, or racing).
pub open spec fn spec_in_lobby(a: AppState) -> bool {
    a == AppState::StreamSetup || a == AppState::WaitingForStart || a == AppState::RaceInProgress
}

/// Whether `a` is a lobby phase.
pub fn in_lobby(a: AppState) -> (r: bool)
    ensures
        r == spec_in_lobby(a),
{
    match a {
        AppState::StreamSetup | AppState::WaitingForStart | AppState::RaceInProgress => true,
        _ => false,
    }
}

/// The race start with the player's handicap added (the delay is
/// reinterpreted as a signed number, as the server's `i64` clock is).
pub open spec fn effective_start(race_start_at: i64, start_delay_ms: u64) -> int {
    race_start_at + (start_delay_ms as i64)
}

/// A lobby start whose effective time fits the clock.
pub open spec fn start_fits(m: ServerMessage) -> bool {
    match m {
        ServerMessage::LobbyStart(p) => i64::MIN <= effective_start(p.race_start_at, p.start_delay_ms)
            <= i64::MAX,
        _ => true,
    }
}

/// The state after a message.
pub open spec fn after_message(s: RaceState, m: ServerMessage) -> RaceState {
    match m {
        ServerMessage::LobbySetup(p) => RaceState {
            autosplitter_cancel: false,
            app_state: AppState::StreamSetup,
            lobby: Some(p),
            pending_finish: false,
            last_autosplit_reported: None,
            autosplit_source: None,
            wasm_attached: false,
            livesplit_connected: false,
            livesplit_splits_match: None,
            replay_base: None,
            replay_started_at_ms: None,
            ..s
        },
        ServerMessage::LobbyStart(p) => RaceState {
            app_state: AppState::RaceInProgress,
            race_start_at: Some(effective_start(p.race_start_at, p.start_delay_ms) as i64),
            ..s
        },
        ServerMessage::LobbyClosed(_) => RaceState {
            autosplitter_cancel: true,
            has_wasm: false,
            probe_running: false,
            livesplit_running: false,
            last_autosplit_reported: None,
            autosplit_source: None,
            wasm_attached: false,
            livesplit_connected: false,
            livesplit_splits_match: None,
            app_state: AppState::Idle,
            lobby: None,
            race_start_at: None,
            pending_finish: false,
            split_run: None,
            current_split_index: 0,
            segment_start_ms: 0,
            has_counter_config: false,
            ..s
        },
        ServerMessage::PlayerResult(_) => RaceState {
            app_state: AppState::Finished,
            race_start_at: None,
            pending_finish: false,
            ..s
        },
        _ => s,
    }
}

/// The side work a message asks for, in order.
pub open spec fn message_effects(m: ServerMessage) -> Seq<Effect> {
    match m {
        ServerMessage::LobbySetup(_) => seq![
            Effect::ResetRunBuffers,
            Effect::EmitLobbySetup,
            Effect::EnsurePreview,
            Effect::InitLobbyResources,
        ],
        ServerMessage::LobbyStart(p) => seq![
            Effect::EmitLobbyStart {
                race_start_at: effective_start(p.race_start_at, p.start_delay_ms) as i64,
            },
            Effect::StartAutosplitter,
        ],
        ServerMessage::LobbyClosed(_) => seq![
            Effect::DropRunBuffers,
            Effect::ShutdownStream,
            Effect::EmitLobbyClosed,
        ],
        ServerMessage::PlayerResult(_) => seq![Effect::ShutdownStream, Effect::EmitPlayerResult],
        ServerMessage::UploadReady(_) => seq![Effect::StartUpload],
        ServerMessage::UploadUnavailable(u) => seq![Effect::UploadUnavailable { reason: u.reason }],
        ServerMessage::EarlyStartWarning { active } => if active {
            seq![Effect::ReportAutosplitState]
        } else {
            Seq::empty()
        },
        ServerMessage::Ping => Seq::empty(),
    }
}

/// The status the client would report now, for a run in progress or not:
/// connected means the committed source is up, or either source before
/// the commit; only LiveSplit can have mismatched splits.
pub open spec fn spec_autosplit_status(s: RaceState, run_in_progress: bool) -> AutosplitReport {
    AutosplitReport {
        connected: match s.autosplit_source {
            Some(AutosplitSource::Wasm) => s.wasm_attached,
            Some(AutosplitSource::LiveSplit) => s.livesplit_connected,
            None => s.wasm_attached || s.livesplit_connected,
        },
        splits_valid: match s.autosplit_source {
            Some(AutosplitSource::Wasm) => true,
            _ => s.livesplit_splits_match != Some(false),
        },
        run_in_progress,
    }
}

/// The race clock has started at local time `now_ms`.
pub open spec fn clock_started(s: RaceState, now_ms: i64) -> bool {
    match s.race_start_at {
        Some(start) => now_ms + s.clock_offset_ms >= start,
        None => false,
    }
}

/// The source a race is locked to when its clock starts: the WASM
/// autosplitter if attached, else LiveSplit if connected.
pub open spec fn spec_commit(s: RaceState, now_ms: i64) -> Option<AutosplitSource> {
    if s.autosplit_source is Some || !clock_started(s, now_ms) {
        s.autosplit_source
    } else if s.wasm_attached {
        Some(AutosplitSource::Wasm)
    } else if s.livesplit_connected {
        Some(AutosplitSource::LiveSplit)
    } else {
        None
    }
}

/// A status must be sent: it differs from the last one the backend
/// accepted, and there is a lobby to send it to.
pub open spec fn report_needed(s: RaceState, rep: AutosplitReport) -> bool {
    s.last_autosplit_reported != Some(rep) && s.lobby is Some
}

/// What the LiveSplit supervisor does before each connection attempt.
#[derive(Debug, Clone, Copy, PartialEq, Eq, Structural)]
pub enum LiveSplitStep {
    /// The lobby ended, was cancelled, or WASM won the race.
    Stop,
    /// Never connected and the race has started: manual finish only.
    GiveUp,
    Connect,
}

impl RaceState {
    /// Applies a server message and returns the side work it asks for.
    pub fn handle_message(&mut self, msg: ServerMessage) -> (r: Vec<Effect>)
        requires
            start_fits(msg),
        ensures
            *final(self) == after_message(*old(self), msg),
            r@ == message_effects(msg),
    {
        match msg {
            ServerMessage::LobbySetup(p) => {
                self.autosplitter_cancel = false;
                self.app_state = AppState::StreamSetup;
                self.lobby = Some(p);
                self.pending_finish = false;
                self.last_autosplit_reported = None;
                self.autosplit_source = None;
                self.wasm_attached = false;
                self.livesplit_connected = false;
                self.livesplit_splits_match = None;
                self.replay_base = None;
                self.replay_started_at_ms = None;
                vec![
                    Effect::ResetRunBuffers,
                    Effect::EmitLobbySetup,
                    Effect::EnsurePreview,
                    Effect::InitLobbyResources,
                ]
            },
            ServerMessage::LobbyStart(p) => {
                let start = p.race_start_at + p.start_delay_ms as i64;
                self.app_state = AppState::RaceInProgress;
                self.race_start_at = Some(start);
                vec![Effect::EmitLobbyStart { race_start_at: start }, Effect::StartAutosplitter]
            },
            ServerMessage::LobbyClosed(_) => {
                self.autosplitter_cancel = true;
                self.has_wasm = false;
                self.probe_running = false;
                self.livesplit_running = false;
                self.last_autosplit_reported = None;
                self.autosplit_source = None;
                self.wasm_attached = false;
                self.livesplit_connected = false;
                self.livesplit_splits_match = None;
                self.app_state = AppState::Idle;
                self.lobby = None;
                self.race_start_at = None;
                self.pending_finish = false;
                self.split_run = None;
                self.current_split_index = 0;
                self.segment_start_ms = 0;
                self.has_counter_config = false;
                vec![Effect::DropRunBuffers, Effect::ShutdownStream, Effect::EmitLobbyClosed]
            },
            ServerMessage::PlayerResult(_) => {
                self.app_state = AppState::Finished;
                self.race_start_at = None;
                self.pending_finish = false;
                vec![Effect::ShutdownStream, Effect::EmitPlayerResult]
            },
            ServerMessage::UploadReady(_) => vec![Effect::StartUpload],
            ServerMessage::UploadUnavailable(u) => vec![
                Effect::UploadUnavailable { reason: u.reason },
            ],
            ServerMessage::EarlyStartWarning { active } => {
                if active {
                    vec![Effect::ReportAutosplitState]
                } else {
                    Vec::new()
                }
            },
            ServerMessage::Ping => Vec::new(),
        }
    }

    /// Whether the race clock has started at local time `now_ms`.
    pub fn race_clock_started(&self, now_ms: i64) -> (r: bool)
        ensures
            r == clock_started(*self, now_ms),
    {
        match self.race_start_at {
            Some(start) => (now_ms as i128) + (self.clock_offset_ms as i128) >= start as i128,
            None => false,
        }
    }

    /// Locks the race's autosplit source once the clock has started.
    pub fn maybe_commit_source(&mut self, now_ms: i64)
        ensures
            *final(self) == (RaceState { autosplit_source: spec_commit(*old(self), now_ms), ..*old(self) }),
    {
        if self.autosplit_source.is_some() {
            return;
        }
        if !self.race_clock_started(now_ms) {
            return;
        }
        if self.wasm_attached {
            self.autosplit_source = Some(AutosplitSource::Wasm);
        } else if self.livesplit_connected {
            self.autosplit_source = Some(AutosplitSource::LiveSplit);
        }
    }

    /// Whether WASM was locked in as the race's source.
    pub fn wasm_won(&self) -> (r: bool)
        ensures
            r == (self.autosplit_source == Some(AutosplitSource::Wasm)),
    {
        match self.autosplit_source {
            Some(AutosplitSource::Wasm) => true,
            _ => false,
        }
    }

    /// The per-source badges shown in the UI.
    pub fn current_autosplit_probe(&self) -> (r: AutosplitProbePayload)
        ensures
            r == (AutosplitProbePayload {
                wasm: self.wasm_attached,
                livesplit: self.livesplit_connected,
                splits_match: self.livesplit_splits_match,
                run_in_progress: self.run_active,
            }),
    {
        AutosplitProbePayload {
            wasm: self.wasm_attached,
            livesplit: self.livesplit_connected,
            splits_match: self.livesplit_splits_match,
            run_in_progress: self.run_active,
        }
    }

    /// The autosplit status to report.
    pub fn autosplit_status(&self, run_in_progress: bool) -> (r: AutosplitReport)
        ensures
            r == spec_autosplit_status(*self, run_in_progress),
    {
        let connected = match self.autosplit_source {
            Some(AutosplitSource::Wasm) => self.wasm_attached,
            Some(AutosplitSource::LiveSplit) => self.livesplit_connected,
            None => self.wasm_attached || self.livesplit_connected,
        };
        let splits_valid = match self.autosplit_source {
            Some(AutosplitSource::Wasm) => true,
            _ => match self.livesplit_splits_match {
                Some(m) => m,
                None => true,
            },
        };
        AutosplitReport { connected, splits_valid, run_in_progress }
    }

    /// The lobby to report `rep` to: `None` when it was the last status
    /// sent, or when there is no lobby.
    pub fn report_target(&self, rep: AutosplitReport) -> (r: Option<&str>)
        ensures
            r is Some == report_needed(*self, rep),
            r is Some ==> r->0@ == self.lobby->0.lobby_id@,
    {
        let same = match self.last_autosplit_reported {
            Some(last) => last == rep,
            None => false,
        };
        if same {
            return None;
        }
        match &self.lobby {
            Some(l) => Some(l.lobby_id.as_str()),
            None => None,
        }
    }

    /// Remembers a status the backend accepted.
    pub fn record_report(&mut self, rep: AutosplitReport)
        ensures
            *final(self) == (RaceState { last_autosplit_reported: Some(rep), ..*old(self) }),
    {
        self.last_autosplit_reported = Some(rep);
    }

    /// Claims the autosplitter probe; `false` when one is already running.
    pub fn claim_probe(&mut self) -> (r: bool)
        ensures
            r == !old(self).probe_running,
            *final(self) == (RaceState { probe_running: true, ..*old(self) }),
    {
        if self.probe_running {
            false
        } else {
            self.probe_running = true;
            true
        }
    }

    /// Claims the LiveSplit supervisor; `false` when one is already
    /// running.
    pub fn claim_livesplit(&mut self) -> (r: bool)
        ensures
            r == !old(self).livesplit_running,
            *final(self) == (RaceState { livesplit_running: true, ..*old(self) }),
    {
        if self.livesplit_running {
            false
        } else {
            self.livesplit_running = true;
            true
        }
    }

    /// The LiveSplit supervisor ended.
    pub fn livesplit_ended(&mut self)
        ensures
            *final(self) == (RaceState {
                livesplit_running: false,
                livesplit_connected: false,
                ..*old(self)
            }),
    {
        self.livesplit_running = false;
        self.livesplit_connected = false;
    }

    /// The LiveSplit supervisor's decision before an attempt.
    pub fn livesplit_step(&self, cancelled: bool, ever_connected: bool, now_ms: i64) -> (r:
        LiveSplitStep)
        ensures
            r == if cancelled || !spec_in_lobby(self.app_state) || self.autosplit_source == Some(
                AutosplitSource::Wasm,
            ) {
                LiveSplitStep::Stop
            } else if !ever_connected && clock_started(*self, now_ms) {
                LiveSplitStep::GiveUp
            } else {
                LiveSplitStep::Connect
            },
    {
        if cancelled || !in_lobby(self.app_state) || self.wasm_won() {
            LiveSplitStep::Stop
        } else if !ever_connected && self.race_clock_started(now_ms) {
            LiveSplitStep::GiveUp
        } else {
            LiveSplitStep::Connect
        }
    }

    /// Records a new socket status; returns whether the client moved from
    /// connecting to idle, which is announced too.
    pub fn set_ws_status(&mut self, status: WsStatus) -> (r: bool)
        ensures
            r == (status == WsStatus::Connected && old(self).app_state == AppState::Connecting),
            *final(self) == (RaceState {
                ws_status: status,
                app_state: if r {
                    AppState::Idle
                } else {
                    old(self).app_state
                },
                ..*old(self)
            }),
    {
        self.ws_status = status;
        if status == WsStatus::Connected && self.app_state == AppState::Connecting {
            self.app_state = AppState::Idle;
            true
        } else {
            false
        }
    }

    /// Signs the user out.
    pub fn log_out(&mut self)
        ensures
            *final(self) == (RaceState {
                app_state: AppState::Unauthenticated,
                user: None,
                lobby: None,
                race_start_at: None,
                pending_finish: false,
                ..*old(self)
            }),
    {
        self.app_state = AppState::Unauthenticated;
        self.user = None;
        self.lobby = None;
        self.race_start_at = None;
        self.pending_finish = false;
    }

    /// After reconnecting: adopt the server's current lobby and its phase.
    pub fn adopt_lobby(&mut self, lobby: LobbySetup, phase: AppState)
        ensures
            *final(self) == (RaceState { app_state: phase, lobby: Some(lobby), ..*old(self) }),
    {
        self.app_state = phase;
        self.lobby = Some(lobby);
    }

    /// After reconnecting with no current lobby: a signed-in client
    /// returns to idle; returns whether it did.
    pub fn lobby_gone(&mut self) -> (r: bool)
        ensures
            r == (old(self).app_state != AppState::Unauthenticated),
            *final(self) == if r {
                RaceState { app_state: AppState::Idle, lobby: None, race_start_at: None, ..*old(self) }
            } else {
                *old(self)
            },
    {
        if self.app_state != AppState::Unauthenticated {
            self.app_state = AppState::Idle;
            self.lobby = None;
            self.race_start_at = None;
            true
        } else {
            false
        }
    }
}

/// Whitespace as livesplit-core's XML reader trims it.
pub open spec fn is_xml_space(b: u8) -> bool {
    b == 32 || b == 9 || b == 10 || b == 13
}

/// A byte of the standard base64 alphabet.
pub open spec fn is_base64_byte(b: u8) -> bool {
    (65 <= b <= 90) || (97 <= b <= 122) || (48 <= b <= 57) || b == 43 || b == 47
}

/// Whether, from `k` on, the first byte that is not whitespace is `<`,
/// the start of the tag that closes a text.
pub open spec fn text_closes_from(s: Seq<u8>, k: int) -> bool
    decreases s.len() - k,
{
    if k < 0 || k >= s.len() {
        false
    } else if is_xml_space(s[k]) {
        text_closes_from(s, k + 1)
    } else {
        s[k] == 60
    }
}

/// Whether no byte of `s[a..e)` is `x`.
pub open spec fn lacks_byte(s: Seq<u8>, a: int, e: int, x: u8) -> bool {
    forall|i: int| a <= i < e ==> s[i] != x
}

/// Whether the four bytes that end at `j` are a padded base64 quad, which
/// decodes to one or two bytes.
pub open spec fn short_quad_at(s: Seq<u8>, j: int) -> bool {
    &&& 3 <= j < s.len()
    &&& s[j] == 61
    &&& is_base64_byte(s[j - 3])
    &&& is_base64_byte(s[j - 2])
    &&& (is_base64_byte(s[j - 1]) || s[j - 1] == 61)
}

/// Whether a plain XML text of exactly 216 bytes ends at `j`: it follows a
/// `>` and whitespace (or starts the file), starts with a byte that is not
/// whitespace, holds no `<`, and only whitespace follows it up to a `<`.
pub open spec fn plain_text_216_ends_at(s: Seq<u8>, j: int) -> bool {
    &&& 215 <= j < s.len()
    &&& (j == 215 || s[j - 216] == 62 || is_xml_space(s[j - 216]))
    &&& !is_xml_space(s[j - 215])
    &&& lacks_byte(s, j - 215, j + 1, 60)
    &&& text_closes_from(s, j + 1)
}

/// Whether a CDATA section of exactly 216 bytes ends at `j`: it follows
/// `[`, holds no `>`, and `]]>` follows it.
pub open spec fn cdata_216_ends_at(s: Seq<u8>, j: int) -> bool {
    &&& 216 <= j
    &&& j + 3 < s.len()
    &&& s[j - 216] == 91
    &&& s[j + 1] == 93
    &&& s[j + 2] == 93
    &&& s[j + 3] == 62
    &&& lacks_byte(s, j - 215, j + 1, 62)
}

/// Whether a text that livesplit-core's image reader would fail on may end
/// at `j`. The reader decodes an icon text from its byte 212 on as padded
/// base64 and then drops two leading bytes and one trailing byte of what it
/// decoded; a text of exactly 216 bytes whose last quad is padded decodes
/// to one or two bytes, which it cannot slice. Which element the text
/// belongs to is not looked at.
pub open spec fn short_icon_text_at(s: Seq<u8>, j: int) -> bool {
    &&& short_quad_at(s, j)
    &&& (plain_text_216_ends_at(s, j) || cdata_216_ends_at(s, j))
}

/// Whether a split file may hold an icon text that livesplit-core's
/// parser cannot read without failing (see `short_icon_text_at`).
pub open spec fn may_hold_short_icon(s: Seq<u8>) -> bool {
    exists|j: int| short_icon_text_at(s, j)
}

/// Bytes that can make up a float as Rust reads one, the point aside:
/// digits, signs, exponent marks and the letters of `inf`, `infinity`
/// and `nan`, in either case.
pub open spec fn is_float_byte(b: u8) -> bool {
    ||| 48 <= b <= 57
    ||| b == 43 || b == 45
    ||| b == 101 || b == 69
    ||| b == 105 || b == 73 || b == 110 || b == 78 || b == 102 || b == 70
    ||| b == 116 || b == 84 || b == 121 || b == 89 || b == 97 || b == 65
}

/// An ASCII digit.
pub open spec fn is_digit_byte(b: u8) -> bool {
    48 <= b <= 57
}

/// Where the run of float bytes that ends just before `p` starts.
pub open spec fn float_run_start(s: Seq<u8>, p: int) -> int
    decreases p,
{
    if 0 < p <= s.len() && is_float_byte(s[p - 1]) {
        float_run_start(s, p - 1)
    } else {
        p
    }
}

/// Whether `s[w..p)` is an optional sign and then one to nine digits: a
/// day count whose seconds are far from what a duration can hold.
pub open spec fn small_day_count(s: Seq<u8>, w: int, p: int) -> bool {
    let d = if w < p && (s[w] == 43 || s[w] == 45) { w + 1 } else { w };
    &&& d < p
    &&& p - d <= 9
    &&& forall|i: int| d <= i < p ==> is_digit_byte(#[trigger] s[i])
}

/// The first index from `k` on that holds `x`, or the length.
pub open spec fn next_index_of(s: Seq<u8>, x: u8, k: int) -> int
    decreases s.len() - k,
{
    if k < 0 || k >= s.len() {
        s.len() as int
    } else if s[k] == x {
        k
    } else {
        next_index_of(s, x, k + 1)
    }
}

/// How far a text holding byte `p` can reach: a plain text ends before
/// the next `<`, a CDATA section before the next `>`.
pub open spec fn text_bound(s: Seq<u8>, p: int) -> int {
    let lt = next_index_of(s, 60, p + 1);
    let gt = next_index_of(s, 62, p + 1);
    if lt < gt {
        gt
    } else {
        lt
    }
}

/// The number of `:` in `s[a..e)`.
pub open spec fn colons_in(s: Seq<u8>, a: int, e: int) -> nat
    decreases e - a,
{
    if e <= a {
        0
    } else {
        colons_in(s, a, e - 1) + if s[e - 1] == 58 {
            1nat
        } else {
            0nat
        }
    }
}

/// The number of digits just before `i`, counting no further back than `a`.
pub open spec fn digit_streak(s: Seq<u8>, a: int, i: int) -> nat
    decreases i - a,
{
    if i > a && is_digit_byte(s[i - 1]) {
        digit_streak(s, a, i - 1) + 1
    } else {
        0
    }
}

/// Whether `s[a..e)` holds ten digits in a row.
pub open spec fn long_digit_run(s: Seq<u8>, a: int, e: int) -> bool {
    exists|i: int| a < i <= e && digit_streak(s, a, i) >= 10
}

/// Whether a `.` at `p` may be the point of a time in the form
/// `days.hh:mm:ss` that livesplit-core cannot hold. Its parser reads the
/// text before the first point as a float count of days, which panics
/// when it is not a number or too large, and adds the rest, which panics
/// when the sum overflows. The text before the point is then the run of
/// float bytes before it (a text starts after `>`, `[` or whitespace);
/// the point is let through when that run is a sign and at most nine
/// digits and the rest, up to where the text can reach, holds at most five
/// colons and no ten digits in a row.
pub open spec fn risky_day_point(s: Seq<u8>, p: int) -> bool {
    let e = text_bound(s, p);
    let w = float_run_start(s, p);
    &&& 0 <= p < s.len()
    &&& s[p] == 46
    &&& colons_in(s, p + 1, e) >= 1
    &&& w < p
    &&& (!small_day_count(s, w, p) || colons_in(s, p + 1, e) > 5 || long_digit_run(s, p + 1, e))
}

/// Whether a split file may hold a time that livesplit-core's parser
/// cannot hold (see `risky_day_point`).
pub open spec fn may_overflow_day_time(s: Seq<u8>) -> bool {
    exists|p: int| risky_day_point(s, p)
}

/// Whether livesplit-core's LiveSplit parser may fail on a split file
/// rather than return: a short icon text, a time it cannot hold, or a file
/// of 2^32 bytes or more, in which its element depth counter could
/// overflow.
pub open spec fn unreadable_split_file(s: Seq<u8>) -> bool {
    ||| s.len() >= 0x1_0000_0000
    ||| may_hold_short_icon(s)
    ||| may_overflow_day_time(s)
}

fn text_closes(s: &[u8], k: usize) -> (r: bool)
    ensures
        r == text_closes_from(s@, k as int),
{
    let mut i: usize = k;
    while i < s.len()
        invariant
            k <= i,
            text_closes_from(s@, k as int) == text_closes_from(s@, i as int),
        decreases s.len() - i,
    {
        let b = s[i];
        if !(b == 32 || b == 9 || b == 10 || b == 13) {
            return b == 60;
        }
        i = i + 1;
    }
    false
}

fn lacks(s: &[u8], a: usize, e: usize, x: u8) -> (r: bool)
    requires
        a <= e <= s.len(),
    ensures
        r == lacks_byte(s@, a as int, e as int, x),
{
    let mut i: usize = a;
    while i < e
        invariant
            a <= i <= e,
            e <= s.len(),
            lacks_byte(s@, a as int, i as int, x),
        decreases e - i,
    {
        if s[i] == x {
            return false;
        }
        i = i + 1;
    }
    true
}

fn base64_byte(b: u8) -> (r: bool)
    ensures
        r == is_base64_byte(b),
{
    (65 <= b && b <= 90) || (97 <= b && b <= 122) || (48 <= b && b <= 57) || b == 43 || b == 47
}

fn short_icon_ends_at(s: &[u8], j: usize) -> (r: bool)
    requires
        j < s.len(),
    ensures
        r == short_icon_text_at(s@, j as int),
{
    if j < 215 || s[j] != 61 || !base64_byte(s[j - 3]) || !base64_byte(s[j - 2]) {
        return false;
    }
    if !(base64_byte(s[j - 1]) || s[j - 1] == 61) {
        return false;
    }
    let before_ok = j == 215 || {
        let b = s[j - 216];
        b == 62 || b == 32 || b == 9 || b == 10 || b == 13
    };
    let first = s[j - 215];
    let first_ok = !(first == 32 || first == 9 || first == 10 || first == 13);
    if before_ok && first_ok && lacks(s, j - 215, j + 1, 60) && text_closes(s, j + 1) {
        return true;
    }
    j >= 216 && s.len() - j > 3 && s[j - 216] == 91 && s[j + 1] == 93 && s[j + 2] == 93 && s[j
        + 3] == 62 && lacks(s, j - 215, j + 1, 62)
}

/// Finds whether a split file may hold such a short icon text.
pub fn holds_short_icon(s: &[u8]) -> (r: bool)
    ensures
        r == may_hold_short_icon(s@),
{
    let mut j: usize = 0;
    while j < s.len()
        invariant
            forall|jj: int| 0 <= jj < j ==> !short_icon_text_at(s@, jj),
        decreases s.len() - j,
    {
        if short_icon_ends_at(s, j) {
            return true;
        }
        j = j + 1;
    }
    assert forall|jj: int| !short_icon_text_at(s@, jj) by {
        if 0 <= jj < j {
        }
    }
    false
}

fn float_byte(b: u8) -> (r: bool)
    ensures
        r == is_float_byte(b),
{
    (48 <= b && b <= 57) || b == 43 || b == 45 || b == 101 || b == 69 || b == 105 || b == 73 || b
        == 110 || b == 78 || b == 102 || b == 70 || b == 116 || b == 84 || b == 121 || b == 89
        || b == 97 || b == 65
}

fn float_run_from(s: &[u8], p: usize) -> (w: usize)
    requires
        p <= s.len(),
    ensures
        w as int == float_run_start(s@, p as int),
        w <= p,
{
    let mut w: usize = p;
    while w > 0 && float_byte(s[w - 1])
        invariant
            w <= p,
            p <= s.len(),
            float_run_start(s@, p as int) == float_run_start(s@, w as int),
        decreases w,
    {
        w = w - 1;
    }
    w
}

fn small_days(s: &[u8], w: usize, p: usize) -> (r: bool)
    requires
        w <= p <= s.len(),
    ensures
        r == small_day_count(s@, w as int, p as int),
{
    let d: usize = if w < p && (s[w] == 43 || s[w] == 45) {
        w + 1
    } else {
        w
    };
    if !(d < p && p - d <= 9) {
        return false;
    }
    let mut i: usize = d;
    while i < p
        invariant
            d <= i <= p,
            w <= p <= s.len(),
            d == (if w < p && (s@[w as int] == 43 || s@[w as int] == 45) {
                w + 1
            } else {
                w as int
            }),
            forall|k: int| d <= k < i ==> is_digit_byte(#[trigger] s@[k]),
        decreases p - i,
    {
        if !(48 <= s[i] && s[i] <= 57) {
            assert(!is_digit_byte(s@[i as int]));
            return false;
        }
        i = i + 1;
    }
    true
}

fn next_index(s: &[u8], x: u8, k: usize) -> (r: usize)
    requires
        k <= s.len(),
    ensures
        r as int == next_index_of(s@, x, k as int),
        k <= r <= s.len(),
{
    let mut i: usize = k;
    while i < s.len() && s[i] != x
        invariant
            k <= i <= s.len(),
            next_index_of(s@, x, k as int) == next_index_of(s@, x, i as int),
        decreases s.len() - i,
    {
        i = i + 1;
    }
    i
}

fn scan_time_rest(s: &[u8], a: usize, e: usize) -> (r: (usize, bool))
    requires
        a <= e <= s.len(),
    ensures
        r.0 as int == colons_in(s@, a as int, e as int),
        r.1 == long_digit_run(s@, a as int, e as int),
{
    let mut i: usize = a;
    let mut colons: usize = 0;
    let mut streak: usize = 0;
    let mut long = false;
    while i < e
        invariant
            a <= i <= e,
            e <= s.len(),
            colons as int == colons_in(s@, a as int, i as int),
            streak as int == digit_streak(s@, a as int, i as int),
            colons <= i - a,
            streak <= i - a,
            long == long_digit_run(s@, a as int, i as int),
        decreases e - i,
    {
        let b = s[i];
        if b == 58 {
            colons = colons + 1;
        }
        if 48 <= b && b <= 57 {
            streak = streak + 1;
        } else {
            streak = 0;
        }
        i = i + 1;
        assert(long_digit_run(s@, a as int, i as int) == (long_digit_run(s@, a as int, i - 1) || digit_streak(s@, a as int, i as int) >= 10)) by {
            if digit_streak(s@, a as int, i as int) >= 10 {
                assert(a < i <= i);
            }
            if long_digit_run(s@, a as int, i - 1) {
                let k = choose|k: int| a < k <= i - 1 && digit_streak(s@, a as int, k) >= 10;
                assert(a < k <= i);
            }
            if long_digit_run(s@, a as int, i as int) {
                let k = choose|k: int| a < k <= i && digit_streak(s@, a as int, k) >= 10;
                if k < i {
                    assert(a < k <= i - 1);
                }
            }
        }
        if streak >= 10 {
            long = true;
        }
    }
    (colons, long)
}

fn risky_point(s: &[u8], p: usize) -> (r: bool)
    requires
        p < s.len(),
    ensures
        r == risky_day_point(s@, p as int),
{
    if s[p] != 46 {
        return false;
    }
    let lt = next_index(s, 60, p + 1);
    let gt = next_index(s, 62, p + 1);
    let e: usize = if lt < gt {
        gt
    } else {
        lt
    };
    let (colons, long): (usize, bool) = scan_time_rest(s, p + 1, e);
    if colons < 1 {
        return false;
    }
    let w = float_run_from(s, p);
    if w >= p {
        return false;
    }
    !small_days(s, w, p) || colons > 5 || long
}

/// Finds whether a split file may hold a time that livesplit-core's parser
/// cannot hold.
pub fn holds_day_overflow(s: &[u8]) -> (r: bool)
    ensures
        r == may_overflow_day_time(s@),
{
    let mut p: usize = 0;
    while p < s.len()
        invariant
            forall|q: int| 0 <= q < p ==> !risky_day_point(s@, q),
        decreases s.len() - p,
    {
        if risky_point(s, p) {
            return true;
        }
        p = p + 1;
    }
    assert forall|q: int| !risky_day_point(s@, q) by {
        if 0 <= q < p {
        }
    }
    false
}

/// Finds whether livesplit-core's LiveSplit parser may fail on a split file
/// rather than return.
pub fn is_unreadable_split_file(s: &[u8]) -> (r: bool)
    ensures
        r == unreadable_split_file(s@),
{
    s.len() as u64 >= 0x1_0000_0000u64 || holds_short_icon(s) || holds_day_overflow(s)
}

/// Names what livesplit-core's LiveSplit (`.lss`) parser makes of a split
/// file's text: the names of its segments, or `None` when it refuses it.
pub uninterp spec fn parsed_segment_names(source: Seq<char>) -> Option<Seq<Seq<char>>>;

/// `livesplit_core::run::parser::livesplit::parse` and the names of the
/// parsed run's segments, in order.
/// The parser is not called on text that `unreadable_split_file` flags,
/// on some of which it panics. Only LiveSplit's own format is read: the
/// crate's parsers of other timers' formats, which its composite parser
/// falls back to, panic on texts that cannot be told apart here (the
/// WSplit parser turns an offset of `NaN` into a duration).
#[verifier::external_body]
fn parse_split_file(source: &str) -> (r: Option<Vec<String>>)
    requires
        !unreadable_split_file(source.spec_bytes()),
    ensures
        match r {
            Some(v) => parsed_segment_names(source@) == Some(views(v@)),
            None => parsed_segment_names(source@) is None,
        },
{
    match livesplit_core::run::parser::livesplit::parse(source) {
        Ok(run) => Some(run.segments().iter().map(|s| s.name().to_string()).collect()),
        Err(_) => None,
    }
}

impl RaceState {
    /// Installs parsed split segments: the run starts at its first split.
    pub fn install_splits(&mut self, parsed: Option<Vec<String>>) -> (r: Option<usize>)
        ensures
            match parsed {
                Some(v) => {
                    &&& r == Some(v@.len() as usize)
                    &&& *final(self) == (RaceState {
                        split_run: Some(v),
                        current_split_index: 0,
                        segment_start_ms: 0,
                        ..*old(self)
                    })
                },
                None => r is None && *final(self) == *old(self),
            },
    {
        match parsed {
            Some(v) => {
                let n = v.len();
                self.split_run = Some(v);
                self.current_split_index = 0;
                self.segment_start_ms = 0;
                Some(n)
            },
            None => None,
        }
    }

    /// Loads a LiveSplit split file; returns its number of segments, or
    /// `None` (and changes nothing) when the parser refuses it or when it
    /// may hold text that the parser cannot read without failing.
    pub fn load_split_file(&mut self, source: &str) -> (r: Option<usize>)
        ensures
            unreadable_split_file(source.spec_bytes()) ==> r is None && *final(self) == *old(self),
            !unreadable_split_file(source.spec_bytes()) ==> match parsed_segment_names(source@) {
                Some(names) => {
                    &&& r == Some(names.len() as usize)
                    &&& final(self).split_run matches Some(v) && views(v@) == names
                    &&& *final(self) == (RaceState {
                        split_run: final(self).split_run,
                        current_split_index: 0,
                        segment_start_ms: 0,
                        ..*old(self)
                    })
                },
                None => r is None && *final(self) == *old(self),
            },
    {
        if is_unreadable_split_file(source.as_bytes()) {
            return None;
        }
        let parsed = parse_split_file(source);
        self.install_splits(parsed)
    }
}

/// Whether a lobby brings resources to load: a split file id and the
/// time that file was last updated.
pub fn needs_resources(lobby: &LobbySetup) -> (r: bool)
    ensures
        r == (lobby.category_split_id is Some && lobby.split_resource_updated_at is Some),
{
    lobby.category_split_id.is_some() && lobby.split_resource_updated_at.is_some()
}

/// A closed lobby takes the client out of the lobby and forgets the race:
/// no lobby, no start time, no locked source, autosplitters cancelled.
pub proof fn law_closed_lobby_leaves(s: RaceState, m: ServerMessage)
    requires
        m is LobbyClosed,
    ensures
        !spec_in_lobby(after_message(s, m).app_state),
        after_message(s, m).lobby is None,
        after_message(s, m).race_start_at is None,
        after_message(s, m).autosplit_source is None,
        after_message(s, m).autosplitter_cancel,
{
}

/// A lobby start records the server's start plus the player's handicap,
/// and that is the time forwarded to the UI.
pub proof fn law_start_includes_handicap(s: RaceState, m: ServerMessage)
    requires
        m is LobbyStart,
        start_fits(m),
    ensures
        after_message(s, m).race_start_at == Some(
            effective_start(m->LobbyStart_0.race_start_at, m->LobbyStart_0.start_delay_ms) as i64,
        ),
        message_effects(m)[0] == (Effect::EmitLobbyStart {
            race_start_at: after_message(s, m).race_start_at->0,
        }),
        spec_in_lobby(after_message(s, m).app_state),
{
}

/// A new lobby starts from a clean autosplit slate: nothing locked,
/// nothing attached, nothing reported.
pub proof fn law_setup_resets_autosplit(s: RaceState, m: ServerMessage)
    requires
        m is LobbySetup,
    ensures
        after_message(s, m).autosplit_source is None,
        !after_message(s, m).wasm_attached,
        !after_message(s, m).livesplit_connected,
        after_message(s, m).last_autosplit_reported is None,
        spec_autosplit_status(after_message(s, m), false) == (AutosplitReport {
            connected: false,
            splits_valid: true,
            run_in_progress: false,
        }),
{
}

/// Once a source is locked it stays locked, and a locked source was
/// attached or connected when it was chosen.
pub proof fn law_commit_is_final(s: RaceState, now_ms: i64, later_ms: i64)
    ensures
        s.autosplit_source is Some ==> spec_commit(s, now_ms) == s.autosplit_source,
        spec_commit(RaceState { autosplit_source: spec_commit(s, now_ms), ..s }, later_ms)
            == spec_commit(s, now_ms) || spec_commit(s, now_ms) is None,
        s.autosplit_source is None && spec_commit(s, now_ms) == Some(AutosplitSource::Wasm)
            ==> s.wasm_attached,
        s.autosplit_source is None && spec_commit(s, now_ms) == Some(AutosplitSource::LiveSplit)
            ==> s.livesplit_connected && !s.wasm_attached,
{
}

/// A status the backend accepted is not sent again until it changes.
pub proof fn law_report_once(s: RaceState, rep: AutosplitReport, other: AutosplitReport)
    ensures
        !report_needed(RaceState { last_autosplit_reported: Some(rep), ..s }, rep),
        other != rep ==> report_needed(RaceState { last_autosplit_reported: Some(rep), ..s }, other)
            == (s.lobby is Some),
{
}

/// Before a source is locked, the backend hears "connected" as soon as
/// either autosplitter is up, and afterwards exactly when the locked one
/// is; locking the source at the race start never changes that signal,
/// since the lock picks a source that is up whenever one is. Only
/// LiveSplit's split check can make the splits invalid, and only while
/// the race is not locked to the WASM autosplitter.
pub proof fn law_connected_survives_commit(s: RaceState, now_ms: i64, run_in_progress: bool)
    ensures
        s.autosplit_source is None ==> (spec_autosplit_status(s, run_in_progress).connected <==> (
        s.wasm_attached || s.livesplit_connected)),
        spec_autosplit_status(
            RaceState { autosplit_source: spec_commit(s, now_ms), ..s },
            run_in_progress,
        ).connected == spec_autosplit_status(s, run_in_progress).connected,
        s.autosplit_source is None && clock_started(s, now_ms) ==> (spec_autosplit_status(
            s,
            run_in_progress,
        ).connected <==> spec_commit(s, now_ms) is Some),
        spec_autosplit_status(s, run_in_progress).run_in_progress == run_in_progress,
        s.autosplit_source is Some ==> (spec_autosplit_status(s, run_in_progress).connected <==> (
        s.autosplit_source == Some(AutosplitSource::Wasm) && s.wasm_attached || s.autosplit_source
            == Some(AutosplitSource::LiveSplit) && s.livesplit_connected)),
        !spec_autosplit_status(s, run_in_progress).splits_valid <==> (s.autosplit_source != Some(
            AutosplitSource::Wasm,
        ) && s.livesplit_splits_match == Some(false)),
{
}

} // verus!
