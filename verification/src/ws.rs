//! The backend WebSocket: the messages it sends, the commands the client
//! sends back, and the reconnect and authentication rules of the client.
use crate::app_state::AppState;
use crate::text::{dec, dec_u64, hex_char, owned_str, push_str};
use vstd::prelude::*;

verus! {

/// Lobby description the server pushes when a race is being set up.
pub struct LobbySetup {
    pub lobby_id: String,
    pub game_id: String,
    pub game_name: String,
    pub category_id: String,
    /// Category path, parent categories first.
    pub category_name: Vec<String>,
    pub category_split_id: Option<String>,
    pub split_resource_updated_at: Option<String>,
    pub autosplitter_updated_at: Option<String>,
    pub counter_config_updated_at: Option<String>,
    pub whip_url: String,
    pub ranked: bool,
}

/// "lobby_start": the synchronised race start and the player's handicap.
#[derive(Debug, Clone)]
pub struct LobbyStartMsg {
    pub race_start_at: i64,
    pub expires_at: i64,
    pub start_delay_ms: u64,
}

/// "lobby_closed".
#[derive(Debug, Clone)]
pub struct LobbyClosedMsg {
    pub lobby_id: String,
    pub reason: String,
}

/// "player_result": a player's final standing.
#[derive(Debug, Clone)]
pub struct PlayerResultPayload {
    pub user_id: String,
    pub username: String,
    pub player_status: String,
    pub finishing_time_ms: Option<i64>,
    pub finish_position: Option<i32>,
}

/// "upload_ready": where the replay of a race goes.
#[derive(Debug, Clone)]
pub struct UploadReadyMsg {
    pub lobby_id: String,
    pub upload_ticket: String,
    pub resumable_url: String,
}

/// Why the server could not open an upload session.
#[derive(Debug, Clone, Copy, PartialEq, Eq, Structural)]
pub enum UploadUnavailableReason {
    QuotaExhausted,
    Error,
}

/// "upload_unavailable".
#[derive(Debug, Clone)]
pub struct UploadUnavailableMsg {
    pub lobby_id: String,
    pub reason: UploadUnavailableReason,
}

/// A message from the server, by its "type" tag.
pub enum ServerMessage {
    LobbySetup(LobbySetup),
    LobbyStart(LobbyStartMsg),
    LobbyClosed(LobbyClosedMsg),
    PlayerResult(PlayerResultPayload),
    UploadReady(UploadReadyMsg),
    UploadUnavailable(UploadUnavailableMsg),
    EarlyStartWarning { active: bool },
    Ping,
}

/// "type" of the stream-ready command.
pub const MSG_TYPE_STREAM_READY: &'static str = "stream_ready";

/// "type" of the stream-stopped command.
pub const MSG_TYPE_STREAM_STOPPED: &'static str = "stream_stopped";

/// "type" of the player-finished command.
pub const MSG_TYPE_PLAYER_FINISHED: &'static str = "player_finished";

/// "type" of the player-forfeited command.
pub const MSG_TYPE_PLAYER_FORFEITED: &'static str = "player_forfeited";

/// A command the client sends over the socket.
#[derive(Debug)]
pub enum WsCommand {
    StreamReady { lobby_id: String },
    StreamStopped { lobby_id: String },
    PlayerFinished { lobby_id: String, finishing_time_ms: u64 },
    PlayerForfeited { lobby_id: String },
    Disconnect,
}

/// How serde_json writes one character inside a string: `"` and `\`
/// behind a backslash, backspace, tab, line feed, form feed and carriage
/// return as `\b \t \n \f \r`, any other control character below
/// 0x20 as `\u00` and two lowercase hex digits, anything else as is.
pub open spec fn json_char(c: char) -> Seq<char> {
    let n = c as nat;
    if c == '"' {
        seq!['\\', '"']
    } else if c == '\\' {
        seq!['\\', '\\']
    } else if n == 8 {
        seq!['\\', 'b']
    } else if n == 9 {
        seq!['\\', 't']
    } else if n == 10 {
        seq!['\\', 'n']
    } else if n == 12 {
        seq!['\\', 'f']
    } else if n == 13 {
        seq!['\\', 'r']
    } else if n < 32 {
        seq!['\\', 'u', '0', '0', hex_char(n / 16), hex_char(n % 16)]
    } else {
        seq![c]
    }
}

/// The characters of a string, each written as `json_char` writes it.
pub open spec fn json_escaped(s: Seq<char>) -> Seq<char>
    decreases s.len(),
{
    if s.len() == 0 {
        Seq::empty()
    } else {
        json_escaped(s.drop_last()) + json_char(s.last())
    }
}

/// What serde_json writes for a string value: the escaped characters
/// between double quotes.
pub open spec fn json_string(s: Seq<char>) -> Seq<char> {
    seq!['"'] + json_escaped(s) + seq!['"']
}

/// `serde_json::to_string` on a string slice: the quoted, escaped string
/// (`format_escaped_str` in serde_json's serializer). Serialising a `str`
/// into a `String` has no failure path in serde_json, so the result is
/// always that literal.
#[verifier::external_body]
fn json_quote(s: &str) -> (r: String)
    ensures
        r@ == json_string(s@),
{
    match serde_json::to_string(s) {
        Ok(q) => q,
        Err(_) => String::new(),
    }
}

/// The JSON object sent for a command: "type", "lobby_id" and, for a
/// finish, "finishing_time_ms", in that order and without spaces.
pub open spec fn command_json(kind: Seq<char>, lobby_id: Seq<char>, time: Option<u64>) -> Seq<
    char,
> {
    "{\"type\":"@ + json_string(kind) + ",\"lobby_id\":"@ + json_string(lobby_id) + match time {
        Some(t) => ",\"finishing_time_ms\":"@ + dec(t as nat),
        None => Seq::empty(),
    } + "}"@
}

/// The message text of a command; `None` for `Disconnect`.
pub open spec fn spec_to_json(c: WsCommand) -> Option<Seq<char>> {
    match c {
        WsCommand::StreamReady { lobby_id } => Some(
            command_json(MSG_TYPE_STREAM_READY@, lobby_id@, None),
        ),
        WsCommand::StreamStopped { lobby_id } => Some(
            command_json(MSG_TYPE_STREAM_STOPPED@, lobby_id@, None),
        ),
        WsCommand::PlayerFinished { lobby_id, finishing_time_ms } => Some(
            command_json(MSG_TYPE_PLAYER_FINISHED@, lobby_id@, Some(finishing_time_ms)),
        ),
        WsCommand::PlayerForfeited { lobby_id } => Some(
            command_json(MSG_TYPE_PLAYER_FORFEITED@, lobby_id@, None),
        ),
        WsCommand::Disconnect => None,
    }
}

fn command_text(kind: &str, lobby_id: &str, time: Option<u64>) -> (r: String)
    ensures
        r@ == command_json(kind@, lobby_id@, time),
{
    let mut r = owned_str("{\"type\":");
    push_str(&mut r, json_quote(kind).as_str());
    push_str(&mut r, ",\"lobby_id\":");
    push_str(&mut r, json_quote(lobby_id).as_str());
    match time {
        Some(t) => {
            push_str(&mut r, ",\"finishing_time_ms\":");
            push_str(&mut r, dec_u64(t).as_str());
        },
        None => {},
    }
    push_str(&mut r, "}");
    r
}

impl WsCommand {
    /// Serialises the command for sending; `None` for `Disconnect`.
    pub fn to_json(&self) -> (r: Option<String>)
        ensures
            match spec_to_json(*self) {
                Some(j) => r is Some && r->0@ == j,
                None => r is None,
            },
    {
        match self {
            WsCommand::StreamReady { lobby_id } => Some(
                command_text(MSG_TYPE_STREAM_READY, lobby_id.as_str(), None),
            ),
            WsCommand::StreamStopped { lobby_id } => Some(
                command_text(MSG_TYPE_STREAM_STOPPED, lobby_id.as_str(), None),
            ),
            WsCommand::PlayerFinished { lobby_id, finishing_time_ms } => Some(
                command_text(MSG_TYPE_PLAYER_FINISHED, lobby_id.as_str(), Some(*finishing_time_ms)),
            ),
            WsCommand::PlayerForfeited { lobby_id } => Some(
                command_text(MSG_TYPE_PLAYER_FORFEITED, lobby_id.as_str(), None),
            ),
            WsCommand::Disconnect => None,
        }
    }
}

/// Close code of an authentication rejection.
pub const CLOSE_AUTH_INVALID: u16 = 4001;

/// Close code of a banned account.
pub const CLOSE_BANNED: u16 = 4003;

/// The server's verdict on the authentication message.
#[derive(Debug, Clone, Copy, PartialEq, Eq, Structural)]
pub enum AuthOutcome {
    Accepted,
    Invalid,
    Banned,
    Transient,
}

/// A frame received while waiting for the authentication verdict.
#[derive(Debug, Clone, Copy, PartialEq, Eq, Structural)]
pub enum AuthFrame {
    /// Any text message: the server accepted the token.
    Text,
    /// The server closed, with the close code when it sent a frame.
    Close(Option<u16>),
    /// Ping, pong or binary before the verdict.
    Other,
    /// Receive error or end of stream.
    Ended,
}

/// The verdict a frame gives, or `None` to keep reading.
pub open spec fn spec_auth_verdict(f: AuthFrame) -> Option<AuthOutcome> {
    match f {
        AuthFrame::Text => Some(AuthOutcome::Accepted),
        AuthFrame::Close(code) => {
            let c: u16 = match code {
                Some(c) => c,
                None => 0,
            };
            if c == CLOSE_AUTH_INVALID {
                Some(AuthOutcome::Invalid)
            } else if c == CLOSE_BANNED {
                Some(AuthOutcome::Banned)
            } else {
                Some(AuthOutcome::Transient)
            }
        },
        AuthFrame::Other => None,
        AuthFrame::Ended => Some(AuthOutcome::Transient),
    }
}

/// Reads one frame of the authentication exchange.
pub fn auth_verdict(f: AuthFrame) -> (r: Option<AuthOutcome>)
    ensures
        r == spec_auth_verdict(f),
{
    match f {
        AuthFrame::Text => Some(AuthOutcome::Accepted),
        AuthFrame::Close(code) => {
            let c: u16 = match code {
                Some(c) => c,
                None => 0,
            };
            if c == CLOSE_AUTH_INVALID {
                Some(AuthOutcome::Invalid)
            } else if c == CLOSE_BANNED {
                Some(AuthOutcome::Banned)
            } else {
                Some(AuthOutcome::Transient)
            }
        },
        AuthFrame::Other => None,
        AuthFrame::Ended => Some(AuthOutcome::Transient),
    }
}

/// The authentication message; the token is inserted as it is.
pub open spec fn spec_auth_message(token: Seq<char>) -> Seq<char> {
    "{\"type\":\"auth\",\"token\":\""@ + token + "\"}"@
}

/// Builds the authentication message sent right after connecting.
pub fn auth_message(token: &str) -> (r: String)
    ensures
        r@ == spec_auth_message(token@),
{
    let mut r = owned_str("{\"type\":\"auth\",\"token\":\"");
    push_str(&mut r, token);
    push_str(&mut r, "\"}");
    r
}

/// Connection state shown to the UI.
#[derive(Debug, Clone, Copy, PartialEq, Eq, Structural)]
pub enum WsStatus {
    Connecting,
    Connected,
    Disconnected,
}

/// Doubling backoff with a ceiling.
pub open spec fn doubled(secs: nat, max_secs: nat) -> nat {
    if 2 * secs <= max_secs {
        2 * secs
    } else {
        max_secs
    }
}

/// The reconnect loop's memory: the next delay and the transient failures
/// in a row.
#[derive(Debug, Clone, Copy, PartialEq, Eq, Structural)]
pub struct Reconnect {
    pub backoff_secs: u64,
    pub transient_failures: u32,
}

/// What the reconnect loop does after an attempt.
#[derive(Debug, Clone, Copy, PartialEq, Eq, Structural)]
pub enum ReconnectStep {
    /// Sleep this long, then connect again.
    Retry { after_secs: u64 },
    /// Connect again at once (a refreshed token).
    RetryNow,
    /// Leave the loop, showing `phase` when there is one to show.
    Stop { phase: Option<AppState> },
}

/// The outcome of one connect-and-authenticate attempt.
#[derive(Debug, Clone, Copy, PartialEq, Eq, Structural)]
pub enum Attempt {
    /// Authenticated; the connection was served until it dropped.
    Served,
    /// Rejected token; `refreshed` tells whether a refresh succeeded.
    Invalid { refreshed: bool },
    Banned,
    Transient,
}

/// The reconnect rules: after a served connection, wait the current delay
/// and double it; a refreshed token retries at once from the base delay;
/// a ban or a failed refresh ends the loop; transient failures wait and
/// double until `max_retries` in a row.
pub open spec fn spec_after(r: Reconnect, a: Attempt, base: u64, max_secs: u64, max_retries: u32) -> (
    Reconnect,
    ReconnectStep,
) {
    match a {
        Attempt::Served => (
            Reconnect {
                backoff_secs: doubled(base as nat, max_secs as nat) as u64,
                transient_failures: 0,
            },
            ReconnectStep::Retry { after_secs: base },
        ),
        Attempt::Invalid { refreshed } => if refreshed {
            (Reconnect { backoff_secs: base, ..r }, ReconnectStep::RetryNow)
        } else {
            (r, ReconnectStep::Stop { phase: None })
        },
        Attempt::Banned => (r, ReconnectStep::Stop { phase: Some(AppState::Banned) }),
        Attempt::Transient => {
            let failures = (r.transient_failures + 1) as u32;
            if failures >= max_retries {
                (
                    Reconnect { transient_failures: failures, ..r },
                    ReconnectStep::Stop { phase: Some(AppState::ServerUnavailable) },
                )
            } else {
                (
                    Reconnect {
                        backoff_secs: doubled(r.backoff_secs as nat, max_secs as nat) as u64,
                        transient_failures: failures,
                    },
                    ReconnectStep::Retry { after_secs: r.backoff_secs },
                )
            }
        },
    }
}

fn double_capped(secs: u64, max_secs: u64) -> (r: u64)
    ensures
        r == doubled(secs as nat, max_secs as nat),
{
    if secs <= max_secs / 2 {
        2 * secs
    } else {
        max_secs
    }
}

impl Reconnect {
    /// The state at the start of the loop.
    pub fn new(base_secs: u64) -> (r: Self)
        ensures
            r == (Reconnect { backoff_secs: base_secs, transient_failures: 0 }),
    {
        Reconnect { backoff_secs: base_secs, transient_failures: 0 }
    }

    /// Records an attempt and says what comes next.
    pub fn after(&mut self, a: Attempt, base_secs: u64, max_secs: u64, max_retries: u32) -> (r:
        ReconnectStep)
        requires
            a is Transient ==> old(self).transient_failures < u32::MAX,
        ensures
            (*final(self), r) == spec_after(*old(self), a, base_secs, max_secs, max_retries),
    {
        match a {
            Attempt::Served => {
                self.transient_failures = 0;
                self.backoff_secs = double_capped(base_secs, max_secs);
                ReconnectStep::Retry { after_secs: base_secs }
            },
            Attempt::Invalid { refreshed } => {
                if refreshed {
                    self.backoff_secs = base_secs;
                    ReconnectStep::RetryNow
                } else {
                    ReconnectStep::Stop { phase: None }
                }
            },
            Attempt::Banned => ReconnectStep::Stop { phase: Some(AppState::Banned) },
            Attempt::Transient => {
                let failures = self.transient_failures + 1;
                self.transient_failures = failures;
                if failures >= max_retries {
                    ReconnectStep::Stop { phase: Some(AppState::ServerUnavailable) }
                } else {
                    let wait = self.backoff_secs;
                    self.backoff_secs = double_capped(wait, max_secs);
                    ReconnectStep::Retry { after_secs: wait }
                }
            },
        }
    }
}

/// The phase the client shows after a one-off reconnect attempt that did
/// not connect: a ban, or the server unreachable; `None` when the attempt
/// connected or the token was rejected.
pub fn retry_once_phase(a: Attempt) -> (r: Option<AppState>)
    ensures
        r == match a {
            Attempt::Banned => Some(AppState::Banned),
            Attempt::Transient => Some(AppState::ServerUnavailable),
            _ => None,
        },
{
    match a {
        Attempt::Banned => Some(AppState::Banned),
        Attempt::Transient => Some(AppState::ServerUnavailable),
        _ => None,
    }
}

/// The `max_retries`-th transient failure in a row ends the loop and marks
/// the server unavailable.
pub proof fn law_transient_failures_are_bounded(
    r: Reconnect,
    base: u64,
    max_secs: u64,
    max_retries: u32,
)
    requires
        r.transient_failures < u32::MAX,
        r.transient_failures + 1 >= max_retries,
    ensures
        spec_after(r, Attempt::Transient, base, max_secs, max_retries).1 == (ReconnectStep::Stop {
            phase: Some(AppState::ServerUnavailable),
        }),
{
}

/// The backoff never exceeds its ceiling once it is within it.
pub proof fn law_backoff_capped(r: Reconnect, a: Attempt, base: u64, max_secs: u64, max_retries: u32)
    requires
        r.backoff_secs <= max_secs,
        base <= max_secs,
    ensures
        spec_after(r, a, base, max_secs, max_retries).0.backoff_secs <= max_secs,
{
}

} // verus!
