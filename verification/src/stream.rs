//! Starting and describing the outgoing stream: when it may start, which
//! source it captures, and the settings it runs with.
use crate::app_state::AppState;
use crate::text::owned_str;
use crate::types::{CaptureSource, StreamSettings};
use crate::ws::LobbySetup;
use vstd::prelude::*;

verus! {

/// A running stream as the commands see it.
pub trait StreamHandle {
    /// Whether the stream is live.
    fn is_live(&self) -> bool;

    /// Asks the stream to stop.
    fn stop(&self);
}

/// Why a stream cannot start, in the order the checks run.
pub open spec fn spec_start_error(app_state: AppState, stream_running: bool, lobby: Option<
    LobbySetup,
>) -> Option<Seq<char>> {
    if app_state != AppState::StreamSetup {
        Some("stream can only start from StreamSetup"@)
    } else if stream_running {
        Some("stream already running"@)
    } else if lobby is None {
        Some("no active lobby"@)
    } else if lobby->0.whip_url@.len() == 0 {
        Some("lobby has no whip_url"@)
    } else {
        None
    }
}

/// Checks that a stream may start: only while setting up, not twice, and
/// with a lobby that has a WHIP endpoint.
pub fn start_gate(app_state: AppState, stream_running: bool, lobby: &Option<LobbySetup>) -> (r:
    Result<(), String>)
    ensures
        match spec_start_error(app_state, stream_running, *lobby) {
            Some(m) => r is Err && r->Err_0@ == m,
            None => r is Ok,
        },
{
    if app_state != AppState::StreamSetup {
        return Err(owned_str("stream can only start from StreamSetup"));
    }
    if stream_running {
        return Err(owned_str("stream already running"));
    }
    match lobby {
        None => Err(owned_str("no active lobby")),
        Some(l) => {
            if l.whip_url.as_str().unicode_len() == 0 {
                Err(owned_str("lobby has no whip_url"))
            } else {
                Ok(())
            }
        },
    }
}

/// The source to capture: the one chosen for this session, else the saved
/// monitor.
pub fn current_source(session: Option<CaptureSource>, saved_monitor: u32) -> (r: CaptureSource)
    ensures
        r == match session {
            Some(s) => s,
            None => CaptureSource::Monitor { index: saved_monitor },
        },
{
    match session {
        Some(s) => s,
        None => CaptureSource::Monitor { index: saved_monitor },
    }
}

/// The stream's settings: the session's source (else the saved monitor)
/// with the saved bitrate, frame rate and resolution.
pub fn stream_settings(
    session: Option<CaptureSource>,
    saved_monitor: u32,
    bitrate_kbps: u32,
    framerate: u32,
    resolution: u32,
) -> (r: StreamSettings)
    ensures
        r.source == match session {
            Some(s) => s,
            None => CaptureSource::Monitor { index: saved_monitor },
        },
        r.bitrate_kbps == bitrate_kbps,
        r.framerate == framerate,
        r.resolution == resolution,
{
    StreamSettings {
        source: current_source(session, saved_monitor),
        bitrate_kbps,
        framerate,
        resolution,
    }
}

/// Whether the window of the game an autosplitter attached to becomes the
/// capture source: never while the stream runs, nor when it already is.
pub fn should_auto_select(stream_running: bool, current: &Option<CaptureSource>, hwnd: u64) -> (r:
    bool)
    ensures
        r == (!stream_running && !(*current matches Some(CaptureSource::Window { hwnd: h, .. })
            && h == hwnd)),
{
    if stream_running {
        return false;
    }
    match current {
        Some(CaptureSource::Window { hwnd: h, .. }) => *h != hwnd,
        _ => true,
    }
}

} // verus!
