//! The client's top-level phase.
use vstd::prelude::*;

verus! {

/// Where the client stands between login, lobby and race.
#[derive(Debug, Clone, Copy, PartialEq, Eq, Structural)]
pub enum AppState {
    Unauthenticated,
    Connecting,
    Idle,
    StreamSetup,
    WaitingForStart,
    RaceInProgress,
    Finished,
    Banned,
    ServerUnavailable,
}

} // verus!
