//! Decision and formatting logic of the Momentum race client: ffmpeg
//! argument construction, encoder fallback, progress parsing, replay
//! bookkeeping, overlay text, and the lobby/autosplit state rules.
pub mod text;
pub mod types;
pub mod pipeline;
pub mod progress;
pub mod encoder;
pub mod app_state;
pub mod supervise;
pub mod gamecapture;
pub mod replay;
pub mod naming;
pub mod overlay;
pub mod ws;
pub mod lobby;
pub mod upload;
pub mod frame;
pub mod capture;
pub mod preview;
pub mod stream;
pub mod recording;
pub mod assemble;
