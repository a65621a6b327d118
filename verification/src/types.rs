//! The stream's shared data types: states and payloads, capture sources,
//! settings, and the video encoders with their names.
use crate::text::{from_chars, str_eq, to_chars, trim, trim_bounds};
use vstd::prelude::*;

verus! {

/// Lifecycle of the outgoing stream, as reported to the UI.
#[derive(Debug, Clone, Copy, PartialEq, Eq, Structural)]
pub enum StreamState {
    Connecting,
    Live,
    Reconnecting,
    Error,
    Stopped,
}

/// "stream:status" event payload.
#[derive(Debug, Clone)]
pub struct StreamStatusPayload {
    pub state: StreamState,
    pub message: Option<String>,
}

/// What is captured: a monitor by its output index, or a window.
#[derive(Debug, Clone, PartialEq)]
pub enum CaptureSource {
    Monitor { index: u32 },
    Window { hwnd: u64, title: String },
}

/// User-facing stream settings.
#[derive(Debug, Clone)]
pub struct StreamSettings {
    pub source: CaptureSource,
    pub bitrate_kbps: u32,
    pub framerate: u32,
    pub resolution: u32,
}

/// Everything the stream supervisor needs to launch ffmpeg.
pub struct LaunchSpec {
    pub ffmpeg_path: String,
    pub whip_url: String,
    pub settings: StreamSettings,
    pub replay_base: Option<String>,
    pub encoder: Encoder,
}

/// A capturable top-level window.
#[derive(Debug, Clone)]
pub struct WindowInfo {
    pub hwnd: u64,
    pub title: String,
    pub process_name: String,
}

/// A monitor output of the first DXGI adapter that has outputs.
#[derive(Debug, Clone)]
pub struct MonitorInfo {
    pub index: u32,
    pub width: u32,
    pub height: u32,
    pub primary: bool,
    pub device_name: String,
}

/// The H.264 encoders the pipeline can drive.
#[derive(Debug, Clone, Copy, PartialEq, Eq, Hash, Structural)]
pub enum Encoder {
    X264,
    Nvenc,
    Amf,
}

/// Where the stream's audio comes from.
pub enum AudioSource {
    /// Loopback PCM (f32le, 48 kHz stereo) served on a named pipe.
    Pipe(String),
    /// Fallback when loopback capture is unavailable.
    Silent,
}

/// The ffmpeg encoder name of `e`.
pub open spec fn encoder_name(e: Encoder) -> Seq<char> {
    match e {
        Encoder::X264 => "libx264"@,
        Encoder::Nvenc => "h264_nvenc"@,
        Encoder::Amf => "h264_amf"@,
    }
}

/// The short name of `e` (as typed in the settings).
pub open spec fn encoder_short_name(e: Encoder) -> Seq<char> {
    match e {
        Encoder::X264 => "x264"@,
        Encoder::Nvenc => "nvenc"@,
        Encoder::Amf => "amf"@,
    }
}

/// The encoder a settings string names, by either of its names after
/// trimming; `None` means "auto".
pub open spec fn parse_encoder(s: Seq<char>) -> Option<Encoder> {
    let t = trim(s);
    if t == encoder_name(Encoder::X264) || t == encoder_short_name(Encoder::X264) {
        Some(Encoder::X264)
    } else if t == encoder_name(Encoder::Nvenc) || t == encoder_short_name(Encoder::Nvenc) {
        Some(Encoder::Nvenc)
    } else if t == encoder_name(Encoder::Amf) || t == encoder_short_name(Encoder::Amf) {
        Some(Encoder::Amf)
    } else {
        None
    }
}

/// Each encoder's ffmpeg name and short name read back as that encoder.
pub proof fn law_encoder_names_round_trip(e: Encoder)
    ensures
        parse_encoder(encoder_name(e)) == Some(e),
        parse_encoder(encoder_short_name(e)) == Some(e),
{
    reveal_strlit("libx264");
    reveal_strlit("x264");
    reveal_strlit("h264_nvenc");
    reveal_strlit("nvenc");
    reveal_strlit("h264_amf");
    reveal_strlit("amf");
    let n = encoder_name(e);
    let m = encoder_short_name(e);
    assert(!crate::text::is_ws(n[0]) && !crate::text::is_ws(n.last()));
    assert(!crate::text::is_ws(m[0]) && !crate::text::is_ws(m.last()));
    assert(trim(n) == n);
    assert(trim(m) == m);
}

impl Encoder {
    /// Every encoder, software first.
    pub const ALL: [Encoder; 3] = [Encoder::X264, Encoder::Nvenc, Encoder::Amf];

    fn names(self) -> (r: (&'static str, &'static str))
        ensures
            r.0@ == encoder_name(self),
            r.1@ == encoder_short_name(self),
    {
        match self {
            Encoder::X264 => ("libx264", "x264"),
            Encoder::Nvenc => ("h264_nvenc", "nvenc"),
            Encoder::Amf => ("h264_amf", "amf"),
        }
    }

    /// The ffmpeg encoder name (`-c:v` value).
    pub fn name(self) -> (r: &'static str)
        ensures
            r@ == encoder_name(self),
    {
        self.names().0
    }

    /// Reads a settings string; `None` is "auto".
    pub fn parse(s: &str) -> (r: Option<Self>)
        ensures
            r == parse_encoder(s@),
    {
        let v = to_chars(s);
        let (b, e) = trim_bounds(v.as_slice());
        let t = from_chars(v.as_slice(), b, e);
        let all: [Encoder; 3] = [Encoder::X264, Encoder::Nvenc, Encoder::Amf];
        let mut i: usize = 0;
        while i < 3
            invariant
                0 <= i <= 3,
                t@ == trim(s@),
                all@ == seq![Encoder::X264, Encoder::Nvenc, Encoder::Amf],
                forall|j: int|
                    0 <= j < i ==> t@ != encoder_name(#[trigger] all@[j]) && t@
                        != encoder_short_name(all@[j]),
            decreases 3 - i,
        {
            let enc = all[i];
            let (a, b2) = enc.names();
            if str_eq(a, t.as_str()) || str_eq(b2, t.as_str()) {
                return Some(enc);
            }
            i = i + 1;
        }
        assert(t@ != encoder_name(all@[0]) && t@ != encoder_short_name(all@[0]));
        assert(t@ != encoder_name(all@[1]) && t@ != encoder_short_name(all@[1]));
        assert(t@ != encoder_name(all@[2]) && t@ != encoder_short_name(all@[2]));
        None
    }
}

} // verus!
